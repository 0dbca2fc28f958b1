//! Usage bars drawn with block characters.
use vstd::prelude::*;
use vstd::string::*;

verus! {

/// The width of a bar when none is asked for.
pub const DEFAULT_BAR_WIDTH: usize = 20;

/// `n` copies of the character `c`.
pub open spec fn repeated(c: char, n: nat) -> Seq<char> {
    Seq::new(n, |_i: int| c)
}

/// A bar with `filled` filled cells followed by `empty` empty ones.
pub open spec fn bar_text(filled: nat, empty: nat) -> Seq<char> {
    repeated('█', filled) + repeated('░', empty)
}

/// A bar with `filled` of its `width` cells filled is `width` characters
/// long.
pub proof fn lemma_bar_width(filled: nat, width: nat)
    requires
        filled <= width,
    ensures
        bar_text(filled, (width - filled) as nat).len() == width,
{
}

/// The cells of a bar: its first `filled` cells are filled, the rest empty.
pub proof fn lemma_bar_cells(filled: nat, width: nat)
    requires
        filled <= width,
    ensures
        forall|i: int|
            0 <= i < width ==> #[trigger] bar_text(filled, (width - filled) as nat)[i] == if i
                < filled {
                '█'
            } else {
                '░'
            },
{
}

/// The width of a bar: the one asked for, 20 when none is.
pub fn bar_width(width: Option<usize>) -> (w: usize)
    ensures
        w == match width {
            Some(w) => w,
            None => DEFAULT_BAR_WIDTH,
        },
        width is None ==> w == 20,
{
    match width {
        Some(w) => w,
        None => DEFAULT_BAR_WIDTH,
    }
}

fn append_repeated(text: &mut String, piece: &str, count: usize)
    requires
        piece@.len() == 1,
    ensures
        final(text)@ == old(text)@ + repeated(piece@[0], count as nat),
{
    let ghost start = text@;
    let mut i: usize = 0;
    while i < count
        invariant
            i <= count,
            piece@.len() == 1,
            text@ == start + repeated(piece@[0], i as nat),
        decreases count - i,
    {
        text.append(piece);
        i = i + 1;
        assert(text@ =~= start + repeated(piece@[0], i as nat));
    }
}

/// A bar `width` cells wide whose first `filled` cells are filled, as
/// `sysmon.create_bar(percent, width)` draws it once the share of the width
/// that the percentage fills has been worked out.
pub fn create_bar(filled: usize, width: usize) -> (bar: String)
    requires
        filled <= width,
    ensures
        bar@ == bar_text(filled as nat, (width - filled) as nat),
        bar@.len() == width,
        forall|i: int| 0 <= i < width ==> #[trigger] bar@[i] == if i < filled {
            '█'
        } else {
            '░'
        },
{
    let empty = width - filled;
    let mut bar = String::new();
    proof {
        reveal_strlit("█");
        reveal_strlit("░");
    }
    append_repeated(&mut bar, "█", filled);
    append_repeated(&mut bar, "░", empty);
    assert(bar@ =~= bar_text(filled as nat, empty as nat));
    proof {
        lemma_bar_cells(filled as nat, width as nat);
    }
    bar
}

} // verus!
