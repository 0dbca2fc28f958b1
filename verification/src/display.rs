//! What the monitor's screen shows around the widget rows, and how it
//! answers the keyboard.
use vstd::prelude::*;
use vstd::string::*;
use crate::bar::repeated;
use crate::widgets::WidgetInfo;

verus! {

/// The width, in characters, that widget names are padded to.
pub const NAME_COLUMN_WIDTH: usize = 18;

/// The label that opens a widget's line: a space, the name padded with
/// spaces to 18 characters, and a column separator.
pub open spec fn label_text(name: Seq<char>) -> Seq<char> {
    let pad: nat = if name.len() < 18 { (18 - name.len()) as nat } else { 0 };
    " "@ + name + repeated(' ', pad) + " │ "@
}

/// A label is as wide as a name of 18 characters would make it, or wider
/// by what the name exceeds them: the name column lines up for every name
/// of at most 18 characters.
pub proof fn lemma_label_width(name: Seq<char>)
    ensures
        label_text(name).len() == 4 + if name.len() < 18 { 18 } else { name.len() as int },
{
    reveal_strlit(" ");
    reveal_strlit(" │ ");
}

/// A label is laid out left-aligned: a space, the name, spaces up to 18
/// characters, then the separator.
pub proof fn lemma_label_layout(name: Seq<char>)
    ensures
        ({
            let n = name.len() as int;
            let pad = if n < 18 { 18 - n } else { 0 };
            let label = label_text(name);
            &&& label.len() == n + pad + 4
            &&& label[0] == ' '
            &&& label.subrange(1, 1 + n) == name
            &&& forall|j: int| 1 + n <= j < 1 + n + pad ==> #[trigger] label[j] == ' '
            &&& label.subrange(1 + n + pad, n + pad + 4) == " │ "@
        }),
{
    reveal_strlit(" ");
    reveal_strlit(" │ ");
    let n = name.len() as int;
    let pad = if n < 18 { 18 - n } else { 0 };
    let label = label_text(name);
    assert(label.subrange(1, 1 + n) =~= name);
    assert(label.subrange(1 + n + pad, n + pad + 4) =~= " │ "@);
}

/// The label that opens the line of the widget named `name`, as
/// `format!(" {: <18} │ ", name)` writes it.
pub fn widget_label(name: &str) -> (label: String)
    ensures
        label@ == label_text(name@),
        ({
            let n = name@.len() as int;
            let pad = if n < 18 { 18 - n } else { 0 };
            &&& label@.len() == n + pad + 4
            &&& label@[0] == ' '
            &&& label@.subrange(1, 1 + n) == name@
            &&& forall|j: int| 1 + n <= j < 1 + n + pad ==> #[trigger] label@[j] == ' '
            &&& label@.subrange(1 + n + pad, n + pad + 4) == " │ "@
        }),
{
    let len = name.unicode_len();
    let mut label = String::from_str(" ");
    label.append(name);
    let ghost start = label@;
    let mut i: usize = len;
    proof {
        reveal_strlit(" ");
    }
    while i < NAME_COLUMN_WIDTH
        invariant
            len == name@.len(),
            len <= i <= NAME_COLUMN_WIDTH || (len > NAME_COLUMN_WIDTH && i == len),
            label@ == start + repeated(' ', (i - len) as nat),
        decreases NAME_COLUMN_WIDTH - i,
    {
        proof {
            reveal_strlit(" ");
        }
        label.append(" ");
        i = i + 1;
        assert(label@ =~= start + repeated(' ', (i - len) as nat));
    }
    label.append(" │ ");
    assert(label@ =~= label_text(name@));
    proof {
        lemma_label_layout(name@);
    }
    label
}

/// The row shown in place of the widgets when the engine reports an error.
pub fn engine_error_widget(message: &str) -> (w: WidgetInfo)
    ensures
        w.name@ == "Error"@,
        w.text@ == "Engine Error: "@ + message@,
        w.color@ == "red"@,
{
    let mut text = String::from_str("Engine Error: ");
    text.append(message);
    WidgetInfo { name: String::from_str("Error"), text, color: String::from_str("red") }
}

/// The title of the header that shows the time of day `time`.
pub fn clock_title(time: &str) -> (title: String)
    ensures
        title@ == " 🕒 "@ + time@ + " "@,
{
    let mut title = String::from_str(" 🕒 ");
    title.append(time);
    title.append(" ");
    title
}

/// How long, in nanoseconds, the notice that the configuration was
/// reloaded stays on screen.
pub const RELOAD_NOTICE_NANOS: u128 = 2_000_000_000;

/// Whether the reload notice shows, `since_reload` nanoseconds after the
/// last successful reload, if there was one.
pub fn reload_notice_visible(since_reload: Option<u128>) -> (visible: bool)
    ensures
        visible == match since_reload {
            Some(t) => t < RELOAD_NOTICE_NANOS,
            None => false,
        },
        visible <==> (since_reload matches Some(t) && t < 2_000_000_000),
{
    match since_reload {
        Some(t) => t < RELOAD_NOTICE_NANOS,
        None => false,
    }
}

/// The footer text, with the reload notice when it shows.
pub fn footer_text(notice: bool) -> (footer: String)
    ensures
        footer@ == " Press [q] to Quit | Press [r] to Reload"@ + (if notice {
            "  [ CONFIG RELOADED! ]"@
        } else {
            ""@
        }),
{
    let mut footer = String::from_str(" Press [q] to Quit | Press [r] to Reload");
    if notice {
        footer.append("  [ CONFIG RELOADED! ]");
    } else {
        proof {
            reveal_strlit("");
        }
        assert(footer@ =~= footer@ + ""@);
    }
    footer
}

/// What a key press asks of the monitor.
#[derive(Clone, Copy, Debug, PartialEq, Eq, Structural)]
pub enum KeyAction {
    Quit,
    Reload,
    Ignore,
}

/// What pressing the character key `key` asks for: `q` quits, `r` reloads
/// the configuration, any other key, and any key that is not a character,
/// does nothing.
pub fn key_action(key: Option<char>) -> (action: KeyAction)
    ensures
        action == match key {
            Some('q') => KeyAction::Quit,
            Some('r') => KeyAction::Reload,
            _ => KeyAction::Ignore,
        },
{
    match key {
        Some('q') => KeyAction::Quit,
        Some('r') => KeyAction::Reload,
        _ => KeyAction::Ignore,
    }
}

/// How long to wait for a key before the next tick, `elapsed` nanoseconds
/// after the last one, ticks being `tick` nanoseconds apart: what is left of
/// the tick, or nothing once it has passed.
pub fn key_wait(tick: u128, elapsed: u128) -> (wait: u128)
    ensures
        wait == if elapsed <= tick { tick - elapsed } else { 0 },
{
    if elapsed <= tick {
        tick - elapsed
    } else {
        0
    }
}

} // verus!
