//! Colour names that widgets may use.
use vstd::prelude::*;
use crate::text::str_eq;

verus! {

/// The colours a widget row can be shown in.
#[derive(Clone, Copy, Debug, PartialEq, Eq, Structural)]
pub enum ColorName {
    Black,
    Red,
    Green,
    Yellow,
    Blue,
    Magenta,
    Cyan,
    Gray,
    White,
    LightRed,
    LightGreen,
    LightYellow,
    LightBlue,
    LightMagenta,
    LightCyan,
}

/// The colour that a lowercase name stands for; any other name stands for
/// white.
pub open spec fn color_named(name: Seq<char>) -> ColorName {
    if name == "black"@ {
        ColorName::Black
    } else if name == "red"@ {
        ColorName::Red
    } else if name == "green"@ {
        ColorName::Green
    } else if name == "yellow"@ {
        ColorName::Yellow
    } else if name == "blue"@ {
        ColorName::Blue
    } else if name == "magenta"@ {
        ColorName::Magenta
    } else if name == "cyan"@ {
        ColorName::Cyan
    } else if name == "gray"@ {
        ColorName::Gray
    } else if name == "white"@ {
        ColorName::White
    } else if name == "light_red"@ {
        ColorName::LightRed
    } else if name == "light_green"@ {
        ColorName::LightGreen
    } else if name == "light_yellow"@ {
        ColorName::LightYellow
    } else if name == "light_blue"@ {
        ColorName::LightBlue
    } else if name == "light_magenta"@ {
        ColorName::LightMagenta
    } else if name == "light_cyan"@ {
        ColorName::LightCyan
    } else {
        ColorName::White
    }
}

/// Each of the fifteen colour names stands for its own colour.
#[verifier::rlimit(50)]
pub proof fn lemma_color_names()
    ensures
        color_named("black"@) == ColorName::Black,
        color_named("red"@) == ColorName::Red,
        color_named("green"@) == ColorName::Green,
        color_named("yellow"@) == ColorName::Yellow,
        color_named("blue"@) == ColorName::Blue,
        color_named("magenta"@) == ColorName::Magenta,
        color_named("cyan"@) == ColorName::Cyan,
        color_named("gray"@) == ColorName::Gray,
        color_named("white"@) == ColorName::White,
        color_named("light_red"@) == ColorName::LightRed,
        color_named("light_green"@) == ColorName::LightGreen,
        color_named("light_yellow"@) == ColorName::LightYellow,
        color_named("light_blue"@) == ColorName::LightBlue,
        color_named("light_magenta"@) == ColorName::LightMagenta,
        color_named("light_cyan"@) == ColorName::LightCyan,
{
    reveal_strlit("black");
    reveal_strlit("red");
    reveal_strlit("green");
    reveal_strlit("yellow");
    reveal_strlit("blue");
    reveal_strlit("magenta");
    reveal_strlit("cyan");
    reveal_strlit("gray");
    reveal_strlit("white");
    reveal_strlit("light_red");
    reveal_strlit("light_green");
    reveal_strlit("light_yellow");
    reveal_strlit("light_blue");
    reveal_strlit("light_magenta");
    reveal_strlit("light_cyan");
    assert("black"@.len() == 5);
    assert("red"@.len() == 3);
    assert("green"@.len() == 5);
    assert("yellow"@.len() == 6);
    assert("blue"@.len() == 4);
    assert("magenta"@.len() == 7);
    assert("cyan"@.len() == 4);
    assert("gray"@.len() == 4);
    assert("white"@.len() == 5);
    assert("light_red"@.len() == 9);
    assert("light_green"@.len() == 11);
    assert("light_yellow"@.len() == 12);
    assert("light_blue"@.len() == 10);
    assert("light_magenta"@.len() == 13);
    assert("light_cyan"@.len() == 10);
    assert forall|a: Seq<char>, b: Seq<char>|
        #![trigger a.len(), b.len()]
        a.len() != b.len() implies a != b by {}
    assert("green"@[0] != "black"@[0]);
    assert("cyan"@[0] != "blue"@[0]);
    assert("gray"@[0] != "blue"@[0]);
    assert("gray"@[0] != "cyan"@[0]);
    assert("white"@[0] != "black"@[0]);
    assert("white"@[0] != "green"@[0]);
    assert("light_cyan"@[6] != "light_blue"@[6]);
}

/// A name that is none of the fifteen colour names stands for white.
pub proof fn lemma_unknown_color_is_white(name: Seq<char>)
    requires
        name != "magenta"@,
        name != "light_magenta"@,
        name != "red"@,
        name != "light_red"@,
        name != "white"@,
        name != "blue"@,
        name != "light_blue"@,
        name != "black"@,
        name != "cyan"@,
        name != "light_cyan"@,
        name != "green"@,
        name != "light_green"@,
        name != "yellow"@,
        name != "light_yellow"@,
        name != "gray"@,
    ensures
        color_named(name) == ColorName::White,
{
}

/// What `str::to_lowercase` makes of a string.
pub uninterp spec fn unicode_lowercase(s: Seq<char>) -> Seq<char>;

/// A character with `A` through `Z` turned into `a` through `z`.
pub open spec fn ascii_lower_char(c: char) -> char {
    if 'A' <= c <= 'Z' {
        ((c as u32) + 32) as char
    } else {
        c
    }
}

/// A string with `A` through `Z` turned into `a` through `z`.
pub open spec fn ascii_lowercase(s: Seq<char>) -> Seq<char> {
    s.map_values(|c: char| ascii_lower_char(c))
}

/// Calls `str::to_lowercase`.  Its result is a function of the string
/// alone, named [`unicode_lowercase`].  Of a string of ASCII characters
/// alone, the Unicode lowercase mapping turns `A` through `Z` into `a`
/// through `z` and keeps every other character; beyond that, nothing is
/// claimed.
#[verifier::external_body]
fn to_lowercase(s: &str) -> (lower: String)
    ensures
        lower@ == unicode_lowercase(s@),
        vstd::utf8::is_ascii_chars(s@) ==> lower@ == ascii_lowercase(s@),
{
    s.to_lowercase()
}

/// The colour that a name already in lowercase stands for.
pub fn color_from_lowercase(name: &str) -> (color: ColorName)
    ensures
        color == color_named(name@),
{
    if str_eq(name, "black") {
        ColorName::Black
    } else if str_eq(name, "red") {
        ColorName::Red
    } else if str_eq(name, "green") {
        ColorName::Green
    } else if str_eq(name, "yellow") {
        ColorName::Yellow
    } else if str_eq(name, "blue") {
        ColorName::Blue
    } else if str_eq(name, "magenta") {
        ColorName::Magenta
    } else if str_eq(name, "cyan") {
        ColorName::Cyan
    } else if str_eq(name, "gray") {
        ColorName::Gray
    } else if str_eq(name, "white") {
        ColorName::White
    } else if str_eq(name, "light_red") {
        ColorName::LightRed
    } else if str_eq(name, "light_green") {
        ColorName::LightGreen
    } else if str_eq(name, "light_yellow") {
        ColorName::LightYellow
    } else if str_eq(name, "light_blue") {
        ColorName::LightBlue
    } else if str_eq(name, "light_magenta") {
        ColorName::LightMagenta
    } else if str_eq(name, "light_cyan") {
        ColorName::LightCyan
    } else {
        ColorName::White
    }
}

/// The colour a widget asked for by name, in any case: the name is
/// lowercased first, and a name that stands for no colour gives white.  A
/// name of ASCII characters alone is looked up with its letters `A` through
/// `Z` lowercased.
pub fn parse_color(name: &str) -> (color: ColorName)
    ensures
        color == color_named(unicode_lowercase(name@)),
        vstd::utf8::is_ascii_chars(name@) ==> color == color_named(ascii_lowercase(name@)),
{
    let lower = to_lowercase(name);
    color_from_lowercase(lower.as_str())
}

} // verus!
