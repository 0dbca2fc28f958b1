use sysmon::color::{color_from_lowercase, parse_color, ColorName};

#[test]
fn every_color_name_is_known() {
    let names = [
        ("black", ColorName::Black),
        ("red", ColorName::Red),
        ("green", ColorName::Green),
        ("yellow", ColorName::Yellow),
        ("blue", ColorName::Blue),
        ("magenta", ColorName::Magenta),
        ("cyan", ColorName::Cyan),
        ("gray", ColorName::Gray),
        ("white", ColorName::White),
        ("light_red", ColorName::LightRed),
        ("light_green", ColorName::LightGreen),
        ("light_yellow", ColorName::LightYellow),
        ("light_blue", ColorName::LightBlue),
        ("light_magenta", ColorName::LightMagenta),
        ("light_cyan", ColorName::LightCyan),
    ];
    for (name, color) in names.iter() {
        assert_eq!(color_from_lowercase(name), *color);
        assert_eq!(parse_color(name), *color);
    }
}

#[test]
fn color_names_ignore_case() {
    assert_eq!(parse_color("RED"), ColorName::Red);
    assert_eq!(parse_color("Light_Blue"), ColorName::LightBlue);
    assert_eq!(parse_color("gReEn"), ColorName::Green);
}

#[test]
fn lowercase_lookup_does_not_fold_case() {
    assert_eq!(color_from_lowercase("RED"), ColorName::White);
}

#[test]
fn unknown_color_is_white() {
    assert_eq!(parse_color("orange"), ColorName::White);
    assert_eq!(parse_color(""), ColorName::White);
    assert_eq!(parse_color("light red"), ColorName::White);
}

#[test]
fn ascii_case_of_every_letter_is_ignored() {
    assert_eq!(parse_color("LIGHT_MAGENTA"), ColorName::LightMagenta);
    assert_eq!(parse_color("Black"), ColorName::Black);
    assert_eq!(parse_color("GRAY"), ColorName::Gray);
}
