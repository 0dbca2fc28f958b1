use sysmon::bar::{bar_width, create_bar, DEFAULT_BAR_WIDTH};

fn bar(filled: usize, empty: usize) -> String {
    format!("{}{}", "█".repeat(filled), "░".repeat(empty))
}

#[test]
fn width_defaults_to_twenty() {
    assert_eq!(bar_width(None), 20);
    assert_eq!(DEFAULT_BAR_WIDTH, 20);
    assert_eq!(bar_width(Some(7)), 7);
    assert_eq!(bar_width(Some(0)), 0);
}

#[test]
fn bar_fills_the_first_cells() {
    assert_eq!(create_bar(10, 20), bar(10, 10));
    assert_eq!(create_bar(0, 20), bar(0, 20));
    assert_eq!(create_bar(8, 8), bar(8, 0));
    assert_eq!(create_bar(3, 5), "███░░");
}

#[test]
fn zero_width_bar_is_empty() {
    assert_eq!(create_bar(0, 0), "");
}

#[test]
fn bar_has_width_characters() {
    for filled in 0..=13 {
        assert_eq!(create_bar(filled, 13).chars().count(), 13);
    }
}
