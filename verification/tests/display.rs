use sysmon::display::{
    clock_title, engine_error_widget, footer_text, key_action, key_wait, reload_notice_visible,
    widget_label, KeyAction,
};

#[test]
fn label_pads_short_names() {
    assert_eq!(widget_label("cpu"), format!(" {: <18} │ ", "cpu"));
    assert_eq!(widget_label(""), format!(" {: <18} │ ", ""));
    assert_eq!(widget_label("mémoire"), format!(" {: <18} │ ", "mémoire"));
}

#[test]
fn label_keeps_long_names_whole() {
    let long = "a_widget_with_a_very_long_name";
    assert_eq!(widget_label(long), format!(" {} │ ", long));
    assert_eq!(widget_label("exactly_eighteen__"), " exactly_eighteen__ │ ");
}

#[test]
fn engine_error_row() {
    let w = engine_error_widget("bad table");
    assert_eq!(w.name, "Error");
    assert_eq!(w.text, "Engine Error: bad table");
    assert_eq!(w.color, "red");
}

#[test]
fn clock_title_surrounds_time() {
    assert_eq!(clock_title("09:41:00"), " 🕒 09:41:00 ");
}

#[test]
fn reload_notice_lasts_two_seconds() {
    assert!(reload_notice_visible(Some(0)));
    assert!(reload_notice_visible(Some(1_999_999_999)));
    assert!(!reload_notice_visible(Some(2_000_000_000)));
    assert!(!reload_notice_visible(None));
}

#[test]
fn footer_shows_notice_only_when_asked() {
    assert_eq!(footer_text(false), " Press [q] to Quit | Press [r] to Reload");
    assert_eq!(
        footer_text(true),
        " Press [q] to Quit | Press [r] to Reload  [ CONFIG RELOADED! ]"
    );
}

#[test]
fn keys_q_and_r_act() {
    assert_eq!(key_action(Some('q')), KeyAction::Quit);
    assert_eq!(key_action(Some('r')), KeyAction::Reload);
    assert_eq!(key_action(Some('Q')), KeyAction::Ignore);
    assert_eq!(key_action(None), KeyAction::Ignore);
}

#[test]
fn key_wait_is_what_is_left_of_the_tick() {
    assert_eq!(key_wait(250, 100), 150);
    assert_eq!(key_wait(250, 250), 0);
    assert_eq!(key_wait(250, 400), 0);
}
