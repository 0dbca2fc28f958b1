use sysmon::engine::{
    config_outcome, panel_from_registry, registry_keys, registry_read_of, render_key, render_outcome,
    RegistryRead,
};
use sysmon::widgets::RenderOutcome;

fn rendered(text: &str, color: &str) -> RenderOutcome {
    RenderOutcome::Rendered { text: text.to_string(), color: color.to_string() }
}

#[test]
fn registry_lives_at_package_loaded_sysmon_widgets() {
    assert_eq!(registry_keys(), vec!["package", "loaded", "sysmon", "_widgets"]);
    assert_eq!(render_key(), "render");
}

#[test]
fn config_outcome_keeps_the_error_text() {
    assert!(config_outcome(Ok(())).is_ok());
    let err = config_outcome(Err("bad chunk".to_string())).err().unwrap();
    assert_eq!(err.message, "bad chunk");
}

#[test]
fn render_outcome_of_each_case() {
    assert!(matches!(render_outcome(Err("no function".to_string())), RenderOutcome::Missing));
    match render_outcome(Ok(Ok(("t".to_string(), "c".to_string())))) {
        RenderOutcome::Rendered { text, color } => {
            assert_eq!(text, "t");
            assert_eq!(color, "c");
        }
        _ => panic!("rendered expected"),
    }
    match render_outcome(Ok(Err("oops".to_string()))) {
        RenderOutcome::Failed { message } => assert_eq!(message, "oops"),
        _ => panic!("failure expected"),
    }
}

#[test]
fn panel_without_module_is_empty() {
    assert!(panel_from_registry(RegistryRead::NoModule).unwrap().is_empty());
}

#[test]
fn unreadable_registry_is_an_error() {
    let err = panel_from_registry(RegistryRead::Unreadable { message: "no _widgets".to_string() })
        .err()
        .unwrap();
    assert_eq!(err.message, "no _widgets");
}

#[test]
fn panel_has_one_row_per_entry_sorted() {
    let ws = panel_from_registry(RegistryRead::Entries(vec![
        Ok(("mem".to_string(), rendered("1", "green"))),
        Ok(("cpu".to_string(), RenderOutcome::Missing)),
    ]))
    .unwrap();
    let rows: Vec<(String, String, String)> =
        ws.into_iter().map(|w| (w.name, w.text, w.color)).collect();
    assert_eq!(
        rows,
        vec![
            ("cpu".to_string(), "Widget 'cpu' has no render function".to_string(), "yellow".to_string()),
            ("mem".to_string(), "1".to_string(), "green".to_string()),
        ]
    );
}

#[test]
fn first_failed_entry_is_the_error() {
    let err = panel_from_registry(RegistryRead::Entries(vec![
        Ok(("mem".to_string(), rendered("1", "green"))),
        Err("bad key".to_string()),
        Err("later".to_string()),
    ]))
    .err()
    .unwrap();
    assert_eq!(err.message, "bad key");
}

#[test]
fn missing_module_means_an_empty_panel() {
    let read = registry_read_of(Some((2, "sysmon is nil".to_string())), Vec::new());
    assert!(matches!(read, RegistryRead::NoModule));
    assert!(panel_from_registry(read).unwrap().is_empty());
}

#[test]
fn other_failed_lookups_are_errors() {
    for at in [0usize, 1, 3] {
        match registry_read_of(Some((at, "not a table".to_string())), Vec::new()) {
            RegistryRead::Unreadable { message } => assert_eq!(message, "not a table"),
            _ => panic!("unreadable expected at {}", at),
        }
    }
    let err = panel_from_registry(registry_read_of(Some((3, "_widgets is nil".to_string())), Vec::new()))
        .err()
        .unwrap();
    assert_eq!(err.message, "_widgets is nil");
}

#[test]
fn read_registry_keeps_the_walk() {
    let read = registry_read_of(None, vec![Ok(("cpu".to_string(), RenderOutcome::Missing))]);
    match read {
        RegistryRead::Entries(items) => {
            assert_eq!(items.len(), 1);
            assert_eq!(items[0].as_ref().unwrap().0, "cpu");
        }
        _ => panic!("entries expected"),
    }
}
