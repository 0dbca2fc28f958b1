use sysmon::widgets::{
    assemble_widgets, sort_widgets_by_name, widget_from_outcome, RenderOutcome, WidgetInfo,
};

fn row(name: &str, text: &str, color: &str) -> WidgetInfo {
    WidgetInfo { name: name.to_string(), text: text.to_string(), color: color.to_string() }
}

fn triples(ws: &[WidgetInfo]) -> Vec<(String, String, String)> {
    ws.iter().map(|w| (w.name.clone(), w.text.clone(), w.color.clone())).collect()
}

#[test]
fn rendered_widget_keeps_its_text_and_color() {
    let w = widget_from_outcome(
        "cpu".to_string(),
        RenderOutcome::Rendered { text: "42.0%".to_string(), color: "green".to_string() },
    );
    assert_eq!(w.name, "cpu");
    assert_eq!(w.text, "42.0%");
    assert_eq!(w.color, "green");
}

#[test]
fn failed_widget_shows_the_error_in_red() {
    let w = widget_from_outcome(
        "gpu".to_string(),
        RenderOutcome::Failed { message: "runtime error: boom".to_string() },
    );
    assert_eq!(w.name, "gpu");
    assert_eq!(w.text, "Lua Error: runtime error: boom");
    assert_eq!(w.color, "red");
}

#[test]
fn widget_without_render_function_is_flagged_in_yellow() {
    let w = widget_from_outcome("disk".to_string(), RenderOutcome::Missing);
    assert_eq!(w.name, "disk");
    assert_eq!(w.text, "Widget 'disk' has no render function");
    assert_eq!(w.color, "yellow");
}

#[test]
fn sort_orders_by_name() {
    let sorted = sort_widgets_by_name(vec![
        row("ram", "1", "white"),
        row("cpu", "2", "white"),
        row("disk", "3", "white"),
        row("Zeta", "4", "white"),
    ]);
    let names: Vec<String> = sorted.iter().map(|w| w.name.clone()).collect();
    assert_eq!(names, vec!["Zeta", "cpu", "disk", "ram"]);
}

#[test]
fn sort_is_stable_for_equal_names() {
    let sorted = sort_widgets_by_name(vec![
        row("b", "first b", "white"),
        row("a", "only a", "white"),
        row("b", "second b", "white"),
    ]);
    assert_eq!(
        triples(&sorted),
        triples(&[row("a", "only a", "white"), row("b", "first b", "white"), row("b", "second b", "white")])
    );
}

#[test]
fn sort_puts_prefix_first_and_orders_by_code_point() {
    let sorted = sort_widgets_by_name(vec![
        row("cpu2", "", ""),
        row("é", "", ""),
        row("cpu", "", ""),
        row("", "", ""),
    ]);
    let names: Vec<String> = sorted.iter().map(|w| w.name.clone()).collect();
    assert_eq!(names, vec!["", "cpu", "cpu2", "é"]);
}

#[test]
fn sort_of_nothing_is_nothing() {
    assert!(sort_widgets_by_name(Vec::new()).is_empty());
}

#[test]
fn assemble_builds_and_sorts_rows() {
    let ws = assemble_widgets(vec![
        ("net".to_string(), RenderOutcome::Missing),
        (
            "clock".to_string(),
            RenderOutcome::Rendered { text: "12:00".to_string(), color: "cyan".to_string() },
        ),
        ("bad".to_string(), RenderOutcome::Failed { message: "oops".to_string() }),
    ]);
    assert_eq!(
        triples(&ws),
        triples(&[
            row("bad", "Lua Error: oops", "red"),
            row("clock", "12:00", "cyan"),
            row("net", "Widget 'net' has no render function", "yellow"),
        ])
    );
}

#[test]
fn panel_does_not_depend_on_discovery_order() {
    let entries = |order: &[usize]| -> Vec<(String, RenderOutcome)> {
        let all = ["mem", "cpu", "up", "gpu"];
        order
            .iter()
            .map(|&i| {
                (
                    all[i].to_string(),
                    RenderOutcome::Rendered { text: format!("v{}", i), color: "white".to_string() },
                )
            })
            .collect()
    };
    let first = assemble_widgets(entries(&[0, 1, 2, 3]));
    let second = assemble_widgets(entries(&[3, 2, 1, 0]));
    let third = assemble_widgets(entries(&[2, 0, 3, 1]));
    assert_eq!(triples(&first), triples(&second));
    assert_eq!(triples(&first), triples(&third));
}

#[test]
fn sorting_twice_changes_nothing() {
    let once = sort_widgets_by_name(vec![
        row("b", "1", "red"),
        row("a", "2", "red"),
        row("b", "3", "blue"),
        row("c", "4", "red"),
    ]);
    let expected = triples(&once);
    let twice = sort_widgets_by_name(once);
    assert_eq!(triples(&twice), expected);
}
