use spark::session::{countdown_label, has_content, plan_frame, FrameAction, FramePlan, Keys, SparkApp};
use spark::storage::spark_body;

fn keys() -> Keys {
    Keys { escape: false, enter: false, command: false, shift: false, alt: false }
}

#[test]
fn new_editor_starts_with_a_bullet() {
    let app = SparkApp::new();
    assert_eq!(app.text, "* ");
    assert!(!app.focused_once);
    assert!(!has_content(&app.text));
    assert_eq!(spark_body(&app.text), None);
}

#[test]
fn first_focus_happens_once() {
    let mut app = SparkApp::new();
    assert_eq!(app.first_focus(), Some(2));
    assert!(app.focused_once);
    assert_eq!(app.first_focus(), None);
    let mut app = SparkApp { text: "é\u{3000}".to_string(), focused_once: false };
    assert_eq!(app.first_focus(), Some(2));
}

#[test]
fn idle_window_closes_without_saving() {
    let k = Keys { command: true, enter: true, ..keys() };
    assert_eq!(
        plan_frame(60, k),
        FramePlan { repaint_soon: false, action: FrameAction::CloseWithoutSaving }
    );
    assert_eq!(plan_frame(59, k), FramePlan { repaint_soon: true, action: FrameAction::SaveAndClose });
}

#[test]
fn escape_closes_without_saving() {
    let k = Keys { escape: true, command: true, enter: true, ..keys() };
    assert_eq!(plan_frame(0, k), FramePlan { repaint_soon: false, action: FrameAction::CloseWithoutSaving });
    assert_eq!(plan_frame(10, k), FramePlan { repaint_soon: true, action: FrameAction::CloseWithoutSaving });
}

#[test]
fn plain_enter_triggers_list_continuation() {
    let e = Keys { enter: true, ..keys() };
    assert_eq!(plan_frame(0, e).action, FrameAction::Edit { smart_enter: true });
    assert_eq!(plan_frame(0, Keys { shift: true, ..e }).action, FrameAction::Edit { smart_enter: false });
    assert_eq!(plan_frame(0, Keys { alt: true, ..e }).action, FrameAction::Edit { smart_enter: false });
    assert_eq!(plan_frame(0, keys()).action, FrameAction::Edit { smart_enter: false });
    assert_eq!(plan_frame(9, keys()).repaint_soon, false);
    assert_eq!(plan_frame(10, keys()).repaint_soon, true);
}

#[test]
fn countdown() {
    assert_eq!(countdown_label(0), None);
    assert_eq!(countdown_label(9), None);
    assert_eq!(countdown_label(10), Some("auto-close in 50s  \u{2022}".to_string()));
    assert_eq!(countdown_label(59), Some("auto-close in 1s  \u{2022}".to_string()));
}

#[test]
fn glow_exactly_when_worth_saving() {
    for s in ["", "* ", "*", "-", " - ", "* a", "**", "x", "\u{3000}*\u{3000}", "- \n- "] {
        assert_eq!(has_content(s), spark_body(s).is_some(), "{:?}", s);
    }
    assert!(has_content("- \n- "));
    assert!(!has_content(" * \n"));
}
