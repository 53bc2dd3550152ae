use always_on_top::quick_look::{quick_look, quick_look_finished, WindowLevel};

#[test]
fn quick_look_lowers_the_window_and_shows_the_file() {
    let order = quick_look(Some("/pics/a.png")).unwrap();
    assert_eq!(order.path, "/pics/a.png");
    assert_eq!(order.level, WindowLevel::Normal);
}

#[test]
fn quick_look_needs_a_pinned_file() {
    assert!(quick_look(None).is_none());
}

#[test]
fn window_returns_to_the_top_afterwards() {
    assert_eq!(quick_look_finished(), WindowLevel::AlwaysOnTop);
}
