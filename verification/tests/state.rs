use always_on_top::fit::{AspectRatio, Fraction};
use always_on_top::settings::{PersistedState, SettingsUpdate};
use always_on_top::state::{AppState, FitError, ResizeDecision, ResizeState, SelectionOutcome};

fn paths(list: &[&str]) -> Vec<String> {
    list.iter().map(|p| p.to_string()).collect()
}

fn fresh() -> AppState {
    AppState::new(PersistedState::default())
}

fn locked_with_ratio(label: &str, w: u32, h: u32) -> AppState {
    let mut s = fresh();
    s.set_settings(SettingsUpdate { aspect_lock: Some(true) });
    s.apply_selection(label, paths(&["a.png"]));
    s.apply_active_file(label, Some((w, h)));
    s
}

#[test]
fn mixed_selection_keeps_supported_files() {
    let mut s = fresh();
    let outcome = s.apply_selection("main", paths(&["a.png", "b.txt", "c.jpg"]));
    match outcome {
        SelectionOutcome::Selected { path } => assert_eq!(path, "a.png"),
        other => panic!("{:?}", other),
    }
    assert_eq!(s.selected_files("main"), Some(paths(&["a.png", "c.jpg"])));
    assert_eq!(s.active_index("main"), Some(0));
    let change = s.apply_active_file("main", Some((640, 480))).unwrap();
    assert_eq!(change.path, "a.png");
    assert_eq!(change.payload.path, Some("a.png".to_string()));
    assert_eq!(change.payload.index, Some(0));
    assert_eq!(change.payload.total, Some(2));
    let old = change.payload.legacy();
    assert_eq!(old.path, Some("a.png".to_string()));
    assert_eq!(old.index, None);
    assert_eq!(old.total, None);
}

#[test]
fn unsupported_selection_clears_the_window() {
    let mut s = fresh();
    s.apply_selection("main", paths(&["a.png"]));
    let outcome = s.apply_selection("main", paths(&["b.txt", "c.pdf"]));
    match outcome {
        SelectionOutcome::Cleared { notice } => {
            assert_eq!(notice.path, None);
            assert_eq!(notice.index, None);
            assert_eq!(notice.total, Some(0));
        }
        other => panic!("{:?}", other),
    }
    assert_eq!(s.selected_files("main"), None);
    assert_eq!(s.active_file_for_window("main"), None);
    assert!(s.apply_active_file("main", Some((1, 1))).is_none());
}

#[test]
fn empty_selection_clears_the_window() {
    let mut s = fresh();
    let outcome = s.apply_selection("main", Vec::new());
    match outcome {
        SelectionOutcome::Cleared { notice } => {
            assert_eq!(notice.path, None);
            assert_eq!(notice.total, Some(0));
        }
        other => panic!("{:?}", other),
    }
    assert_eq!(s.selected_files("main"), None);
}

#[test]
fn applying_the_active_file_updates_settings_and_title() {
    let mut s = fresh();
    s.apply_selection("main", paths(&["/pics/cat.png", "/pics/dog.png"]));
    let change = s.apply_active_file("main", Some((1000, 500))).unwrap();
    assert_eq!(change.title, Some("Float \u{2014} cat.png".to_string()));
    assert_eq!(change.settings.last_file, Some("/pics/cat.png".to_string()));
    assert_eq!(s.get_settings().last_file, Some("/pics/cat.png".to_string()));
    assert_eq!(s.cached_ratio("main"), Some(AspectRatio { width: 1000, height: 500 }));
}

#[test]
fn failed_probe_leaves_the_ratio_alone() {
    let mut s = fresh();
    s.apply_selection("main", paths(&["a.png", "b.png"]));
    s.apply_active_file("main", Some((4, 3)));
    s.navigate_selection("main", 1);
    let change = s.apply_active_file("main", None).unwrap();
    assert_eq!(change.path, "b.png");
    assert_eq!(s.cached_ratio("main"), Some(AspectRatio { width: 4, height: 3 }));
    // a height of zero is no ratio either
    s.apply_active_file("main", Some((10, 0)));
    assert_eq!(s.cached_ratio("main"), Some(AspectRatio { width: 4, height: 3 }));
    assert_eq!(s.get_settings().last_file, Some("b.png".to_string()));
}

#[test]
fn navigation_returns_the_new_file_only_when_it_moves() {
    let mut s = fresh();
    s.apply_selection("main", paths(&["a.png", "b.png", "c.png"]));
    assert_eq!(s.navigate_selection("main", -1), None);
    assert_eq!(s.navigate_selection("main", -1), None);
    assert_eq!(s.active_index("main"), Some(0));
    assert_eq!(s.navigate_selection("main", 1), Some("b.png".to_string()));
    assert_eq!(s.navigate_selection("main", 1), Some("c.png".to_string()));
    assert_eq!(s.navigate_selection("main", 1), None);
    assert_eq!(s.navigate_selection("main", 1), None);
    assert_eq!(s.active_index("main"), Some(2));
    assert_eq!(s.navigate_selection("main", -5), Some("a.png".to_string()));
    assert_eq!(s.active_index("main"), Some(0));
    assert_eq!(s.selected_files("main"), Some(paths(&["a.png", "b.png", "c.png"])));
}

#[test]
fn navigation_without_selection_does_nothing() {
    let mut s = fresh();
    assert_eq!(s.navigate_selection("main", 1), None);
    assert_eq!(s.active_index("main"), None);
}

#[test]
fn windows_keep_separate_selections() {
    let mut s = fresh();
    s.apply_selection("main", paths(&["a.png", "b.png"]));
    s.apply_selection("window-1", paths(&["x.gif", "y.gif", "z.gif"]));
    s.navigate_selection("window-1", 2);
    assert_eq!(s.active_file_for_window("main"), Some("a.png".to_string()));
    assert_eq!(s.active_file_for_window("window-1"), Some("z.gif".to_string()));
    assert_eq!(s.active_file_for_window("window-2"), None);
}

#[test]
fn locked_resize_is_corrected_to_the_ratio() {
    let mut s = locked_with_ratio("main", 2, 1);
    assert_eq!(s.resize_state("main"), ResizeState::Idle);
    let d = s.begin_resize("main", 300);
    assert_eq!(d, ResizeDecision::Correct { width: 300, height: 150 });
    assert_eq!(s.resize_state("main"), ResizeState::Adjusting);
}

#[test]
fn corrective_resize_is_not_corrected_again() {
    let mut s = locked_with_ratio("main", 2, 1);
    let mut corrections = 0;
    if let ResizeDecision::Correct { width, .. } = s.begin_resize("main", 300) {
        corrections += 1;
        // the window reports the size it was just given
        assert_eq!(s.begin_resize("main", width), ResizeDecision::Ignored);
        assert_eq!(s.begin_resize("main", 12345), ResizeDecision::Ignored);
        s.end_resize("main");
    }
    assert_eq!(corrections, 1);
    assert_eq!(s.resize_state("main"), ResizeState::Idle);
    assert_eq!(s.begin_resize("main", 500), ResizeDecision::Correct { width: 500, height: 250 });
}

#[test]
fn resize_is_passed_on_without_lock_or_ratio() {
    let mut s = fresh();
    assert_eq!(s.begin_resize("main", 300), ResizeDecision::Forward);
    s.set_settings(SettingsUpdate { aspect_lock: Some(true) });
    assert_eq!(s.begin_resize("main", 300), ResizeDecision::Forward);
    assert_eq!(s.resize_state("main"), ResizeState::Idle);
    let mut t = locked_with_ratio("main", 2, 1);
    t.set_settings(SettingsUpdate { aspect_lock: Some(false) });
    assert_eq!(t.begin_resize("main", 300), ResizeDecision::Forward);
    // the ratio of one window does not lock another
    let mut u = locked_with_ratio("main", 2, 1);
    assert_eq!(u.begin_resize("window-1", 300), ResizeDecision::Forward);
}

#[test]
fn ratio_of_zero_width_locks_nothing() {
    let mut s = locked_with_ratio("main", 0, 5);
    assert_eq!(s.cached_ratio("main"), Some(AspectRatio { width: 0, height: 5 }));
    assert_eq!(s.begin_resize("main", 300), ResizeDecision::Forward);
}

#[test]
fn guard_of_one_window_leaves_the_others_alone() {
    let mut s = locked_with_ratio("main", 2, 1);
    s.apply_selection("window-1", paths(&["b.png"]));
    s.apply_active_file("window-1", Some((1, 1)));
    assert!(matches!(s.begin_resize("main", 300), ResizeDecision::Correct { .. }));
    assert_eq!(
        s.begin_resize("window-1", 200),
        ResizeDecision::Correct { width: 200, height: 200 }
    );
    s.end_resize("main");
    assert_eq!(s.resize_state("main"), ResizeState::Idle);
    assert_eq!(s.resize_state("window-1"), ResizeState::Adjusting);
}

#[test]
fn size_save_is_debounced() {
    let mut s = fresh();
    let first = s.schedule_size_save("main").unwrap();
    assert_eq!(first.task, 0);
    assert_eq!(first.delay_ms, 500);
    assert_eq!(first.cancelled, None);
    let second = s.schedule_size_save("main").unwrap();
    assert_eq!(second.cancelled, Some(first.task));
    let third = s.schedule_size_save("main").unwrap();
    assert_eq!(third.cancelled, Some(second.task));
    assert_eq!(s.pending_save_for("main"), Some(third.task));
    assert!(s.fire_size_save("main", first.task).is_none());
    assert!(s.fire_size_save("main", second.task).is_none());
    assert!(s.fire_size_save("main", third.task).is_some());
    assert!(s.fire_size_save("main", third.task).is_none());
    assert_eq!(s.pending_save_count(), 0);
}

#[test]
fn debounced_save_writes_the_settings_of_its_moment() {
    let mut s = fresh();
    let task = s.schedule_size_save("main").unwrap().task;
    s.set_settings(SettingsUpdate { aspect_lock: Some(true) });
    s.apply_selection("main", paths(&["late.png"]));
    s.apply_active_file("main", None);
    let written = s.fire_size_save("main", task).unwrap();
    assert!(written.aspect_lock);
    assert_eq!(written.last_file, Some("late.png".to_string()));
}

#[test]
fn reset_cancels_pending_saves_and_clears_the_tables() {
    let mut s = locked_with_ratio("main", 2, 1);
    s.apply_selection("window-1", paths(&["b.png"]));
    s.apply_active_file("window-1", Some((3, 2)));
    s.focus_window("window-1");
    s.begin_resize("main", 300);
    let a = s.schedule_size_save("main").unwrap().task;
    let b = s.schedule_size_save("window-1").unwrap().task;
    let c = s.schedule_size_save("window-2").unwrap().task;
    let cancelled = s.reset_cache();
    assert_eq!(cancelled.len(), 3);
    let mut tasks: Vec<u64> = cancelled.iter().map(|e| e.value).collect();
    tasks.sort();
    assert_eq!(tasks, vec![a, b, c]);
    let mut labels: Vec<String> = cancelled.into_iter().map(|e| e.key).collect();
    labels.sort();
    assert_eq!(labels, paths(&["main", "window-1", "window-2"]));
    for label in ["main", "window-1", "window-2"] {
        assert!(!s.knows(label));
        assert_eq!(s.selected_files(label), None);
        assert_eq!(s.cached_ratio(label), None);
        assert_eq!(s.resize_state(label), ResizeState::Idle);
        assert_eq!(s.pending_save_for(label), None);
    }
    assert_eq!(s.pending_save_count(), 0);
    assert_eq!(s.last_focused_window(), None);
    let st = s.get_settings();
    assert_eq!(st.last_file, None);
    assert!(!st.aspect_lock);
    // a timer that was not stopped in time writes nothing
    assert!(s.fire_size_save("main", a).is_none());
    assert!(s.fire_size_save("window-1", b).is_none());
    assert!(s.fire_size_save("window-2", c).is_none());
}

#[test]
fn closing_a_window_prunes_its_entries() {
    let mut s = locked_with_ratio("main", 2, 1);
    s.apply_selection("window-1", paths(&["b.png"]));
    s.apply_active_file("window-1", Some((3, 2)));
    s.begin_resize("window-1", 300);
    let kept = s.schedule_size_save("main").unwrap().task;
    let gone = s.schedule_size_save("window-1").unwrap().task;
    assert!(s.knows("window-1"));
    assert_eq!(s.close_window("window-1"), Some(gone));
    assert!(!s.knows("window-1"));
    assert_eq!(s.selected_files("window-1"), None);
    assert_eq!(s.cached_ratio("window-1"), None);
    assert_eq!(s.resize_state("window-1"), ResizeState::Idle);
    assert!(s.fire_size_save("window-1", gone).is_none());
    // the other window is untouched
    assert!(s.knows("main"));
    assert_eq!(s.selected_files("main"), Some(paths(&["a.png"])));
    assert_eq!(s.cached_ratio("main"), Some(AspectRatio { width: 2, height: 1 }));
    assert_eq!(s.pending_save_for("main"), Some(kept));
    assert_eq!(s.close_window("window-1"), None);
}

#[test]
fn focus_remembers_the_window_and_its_file() {
    let mut s = fresh();
    s.apply_selection("main", paths(&["a.png"]));
    s.apply_selection("window-1", paths(&["b.png"]));
    s.apply_active_file("window-1", None);
    let saved = s.focus_window("main").unwrap();
    assert_eq!(saved.last_file, Some("a.png".to_string()));
    assert_eq!(s.last_focused_window(), Some("main".to_string()));
    assert_eq!(s.get_settings().last_file, Some("a.png".to_string()));
    // a window without files takes the focus and changes no setting
    assert!(s.focus_window("window-2").is_none());
    assert_eq!(s.last_focused_window(), Some("window-2".to_string()));
    assert_eq!(s.get_settings().last_file, Some("a.png".to_string()));
}

#[test]
fn remembering_needs_an_active_file() {
    let mut s = fresh();
    assert!(s.remember_active_file("main").is_none());
    s.apply_selection("main", paths(&["a.png", "b.png"]));
    s.navigate_selection("main", 1);
    let saved = s.remember_active_file("main").unwrap();
    assert_eq!(saved.last_file, Some("b.png".to_string()));
    assert_eq!(s.last_focused_window(), None);
}

#[test]
fn fit_uses_the_active_file_or_the_last_file() {
    let mut s = fresh();
    assert_eq!(s.fit_path("main"), None);
    let mut st = PersistedState::default();
    st.last_file = Some("/pics/last.png".to_string());
    let mut t = AppState::new(st);
    assert_eq!(t.fit_path("main"), Some("/pics/last.png".to_string()));
    t.apply_selection("main", paths(&["/pics/now.png"]));
    assert_eq!(t.fit_path("main"), Some("/pics/now.png".to_string()));
    assert_eq!(t.fit_path("window-1"), Some("/pics/last.png".to_string()));
    assert_eq!(s.fit_now("main", Some((10, 10)), Some((100, 100))), Ok(None));
}

#[test]
fn fit_computes_the_size_and_caches_the_ratio() {
    let mut s = fresh();
    s.apply_selection("main", paths(&["a.png"]));
    let size = s.fit_now("main", Some((1000, 500)), Some((800, 600))).unwrap().unwrap();
    assert_eq!(size.width, Fraction { num: 800, den: 1 });
    assert_eq!(size.height, Fraction { num: 400000, den: 1000 });
    assert_eq!(s.cached_ratio("main"), Some(AspectRatio { width: 1000, height: 500 }));
}

#[test]
fn fit_of_an_unreadable_image_is_an_error() {
    let mut s = fresh();
    s.apply_selection("main", paths(&["a.png"]));
    let r = s.fit_now("main", None, Some((800, 600)));
    assert_eq!(r, Err(FitError::Unreadable));
    assert_eq!(FitError::Unreadable.message(), "failed to read image dimensions");
    assert_eq!(s.cached_ratio("main"), None);
}

#[test]
fn fit_without_dimensions_or_window_size_does_nothing() {
    let mut s = fresh();
    s.apply_selection("main", paths(&["a.png"]));
    assert_eq!(s.fit_now("main", Some((0, 500)), Some((800, 600))), Ok(None));
    assert_eq!(s.fit_now("main", Some((500, 0)), Some((800, 600))), Ok(None));
    assert_eq!(s.fit_now("main", Some((500, 500)), None), Ok(None));
    assert_eq!(s.cached_ratio("main"), None);
}

#[test]
fn settings_are_updated_and_returned() {
    let mut s = fresh();
    let st = s.set_settings(SettingsUpdate { aspect_lock: Some(true) });
    assert!(st.aspect_lock);
    assert!(s.get_settings().aspect_lock);
    let st = s.set_settings(SettingsUpdate { aspect_lock: None });
    assert!(st.aspect_lock);
    let st = s.set_settings(SettingsUpdate { aspect_lock: Some(false) });
    assert!(!st.aspect_lock);
}

#[test]
fn state_starts_with_the_loaded_settings() {
    let mut st = PersistedState::default();
    st.aspect_lock = true;
    st.window_w = Some(640);
    let s = AppState::new(st);
    let got = s.get_settings();
    assert!(got.aspect_lock);
    assert_eq!(got.window_w, Some(640));
    assert_eq!(s.pending_save_count(), 0);
    assert_eq!(s.last_focused_window(), None);
    assert!(!s.knows("main"));
}
