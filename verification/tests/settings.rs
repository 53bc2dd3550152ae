use always_on_top::settings::{
    load_state, observed_geometry, save_state, toggle_aspect_lock, PersistedState, SettingsUpdate,
    WindowGeometry, WindowSizeUnits,
};

fn sample() -> PersistedState {
    PersistedState {
        last_file: Some("/pics/a.png".to_string()),
        aspect_lock: true,
        window_w: Some(640),
        window_h: Some(480),
        window_size_units: Some(WindowSizeUnits::Logical),
    }
}

#[test]
fn default_settings_are_empty() {
    let s = PersistedState::default();
    assert_eq!(s.last_file, None);
    assert!(!s.aspect_lock);
    assert_eq!(s.window_w, None);
    assert_eq!(s.window_h, None);
    assert_eq!(s.window_size_units, None);
}

#[test]
fn load_falls_back_to_defaults() {
    let s = load_state(None);
    assert_eq!(s.last_file, None);
    assert!(!s.aspect_lock);
    assert_eq!(s.window_w, None);
    let t = load_state(Some(sample()));
    assert_eq!(t.last_file, Some("/pics/a.png".to_string()));
    assert!(t.aspect_lock);
    assert_eq!(t.window_w, Some(640));
    assert_eq!(t.window_h, Some(480));
    assert_eq!(t.window_size_units, Some(WindowSizeUnits::Logical));
}

#[test]
fn clone_keeps_every_field() {
    let s = sample().clone();
    assert_eq!(s.last_file, Some("/pics/a.png".to_string()));
    assert!(s.aspect_lock);
    assert_eq!(s.window_w, Some(640));
    assert_eq!(s.window_h, Some(480));
    assert_eq!(s.window_size_units, Some(WindowSizeUnits::Logical));
}

#[test]
fn geometry_prefers_logical_size() {
    assert_eq!(
        observed_geometry(Some((400, 300)), Some((800, 600))),
        Some(WindowGeometry { width: 400, height: 300, units: WindowSizeUnits::Logical })
    );
    assert_eq!(
        observed_geometry(None, Some((800, 600))),
        Some(WindowGeometry { width: 800, height: 600, units: WindowSizeUnits::Physical })
    );
    assert_eq!(observed_geometry(None, None), None);
}

#[test]
fn save_merges_the_geometry() {
    let g = WindowGeometry { width: 800, height: 600, units: WindowSizeUnits::Physical };
    let s = save_state(sample(), Some(g));
    assert_eq!(s.last_file, Some("/pics/a.png".to_string()));
    assert!(s.aspect_lock);
    assert_eq!(s.window_w, Some(800));
    assert_eq!(s.window_h, Some(600));
    assert_eq!(s.window_size_units, Some(WindowSizeUnits::Physical));
}

#[test]
fn save_without_geometry_keeps_the_recorded_size() {
    let s = save_state(sample(), None);
    assert_eq!(s.window_w, Some(640));
    assert_eq!(s.window_h, Some(480));
    assert_eq!(s.window_size_units, Some(WindowSizeUnits::Logical));
}

#[test]
fn saved_geometry_is_restored() {
    let g = WindowGeometry { width: 321, height: 123, units: WindowSizeUnits::Logical };
    let s = save_state(PersistedState::default(), Some(g));
    assert_eq!(s.restored_size(), Some(g));
}

#[test]
fn restored_size_needs_both_dimensions() {
    let mut s = sample();
    s.window_h = None;
    assert_eq!(s.restored_size(), None);
    let mut t = sample();
    t.window_w = None;
    assert_eq!(t.restored_size(), None);
    assert_eq!(PersistedState::default().restored_size(), None);
}

#[test]
fn size_without_units_is_physical() {
    let mut s = sample();
    s.window_size_units = None;
    assert_eq!(
        s.restored_size(),
        Some(WindowGeometry { width: 640, height: 480, units: WindowSizeUnits::Physical })
    );
}

#[test]
fn last_file_is_restored_only_if_asked_and_supported() {
    let s = sample();
    assert_eq!(s.file_to_restore(true), Some("/pics/a.png".to_string()));
    assert_eq!(s.file_to_restore(false), None);
    let mut t = sample();
    t.last_file = Some("/docs/a.txt".to_string());
    assert_eq!(t.file_to_restore(true), None);
    assert_eq!(PersistedState::default().file_to_restore(true), None);
}

#[test]
fn update_changes_only_what_is_present() {
    let mut s = sample();
    s.apply_update(SettingsUpdate { aspect_lock: None });
    assert!(s.aspect_lock);
    s.apply_update(SettingsUpdate { aspect_lock: Some(false) });
    assert!(!s.aspect_lock);
    assert_eq!(s.last_file, Some("/pics/a.png".to_string()));
    assert_eq!(s.window_w, Some(640));
}

#[test]
fn toggle_inverts_what_the_menu_shows() {
    assert!(!toggle_aspect_lock(Some(true), false));
    assert!(toggle_aspect_lock(Some(false), true));
    assert!(toggle_aspect_lock(None, false));
    assert!(!toggle_aspect_lock(None, true));
}
