use always_on_top::labels::{
    decimal_text, focused_window, label_in_use, next_window_label, numbered_label, WindowFocus,
};

fn labels(list: &[&str]) -> Vec<String> {
    list.iter().map(|p| p.to_string()).collect()
}

fn windows(list: &[(&str, bool)]) -> Vec<WindowFocus> {
    list.iter().map(|(l, f)| WindowFocus { label: l.to_string(), focused: *f }).collect()
}

#[test]
fn numbers_are_written_in_decimal() {
    assert_eq!(decimal_text(0), "0");
    assert_eq!(decimal_text(7), "7");
    assert_eq!(decimal_text(10), "10");
    assert_eq!(decimal_text(1234567890), "1234567890");
    assert_eq!(decimal_text(u64::MAX), "18446744073709551615");
}

#[test]
fn numbered_labels_carry_the_number() {
    assert_eq!(numbered_label(1), "window-1");
    assert_eq!(numbered_label(42), "window-42");
}

#[test]
fn first_window_is_main() {
    assert_eq!(next_window_label(&Vec::new()), Some("main".to_string()));
    assert_eq!(next_window_label(&labels(&["window-1", "window-2"])), Some("main".to_string()));
}

#[test]
fn next_label_is_the_least_free_number() {
    assert_eq!(next_window_label(&labels(&["main"])), Some("window-1".to_string()));
    assert_eq!(next_window_label(&labels(&["main", "window-1"])), Some("window-2".to_string()));
    assert_eq!(
        next_window_label(&labels(&["window-3", "main", "window-1"])),
        Some("window-2".to_string())
    );
    let mut many = labels(&["main"]);
    for k in 1..=12 {
        many.push(format!("window-{}", k));
    }
    assert_eq!(next_window_label(&many), Some("window-13".to_string()));
}

#[test]
fn label_in_use_compares_whole_labels() {
    let v = labels(&["main", "window-10"]);
    assert!(label_in_use(&v, &"main".to_string()));
    assert!(label_in_use(&v, &"window-10".to_string()));
    assert!(!label_in_use(&v, &"window-1".to_string()));
    assert!(!label_in_use(&v, &"Main".to_string()));
}

#[test]
fn focused_window_is_preferred() {
    let w = windows(&[("main", false), ("window-1", true), ("window-2", true)]);
    assert_eq!(focused_window(&w), Some("window-1".to_string()));
}

#[test]
fn main_window_stands_in_without_focus() {
    let w = windows(&[("window-1", false), ("main", false)]);
    assert_eq!(focused_window(&w), Some("main".to_string()));
}

#[test]
fn no_target_without_focus_and_main() {
    let w = windows(&[("window-1", false), ("window-2", false)]);
    assert_eq!(focused_window(&w), None);
    assert_eq!(focused_window(&Vec::new()), None);
}
