use always_on_top::debounce::{DebounceScheduler, Scheduled, SIZE_SAVE_DELAY_MS};

#[test]
fn first_task_supersedes_nothing() {
    let mut s = DebounceScheduler::new();
    assert_eq!(s.pending_count(), 0);
    let r = s.schedule("main", 500);
    assert_eq!(r, Some(Scheduled { task: 0, delay_ms: 500, cancelled: None }));
    assert_eq!(s.pending_task("main"), Some(0));
    assert_eq!(s.pending_count(), 1);
}

#[test]
fn new_task_cancels_the_pending_one() {
    let mut s = DebounceScheduler::new();
    s.schedule("main", 500);
    let r = s.schedule("main", 250);
    assert_eq!(r, Some(Scheduled { task: 1, delay_ms: 250, cancelled: Some(0) }));
    assert_eq!(s.pending_task("main"), Some(1));
    assert_eq!(s.pending_count(), 1);
}

#[test]
fn burst_runs_only_the_last_task() {
    let mut s = DebounceScheduler::new();
    let mut tasks = Vec::new();
    for _ in 0..10 {
        tasks.push(s.schedule("main", SIZE_SAVE_DELAY_MS).unwrap().task);
    }
    let mut runs = 0;
    for t in &tasks {
        if s.fire("main", *t) {
            runs += 1;
            assert_eq!(*t, 9);
        }
    }
    assert_eq!(runs, 1);
    // the timers run out once more: nothing runs again
    for t in &tasks {
        assert!(!s.fire("main", *t));
    }
    assert_eq!(s.pending_count(), 0);
}

#[test]
fn task_runs_only_for_its_own_window() {
    let mut s = DebounceScheduler::new();
    let a = s.schedule("main", 500).unwrap().task;
    let b = s.schedule("window-1", 500).unwrap().task;
    assert_ne!(a, b);
    assert!(!s.fire("window-1", a));
    assert!(!s.fire("main", b));
    assert!(s.fire("window-1", b));
    assert_eq!(s.pending_task("window-1"), None);
    assert_eq!(s.pending_task("main"), Some(a));
    assert!(s.fire("main", a));
}

#[test]
fn windows_are_debounced_independently() {
    let mut s = DebounceScheduler::new();
    s.schedule("main", 500);
    let r = s.schedule("window-1", 500).unwrap();
    assert_eq!(r.cancelled, None);
    let r = s.schedule("main", 500).unwrap();
    assert_eq!(r.cancelled, Some(0));
    assert_eq!(s.pending_count(), 2);
}

#[test]
fn cancel_forgets_one_window() {
    let mut s = DebounceScheduler::new();
    let a = s.schedule("main", 500).unwrap().task;
    s.schedule("window-1", 500);
    assert_eq!(s.cancel("main"), Some(a));
    assert_eq!(s.cancel("main"), None);
    assert!(!s.fire("main", a));
    assert_eq!(s.pending_count(), 1);
}

#[test]
fn cancel_all_returns_every_pending_task() {
    let mut s = DebounceScheduler::new();
    s.schedule("main", 500);
    s.schedule("window-1", 500);
    s.schedule("window-2", 500);
    s.schedule("window-1", 500);
    let mut cancelled: Vec<(String, u64)> =
        s.cancel_all().into_iter().map(|e| (e.key, e.value)).collect();
    cancelled.sort();
    assert_eq!(
        cancelled,
        vec![("main".to_string(), 0), ("window-1".to_string(), 3), ("window-2".to_string(), 2)]
    );
    assert_eq!(s.pending_count(), 0);
    for t in 0..4 {
        assert!(!s.fire("main", t));
        assert!(!s.fire("window-1", t));
        assert!(!s.fire("window-2", t));
    }
    // the numbering goes on after a reset
    assert_eq!(s.schedule("main", 500).unwrap().task, 4);
}

#[test]
fn scheduler_can_schedule_at_start() {
    let s = DebounceScheduler::new();
    assert!(s.can_schedule());
}
