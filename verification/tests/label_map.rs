use always_on_top::label_map::LabelMap;

#[test]
fn new_map_is_empty() {
    let m: LabelMap<u32> = LabelMap::new();
    assert_eq!(m.len(), 0);
    assert!(!m.contains_key("main"));
    assert_eq!(m.get("main"), None);
}

#[test]
fn insert_stores_and_replaces() {
    let mut m: LabelMap<u32> = LabelMap::new();
    assert_eq!(m.insert("main".to_string(), 1), None);
    assert_eq!(m.insert("window-1".to_string(), 2), None);
    assert_eq!(m.insert("main".to_string(), 3), Some(1));
    assert_eq!(m.len(), 2);
    assert_eq!(m.get("main"), Some(&3));
    assert_eq!(m.get("window-1"), Some(&2));
    assert!(m.contains_key("window-1"));
    assert!(!m.contains_key("window-2"));
}

#[test]
fn remove_takes_one_label_out() {
    let mut m: LabelMap<u32> = LabelMap::new();
    m.insert("main".to_string(), 1);
    m.insert("window-1".to_string(), 2);
    m.insert("window-2".to_string(), 3);
    assert_eq!(m.remove("window-1"), Some(2));
    assert_eq!(m.remove("window-1"), None);
    assert_eq!(m.len(), 2);
    assert_eq!(m.get("main"), Some(&1));
    assert_eq!(m.get("window-2"), Some(&3));
}

#[test]
fn clear_empties_the_map() {
    let mut m: LabelMap<u32> = LabelMap::new();
    m.insert("main".to_string(), 1);
    m.clear();
    assert_eq!(m.len(), 0);
    assert_eq!(m.get("main"), None);
}

#[test]
fn drain_hands_out_every_entry_once() {
    let mut m: LabelMap<u32> = LabelMap::new();
    m.insert("main".to_string(), 1);
    m.insert("window-1".to_string(), 2);
    m.insert("main".to_string(), 3);
    let mut out: Vec<(String, u32)> = m.drain().into_iter().map(|e| (e.key, e.value)).collect();
    out.sort();
    assert_eq!(out, vec![("main".to_string(), 3), ("window-1".to_string(), 2)]);
    assert_eq!(m.len(), 0);
}
