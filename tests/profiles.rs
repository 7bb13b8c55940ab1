use netctl_tray::{scan_profiles, ProfileSet, ScanEntry, WatchEvent};

fn s(x: &str) -> String {
    x.to_string()
}

#[test]
fn created_file_is_added_and_removed_file_taken_out() {
    let mut set = ProfileSet::new();
    set.insert(s("home"));
    set.apply_event(&WatchEvent::Created(s("guest")));
    assert!(set.contains(&s("guest")));
    assert_eq!(set.names(), vec![s("home"), s("guest")]);
    set.apply_event(&WatchEvent::Removed(s("guest")));
    assert!(!set.contains(&s("guest")));
    assert_eq!(set.names(), vec![s("home")]);
}

#[test]
fn bursts_leave_no_duplicates() {
    let mut set = ProfileSet::new();
    for _ in 0..5 {
        set.apply_event(&WatchEvent::Created(s("guest")));
        set.apply_event(&WatchEvent::Created(s("work")));
    }
    assert_eq!(set.len(), 2);
    set.apply_event(&WatchEvent::Removed(s("guest")));
    set.apply_event(&WatchEvent::Removed(s("guest")));
    set.apply_event(&WatchEvent::Created(s("guest")));
    set.apply_event(&WatchEvent::Other);
    assert_eq!(set.names(), vec![s("work"), s("guest")]);
}

#[test]
fn insert_and_remove_report_changes() {
    let mut set = ProfileSet::new();
    assert!(set.insert(s("a")));
    assert!(!set.insert(s("a")));
    assert!(set.remove(&s("a")));
    assert!(!set.remove(&s("a")));
    assert_eq!(set.len(), 0);
}

#[test]
fn scan_keeps_regular_files_with_text_names() {
    let mut set = ProfileSet::new();
    let entries = vec![
        ScanEntry { is_file: true, name: Some(s("home")) },
        ScanEntry { is_file: false, name: Some(s("examples")) },
        ScanEntry { is_file: true, name: None },
        ScanEntry { is_file: true, name: Some(s("work")) },
        ScanEntry { is_file: true, name: Some(s("home")) },
    ];
    scan_profiles(&mut set, &entries);
    assert_eq!(set.names(), vec![s("home"), s("work")]);
}
