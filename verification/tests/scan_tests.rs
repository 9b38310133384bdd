use swmv::scan::{effective_depth_cap, scan_select, ScanEntry};

fn entry(path: &str, name: &str, depth: usize, is_dir: bool) -> ScanEntry {
    ScanEntry { path: String::from(path), name: String::from(name), depth, is_dir }
}

fn three_level_tree() -> Vec<ScanEntry> {
    vec![
        entry("/r", "r", 0, true),
        entry("/r/a.jpg", "a.jpg", 1, false),
        entry("/r/d1", "d1", 1, true),
        entry("/r/d1/b.mp4", "b.mp4", 2, false),
        entry("/r/d1/d2", "d2", 2, true),
        entry("/r/d1/d2/c.webm", "c.webm", 3, false),
        entry("/r/d1/d2/notes.txt", "notes.txt", 3, false),
    ]
}

#[test]
fn non_recursive_scan_caps_at_depth_one() {
    let picked = scan_select(&three_level_tree(), false, None);
    assert_eq!(picked, vec![String::from("/r/a.jpg")]);
}

#[test]
fn recursive_scan_takes_all_depths() {
    let picked = scan_select(&three_level_tree(), true, None);
    assert_eq!(
        picked,
        vec![
            String::from("/r/a.jpg"),
            String::from("/r/d1/b.mp4"),
            String::from("/r/d1/d2/c.webm"),
        ]
    );
}

#[test]
fn explicit_depth_overrides_non_recursive_cap() {
    let picked = scan_select(&three_level_tree(), false, Some(2));
    assert_eq!(
        picked,
        vec![String::from("/r/a.jpg"), String::from("/r/d1/b.mp4")]
    );
}

#[test]
fn explicit_depth_overrides_recursive_too() {
    let picked = scan_select(&three_level_tree(), true, Some(1));
    assert_eq!(picked, vec![String::from("/r/a.jpg")]);
}

#[test]
fn depth_cap_values() {
    assert_eq!(effective_depth_cap(false, None), Some(1));
    assert_eq!(effective_depth_cap(true, None), None);
    assert_eq!(effective_depth_cap(false, Some(7)), Some(7));
    assert_eq!(effective_depth_cap(true, Some(7)), Some(7));
}

#[test]
fn non_media_and_directories_skipped() {
    let picked = scan_select(&three_level_tree(), true, None);
    assert!(picked.iter().all(|p| !p.ends_with(".txt")));
    assert!(picked.iter().all(|p| p.contains('.')));
}
