use swmv::index::{IndexEvent, LiveIndex};

fn paths_of(index: &LiveIndex) -> Vec<String> {
    index.snapshot()
}

#[test]
fn add_is_idempotent() {
    let mut index = LiveIndex::new();
    index.add(String::from("/r/a.mp4"));
    index.add(String::from("/r/a.mp4"));
    index.add(String::from("/r/a.mp4"));
    assert_eq!(index.len(), 1);
    assert_eq!(paths_of(&index), vec![String::from("/r/a.mp4")]);
}

#[test]
fn add_keeps_distinct_paths() {
    let mut index = LiveIndex::new();
    index.add(String::from("/r/a.mp4"));
    index.add(String::from("/r/b.mp4"));
    index.add(String::from("/r/a.mp4"));
    assert_eq!(index.len(), 2);
}

#[test]
fn empty_index_queries() {
    let index = LiveIndex::new();
    assert_eq!(index.len(), 0);
    assert!(!index.contains_path("/r/a.mp4"));
    assert!(!index.path_exists("a.mp4"));
    assert!(paths_of(&index).is_empty());
}

#[test]
fn remove_prefix_clears_subtree() {
    let mut index = LiveIndex::new();
    index.add(String::from("/r/d/a.mp4"));
    index.add(String::from("/r/d/sub/b.mp4"));
    index.add(String::from("/r/e/c.mp4"));
    index.remove_prefix("/r/d");
    let left = paths_of(&index);
    assert_eq!(left, vec![String::from("/r/e/c.mp4")]);
    for p in &left {
        assert!(!(p.as_str() == "/r/d" || p.starts_with("/r/d/")));
    }
}

#[test]
fn remove_prefix_exact_file() {
    let mut index = LiveIndex::new();
    index.add(String::from("/r/e/c.mp4"));
    index.add(String::from("/r/e/d.mp4"));
    index.remove_prefix("/r/e/c.mp4");
    assert_eq!(paths_of(&index), vec![String::from("/r/e/d.mp4")]);
}

#[test]
fn remove_prefix_does_not_touch_similar_names() {
    let mut index = LiveIndex::new();
    index.add(String::from("/r/dd/a.mp4"));
    index.remove_prefix("/r/d");
    assert_eq!(index.len(), 1);
}

#[test]
fn event_ordering_rename_chain() {
    let mut index = LiveIndex::new();
    index.apply_event(&IndexEvent::CreateFile { paths: vec![String::from("a")] });
    index.apply_event(&IndexEvent::RenameFrom { paths: vec![String::from("a")] });
    index.apply_event(&IndexEvent::RenameTo { paths: vec![String::from("b")] });
    assert!(index.contains_path("b"));
    assert!(!index.contains_path("a"));
    assert_eq!(index.len(), 1);
}

#[test]
fn create_folder_event_adds_scanned_files() {
    let mut index = LiveIndex::new();
    index.apply_event(&IndexEvent::CreateFolder {
        found: vec![String::from("/r/new/a.mp4"), String::from("/r/new/b.png")],
    });
    assert!(index.contains_path("/r/new/a.mp4"));
    assert!(index.contains_path("/r/new/b.png"));
    assert_eq!(index.len(), 2);
}

#[test]
fn other_events_are_ignored() {
    let mut index = LiveIndex::new();
    index.add(String::from("/r/a.mp4"));
    index.apply_event(&IndexEvent::Other);
    assert_eq!(paths_of(&index), vec![String::from("/r/a.mp4")]);
}

#[test]
fn snapshot_is_a_copy() {
    let mut index = LiveIndex::new();
    index.add(String::from("/r/a.mp4"));
    let snap = index.snapshot();
    index.add(String::from("/r/b.mp4"));
    assert_eq!(snap, vec![String::from("/r/a.mp4")]);
    assert_eq!(index.len(), 2);
}

#[test]
fn sources_exclude_thumbnails_and_are_relative() {
    let mut index = LiveIndex::new();
    index.add(String::from("/r/a.mp4"));
    index.add(String::from("/r/sub/b.webm"));
    index.add(String::from("/tmp/out/a_thumbnail.mp4"));
    let rel = index.snapshot_non_thumbnail_paths("/r");
    assert_eq!(rel, vec![String::from("a.mp4"), String::from("sub/b.webm")]);
    for p in &rel {
        assert!(!p.contains("thumbnail"));
    }
}

#[test]
fn path_exists_is_a_suffix_test() {
    let mut index = LiveIndex::new();
    index.add(String::from("/r/sub/b.webm"));
    assert!(index.path_exists("b.webm"));
    assert!(index.path_exists("sub/b.webm"));
    assert!(!index.path_exists("c.webm"));
}
