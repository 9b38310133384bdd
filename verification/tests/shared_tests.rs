use swmv::index::IndexEvent;
use swmv::shared::SharedIndex;

#[test]
fn shared_add_and_snapshot() {
    let shared = SharedIndex::new();
    shared.add(String::from("/r/a.mp4"));
    shared.add(String::from("/r/a.mp4"));
    shared.add(String::from("/r/b.png"));
    assert_eq!(shared.len(), 2);
    let snap = shared.snapshot();
    assert_eq!(snap, vec![String::from("/r/a.mp4"), String::from("/r/b.png")]);
}

#[test]
fn shared_event_and_queries() {
    let shared = SharedIndex::new();
    shared.apply_event(&IndexEvent::CreateFile { paths: vec![String::from("/r/d/a.mp4")] });
    assert!(shared.contains_path("/r/d/a.mp4"));
    assert!(shared.path_exists("a.mp4"));
    shared.remove_prefix("/r/d");
    assert!(!shared.contains_path("/r/d/a.mp4"));
    assert_eq!(shared.len(), 0);
}

#[test]
fn shared_sources_listing() {
    let shared = SharedIndex::new();
    shared.add_all(&vec![
        String::from("/r/a.mp4"),
        String::from("/t/a_thumbnail.mp4"),
    ]);
    let rel = shared.snapshot_non_thumbnail_paths("/r");
    assert_eq!(rel, vec![String::from("a.mp4")]);
}

#[test]
fn shared_repeated_adds_stay_unique() {
    let shared = SharedIndex::new();
    for t in 0..4 {
        for k in 0..50 {
            let p = format!("/r/{}/{}.mp4", t, k);
            shared.add(p.clone());
            shared.add(p);
            let _ = shared.snapshot();
            let _ = shared.path_exists(".mp4");
        }
    }
    // 50 distinct paths per group of 4, every path added twice: the
    // registry holds each exactly once.
    assert_eq!(shared.len(), 200);
    let mut sorted = shared.snapshot();
    sorted.sort();
    sorted.dedup();
    assert_eq!(sorted.len(), 200);
}
