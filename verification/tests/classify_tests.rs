use swmv::classify::{is_media_entry, is_media_name, path_is_thumbnail, path_is_video, path_stem_extension};

#[test]
fn media_names_allowed_extensions() {
    assert!(is_media_name("a.jpg"));
    assert!(is_media_name("b.JPG"));
    assert!(is_media_name("c.jpeg"));
    assert!(is_media_name("d.png"));
    assert!(is_media_name("e.gif"));
    assert!(is_media_name("f.mp4"));
    assert!(is_media_name("g.webm"));
    assert!(is_media_name("mixed.WeBm"));
}

#[test]
fn media_names_rejected() {
    assert!(!is_media_name("notes.txt"));
    assert!(!is_media_name("song.mp3"));
    assert!(!is_media_name(""));
    assert!(!is_media_name("jp"));
}

#[test]
fn directories_are_not_media() {
    assert!(!is_media_entry(true, "a.jpg"));
    assert!(is_media_entry(false, "a.jpg"));
}

#[test]
fn thumbnail_marker_detection() {
    assert!(path_is_thumbnail("/t/a_thumbnail.mp4"));
    assert!(path_is_thumbnail("thumbnail"));
    assert!(!path_is_thumbnail("/media/holiday.mp4"));
    assert!(!path_is_thumbnail(""));
    assert!(!path_is_thumbnail("/media/thumbnai"));
}

#[test]
fn stem_and_extension_split() {
    let (stem, ext) = path_stem_extension("a/b/c.mp4");
    assert_eq!(stem.as_str(), "c");
    assert_eq!(ext.unwrap().as_str(), "mp4");

    let (stem, ext) = path_stem_extension("a/b/noext");
    assert_eq!(stem.as_str(), "noext");
    assert!(ext.is_none());

    let (stem, ext) = path_stem_extension("/dir/.hidden");
    assert_eq!(stem.as_str(), ".hidden");
    assert!(ext.is_none());

    let (stem, ext) = path_stem_extension("x/archive.tar.gz");
    assert_eq!(stem.as_str(), "archive.tar");
    assert_eq!(ext.unwrap().as_str(), "gz");
}

#[test]
fn video_paths() {
    assert!(path_is_video("/media/a.mp4"));
    assert!(!path_is_video("/media/a.MP4"));
    assert!(!path_is_video("/media/a.webm"));
    assert!(!path_is_video("/media/mp4"));
}
