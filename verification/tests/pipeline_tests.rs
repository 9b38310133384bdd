use swmv::metadata::{bit_rate_exceeds, duration_exceeds, effective_metadata, MediaMetadata};
use swmv::pipeline::{
    build_encode_args, encoder_threads, plan_encode, software_thread_count, thumbnail_output_path,
    worker_count,
};
use swmv::probe_json::parse_probe_output;

fn meta(width: u64, height: u64, duration: &str, bit_rate: &str) -> MediaMetadata {
    MediaMetadata {
        width,
        height,
        duration: String::from(duration),
        bit_rate: String::from(bit_rate),
    }
}

#[test]
fn worker_bounds() {
    assert_eq!(worker_count(true), 3);
    assert_eq!(worker_count(false), 1);
}

#[test]
fn encoder_thread_counts() {
    assert_eq!(encoder_threads(1), 1);
    assert_eq!(encoder_threads(3), 1);
    assert_eq!(encoder_threads(4), 1);
    assert_eq!(encoder_threads(8), 2);
    assert_eq!(encoder_threads(16), 4);
    assert!(software_thread_count() >= 1);
}

#[test]
fn duration_and_bit_rate_limits() {
    assert!(duration_exceeds("20.5", 15));
    assert!(!duration_exceeds("10.0", 15));
    assert!(!duration_exceeds("15.9", 15));
    assert!(duration_exceeds("16", 15));
    assert!(!duration_exceeds("", 15));
    assert!(!duration_exceeds("abc", 15));
    assert!(!duration_exceeds(".5", 15));
    assert!(bit_rate_exceeds("2000000", 1010000));
    assert!(!bit_rate_exceeds("500000", 1010000));
    assert!(!bit_rate_exceeds("1010000", 1010000));
    assert!(bit_rate_exceeds("99999999999999999999999999", 1010000));
    assert!(!bit_rate_exceeds("12k", 1010000));
}

#[test]
fn all_trims_added_for_large_media() {
    let m = meta(640, 480, "20.5", "2000000");
    let input = String::from("/r/v.mp4");
    let output = String::from("/t/v_thumbnail.mp4");
    let args = build_encode_args(&m, false, 2, &input, &output);
    let expect = vec![
        "-threads", "2", "-i", "/r/v.mp4", "-c:a", "copy", "-c:v", "libx264", "-ss", "00:00:00",
        "-t", "00:00:15", "-vf", "scale=320:240", "-b:v", "1M", "/t/v_thumbnail.mp4",
    ];
    let got: Vec<&str> = args.iter().map(|s| s.as_str()).collect();
    assert_eq!(got, expect);
}

#[test]
fn no_trims_for_small_media() {
    let m = meta(300, 200, "10.0", "500000");
    let input = String::from("/r/v.mp4");
    let output = String::from("/t/v_thumbnail.mp4");
    let args = build_encode_args(&m, false, 1, &input, &output);
    let expect = vec![
        "-threads", "1", "-i", "/r/v.mp4", "-c:a", "copy", "-c:v", "libx264", "-ss", "00:00:00",
        "/t/v_thumbnail.mp4",
    ];
    let got: Vec<&str> = args.iter().map(|s| s.as_str()).collect();
    assert_eq!(got, expect);
}

#[test]
fn hardware_mode_arguments() {
    let m = meta(300, 200, "10.0", "500000");
    let input = String::from("/r/v.mp4");
    let output = String::from("/t/v_thumbnail.mp4");
    let args = build_encode_args(&m, true, 1, &input, &output);
    let got: Vec<&str> = args.iter().map(|s| s.as_str()).collect();
    let expect = vec![
        "-hwaccel", "cuda", "-i", "/r/v.mp4", "-c:a", "copy", "-c:v", "h264_nvenc", "-ss",
        "00:00:00", "/t/v_thumbnail.mp4",
    ];
    assert_eq!(got, expect);
}

#[test]
fn scale_added_when_either_dimension_large() {
    let m = meta(640, 200, "10.0", "500000");
    let input = String::from("/r/v.mp4");
    let output = String::from("/t/o.mp4");
    let args = build_encode_args(&m, false, 1, &input, &output);
    let got: Vec<&str> = args.iter().map(|s| s.as_str()).collect();
    assert!(got.windows(2).any(|w| w == ["-vf", "scale=320:240"]));
    assert!(!got.contains(&"-t"));
    assert!(!got.contains(&"-b:v"));
}

#[test]
fn thumbnail_output_location() {
    let out = thumbnail_output_path("/tmp/thumbs", "/r/sub/v.mp4");
    assert_eq!(out.as_str(), "/tmp/thumbs/v_thumbnail.mp4");
}

#[test]
fn probe_fallback_still_encodes() {
    // A failed probe yields no metadata; the pipeline proceeds with the
    // documented fallback and still plans an encode.
    let path = String::from("/r/v.mp4");
    let dir = String::from("/t");
    let plan = plan_encode(&path, None, false, 1, &dir);
    let args = plan.expect("fallback must still plan an encode");
    let got: Vec<&str> = args.iter().map(|s| s.as_str()).collect();
    // Fallback is 320x240, "15.0", "1010000": none of the trims apply.
    let expect = vec![
        "-threads", "1", "-i", "/r/v.mp4", "-c:a", "copy", "-c:v", "libx264", "-ss", "00:00:00",
        "/t/v_thumbnail.mp4",
    ];
    assert_eq!(got, expect);
}

#[test]
fn effective_metadata_prefers_probe() {
    let m = effective_metadata(Some(meta(100, 100, "1.0", "5")));
    assert_eq!(m.width, 100);
    let f = effective_metadata(None);
    assert_eq!(f.width, 320);
    assert_eq!(f.height, 240);
    assert_eq!(f.duration.as_str(), "15.0");
    assert_eq!(f.bit_rate.as_str(), "1010000");
}

#[test]
fn non_candidates_are_skipped() {
    let dir = String::from("/t");
    let thumb = String::from("/t/v_thumbnail.mp4");
    assert!(plan_encode(&thumb, None, false, 1, &dir).is_none());
    let image = String::from("/r/a.jpg");
    assert!(plan_encode(&image, None, false, 1, &dir).is_none());
}

#[test]
fn probe_output_parses_expected_record() {
    let text = "{\"streams\":[{\"width\":640,\"height\":480,\"duration\":\"20.5\",\"bit_rate\":\"2000000\"}]}";
    let m = parse_probe_output(text).expect("record must parse");
    assert_eq!(m.width, 640);
    assert_eq!(m.height, 480);
    assert_eq!(m.duration.as_str(), "20.5");
    assert_eq!(m.bit_rate.as_str(), "2000000");
}

#[test]
fn probe_output_failures() {
    assert!(parse_probe_output("not json").is_none());
    assert!(parse_probe_output("{}").is_none());
    assert!(parse_probe_output("{\"streams\":[]}").is_none());
    let missing = "{\"streams\":[{\"width\":640,\"height\":480,\"duration\":\"20.5\"}]}";
    assert!(parse_probe_output(missing).is_none());
    let wrong_type = "{\"streams\":[{\"width\":\"640\",\"height\":480,\"duration\":\"20.5\",\"bit_rate\":\"1\"}]}";
    assert!(parse_probe_output(wrong_type).is_none());
}

#[test]
fn thread_count_is_rendered_in_decimal() {
    let m = meta(300, 200, "10.0", "500000");
    let input = String::from("/r/v.mp4");
    let output = String::from("/t/o.mp4");
    let args = build_encode_args(&m, false, 12, &input, &output);
    assert_eq!(args[0].as_str(), "-threads");
    assert_eq!(args[1].as_str(), "12");
    let args = build_encode_args(&m, false, 250, &input, &output);
    assert_eq!(args[1].as_str(), "250");
}
