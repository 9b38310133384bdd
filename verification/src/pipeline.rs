//! The transcode pipeline's decision core: worker sizing, encoder thread
//! count, and the full encoder argument list built from probed metadata, the
//! hardware-acceleration flag and the candidate path. Invoking the external
//! probe and encoder tools is I/O and happens outside the library.

use vstd::prelude::*;

use crate::classify::{
    extension_of, is_video_path, path_has_thumbnail_marker, path_is_thumbnail, path_is_video,
    path_stem_extension, stem_of,
};
use crate::metadata::{
    bit_rate_exceeds, bit_rate_over, duration_exceeds, duration_over, effective_meta_view,
    effective_metadata, MediaMetadata, MetaView,
};
use crate::num::{dec_str, u64_to_string};

verus! {

/// Size of the encode worker pool: hardware-accelerated encodes are throttled
/// to 3 concurrent invocations (GPU contention), software encodes to 1.
pub fn worker_count(cuda: bool) -> (n: usize)
    ensures
        n == (if cuda { 3usize } else { 1usize }),
{
    if cuda {
        3
    } else {
        1
    }
}

/// Encoder threads in software mode: a quarter of the cores, at least one.
pub open spec fn encoder_threads_spec(cores: nat) -> nat {
    if cores / 4 > 0 {
        cores / 4
    } else {
        1
    }
}

pub fn encoder_threads(cores: usize) -> (t: usize)
    ensures
        t as nat == encoder_threads_spec(cores as nat),
{
    let t = cores / 4;
    if t > 0 {
        t
    } else {
        1
    }
}

/// Relies on num_cpus::get: the number of logical CPUs available to the
/// process, documented to always be at least 1.
#[verifier::external_body]
fn available_cores() -> (n: usize)
    ensures
        1 <= n,
{
    num_cpus::get()
}

/// The software-mode encoder thread count for this machine.
pub fn software_thread_count() -> (t: usize)
    ensures
        1 <= t,
{
    encoder_threads(available_cores())
}

/// The leading encoder arguments: thread or hardware-acceleration selection,
/// the input path, audio passed through unmodified, the codec, and a seek to
/// the clip start.
pub open spec fn base_args_spec(cuda: bool, threads: u64, input: Seq<char>) -> Seq<Seq<char>> {
    seq![
        if cuda {
            "-hwaccel"@
        } else {
            "-threads"@
        },
        if cuda {
            "cuda"@
        } else {
            dec_str(threads as nat)
        },
        "-i"@,
        input,
        "-c:a"@,
        "copy"@,
        "-c:v"@,
        if cuda {
            "h264_nvenc"@
        } else {
            "libx264"@
        },
        "-ss"@,
        "00:00:00"@,
    ]
}

/// The conditional trims: clip to 15 seconds when the duration exceeds 15,
/// scale down when either dimension exceeds 320 by 240, cap the video
/// bit-rate at 1 Mbit/s when the probed bit-rate exceeds 1,010,000.
pub open spec fn trim_args_spec(m: MetaView) -> Seq<Seq<char>> {
    (if duration_over(m.duration, 15) {
        seq!["-t"@, "00:00:15"@]
    } else {
        Seq::<Seq<char>>::empty()
    }) + (if m.width > 320 || m.height > 240 {
        seq!["-vf"@, "scale=320:240"@]
    } else {
        Seq::<Seq<char>>::empty()
    }) + (if bit_rate_over(m.bit_rate, 1010000) {
        seq!["-b:v"@, "1M"@]
    } else {
        Seq::<Seq<char>>::empty()
    })
}

/// The complete encoder argument list for one candidate.
pub open spec fn encode_args_spec(
    m: MetaView,
    cuda: bool,
    threads: u64,
    input: Seq<char>,
    output: Seq<char>,
) -> Seq<Seq<char>> {
    base_args_spec(cuda, threads, input) + trim_args_spec(m) + seq![output]
}

/// The thumbnail's file name: the source's stem, the thumbnail marker, and
/// the source's extension.
pub open spec fn thumbnail_name_spec(p: Seq<char>) -> Seq<char> {
    stem_of(p) + "_thumbnail."@ + (match extension_of(p) {
        Some(e) => e,
        None => Seq::<char>::empty(),
    })
}

/// Where the thumbnail is written: under the thumbnail output directory.
pub open spec fn thumbnail_output_spec(dir: Seq<char>, p: Seq<char>) -> Seq<char> {
    dir + "/"@ + thumbnail_name_spec(p)
}

/// A tracked path is an encode candidate when it is not itself
/// thumbnail-derived and is a video.
pub open spec fn is_candidate(p: Seq<char>) -> bool {
    !path_has_thumbnail_marker(p) && is_video_path(p)
}

/// Builds the thumbnail output path for a candidate.
pub fn thumbnail_output_path(dir: &str, p: &str) -> (r: String)
    ensures
        r@ == thumbnail_output_spec(dir@, p@),
{
    let (stem, ext) = path_stem_extension(p);
    let mut out = String::from_str(dir);
    out.append("/");
    out.append(stem.as_str());
    out.append("_thumbnail.");
    match ext {
        Some(e) => {
            out.append(e.as_str());
        },
        None => {},
    }
    proof {
        assert(out@ =~= thumbnail_output_spec(dir@, p@));
    }
    out
}

/// Builds the complete encoder argument list from the metadata in force, the
/// resource mode, the thread count, and the input and output paths.
pub fn build_encode_args(
    m: &MediaMetadata,
    cuda: bool,
    threads: u64,
    input: &String,
    output: &String,
) -> (r: Vec<String>)
    ensures
        r.deep_view() == encode_args_spec(m@, cuda, threads, input@, output@),
{
    let mut args: Vec<String> = Vec::new();
    if cuda {
        args.push(String::from_str("-hwaccel"));
        args.push(String::from_str("cuda"));
    } else {
        args.push(String::from_str("-threads"));
        args.push(u64_to_string(threads));
    }
    args.push(String::from_str("-i"));
    args.push(input.clone());
    args.push(String::from_str("-c:a"));
    args.push(String::from_str("copy"));
    args.push(String::from_str("-c:v"));
    if cuda {
        args.push(String::from_str("h264_nvenc"));
    } else {
        args.push(String::from_str("libx264"));
    }
    args.push(String::from_str("-ss"));
    args.push(String::from_str("00:00:00"));
    if duration_exceeds(m.duration.as_str(), 15) {
        args.push(String::from_str("-t"));
        args.push(String::from_str("00:00:15"));
    }
    if m.width > 320 || m.height > 240 {
        args.push(String::from_str("-vf"));
        args.push(String::from_str("scale=320:240"));
    }
    if bit_rate_exceeds(m.bit_rate.as_str(), 1010000) {
        args.push(String::from_str("-b:v"));
        args.push(String::from_str("1M"));
    }
    args.push(output.clone());
    proof {
        assert(args.deep_view() =~= encode_args_spec(m@, cuda, threads, input@, output@));
    }
    args
}

/// One candidate's encode decision. `None` when the path is no candidate
/// (thumbnail-derived, or not a video); otherwise the complete encoder
/// argument list, built from the probed metadata — or, after a failed
/// probe, the documented fallback — with the output placed under the
/// thumbnail directory.
pub fn plan_encode(
    path: &String,
    probed: Option<MediaMetadata>,
    cuda: bool,
    threads: u64,
    thumbnail_dir: &String,
) -> (r: Option<Vec<String>>)
    ensures
        match r {
            Some(args) => is_candidate(path@) && args.deep_view() == encode_args_spec(
                effective_meta_view(probed),
                cuda,
                threads,
                path@,
                thumbnail_output_spec(thumbnail_dir@, path@),
            ),
            None => !is_candidate(path@),
        },
{
    if path_is_thumbnail(path.as_str()) {
        return None;
    }
    if !path_is_video(path.as_str()) {
        return None;
    }
    let m = effective_metadata(probed);
    let output = thumbnail_output_path(thumbnail_dir.as_str(), path.as_str());
    Some(build_encode_args(&m, cuda, threads, path, &output))
}

} // verus!
