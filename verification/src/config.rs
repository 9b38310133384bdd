//! Startup configuration, immutable for the process lifetime: the resource
//! root, how deep the initial scan goes, where thumbnails are written, and
//! whether encodes are hardware-accelerated.

use vstd::prelude::*;

verus! {

/// The pipeline configuration fixed at startup. Paths are held as plain
/// strings; the caller resolves them before constructing this.
#[derive(Debug, Clone)]
pub struct Args {
    /// Search for media recursively.
    pub recursive: bool,
    /// The resource root searched for images and videos.
    pub path: String,
    /// An explicit bound on the scan depth, overriding `recursive`'s cap.
    pub depth: Option<usize>,
    /// Where generated thumbnails are written.
    pub thumbnail_dir: String,
    /// Hardware-accelerated encoding.
    pub cuda: bool,
}

} // verus!
