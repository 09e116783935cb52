//! Data model: container-wide encoder settings, per-frame encode
//! parameters, frame jobs, and the raw four-channel image buffer.

use vstd::prelude::*;

verus! {

/// Container-wide settings, fixed once at encoder construction.
#[derive(Clone, Copy, PartialEq, Eq, Structural, Debug)]
pub struct EncoderOptions {
    /// Spend extra effort to minimize the output size.
    pub minimize_size: bool,
    /// Minimum keyframe distance; 0 means unconstrained.
    pub kmin: i32,
    /// Maximum keyframe distance; 0 means unconstrained.
    pub kmax: i32,
    /// Permit a per-frame lossy/lossless choice inside one container.
    pub allow_mixed: bool,
    /// Report progress on the diagnostic stream.
    pub verbose: bool,
}

impl EncoderOptions {
    /// The settings used when no global flag overrides them.
    pub open spec fn spec_default() -> EncoderOptions {
        EncoderOptions {
            minimize_size: false,
            kmin: 0,
            kmax: 0,
            allow_mixed: false,
            verbose: false,
        }
    }
}

impl Default for EncoderOptions {
    fn default() -> (r: EncoderOptions)
        ensures
            r == EncoderOptions::spec_default(),
    {
        EncoderOptions {
            minimize_size: false,
            kmin: 0,
            kmax: 0,
            allow_mixed: false,
            verbose: false,
        }
    }
}

/// Per-frame encode parameters. A `FrameConfig` is a value type: each
/// emitted frame job owns an independent copy.
///
/// Quality is carried in hundredths of a quality point (`7550` means a
/// quality of `75.50`), so that fractional qualities given on the command
/// line survive without floating point in this crate.
#[derive(Clone, Copy, PartialEq, Eq, Structural, Debug)]
pub struct FrameConfig {
    /// Lossy (true) or lossless (false) compression for this frame.
    pub lossy: bool,
    /// Quality in hundredths of a point; valid range 0 ..= 10000.
    pub quality_centi: i32,
    /// Compression effort, 0 (fast) ..= 6 (slowest).
    pub method: i32,
    /// Frame duration in milliseconds; must be non-negative.
    pub duration: i32,
    /// Preserve RGB values under full transparency.
    pub exact: bool,
    /// Near-lossless preprocessing level, 0 ..= 100.
    pub near_lossless: i32,
    /// Use the sharp YUV colour-space downsampling method.
    pub use_sharp_yuv: bool,
    /// Alpha-channel quality, 0 ..= 100.
    pub alpha_quality: i32,
    /// Alpha filtering method, 0 ..= 2.
    pub alpha_filtering: i32,
    /// Alpha compression method, 0 ..= 1.
    pub alpha_compression: i32,
}

impl FrameConfig {
    /// The parameters in effect before any flag is seen.
    pub open spec fn spec_default() -> FrameConfig {
        FrameConfig {
            lossy: false,
            quality_centi: 7500,
            method: 4,
            duration: 100,
            exact: false,
            near_lossless: 100,
            use_sharp_yuv: false,
            alpha_quality: 100,
            alpha_filtering: 1,
            alpha_compression: 1,
        }
    }

    /// A structurally valid per-frame configuration: every field within
    /// the range the codec accepts, and a non-negative duration.
    pub open spec fn valid(self) -> bool {
        &&& 0 <= self.quality_centi <= 10000
        &&& 0 <= self.method <= 6
        &&& 0 <= self.duration
        &&& 0 <= self.near_lossless <= 100
        &&& 0 <= self.alpha_quality <= 100
        &&& 0 <= self.alpha_filtering <= 2
        &&& 0 <= self.alpha_compression <= 1
    }

    /// Decides `valid` for a concrete configuration.
    pub fn validate(&self) -> (r: bool)
        ensures
            r == self.valid(),
    {
        self.quality_centi >= 0 && self.quality_centi <= 10000 && self.method >= 0
            && self.method <= 6 && self.duration >= 0 && self.near_lossless >= 0
            && self.near_lossless <= 100 && self.alpha_quality >= 0 && self.alpha_quality <= 100
            && self.alpha_filtering >= 0 && self.alpha_filtering <= 2
            && self.alpha_compression >= 0 && self.alpha_compression <= 1
    }
}

impl Default for FrameConfig {
    fn default() -> (r: FrameConfig)
        ensures
            r == FrameConfig::spec_default(),
    {
        FrameConfig {
            lossy: false,
            quality_centi: 7500,
            method: 4,
            duration: 100,
            exact: false,
            near_lossless: 100,
            use_sharp_yuv: false,
            alpha_quality: 100,
            alpha_filtering: 1,
            alpha_compression: 1,
        }
    }
}

/// An image path paired with the configuration in effect when that path
/// was encountered. Created once during the cascade, never mutated.
#[derive(Debug)]
pub struct FrameJob {
    pub path: String,
    pub config: FrameConfig,
}

/// The mathematical value of a `FrameJob`: the path as a character
/// sequence, and the configuration snapshot.
pub struct JobView {
    pub path: Seq<char>,
    pub config: FrameConfig,
}

impl View for FrameJob {
    type V = JobView;

    open spec fn view(&self) -> JobView {
        JobView { path: self.path@, config: self.config }
    }
}

impl FrameJob {
    /// An independent copy carrying the same path and configuration.
    pub fn duplicate(&self) -> (r: FrameJob)
        ensures
            r@ == self@,
    {
        FrameJob { path: self.path.clone(), config: self.config }
    }
}

/// The value of a sequence of frame jobs.
pub open spec fn jobs_view(s: Seq<FrameJob>) -> Seq<JobView> {
    s.map_values(|j: FrameJob| j@)
}

/// A decoded still image as the encoder consumes it: fixed dimensions and
/// a four-channel (R, G, B, A) row-major pixel buffer whose stride is
/// `width * 4` bytes.
#[derive(Debug)]
pub struct RawImage {
    pub width: u32,
    pub height: u32,
    pub rgba: Vec<u8>,
}

impl RawImage {
    /// The pixel buffer holds exactly `width * height` four-byte pixels.
    pub open spec fn wf(self) -> bool {
        self.rgba@.len() == self.width as int * self.height as int * 4
    }

    /// Accepts the buffer exactly when its length matches the dimensions.
    pub fn new(width: u32, height: u32, rgba: Vec<u8>) -> (r: Option<RawImage>)
        ensures
            match r {
                Some(img) => {
                    &&& img.wf()
                    &&& img.width == width
                    &&& img.height == height
                    &&& img.rgba@ == rgba@
                },
                None => rgba@.len() != width as int * height as int * 4,
            },
    {
        proof {
            vstd::arithmetic::mul::lemma_mul_upper_bound(
                width as int,
                0xffff_ffff,
                height as int,
                0xffff_ffff,
            );
        }
        let expect: u128 = width as u128 * height as u128 * 4;
        if rgba.len() as u128 == expect {
            Some(RawImage { width, height, rgba })
        } else {
            None
        }
    }
}

} // verus!
