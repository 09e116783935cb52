//! The incremental animation encoder's state machine: fixed canvas
//! dimensions, monotone timestamp accumulation, and single finalization.
//!
//! The native codec context itself lives outside this crate; this state
//! machine makes every decision (dimension checks, configuration
//! validation, timestamp placement) and tells the caller at which
//! timestamp each frame, and the final terminator, must be submitted.

use vstd::prelude::*;

use crate::config::EncoderOptions;
use crate::config::FrameConfig;
use crate::config::RawImage;

verus! {

/// Everything that can abort a run. Every fatal error unwinds to the top
/// of the run with no partial output.
#[derive(Clone, Copy, PartialEq, Eq, Structural, Debug)]
pub enum Error {
    /// An input image could not be read or decoded.
    ImageDecode,
    /// A later frame's dimensions differ from the first frame's canvas.
    DimensionMismatch,
    /// The native encoder context could not be created.
    CodecInit,
    /// A frame failed to encode.
    CodecEncode,
    /// The container could not be parsed or reassembled.
    Mux,
    /// A per-frame configuration is structurally invalid.
    InvalidConfig,
    /// No input frames were supplied; a clean, informational exit.
    NoInputFrames,
}

/// The encoder state machine. `timestamp_ms` starts at zero and advances
/// by each added frame's duration; `finalized` is set exactly once.
pub struct AnimationEncoder {
    pub width: u32,
    pub height: u32,
    pub timestamp_ms: i32,
    pub frames_added: usize,
    pub finalized: bool,
    pub options: EncoderOptions,
    /// The timestamps at which the accepted frames were submitted.
    pub history: Ghost<Seq<i32>>,
}

impl AnimationEncoder {
    /// The timestamp never runs backwards and the history matches the
    /// number of accepted frames.
    pub open spec fn wf(self) -> bool {
        &&& 0 <= self.timestamp_ms
        &&& self.history@.len() == self.frames_added
    }

    /// Binds the encoder to the canvas established by the first frame.
    pub fn new(width: u32, height: u32, options: &EncoderOptions) -> (r: AnimationEncoder)
        ensures
            r.wf(),
            r.width == width,
            r.height == height,
            r.timestamp_ms == 0,
            r.frames_added == 0,
            !r.finalized,
            r.options == *options,
            r.history@ == Seq::<i32>::empty(),
    {
        AnimationEncoder {
            width,
            height,
            timestamp_ms: 0,
            frames_added: 0,
            finalized: false,
            options: *options,
            history: Ghost(Seq::empty()),
        }
    }

    /// Accepts one frame: rejects a canvas mismatch, rejects an invalid
    /// configuration, and otherwise returns the timestamp at which the
    /// frame is to be submitted, advancing the clock by the frame's
    /// duration.
    pub fn add_frame(&mut self, img: &RawImage, config: &FrameConfig) -> (r: Result<
        i32,
        Error,
    >)
        requires
            old(self).wf(),
            !old(self).finalized,
            old(self).timestamp_ms + config.duration <= i32::MAX,
            old(self).frames_added < usize::MAX,
        ensures
            final(self).wf(),
            final(self).width == old(self).width,
            final(self).height == old(self).height,
            final(self).options == old(self).options,
            !final(self).finalized,
            img.width != old(self).width || img.height != old(self).height ==> {
                &&& r == Result::<i32, Error>::Err(Error::DimensionMismatch)
                &&& *final(self) == *old(self)
            },
            img.width == old(self).width && img.height == old(self).height && !config.valid()
                ==> {
                &&& r == Result::<i32, Error>::Err(Error::InvalidConfig)
                &&& *final(self) == *old(self)
            },
            img.width == old(self).width && img.height == old(self).height && config.valid()
                ==> {
                &&& r == Result::<i32, Error>::Ok(old(self).timestamp_ms)
                &&& final(self).timestamp_ms == old(self).timestamp_ms + config.duration
                &&& final(self).frames_added == old(self).frames_added + 1
                &&& final(self).history@ == old(self).history@.push(old(self).timestamp_ms)
            },
    {
        if img.width != self.width || img.height != self.height {
            return Err(Error::DimensionMismatch);
        }
        if !config.validate() {
            return Err(Error::InvalidConfig);
        }
        let ts: i32 = self.timestamp_ms;
        self.timestamp_ms = self.timestamp_ms + config.duration;
        self.frames_added = self.frames_added + 1;
        proof {
            self.history@ = self.history@.push(ts);
        }
        Ok(ts)
    }

    /// The single finalization step: closes the frame stream and returns
    /// the timestamp at which the terminating marker frame must be
    /// submitted, which is the running timestamp after the last frame.
    pub fn assemble(&mut self) -> (ts: i32)
        requires
            old(self).wf(),
            !old(self).finalized,
        ensures
            final(self).wf(),
            final(self).finalized,
            ts == old(self).timestamp_ms,
            final(self).timestamp_ms == old(self).timestamp_ms,
            final(self).width == old(self).width,
            final(self).height == old(self).height,
            final(self).frames_added == old(self).frames_added,
            final(self).history@ == old(self).history@,
    {
        self.finalized = true;
        self.timestamp_ms
    }
}

} // verus!
