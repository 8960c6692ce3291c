//! Processing-time context handed to effects.
//!
//! [`ProcessingContext`] is per pipeline, [`FrameContext`] per frame; keeping
//! them distinct prevents effects from holding on to per-frame data.

use vstd::prelude::*;
use crate::frame::{PixelFormat, Timestamp};
use crate::metrics::{Counters, EffectTelemetry};

verus! {

/// What an effect holds between two calls, as far as its contracts speak of it.
pub ghost struct EffectState {
    /// Parameters in force, as numbers or bit patterns.
    pub settings: Seq<u32>,
    /// What is kept of earlier frames.
    pub memory: Seq<u32>,
}

/// Pipeline-wide context handed to every effect once during `prepare`.
#[derive(Debug)]
pub struct ProcessingContext {
    /// Negotiated frame width in pixels.
    pub width: u32,
    /// Negotiated frame height in pixels.
    pub height: u32,
    /// Negotiated pixel format flowing through the chain.
    pub format: PixelFormat,
    /// Nominal frame rate (frames per second).
    pub fps: u32,
    /// Counters for effects that publish runtime events; `None` means that
    /// nothing is published.
    pub counters: Option<Counters>,
}

impl Clone for ProcessingContext {
    fn clone(&self) -> (r: Self)
        ensures
            r == *self,
    {
        let counters = match &self.counters {
            Some(c) => Some(c.clone()),
            None => None,
        };
        ProcessingContext {
            width: self.width,
            height: self.height,
            format: self.format,
            fps: self.fps,
            counters,
        }
    }
}

/// Per-frame context.  Effects may change it to record diagnostics or to signal
/// downstream behaviour.
#[derive(Debug)]
pub struct FrameContext {
    /// Frame index assigned at capture.
    pub frame_sequence: u64,
    /// Timestamp at which the frame entered processing.
    pub frame_timestamp: Timestamp,
    /// Set when an effect had to fall back for this frame.
    pub fallback_active: bool,
    /// Sink for timings.
    pub telemetry: EffectTelemetry,
}

impl Default for FrameContext {
    fn default() -> (r: Self)
        ensures
            r.frame_sequence == 0,
            r.frame_timestamp.nanos() == 0,
            !r.fallback_active,
            r.telemetry.samples() is None,
            r.telemetry.stages() is None,
    {
        FrameContext {
            frame_sequence: 0,
            frame_timestamp: Timestamp::default(),
            fallback_active: false,
            telemetry: EffectTelemetry::default(),
        }
    }
}

/// Coarse runtime state.
#[derive(Debug, Clone, Copy, PartialEq, Eq, Structural)]
#[non_exhaustive]
pub enum RuntimeState {
    /// No worker is active; the pipeline is idle.
    Stopped,
    /// Pipeline construction in progress.
    Starting,
    /// Frames are flowing end to end.
    Running,
    /// Shutdown initiated.
    Stopping,
}

impl Default for RuntimeState {
    fn default() -> (r: Self)
        ensures
            r == RuntimeState::Stopped,
    {
        RuntimeState::Stopped
    }
}

} // verus!
