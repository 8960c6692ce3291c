//! Effect that leaves every frame untouched: a baseline, and the default where
//! a chain would otherwise be empty.

use vstd::prelude::*;
use crate::context::{EffectState, FrameContext, ProcessingContext};
use crate::error::EffectError;
use crate::frame::VideoFrame;
use crate::params::RawEffectParams;
use crate::traits::{VideoCall, VideoEffect, VideoRules, VideoState};

verus! {

/// Effect that does nothing.
#[derive(Debug)]
pub struct PassthroughEffect;

impl Default for PassthroughEffect {
    fn default() -> (r: Self) {
        PassthroughEffect
    }
}

impl PassthroughEffect {
    /// Name used by the registry and the configuration.
    pub const NAME: &'static str = "passthrough";

    /// Construct.
    #[must_use]
    pub fn new() -> (r: Self) {
        PassthroughEffect
    }
}

impl VideoEffect for PassthroughEffect {
    open spec fn rules(&self) -> VideoRules {
        VideoRules {
            id: Self::NAME@,
            configure: |s: VideoState, p: RawEffectParams, t: VideoState, r: Result<(), EffectError>|
                r is Ok && t == s,
            prepare: |
                s: VideoState,
                c: ProcessingContext,
                t: VideoState,
                r: Result<(), EffectError>,
            | r is Ok && t == s,
            process: |s: VideoState, c: VideoCall, t: VideoState, r: Result<(), EffectError>|
                r is Ok && t == s && c.frame_after == c.frame && c.context_after == c.context,
            shut_down: |s: VideoState, t: VideoState, r: Result<(), EffectError>| r is Ok && t == s,
        }
    }

    open spec fn state(&self) -> VideoState {
        VideoState::Plain(EffectState { settings: Seq::empty(), memory: Seq::empty() })
    }

    open spec fn wf(&self) -> bool {
        true
    }

    fn name(&self) -> (r: &'static str) {
        Self::NAME
    }

    fn configure(&mut self, _params: RawEffectParams) -> (r: Result<(), EffectError>)
        ensures
            *final(self) == *old(self),
    {
        Ok(())
    }

    fn prepare(&mut self, _context: &ProcessingContext) -> (r: Result<(), EffectError>)
        ensures
            *final(self) == *old(self),
    {
        Ok(())
    }

    fn process(&mut self, _frame: &mut VideoFrame, _context: &mut FrameContext) -> (r: Result<
        (),
        EffectError,
    >)
        ensures
            *final(self) == *old(self),
    {
        Ok(())
    }

    fn shutdown(&mut self) -> (r: Result<(), EffectError>)
        ensures
            *final(self) == *old(self),
    {
        Ok(())
    }
}

} // verus!
