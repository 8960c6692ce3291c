//! Realtime metrics: counters and latency histograms.
//!
//! [`Counters`] holds the event counters and gauges, [`LatencyHistogram`] a
//! bounded ring of microsecond samples.  [`CounterValues`],
//! [`LatencySnapshot`] and [`MetricsSnapshot`] are plain data for reporting,
//! and [`emit_metrics_line`] is the one place that decides what a report line
//! carries.

use std::collections::VecDeque;
use std::time::Duration;
use vstd::prelude::*;
use vstd::arithmetic::power2;
use crate::float_bits;
use crate::frame;
use crate::text;

verus! {

/// `consumer_status` before the detector has published a verdict.
pub const CONSUMER_STATUS_UNSET: u64 = u64::MAX;

/// `consumer_source` before a detection path has been chosen.
pub const CONSUMER_SOURCE_UNSET: u64 = u64::MAX;

/// `output_stream_up` while the output stream has not been observed.  Distinct
/// from `0`, which says that it was observed and is down.
pub const OUTPUT_STREAM_UNKNOWN: u64 = u64::MAX;

/// `consumer_last_external_event_age_secs` before any external event.  Zero
/// would read as "an event just arrived".
pub const CONSUMER_EVENT_AGE_UNSET: u64 = u64::MAX;

/// `external_openers` before anybody looked.
pub const EXTERNAL_OPENERS_UNSET: u64 = u64::MAX;

/// Plain-data snapshot of [`Counters`].
///
/// The gauges that carry a sentinel read "not observed" in a snapshot nobody
/// has written to, so the default is not all zero.
#[derive(Debug, Clone, Copy, PartialEq, Eq, Structural)]
#[non_exhaustive]
pub struct CounterValues {
    /// Frames captured.
    pub frames_in: u64,
    /// Frames published.
    pub frames_out: u64,
    /// Frames dropped before processing.
    pub frames_dropped: u64,
    /// Frames passed through because an effect fell back.
    pub fallback_count: u64,
    /// Errors raised by effects.
    pub effect_error_count: u64,
    /// One-way moves from an accelerated inference engine to the CPU.
    pub inference_runtime_fallback_gpu_to_cpu: u64,
    /// One-way moves from an accelerated blur to the CPU.
    pub blur_runtime_fallback_gpu_to_cpu: u64,
    /// Transitions from active to idle.
    pub idle_entered_total: u64,
    /// Kept for readers of the field; nothing increments it in operation.
    pub deep_idle_entered_total: u64,
    /// Placeholder frames handed to the output while idle.
    pub idle_frames_pushed_total: u64,
    /// Attempts to acquire the camera.
    pub input_acquire_attempts_total: u64,
    /// Failed attempts to acquire the camera.
    pub input_acquire_failures_total: u64,
    /// Resumes from idle that failed to acquire the camera.
    pub resume_failures_total: u64,
    /// Wakes on an open of the loopback that could not be attributed.
    pub unattributable_wakes_total: u64,
    /// Gauge: size of the processing thread pool.
    pub processing_threads: u64,
    /// Gauge: verdict of the consumer detector, or [`CONSUMER_STATUS_UNSET`].
    pub consumer_status: u64,
    /// Gauge: number of capture clients, where the detector can count them.
    pub consumer_clients: u64,
    /// Gauge: detection path in use, or [`CONSUMER_SOURCE_UNSET`].
    pub consumer_source: u64,
    /// Verdicts published by the consumer detector.
    pub consumer_transitions_total: u64,
    /// Frames published while the detector reported nobody.
    pub frames_out_while_no_consumer_total: u64,
    /// Attempts to recover the camera in place.
    pub input_reacquire_total: u64,
    /// Failed attempts to recover the camera in place.
    pub input_reacquire_failures_total: u64,
    /// Milliseconds without valid input.
    pub input_down_ms_total: u64,
    /// Authoritative re-reads of the driver's usage value.
    pub consumer_resync_total: u64,
    /// Re-reads that disagreed with the published verdict.
    pub consumer_resync_corrections_total: u64,
    /// Re-reads that could not be taken.
    pub consumer_resync_failures_total: u64,
    /// Gauge: age of the last external usage event, or [`CONSUMER_EVENT_AGE_UNSET`].
    pub consumer_last_external_event_age_secs: u64,
    /// Gauge: `1` while the output stream is held, `0` when it is not, or
    /// [`OUTPUT_STREAM_UNKNOWN`].
    pub output_stream_up: u64,
    /// Transitions of the output stream from held to not held.
    pub output_stream_down_total: u64,
    /// Gauge: processes other than this one that hold the loopback open, or
    /// [`EXTERNAL_OPENERS_UNSET`].
    pub external_openers: u64,
}

/// Values nobody has written to: sentinels for the gauges that have one, zero
/// everywhere else.
pub open spec fn unwritten() -> CounterValues {
    CounterValues {
        frames_in: 0,
        frames_out: 0,
        frames_dropped: 0,
        fallback_count: 0,
        effect_error_count: 0,
        inference_runtime_fallback_gpu_to_cpu: 0,
        blur_runtime_fallback_gpu_to_cpu: 0,
        idle_entered_total: 0,
        deep_idle_entered_total: 0,
        idle_frames_pushed_total: 0,
        input_acquire_attempts_total: 0,
        input_acquire_failures_total: 0,
        resume_failures_total: 0,
        unattributable_wakes_total: 0,
        processing_threads: 0,
        consumer_status: CONSUMER_STATUS_UNSET,
        consumer_clients: 0,
        consumer_source: CONSUMER_SOURCE_UNSET,
        consumer_transitions_total: 0,
        frames_out_while_no_consumer_total: 0,
        input_reacquire_total: 0,
        input_reacquire_failures_total: 0,
        input_down_ms_total: 0,
        consumer_resync_total: 0,
        consumer_resync_corrections_total: 0,
        consumer_resync_failures_total: 0,
        consumer_last_external_event_age_secs: CONSUMER_EVENT_AGE_UNSET,
        output_stream_up: OUTPUT_STREAM_UNKNOWN,
        output_stream_down_total: 0,
        external_openers: EXTERNAL_OPENERS_UNSET,
    }
}

impl Default for CounterValues {
    fn default() -> (r: Self)
        ensures
            r == unwritten(),
    {
        Counters::new().snapshot()
    }
}

/// Process-wide event counters.  Totals wrap around at `u64::MAX`.
#[derive(Debug)]
pub struct Counters {
    values: CounterValues,
}

impl View for Counters {
    type V = CounterValues;

    closed spec fn view(&self) -> CounterValues {
        self.values
    }
}

impl Clone for Counters {
    fn clone(&self) -> (r: Self)
        ensures
            r == *self,
    {
        Counters { values: self.values }
    }
}

impl Counters {
    /// Counters nobody has written to.
    #[must_use]
    pub fn new() -> (r: Self)
        ensures
            r@ == unwritten(),
    {
        Counters {
            values: CounterValues {
                frames_in: 0,
                frames_out: 0,
                frames_dropped: 0,
                fallback_count: 0,
                effect_error_count: 0,
                inference_runtime_fallback_gpu_to_cpu: 0,
                blur_runtime_fallback_gpu_to_cpu: 0,
                idle_entered_total: 0,
                deep_idle_entered_total: 0,
                idle_frames_pushed_total: 0,
                input_acquire_attempts_total: 0,
                input_acquire_failures_total: 0,
                resume_failures_total: 0,
                unattributable_wakes_total: 0,
                processing_threads: 0,
                consumer_status: CONSUMER_STATUS_UNSET,
                consumer_clients: 0,
                consumer_source: CONSUMER_SOURCE_UNSET,
                consumer_transitions_total: 0,
                frames_out_while_no_consumer_total: 0,
                input_reacquire_total: 0,
                input_reacquire_failures_total: 0,
                input_down_ms_total: 0,
                consumer_resync_total: 0,
                consumer_resync_corrections_total: 0,
                consumer_resync_failures_total: 0,
                consumer_last_external_event_age_secs: CONSUMER_EVENT_AGE_UNSET,
                output_stream_up: OUTPUT_STREAM_UNKNOWN,
                output_stream_down_total: 0,
                external_openers: EXTERNAL_OPENERS_UNSET,
            },
        }
    }

    /// Count one more in `frames_in`.
    pub fn inc_frames_in(&mut self)
        ensures
            final(self)@ == (CounterValues {
                frames_in: old(self)@.frames_in.wrapping_add(1),
                ..old(self)@
            }),
    {
        self.values.frames_in = self.values.frames_in.wrapping_add(1);
    }

    /// Count one more in `frames_out`.
    pub fn inc_frames_out(&mut self)
        ensures
            final(self)@ == (CounterValues {
                frames_out: old(self)@.frames_out.wrapping_add(1),
                ..old(self)@
            }),
    {
        self.values.frames_out = self.values.frames_out.wrapping_add(1);
    }

    /// Count `n` more in `frames_dropped`.
    pub fn add_frames_dropped(&mut self, n: u64)
        ensures
            final(self)@ == (CounterValues {
                frames_dropped: old(self)@.frames_dropped.wrapping_add(n),
                ..old(self)@
            }),
    {
        if n != 0 {
            self.values.frames_dropped = self.values.frames_dropped.wrapping_add(n);
        }
    }

    /// Count one more in `fallback_count`.
    pub fn inc_fallback(&mut self)
        ensures
            final(self)@ == (CounterValues {
                fallback_count: old(self)@.fallback_count.wrapping_add(1),
                ..old(self)@
            }),
    {
        self.values.fallback_count = self.values.fallback_count.wrapping_add(1);
    }

    /// Count one more in `effect_error_count`.
    pub fn inc_effect_error(&mut self)
        ensures
            final(self)@ == (CounterValues {
                effect_error_count: old(self)@.effect_error_count.wrapping_add(1),
                ..old(self)@
            }),
    {
        self.values.effect_error_count = self.values.effect_error_count.wrapping_add(1);
    }

    /// Count one more in `inference_runtime_fallback_gpu_to_cpu`.
    pub fn inc_inference_runtime_fallback_gpu_to_cpu(&mut self)
        ensures
            final(self)@ == (CounterValues {
                inference_runtime_fallback_gpu_to_cpu: old(self)@.inference_runtime_fallback_gpu_to_cpu.wrapping_add(
                    1,
                ),
                ..old(self)@
            }),
    {
        self.values.inference_runtime_fallback_gpu_to_cpu =
            self.values.inference_runtime_fallback_gpu_to_cpu.wrapping_add(1);
    }

    /// Count one more in `blur_runtime_fallback_gpu_to_cpu`.
    pub fn inc_blur_runtime_fallback_gpu_to_cpu(&mut self)
        ensures
            final(self)@ == (CounterValues {
                blur_runtime_fallback_gpu_to_cpu: old(self)@.blur_runtime_fallback_gpu_to_cpu.wrapping_add(
                    1,
                ),
                ..old(self)@
            }),
    {
        self.values.blur_runtime_fallback_gpu_to_cpu =
            self.values.blur_runtime_fallback_gpu_to_cpu.wrapping_add(1);
    }

    /// Count one more in `idle_entered_total`.
    pub fn inc_idle_entered(&mut self)
        ensures
            final(self)@ == (CounterValues {
                idle_entered_total: old(self)@.idle_entered_total.wrapping_add(1),
                ..old(self)@
            }),
    {
        self.values.idle_entered_total = self.values.idle_entered_total.wrapping_add(1);
    }

    /// Count one more in `deep_idle_entered_total`.
    pub fn inc_deep_idle_entered(&mut self)
        ensures
            final(self)@ == (CounterValues {
                deep_idle_entered_total: old(self)@.deep_idle_entered_total.wrapping_add(1),
                ..old(self)@
            }),
    {
        self.values.deep_idle_entered_total = self.values.deep_idle_entered_total.wrapping_add(1);
    }

    /// Count one more in `idle_frames_pushed_total`.
    pub fn inc_idle_frames_pushed(&mut self)
        ensures
            final(self)@ == (CounterValues {
                idle_frames_pushed_total: old(self)@.idle_frames_pushed_total.wrapping_add(1),
                ..old(self)@
            }),
    {
        self.values.idle_frames_pushed_total = self.values.idle_frames_pushed_total.wrapping_add(1);
    }

    /// Count one more in `input_acquire_attempts_total`.
    pub fn inc_input_acquire_attempts(&mut self)
        ensures
            final(self)@ == (CounterValues {
                input_acquire_attempts_total: old(self)@.input_acquire_attempts_total.wrapping_add(
                    1,
                ),
                ..old(self)@
            }),
    {
        self.values.input_acquire_attempts_total =
            self.values.input_acquire_attempts_total.wrapping_add(1);
    }

    /// Count one more in `input_acquire_failures_total`.
    pub fn inc_input_acquire_failures(&mut self)
        ensures
            final(self)@ == (CounterValues {
                input_acquire_failures_total: old(self)@.input_acquire_failures_total.wrapping_add(
                    1,
                ),
                ..old(self)@
            }),
    {
        self.values.input_acquire_failures_total =
            self.values.input_acquire_failures_total.wrapping_add(1);
    }

    /// Count one more in `resume_failures_total`.
    pub fn inc_resume_failures(&mut self)
        ensures
            final(self)@ == (CounterValues {
                resume_failures_total: old(self)@.resume_failures_total.wrapping_add(1),
                ..old(self)@
            }),
    {
        self.values.resume_failures_total = self.values.resume_failures_total.wrapping_add(1);
    }

    /// Count one more in `unattributable_wakes_total`.
    pub fn inc_unattributable_wakes(&mut self)
        ensures
            final(self)@ == (CounterValues {
                unattributable_wakes_total: old(self)@.unattributable_wakes_total.wrapping_add(1),
                ..old(self)@
            }),
    {
        self.values.unattributable_wakes_total =
            self.values.unattributable_wakes_total.wrapping_add(1);
    }

    /// Set the gauge `processing_threads`.
    pub fn set_processing_threads(&mut self, threads: u64)
        ensures
            final(self)@ == (CounterValues { processing_threads: threads, ..old(self)@ }),
    {
        self.values.processing_threads = threads;
    }

    /// Set the gauge `consumer_status` (0 absent, 1 present, 2 unknown) and
    /// count the transition.  Call this only on an actual change.
    pub fn set_consumer_status(&mut self, status: u8)
        ensures
            final(self)@ == (CounterValues {
                consumer_status: status as u64,
                consumer_transitions_total: old(self)@.consumer_transitions_total.wrapping_add(1),
                ..old(self)@
            }),
    {
        self.values.consumer_status = status as u64;
        self.values.consumer_transitions_total =
            self.values.consumer_transitions_total.wrapping_add(1);
    }

    /// Set the gauge `consumer_clients`.
    pub fn set_consumer_clients(&mut self, clients: u64)
        ensures
            final(self)@ == (CounterValues { consumer_clients: clients, ..old(self)@ }),
    {
        self.values.consumer_clients = clients;
    }

    /// Set the gauge `consumer_source`.
    pub fn set_consumer_source(&mut self, source: u64)
        ensures
            final(self)@ == (CounterValues { consumer_source: source, ..old(self)@ }),
    {
        self.values.consumer_source = source;
    }

    /// Count one more in `consumer_resync_total`.
    pub fn inc_consumer_resync(&mut self)
        ensures
            final(self)@ == (CounterValues {
                consumer_resync_total: old(self)@.consumer_resync_total.wrapping_add(1),
                ..old(self)@
            }),
    {
        self.values.consumer_resync_total = self.values.consumer_resync_total.wrapping_add(1);
    }

    /// Count one more in `consumer_resync_corrections_total`.
    pub fn inc_consumer_resync_corrections(&mut self)
        ensures
            final(self)@ == (CounterValues {
                consumer_resync_corrections_total: old(self)@.consumer_resync_corrections_total.wrapping_add(
                    1,
                ),
                ..old(self)@
            }),
    {
        self.values.consumer_resync_corrections_total =
            self.values.consumer_resync_corrections_total.wrapping_add(1);
    }

    /// Count one more in `consumer_resync_failures_total`.
    pub fn inc_consumer_resync_failures(&mut self)
        ensures
            final(self)@ == (CounterValues {
                consumer_resync_failures_total: old(self)@.consumer_resync_failures_total.wrapping_add(
                    1,
                ),
                ..old(self)@
            }),
    {
        self.values.consumer_resync_failures_total =
            self.values.consumer_resync_failures_total.wrapping_add(1);
    }

    /// Set the gauge `consumer_last_external_event_age_secs`.
    pub fn set_consumer_last_external_event_age_secs(&mut self, age_secs: u64)
        ensures
            final(self)@ == (CounterValues {
                consumer_last_external_event_age_secs: age_secs,
                ..old(self)@
            }),
    {
        self.values.consumer_last_external_event_age_secs = age_secs;
    }

    /// Set the gauge `output_stream_up`.
    pub fn set_output_stream_up(&mut self, state: u64)
        ensures
            final(self)@ == (CounterValues { output_stream_up: state, ..old(self)@ }),
    {
        self.values.output_stream_up = state;
    }

    /// Count one more in `output_stream_down_total`.
    pub fn inc_output_stream_down(&mut self)
        ensures
            final(self)@ == (CounterValues {
                output_stream_down_total: old(self)@.output_stream_down_total.wrapping_add(1),
                ..old(self)@
            }),
    {
        self.values.output_stream_down_total = self.values.output_stream_down_total.wrapping_add(1);
    }

    /// Set the gauge `external_openers`.
    pub fn set_external_openers(&mut self, openers: u64)
        ensures
            final(self)@ == (CounterValues { external_openers: openers, ..old(self)@ }),
    {
        self.values.external_openers = openers;
    }

    /// Count one more in `frames_out_while_no_consumer_total`.
    pub fn inc_frames_out_while_no_consumer(&mut self)
        ensures
            final(self)@ == (CounterValues {
                frames_out_while_no_consumer_total: old(self)@.frames_out_while_no_consumer_total.wrapping_add(
                    1,
                ),
                ..old(self)@
            }),
    {
        self.values.frames_out_while_no_consumer_total =
            self.values.frames_out_while_no_consumer_total.wrapping_add(1);
    }

    /// Count one more in `input_reacquire_total`.
    pub fn inc_input_reacquire(&mut self)
        ensures
            final(self)@ == (CounterValues {
                input_reacquire_total: old(self)@.input_reacquire_total.wrapping_add(1),
                ..old(self)@
            }),
    {
        self.values.input_reacquire_total = self.values.input_reacquire_total.wrapping_add(1);
    }

    /// Count one more in `input_reacquire_failures_total`.
    pub fn inc_input_reacquire_failures(&mut self)
        ensures
            final(self)@ == (CounterValues {
                input_reacquire_failures_total: old(self)@.input_reacquire_failures_total.wrapping_add(
                    1,
                ),
                ..old(self)@
            }),
    {
        self.values.input_reacquire_failures_total =
            self.values.input_reacquire_failures_total.wrapping_add(1);
    }

    /// Count `ms` more in `input_down_ms_total`.
    pub fn add_input_down_ms(&mut self, ms: u64)
        ensures
            final(self)@ == (CounterValues {
                input_down_ms_total: old(self)@.input_down_ms_total.wrapping_add(ms),
                ..old(self)@
            }),
    {
        if ms != 0 {
            self.values.input_down_ms_total = self.values.input_down_ms_total.wrapping_add(ms);
        }
    }

    /// The counter values.
    #[must_use]
    pub fn snapshot(&self) -> (r: CounterValues)
        ensures
            r == self@,
    {
        self.values
    }
}

impl Default for Counters {
    fn default() -> (r: Self)
        ensures
            r@ == unwritten(),
    {
        Counters::new()
    }
}

// ---------------------------------------------------------------------------
// Latency histogram
// ---------------------------------------------------------------------------

/// Whether `s` ascends.
pub open spec fn ascending(s: Seq<u64>) -> bool {
    forall|i: int, j: int| 0 <= i <= j < s.len() ==> s[i] <= s[j]
}

/// `<[u64]>::sort_unstable`: the slice ascends afterwards and holds what it
/// held before.
#[verifier::external_body]
fn sort_samples(samples: &mut Vec<u64>)
    ensures
        ascending(final(samples)@),
        final(samples)@.to_multiset() == old(samples)@.to_multiset(),
        final(samples)@.len() == old(samples)@.len(),
{
    samples.sort_unstable();
}

/// A ring of at most `capacity` samples after one more: the oldest leaves when
/// the ring is full.
pub open spec fn recorded(samples: Seq<u64>, capacity: nat, value: u64) -> Seq<u64> {
    if 0 < samples.len() == capacity {
        samples.drop_first().push(value)
    } else {
        samples.push(value)
    }
}

/// A ring after several more samples.
pub open spec fn recorded_all(samples: Seq<u64>, capacity: nat, values: Seq<u64>) -> Seq<u64>
    decreases values.len(),
{
    if values.len() == 0 {
        samples
    } else {
        recorded(recorded_all(samples, capacity, values.drop_last()), capacity, values.last())
    }
}

/// Bounded ring of latency samples in microseconds.
///
/// Once `capacity` samples are stored, recording a new sample evicts the
/// oldest one.
#[derive(Debug)]
pub struct LatencyHistogram {
    samples: VecDeque<u64>,
    capacity: usize,
}

impl View for LatencyHistogram {
    type V = Seq<u64>;

    closed spec fn view(&self) -> Seq<u64> {
        self.samples@
    }
}

impl LatencyHistogram {
    /// The bound on the number of samples.
    pub closed spec fn bound(&self) -> usize {
        self.capacity
    }

    /// Whether the ring keeps its bound, which is positive.
    pub open spec fn wf(&self) -> bool {
        &&& self.bound() >= 1
        &&& self@.len() <= self.bound()
    }

    /// An empty histogram that retains at most `capacity` samples; a zero
    /// `capacity` is taken as one.
    #[must_use]
    pub fn with_capacity(capacity: usize) -> (r: Self)
        ensures
            r.wf(),
            r@ == Seq::<u64>::empty(),
            r.bound() == (if capacity == 0 {
                1
            } else {
                capacity
            }),
    {
        let capacity: usize = if capacity == 0 {
            1
        } else {
            capacity
        };
        LatencyHistogram { samples: VecDeque::new(), capacity }
    }

    /// Record one latency sample given as a [`Duration`], in whole
    /// microseconds, saturating at `u64::MAX`.
    pub fn record_duration(&mut self, d: Duration)
        ensures
            final(self)@ == recorded(
                old(self)@,
                old(self).bound() as nat,
                saturated(frame::duration_micros(d)),
            ),
            final(self).bound() == old(self).bound(),
            old(self).wf() ==> final(self).wf(),
    {
        self.record_micros(frame::micros_of(d));
    }

    /// Record one latency sample in microseconds, saturating at `u64::MAX`.
    pub fn record_micros(&mut self, micros: u128)
        ensures
            final(self)@ == recorded(old(self)@, old(self).bound() as nat, saturated(micros)),
            final(self).bound() == old(self).bound(),
            old(self).wf() ==> final(self).wf(),
    {
        let us: u64 = if micros > u64::MAX as u128 {
            u64::MAX
        } else {
            micros as u64
        };
        self.record_us(us);
    }

    /// Record one latency sample in microseconds; the oldest leaves a full
    /// ring.
    pub fn record_us(&mut self, value: u64)
        ensures
            final(self)@ == recorded(old(self)@, old(self).bound() as nat, value),
            final(self).bound() == old(self).bound(),
            old(self).wf() ==> final(self).wf(),
    {
        if self.samples.len() == self.capacity {
            let _oldest = self.samples.pop_front();
        }
        self.samples.push_back(value);
    }

    /// The current contents, sorted.  The histogram keeps them.
    #[must_use]
    pub fn snapshot(&self) -> (r: LatencySnapshot)
        ensures
            r.wf(),
            r@.to_multiset() == self@.to_multiset(),
            r@.len() == self@.len(),
    {
        let mut owned: Vec<u64> = Vec::new();
        let mut i: usize = 0;
        while i < self.samples.len()
            invariant
                i <= self.samples@.len(),
                owned@ == self.samples@.take(i as int),
            decreases self.samples@.len() - i,
        {
            owned.push(self.samples[i]);
            i = i + 1;
            proof {
                assert(self.samples@.take(i as int) =~= self.samples@.take(i - 1).push(
                    self.samples@[i - 1],
                ));
            }
        }
        proof {
            assert(self.samples@.take(i as int) =~= self.samples@);
        }
        sort_samples(&mut owned);
        LatencySnapshot { sorted: owned }
    }

    /// The bound on the number of samples.
    #[must_use]
    pub fn capacity(&self) -> (r: usize)
        ensures
            r == self.bound(),
    {
        self.capacity
    }
}

/// `micros` as `u64`, cut off at the largest one.
pub open spec fn saturated(micros: u128) -> u64 {
    if micros > u64::MAX {
        u64::MAX
    } else {
        micros as u64
    }
}

/// However many samples are recorded, a histogram holds the last `capacity` of
/// them (all of them, while there are no more).
pub proof fn law_histogram_keeps_latest(capacity: nat, values: Seq<u64>)
    requires
        capacity >= 1,
    ensures
        recorded_all(Seq::empty(), capacity, values) == values.skip(
            if values.len() > capacity {
                values.len() - capacity
            } else {
                0
            },
        ),
    decreases values.len(),
{
    if values.len() > 0 {
        let init = values.drop_last();
        law_histogram_keeps_latest(capacity, init);
        let before = recorded_all(Seq::empty(), capacity, init);
        if init.len() >= capacity {
            assert(before =~= init.skip(init.len() - capacity));
            assert(recorded(before, capacity, values.last()) =~= values.skip(
                values.len() - capacity,
            ));
        } else {
            assert(before =~= init);
            assert(recorded(before, capacity, values.last()) =~= values);
            assert(values.skip(0) =~= values);
        }
    } else {
        assert(values.skip(0) =~= Seq::<u64>::empty());
    }
}

// ---------------------------------------------------------------------------
// Percentiles
// ---------------------------------------------------------------------------

/// Bit pattern of the fraction `0.5`.
pub const MEDIAN: u32 = 0x3F00_0000;

/// Bit pattern of the fraction `0.95`.
pub const NINETY_FIFTH: u32 = 0x3F73_3333;

/// Significand of a positive single-precision value below one.
pub open spec fn significand(bits: u32) -> nat {
    if bits < 0x80_0000 {
        bits as nat
    } else {
        (bits as int % 0x80_0000 + 0x80_0000) as nat
    }
}

/// Number of binary places of a positive single-precision value below one: its
/// value is `significand / 2^places`.
pub open spec fn places(bits: u32) -> nat {
    if bits < 0x80_0000 {
        149
    } else {
        (150 - bits as int / 0x80_0000) as nat
    }
}

/// Smallest integer that is at least `a / b`.
pub open spec fn ceil_div(a: int, b: int) -> int {
    (a + b - 1) / b
}

/// One-based rank of the percentile `p` (the bit pattern of a fraction) among
/// `n` samples: `ceil(p * n)`, where `p` is clamped to the unit interval and
/// NaN counts as zero.
pub open spec fn percentile_rank(p: u32, n: nat) -> int {
    if float_bits::nan(p) || p >= float_bits::SIGN {
        0
    } else if p >= float_bits::ONE {
        n as int
    } else {
        ceil_div((significand(p) * n) as int, power2::pow2(places(p)) as int)
    }
}

/// Zero-based index of the percentile `p` among `n` samples.
pub open spec fn percentile_index(p: u32, n: nat) -> int {
    let rank = percentile_rank(p, n);
    if rank <= 0 {
        0
    } else if rank > n {
        n - 1
    } else {
        rank - 1
    }
}

/// Nearest-rank percentile of ascending samples; zero when there are none.
pub open spec fn percentile(sorted: Seq<u64>, p: u32) -> u64 {
    if sorted.len() == 0 {
        0
    } else {
        sorted[percentile_index(p, sorted.len())]
    }
}

/// `2^k`.
fn power_of_two(k: u32) -> (r: u128)
    requires
        k <= 100,
    ensures
        r == power2::pow2(k as nat),
{
    let mut r: u128 = 1;
    let mut i: u32 = 0;
    proof {
        power2::lemma2_to64();
    }
    while i < k
        invariant
            i <= k <= 100,
            r == power2::pow2(i as nat),
        decreases k - i,
    {
        proof {
            power2::lemma_pow2_unfold((i + 1) as nat);
            lemma_pow2_bound((i + 1) as nat);
        }
        r = r * 2;
        i = i + 1;
    }
    r
}

proof fn lemma_pow2_bound(k: nat)
    requires
        k <= 100,
    ensures
        0 < power2::pow2(k) <= 0x10_0000_0000_0000_0000_0000_0000u128,
{
    power2::lemma2_to64();
    power2::lemma_pow2_adds(64, 32);
    power2::lemma_pow2_adds(96, 4);
    power2::lemma_pow2_pos(k);
    if k < 100 {
        power2::lemma_pow2_strictly_increases(k, 100);
    }
    assert(power2::pow2(100) == 0x10_0000_0000_0000_0000_0000_0000int) by (nonlinear_arith)
        requires
            power2::pow2(100) == power2::pow2(96) * power2::pow2(4),
            power2::pow2(96) == power2::pow2(64) * power2::pow2(32),
            power2::pow2(64) == 0x1_0000_0000_0000_0000int,
            power2::pow2(32) == 0x1_0000_0000int,
            power2::pow2(4) == 0x10int,
    ;
}

/// A positive numerator below the denominator makes one, rounded up.
proof fn lemma_ceil_small(a: int, b: int)
    requires
        0 <= a < b,
    ensures
        ceil_div(a, b) == (if a == 0 {
            0int
        } else {
            1int
        }),
{
    if a == 0 {
        assert((b - 1) / b == 0) by (nonlinear_arith)
            requires
                b > 0,
        ;
    } else {
        assert((a + b - 1) / b == 1) by (nonlinear_arith)
            requires
                0 < a < b,
        ;
    }
}

/// Sorted snapshot of a [`LatencyHistogram`].
#[derive(Debug, Clone)]
pub struct LatencySnapshot {
    sorted: Vec<u64>,
}

impl View for LatencySnapshot {
    type V = Seq<u64>;

    closed spec fn view(&self) -> Seq<u64> {
        self.sorted@
    }
}

impl Default for LatencySnapshot {
    fn default() -> (r: Self)
        ensures
            r.wf(),
            r@.len() == 0,
    {
        LatencySnapshot { sorted: Vec::new() }
    }
}

impl LatencySnapshot {
    /// Whether the samples ascend.
    pub open spec fn wf(&self) -> bool {
        ascending(self@)
    }

    /// Number of samples in the snapshot.
    #[must_use]
    pub fn len(&self) -> (r: usize)
        ensures
            r == self@.len(),
    {
        self.sorted.len()
    }

    /// Whether no samples were recorded.
    #[must_use]
    pub fn is_empty(&self) -> (r: bool)
        ensures
            r == (self@.len() == 0),
    {
        self.sorted.len() == 0
    }

    /// Nearest-rank percentile in microseconds.  `p` is the bit pattern of a
    /// single-precision fraction; values outside the unit interval are
    /// clamped, and NaN counts as zero.  Zero when the snapshot is empty.
    #[must_use]
    pub fn percentile_us(&self, p: u32) -> (r: u64)
        ensures
            r == percentile(self@, p),
    {
        let n: usize = self.sorted.len();
        if n == 0 {
            return 0;
        }
        if float_bits::is_nan(p) || p >= float_bits::SIGN {
            return self.sorted[0];
        }
        if p >= float_bits::ONE {
            return self.sorted[n - 1];
        }
        let small: bool = p < 0x80_0000;
        let m: u32 = if small {
            p
        } else {
            p % 0x80_0000 + 0x80_0000
        };
        let k: u32 = if small {
            149
        } else {
            150 - p / 0x80_0000
        };
        assert(m == significand(p) && k == places(p));
        assert(m * n <= 0xFF_FFFF * u64::MAX) by (nonlinear_arith)
            requires
                m <= 0xFF_FFFF,
                n <= u64::MAX,
        ;
        let product: u128 = m as u128 * n as u128;
        let rank: u128 = if k > 100 {
            proof {
                power2::lemma2_to64();
                power2::lemma_pow2_adds(64, 24);
                power2::lemma_pow2_strictly_increases(88, k as nat);
                lemma_ceil_small(product as int, power2::pow2(k as nat) as int);
            }
            if product == 0 {
                0
            } else {
                1
            }
        } else {
            let unit: u128 = power_of_two(k);
            proof {
                lemma_pow2_bound(k as nat);
            }
            (product + (unit - 1)) / unit
        };
        assert(rank == percentile_rank(p, n as nat));
        let index: usize = if rank == 0 {
            0
        } else if rank > n as u128 {
            n - 1
        } else {
            (rank - 1) as usize
        };
        self.sorted[index]
    }
}

/// The percentile of zero is the smallest sample, that of one the largest, and
/// every percentile is a recorded sample between the two.
pub proof fn law_percentile_bounds(sorted: Seq<u64>, p: u32)
    requires
        ascending(sorted),
        sorted.len() > 0,
    ensures
        percentile(sorted, float_bits::ZERO) == sorted[0],
        percentile(sorted, float_bits::ONE) == sorted.last(),
        sorted[0] <= percentile(sorted, p) <= sorted.last(),
        sorted.contains(percentile(sorted, p)),
{
    let n = sorted.len();
    assert(significand(0) * n == 0) by (nonlinear_arith)
        requires
            significand(0) == 0,
    ;
    power2::lemma_pow2_pos(149);
    lemma_ceil_small(0, power2::pow2(149) as int);
    assert(0 <= percentile_index(p, n) < n);
}

/// `p <= q` as fractions make percentiles in the same order.
pub proof fn law_percentile_monotone(sorted: Seq<u64>, p: u32, q: u32)
    requires
        ascending(sorted),
        p <= q <= float_bits::ONE,
    ensures
        percentile(sorted, p) <= percentile(sorted, q),
{
    let n = sorted.len();
    if n > 0 {
        lemma_rank_monotone(p, q, n);
        assert(percentile_index(p, n) <= percentile_index(q, n));
    }
}

/// A fraction below one ranks at most `n`.
proof fn lemma_rank_at_most(p: u32, n: nat)
    requires
        p < float_bits::ONE,
    ensures
        percentile_rank(p, n) <= n,
{
    let m = significand(p) as int;
    let d = power2::pow2(places(p)) as int;
    power2::lemma2_to64();
    power2::lemma_pow2_pos(places(p));
    if places(p) > 24 {
        power2::lemma_pow2_strictly_increases(24, places(p));
    }
    assert(m < 0x100_0000 <= d);
    assert(m * n <= d * n) by (nonlinear_arith)
        requires
            0 <= m <= d,
            0 <= n,
    ;
    assert(ceil_div(m * n, d) <= n) by (nonlinear_arith)
        requires
            m * n <= d * n,
            d > 0,
            ceil_div(m * n, d) == (m * n + d - 1) / d,
    ;
}

proof fn lemma_rank_monotone(p: u32, q: u32, n: nat)
    requires
        p <= q <= float_bits::ONE,
    ensures
        percentile_rank(p, n) <= percentile_rank(q, n),
{
    if p == q {
    } else if q == float_bits::ONE {
        lemma_rank_at_most(p, n);
    } else {
        let a = significand(p) as int;
        let b = significand(q) as int;
        let x = power2::pow2(places(p)) as int;
        let y = power2::pow2(places(q)) as int;
        power2::lemma_pow2_pos(places(p));
        power2::lemma_pow2_pos(places(q));
        assert(places(q) <= places(p));
        let e = (places(p) - places(q)) as nat;
        power2::lemma_pow2_adds(places(q), e);
        power2::lemma_pow2_pos(e);
        let s = power2::pow2(e) as int;
        assert(x == y * s);
        assert(a <= b * s) by {
            if e == 0 {
                power2::lemma2_to64();
                assert(a <= b);
                assert(b * s == b) by (nonlinear_arith)
                    requires
                        s == 1,
                ;
            } else {
                power2::lemma2_to64();
                if e > 1 {
                    power2::lemma_pow2_strictly_increases(1, e);
                }
                assert(s >= 2);
                assert(b >= 0x80_0000);
                assert(a < 0x100_0000);
                assert(b * s >= 0x100_0000) by (nonlinear_arith)
                    requires
                        b >= 0x80_0000,
                        s >= 2,
                ;
            }
        }
        assert(a * n <= b * n * s) by (nonlinear_arith)
            requires
                a <= b * s,
                0 <= n,
        ;
        lemma_ceil_scaled(a * n, b * n, y, s);
    }
}

/// Rounding up `a / (y * s)` gives at most rounding up `b / y`, when `a` is at
/// most `b * s`.
proof fn lemma_ceil_scaled(a: int, b: int, y: int, s: int)
    requires
        0 <= a <= b * s,
        0 <= b,
        y > 0,
        s > 0,
    ensures
        ceil_div(a, y * s) <= ceil_div(b, y),
{
    let c = ceil_div(b, y);
    assert(b <= c * y) by (nonlinear_arith)
        requires
            c == (b + y - 1) / y,
            y > 0,
    ;
    assert(a <= c * (y * s)) by (nonlinear_arith)
        requires
            a <= b * s,
            b <= c * y,
            s > 0,
    ;
    let d = y * s;
    assert(d > 0) by (nonlinear_arith)
        requires
            d == y * s,
            y > 0,
            s > 0,
    ;
    assert((a + d - 1) / d <= c) by (nonlinear_arith)
        requires
            a <= c * d,
            d > 0,
    ;
}

// ---------------------------------------------------------------------------
// Snapshots and the report line
// ---------------------------------------------------------------------------

/// Combined snapshot of all metrics.
#[derive(Debug, Clone)]
#[non_exhaustive]
pub struct MetricsSnapshot {
    /// Counter values.
    pub counters: CounterValues,
    /// Latency from capture to output.
    pub end_to_end: LatencySnapshot,
    /// Latency from capture to the effect chain.
    pub capture: LatencySnapshot,
    /// Processing time of the effect chain.
    pub processing: LatencySnapshot,
    /// Inference time, a part of processing.
    pub inference: LatencySnapshot,
    /// Latency from the effect chain to output.
    pub output: LatencySnapshot,
}

impl Default for MetricsSnapshot {
    fn default() -> (r: Self)
        ensures
            r.counters == unwritten(),
            r.end_to_end@.len() == 0,
            r.capture@.len() == 0,
            r.processing@.len() == 0,
            r.inference@.len() == 0,
            r.output@.len() == 0,
    {
        MetricsSnapshot {
            counters: CounterValues::default(),
            end_to_end: LatencySnapshot::default(),
            capture: LatencySnapshot::default(),
            processing: LatencySnapshot::default(),
            inference: LatencySnapshot::default(),
            output: LatencySnapshot::default(),
        }
    }
}

impl MetricsSnapshot {
    /// An empty snapshot.
    #[must_use]
    pub fn new() -> (r: Self)
        ensures
            r.counters == unwritten(),
            r.end_to_end@.len() == 0,
            r.capture@.len() == 0,
            r.processing@.len() == 0,
            r.inference@.len() == 0,
            r.output@.len() == 0,
    {
        MetricsSnapshot::default()
    }

    /// Replace the counter values.
    #[must_use]
    pub fn with_counters(self, counters: CounterValues) -> (r: Self)
        ensures
            r == (MetricsSnapshot { counters, ..self }),
    {
        let mut out = self;
        out.counters = counters;
        out
    }

    /// Replace the end-to-end latencies.
    #[must_use]
    pub fn with_end_to_end(self, snap: LatencySnapshot) -> (r: Self)
        ensures
            r == (MetricsSnapshot { end_to_end: snap, ..self }),
    {
        let mut out = self;
        out.end_to_end = snap;
        out
    }

    /// Replace the capture-side latencies.
    #[must_use]
    pub fn with_capture(self, snap: LatencySnapshot) -> (r: Self)
        ensures
            r == (MetricsSnapshot { capture: snap, ..self }),
    {
        let mut out = self;
        out.capture = snap;
        out
    }

    /// Replace the processing latencies.
    #[must_use]
    pub fn with_processing(self, snap: LatencySnapshot) -> (r: Self)
        ensures
            r == (MetricsSnapshot { processing: snap, ..self }),
    {
        let mut out = self;
        out.processing = snap;
        out
    }

    /// Replace the inference latencies.
    #[must_use]
    pub fn with_inference(self, snap: LatencySnapshot) -> (r: Self)
        ensures
            r == (MetricsSnapshot { inference: snap, ..self }),
    {
        let mut out = self;
        out.inference = snap;
        out
    }

    /// Replace the output-side latencies.
    #[must_use]
    pub fn with_output(self, snap: LatencySnapshot) -> (r: Self)
        ensures
            r == (MetricsSnapshot { output: snap, ..self }),
    {
        let mut out = self;
        out.output = snap;
        out
    }
}

/// What a stage timing is recorded under.
#[derive(Debug, Clone, Copy)]
pub struct StageKey {
    /// Who reports it.
    pub scope: &'static str,
    /// What it is about.
    pub stage: &'static str,
}

impl StageKey {
    /// A key.
    #[must_use]
    pub fn new(scope: &'static str, stage: &'static str) -> (r: Self)
        ensures
            r.scope == scope,
            r.stage == stage,
    {
        StageKey { scope, stage }
    }
}

/// The samples of one stage.
pub ghost struct StageSamples {
    /// Who reports it.
    pub scope: Seq<char>,
    /// What it is about.
    pub stage: Seq<char>,
    /// The samples in microseconds, oldest first.
    pub samples: Seq<u64>,
}

/// Position of a stage among the first `n` of a list, or `n`.
pub open spec fn stage_position(
    list: Seq<StageSamples>,
    scope: Seq<char>,
    stage: Seq<char>,
    n: int,
) -> int
    decreases n,
{
    if n <= 0 {
        0
    } else {
        let p = stage_position(list, scope, stage, n - 1);
        if p < n - 1 || (list[n - 1].scope == scope && list[n - 1].stage == stage) {
            p
        } else {
            n
        }
    }
}

/// A list of stages after one more sample of a stage, each bounded by `bound`.
pub open spec fn stage_recorded(
    list: Seq<StageSamples>,
    bound: nat,
    scope: Seq<char>,
    stage: Seq<char>,
    us: u64,
) -> Seq<StageSamples> {
    let p = stage_position(list, scope, stage, list.len() as int);
    if p < list.len() {
        list.update(
            p,
            StageSamples { samples: recorded(list[p].samples, bound, us), ..list[p] },
        )
    } else {
        list.push(StageSamples { scope, stage, samples: seq![us] })
    }
}

/// One stage and its samples.
#[derive(Debug)]
struct StageEntry {
    key: StageKey,
    samples: LatencyHistogram,
}

/// Bounded samples of each stage that was timed, in the order of first use.
#[derive(Debug)]
pub struct StageTimings {
    entries: Vec<StageEntry>,
    capacity: usize,
}

impl View for StageTimings {
    type V = Seq<StageSamples>;

    closed spec fn view(&self) -> Seq<StageSamples> {
        Seq::new(
            self.entries@.len(),
            |i: int|
                StageSamples {
                    scope: self.entries@[i].key.scope@,
                    stage: self.entries@[i].key.stage@,
                    samples: self.entries@[i].samples@,
                },
        )
    }
}

impl StageTimings {
    /// Every histogram has the one bound.
    #[verifier::type_invariant]
    spec fn even(self) -> bool {
        &&& self.capacity >= 1
        &&& forall|i: int|
            0 <= i < self.entries@.len() ==> (#[trigger] self.entries@[i]).samples.bound()
                == self.capacity
    }

    /// The bound on the number of samples of a stage.
    pub closed spec fn bound(&self) -> usize {
        self.capacity
    }

    /// No timings yet, at most `capacity` samples for each stage; a zero
    /// `capacity` is taken as one.
    #[must_use]
    pub fn with_capacity(capacity: usize) -> (r: Self)
        ensures
            r@.len() == 0,
            r.bound() == (if capacity == 0 {
                1
            } else {
                capacity
            }),
    {
        StageTimings {
            entries: Vec::new(),
            capacity: if capacity == 0 {
                1
            } else {
                capacity
            },
        }
    }

    /// Record one sample of a stage, in whole microseconds.
    pub fn record(&mut self, key: StageKey, d: Duration)
        ensures
            final(self).bound() == old(self).bound(),
            final(self)@ == stage_recorded(
                old(self)@,
                old(self).bound() as nat,
                key.scope@,
                key.stage@,
                saturated(frame::duration_micros(d)),
            ),
    {
        proof {
            use_type_invariant(&*self);
        }
        let ghost list = self@;
        let ghost us = saturated(frame::duration_micros(d));
        let n: usize = self.entries.len();
        let at: usize = self.position(key.scope, key.stage);
        let mut entries: Vec<StageEntry> = Vec::new();
        std::mem::swap(&mut entries, &mut self.entries);
        if at < n {
            entries[at].samples.record_duration(d);
        } else {
            let mut samples = LatencyHistogram::with_capacity(self.capacity);
            samples.record_duration(d);
            assert(samples@ =~= seq![us]);
            entries.push(StageEntry { key, samples });
        }
        self.entries = entries;
        assert(self@ =~= stage_recorded(
            list,
            self.capacity as nat,
            key.scope@,
            key.stage@,
            us,
        ));
    }

    /// The samples of a stage, sorted, if it was timed.
    #[must_use]
    pub fn snapshot(&self, scope: &str, stage: &str) -> (r: Option<LatencySnapshot>)
        ensures
            ({
                let p = stage_position(self@, scope@, stage@, self@.len() as int);
                match r {
                    Some(s) => p < self@.len() && s.wf() && s@.to_multiset()
                        == self@[p].samples.to_multiset(),
                    None => p == self@.len(),
                }
            }),
    {
        let at: usize = self.position(scope, stage);
        if at < self.entries.len() {
            Some(self.entries[at].samples.snapshot())
        } else {
            None
        }
    }

    /// Position of a stage, or the number of stages.
    fn position(&self, scope: &str, stage: &str) -> (r: usize)
        ensures
            r == stage_position(self@, scope@, stage@, self@.len() as int),
            r <= self.entries@.len(),
    {
        let n: usize = self.entries.len();
        let mut at: usize = 0;
        while at < n
            invariant
                at <= n,
                n == self.entries@.len(),
                n == self@.len(),
                stage_position(self@, scope@, stage@, at as int) == at,
            decreases n - at,
        {
            if text::same(self.entries[at].key.scope, scope) && text::same(
                self.entries[at].key.stage,
                stage,
            ) {
                proof {
                    lemma_stage_position(self@, scope@, stage@, at as int, n as int);
                }
                return at;
            }
            at = at + 1;
        }
        n
    }
}

/// The first position of a stage is its position in the whole list.
proof fn lemma_stage_position(
    list: Seq<StageSamples>,
    scope: Seq<char>,
    stage: Seq<char>,
    at: int,
    n: int,
)
    requires
        0 <= at < n <= list.len(),
        stage_position(list, scope, stage, at) == at,
        list[at].scope == scope && list[at].stage == stage,
    ensures
        stage_position(list, scope, stage, n) == at,
    decreases n,
{
    if n > at + 1 {
        lemma_stage_position(list, scope, stage, at, n - 1);
    }
}

/// Telemetry sink handed to an effect through the frame context.
///
/// The default is a sink that discards what it is given.
#[derive(Debug)]
pub struct EffectTelemetry {
    inference: Option<LatencyHistogram>,
    stages: Option<StageTimings>,
}

impl EffectTelemetry {
    /// Samples recorded so far, if the sink keeps any.
    pub closed spec fn samples(&self) -> Option<Seq<u64>> {
        match self.inference {
            Some(h) => Some(h@),
            None => None,
        }
    }

    /// Bound of the histogram behind the sink.
    pub closed spec fn bound(&self) -> nat {
        match self.inference {
            Some(h) => h.bound() as nat,
            None => 0,
        }
    }

    /// Stage timings recorded so far, if the sink keeps any.
    pub closed spec fn stages(&self) -> Option<Seq<StageSamples>> {
        match self.stages {
            Some(t) => Some(t@),
            None => None,
        }
    }

    /// Bound on the samples of a stage.
    pub closed spec fn stage_bound(&self) -> nat {
        match self.stages {
            Some(t) => t.bound() as nat,
            None => 0,
        }
    }

    /// Whether the sink is `before` after an inference sample of `us`
    /// microseconds.
    pub open spec fn follows(&self, before: EffectTelemetry, us: u64) -> bool {
        &&& self.samples() == (match before.samples() {
            Some(s) => Some(recorded(s, before.bound(), us)),
            None => None,
        })
        &&& self.bound() == before.bound()
        &&& self.stages() == before.stages()
        &&& self.stage_bound() == before.stage_bound()
    }

    /// Whether the sink is `before` after a sample of `us` microseconds of a
    /// stage.
    pub open spec fn stage_follows(
        &self,
        before: EffectTelemetry,
        scope: Seq<char>,
        stage: Seq<char>,
        us: u64,
    ) -> bool {
        &&& self.stages() == (match before.stages() {
            Some(list) => Some(stage_recorded(list, before.stage_bound(), scope, stage, us)),
            None => None,
        })
        &&& self.stage_bound() == before.stage_bound()
        &&& self.samples() == before.samples()
        &&& self.bound() == before.bound()
    }

    /// A sink that records inference timings into `inference`.
    #[must_use]
    pub fn with_inference(inference: LatencyHistogram) -> (r: Self)
        ensures
            r.samples() == Some(inference@),
            r.bound() == inference.bound(),
            r.stages() is None,
    {
        EffectTelemetry { inference: Some(inference), stages: None }
    }

    /// The sink, recording stage timings into `stages` too.
    #[must_use]
    pub fn with_stages(self, stages: StageTimings) -> (r: Self)
        ensures
            r.samples() == self.samples(),
            r.bound() == self.bound(),
            r.stages() == Some(stages@),
            r.stage_bound() == stages.bound(),
    {
        EffectTelemetry { inference: self.inference, stages: Some(stages) }
    }

    /// Record one inference latency sample.  No effect on a sink without a
    /// histogram.
    pub fn record_inference(&mut self, d: Duration)
        ensures
            final(self).follows(*old(self), saturated(frame::duration_micros(d))),
    {
        if let Some(h) = &mut self.inference {
            h.record_duration(d);
        }
    }

    /// Record one sample of a stage.  No effect on a sink without stage timings.
    pub fn record_stage(&mut self, key: StageKey, d: Duration)
        ensures
            final(self).stage_follows(
                *old(self),
                key.scope@,
                key.stage@,
                saturated(frame::duration_micros(d)),
            ),
    {
        if let Some(t) = &mut self.stages {
            t.record(key, d);
        }
    }

    /// The histogram behind the sink.
    #[must_use]
    pub fn inference(&self) -> (r: Option<&LatencyHistogram>)
        ensures
            match r {
                Some(h) => self.samples() == Some(h@) && self.bound() == h.bound(),
                None => self.samples() is None,
            },
    {
        match &self.inference {
            Some(h) => Some(h),
            None => None,
        }
    }

    /// The stage timings behind the sink.
    #[must_use]
    pub fn stage_timings(&self) -> (r: Option<&StageTimings>)
        ensures
            match r {
                Some(t) => self.stages() == Some(t@) && self.stage_bound() == t.bound(),
                None => self.stages() is None,
            },
    {
        match &self.stages {
            Some(t) => Some(t),
            None => None,
        }
    }
}

impl Default for EffectTelemetry {
    fn default() -> (r: Self)
        ensures
            r.samples() is None,
            r.stages() is None,
    {
        EffectTelemetry { inference: None, stages: None }
    }
}

/// Rolling-window figures that only a periodic reporter has.
#[derive(Debug, Clone, Copy)]
pub struct PeriodicExtras {
    /// Frames published since the previous tick.
    pub frames_out_delta: u64,
    /// Frames dropped since the previous tick.
    pub dropped_delta: u64,
    /// Wall-clock window the deltas were observed over.
    pub window: Duration,
}

/// Median and 95th percentile of one stage, in microseconds.
#[derive(Debug, Clone, Copy, PartialEq, Eq, Structural)]
pub struct StagePercentiles {
    /// Median.
    pub p50_us: u64,
    /// 95th percentile.
    pub p95_us: u64,
}

/// The two percentiles of a stage.
pub open spec fn stage_of(sorted: Seq<u64>) -> StagePercentiles {
    StagePercentiles {
        p50_us: percentile(sorted, MEDIAN),
        p95_us: percentile(sorted, NINETY_FIFTH),
    }
}

fn stage(snap: &LatencySnapshot) -> (r: StagePercentiles)
    ensures
        r == stage_of(snap@),
{
    StagePercentiles {
        p50_us: snap.percentile_us(MEDIAN),
        p95_us: snap.percentile_us(NINETY_FIFTH),
    }
}

/// What one metrics line carries.
#[derive(Debug, Clone, Copy)]
pub struct MetricsLine {
    /// `"metrics tick"` for a periodic line, `"run metrics"` for the summary.
    pub message: &'static str,
    /// Frames published since the previous tick; zero in the summary.
    pub frames_out_delta: u64,
    /// Frames dropped since the previous tick; zero in the summary.
    pub dropped_delta: u64,
    /// Window of the deltas; absent in the summary.
    pub window: Option<Duration>,
    /// Every counter and gauge.
    pub counters: CounterValues,
    /// Capture-side percentiles.
    pub capture: StagePercentiles,
    /// Inference percentiles.
    pub inference: StagePercentiles,
    /// Processing percentiles.
    pub processing: StagePercentiles,
    /// Output-side percentiles.
    pub output: StagePercentiles,
    /// End-to-end percentiles.
    pub end_to_end: StagePercentiles,
}

/// Assemble one metrics line: the single source of truth for the metrics field
/// set.
///
/// A periodic reporter passes its rolling-window figures; the teardown summary
/// passes `None`, and the delta fields read zero.
#[must_use]
pub fn emit_metrics_line(snap: &MetricsSnapshot, extras: Option<PeriodicExtras>) -> (r: MetricsLine)
    ensures
        r.message@ == (if extras is Some {
            "metrics tick"@
        } else {
            "run metrics"@
        }),
        r.frames_out_delta == (match extras {
            Some(e) => e.frames_out_delta,
            None => 0,
        }),
        r.dropped_delta == (match extras {
            Some(e) => e.dropped_delta,
            None => 0,
        }),
        r.window == (match extras {
            Some(e) => Some(e.window),
            None => None,
        }),
        r.counters == snap.counters,
        r.capture == stage_of(snap.capture@),
        r.inference == stage_of(snap.inference@),
        r.processing == stage_of(snap.processing@),
        r.output == stage_of(snap.output@),
        r.end_to_end == stage_of(snap.end_to_end@),
{
    let (message, frames_out_delta, dropped_delta, window): (
        &'static str,
        u64,
        u64,
        Option<Duration>,
    ) = match extras {
        Some(e) => ("metrics tick", e.frames_out_delta, e.dropped_delta, Some(e.window)),
        None => ("run metrics", 0, 0, None),
    };
    MetricsLine {
        message,
        frames_out_delta,
        dropped_delta,
        window,
        counters: snap.counters,
        capture: stage(&snap.capture),
        inference: stage(&snap.inference),
        processing: stage(&snap.processing),
        output: stage(&snap.output),
        end_to_end: stage(&snap.end_to_end),
    }
}

// ---------------------------------------------------------------------------
// Laws
// ---------------------------------------------------------------------------

/// Counting an event adds one to its own total, which wraps around, and touches no
/// other value.
pub proof fn law_events_are_counted_apart(c: &mut Counters)
    ensures
        call_ensures(Counters::inc_frames_in, (c,), ()) ==> final(c)@.frames_in == (old(c)@.frames_in + 1) % 0x1_0000_0000_0000_0000 && final(c)@
            == (CounterValues { frames_in: final(c)@.frames_in, ..old(c)@ }),
        call_ensures(Counters::inc_frames_out, (c,), ()) ==> final(c)@.frames_out == (old(c)@.frames_out + 1) % 0x1_0000_0000_0000_0000 && final(c)@
            == (CounterValues { frames_out: final(c)@.frames_out, ..old(c)@ }),
        call_ensures(Counters::inc_fallback, (c,), ()) ==> final(c)@.fallback_count == (old(c)@.fallback_count + 1) % 0x1_0000_0000_0000_0000 && final(c)@
            == (CounterValues { fallback_count: final(c)@.fallback_count, ..old(c)@ }),
        call_ensures(Counters::inc_effect_error, (c,), ()) ==> final(c)@.effect_error_count == (old(c)@.effect_error_count + 1) % 0x1_0000_0000_0000_0000 && final(c)@
            == (CounterValues { effect_error_count: final(c)@.effect_error_count, ..old(c)@ }),
        call_ensures(Counters::inc_inference_runtime_fallback_gpu_to_cpu, (c,), ()) ==> final(c)@.inference_runtime_fallback_gpu_to_cpu == (old(c)@.inference_runtime_fallback_gpu_to_cpu + 1) % 0x1_0000_0000_0000_0000 && final(c)@
            == (CounterValues { inference_runtime_fallback_gpu_to_cpu: final(c)@.inference_runtime_fallback_gpu_to_cpu, ..old(c)@ }),
        call_ensures(Counters::inc_blur_runtime_fallback_gpu_to_cpu, (c,), ()) ==> final(c)@.blur_runtime_fallback_gpu_to_cpu == (old(c)@.blur_runtime_fallback_gpu_to_cpu + 1) % 0x1_0000_0000_0000_0000 && final(c)@
            == (CounterValues { blur_runtime_fallback_gpu_to_cpu: final(c)@.blur_runtime_fallback_gpu_to_cpu, ..old(c)@ }),
        call_ensures(Counters::inc_idle_entered, (c,), ()) ==> final(c)@.idle_entered_total == (old(c)@.idle_entered_total + 1) % 0x1_0000_0000_0000_0000 && final(c)@
            == (CounterValues { idle_entered_total: final(c)@.idle_entered_total, ..old(c)@ }),
        call_ensures(Counters::inc_deep_idle_entered, (c,), ()) ==> final(c)@.deep_idle_entered_total == (old(c)@.deep_idle_entered_total + 1) % 0x1_0000_0000_0000_0000 && final(c)@
            == (CounterValues { deep_idle_entered_total: final(c)@.deep_idle_entered_total, ..old(c)@ }),
        call_ensures(Counters::inc_idle_frames_pushed, (c,), ()) ==> final(c)@.idle_frames_pushed_total == (old(c)@.idle_frames_pushed_total + 1) % 0x1_0000_0000_0000_0000 && final(c)@
            == (CounterValues { idle_frames_pushed_total: final(c)@.idle_frames_pushed_total, ..old(c)@ }),
        call_ensures(Counters::inc_input_acquire_attempts, (c,), ()) ==> final(c)@.input_acquire_attempts_total == (old(c)@.input_acquire_attempts_total + 1) % 0x1_0000_0000_0000_0000 && final(c)@
            == (CounterValues { input_acquire_attempts_total: final(c)@.input_acquire_attempts_total, ..old(c)@ }),
        call_ensures(Counters::inc_input_acquire_failures, (c,), ()) ==> final(c)@.input_acquire_failures_total == (old(c)@.input_acquire_failures_total + 1) % 0x1_0000_0000_0000_0000 && final(c)@
            == (CounterValues { input_acquire_failures_total: final(c)@.input_acquire_failures_total, ..old(c)@ }),
        call_ensures(Counters::inc_resume_failures, (c,), ()) ==> final(c)@.resume_failures_total == (old(c)@.resume_failures_total + 1) % 0x1_0000_0000_0000_0000 && final(c)@
            == (CounterValues { resume_failures_total: final(c)@.resume_failures_total, ..old(c)@ }),
        call_ensures(Counters::inc_unattributable_wakes, (c,), ()) ==> final(c)@.unattributable_wakes_total == (old(c)@.unattributable_wakes_total + 1) % 0x1_0000_0000_0000_0000 && final(c)@
            == (CounterValues { unattributable_wakes_total: final(c)@.unattributable_wakes_total, ..old(c)@ }),
        call_ensures(Counters::inc_consumer_resync, (c,), ()) ==> final(c)@.consumer_resync_total == (old(c)@.consumer_resync_total + 1) % 0x1_0000_0000_0000_0000 && final(c)@
            == (CounterValues { consumer_resync_total: final(c)@.consumer_resync_total, ..old(c)@ }),
        call_ensures(Counters::inc_consumer_resync_corrections, (c,), ()) ==> final(c)@.consumer_resync_corrections_total == (old(c)@.consumer_resync_corrections_total + 1) % 0x1_0000_0000_0000_0000 && final(c)@
            == (CounterValues { consumer_resync_corrections_total: final(c)@.consumer_resync_corrections_total, ..old(c)@ }),
        call_ensures(Counters::inc_consumer_resync_failures, (c,), ()) ==> final(c)@.consumer_resync_failures_total == (old(c)@.consumer_resync_failures_total + 1) % 0x1_0000_0000_0000_0000 && final(c)@
            == (CounterValues { consumer_resync_failures_total: final(c)@.consumer_resync_failures_total, ..old(c)@ }),
        call_ensures(Counters::inc_output_stream_down, (c,), ()) ==> final(c)@.output_stream_down_total == (old(c)@.output_stream_down_total + 1) % 0x1_0000_0000_0000_0000 && final(c)@
            == (CounterValues { output_stream_down_total: final(c)@.output_stream_down_total, ..old(c)@ }),
        call_ensures(Counters::inc_frames_out_while_no_consumer, (c,), ()) ==> final(c)@.frames_out_while_no_consumer_total == (old(c)@.frames_out_while_no_consumer_total + 1) % 0x1_0000_0000_0000_0000 && final(c)@
            == (CounterValues { frames_out_while_no_consumer_total: final(c)@.frames_out_while_no_consumer_total, ..old(c)@ }),
        call_ensures(Counters::inc_input_reacquire, (c,), ()) ==> final(c)@.input_reacquire_total == (old(c)@.input_reacquire_total + 1) % 0x1_0000_0000_0000_0000 && final(c)@
            == (CounterValues { input_reacquire_total: final(c)@.input_reacquire_total, ..old(c)@ }),
        call_ensures(Counters::inc_input_reacquire_failures, (c,), ()) ==> final(c)@.input_reacquire_failures_total == (old(c)@.input_reacquire_failures_total + 1) % 0x1_0000_0000_0000_0000 && final(c)@
            == (CounterValues { input_reacquire_failures_total: final(c)@.input_reacquire_failures_total, ..old(c)@ }),
{
}

/// Adding to a total adds the amount, and the total wraps around; a gauge takes the
/// value that it is set to.  Neither touches another value.
pub proof fn law_amounts_and_gauges(c: &mut Counters, n: u64)
    ensures
        call_ensures(Counters::add_frames_dropped, (c, n), ()) ==> final(c)@.frames_dropped == (old(c)@.frames_dropped + n) % 0x1_0000_0000_0000_0000 && final(c)@
            == (CounterValues { frames_dropped: final(c)@.frames_dropped, ..old(c)@ }),
        call_ensures(Counters::add_input_down_ms, (c, n), ()) ==> final(c)@.input_down_ms_total == (old(c)@.input_down_ms_total + n) % 0x1_0000_0000_0000_0000 && final(c)@
            == (CounterValues { input_down_ms_total: final(c)@.input_down_ms_total, ..old(c)@ }),
        call_ensures(Counters::set_processing_threads, (c, n), ()) ==> final(c)@.processing_threads == n && final(c)@ == (CounterValues {
            processing_threads: n,
            ..old(c)@
        }),
        call_ensures(Counters::set_consumer_clients, (c, n), ()) ==> final(c)@.consumer_clients == n && final(c)@ == (CounterValues {
            consumer_clients: n,
            ..old(c)@
        }),
        call_ensures(Counters::set_consumer_source, (c, n), ()) ==> final(c)@.consumer_source == n && final(c)@ == (CounterValues {
            consumer_source: n,
            ..old(c)@
        }),
        call_ensures(Counters::set_consumer_last_external_event_age_secs, (c, n), ()) ==> final(c)@.consumer_last_external_event_age_secs == n && final(c)@ == (CounterValues {
            consumer_last_external_event_age_secs: n,
            ..old(c)@
        }),
        call_ensures(Counters::set_output_stream_up, (c, n), ()) ==> final(c)@.output_stream_up == n && final(c)@ == (CounterValues {
            output_stream_up: n,
            ..old(c)@
        }),
        call_ensures(Counters::set_external_openers, (c, n), ()) ==> final(c)@.external_openers == n && final(c)@ == (CounterValues {
            external_openers: n,
            ..old(c)@
        }),
{
}

/// A change of the consumer's status sets the gauge and counts one transition.
pub proof fn law_status_counts_transition(c: &mut Counters, status: u8)
    requires
        call_ensures(Counters::set_consumer_status, (c, status), ()),
    ensures
        final(c)@.consumer_status == status,
        final(c)@.consumer_transitions_total == (old(c)@.consumer_transitions_total + 1)
            % 0x1_0000_0000_0000_0000,
        final(c)@ == (CounterValues {
            consumer_status: final(c)@.consumer_status,
            consumer_transitions_total: final(c)@.consumer_transitions_total,
            ..old(c)@
        }),
{
}

/// What a snapshot of the counters shows is what was counted, and a new set of counters
/// has counted nothing.
pub proof fn law_counter_snapshot(c: &Counters, r: CounterValues, fresh: Counters)
    requires
        call_ensures(Counters::snapshot, (c,), r),
        call_ensures(Counters::new, (), fresh),
    ensures
        r == c@,
        fresh@.frames_in == 0 && fresh@.frames_out == 0 && fresh@.frames_dropped == 0,
        fresh@.fallback_count == 0 && fresh@.effect_error_count == 0,
        fresh@.inference_runtime_fallback_gpu_to_cpu == 0,
        fresh@.blur_runtime_fallback_gpu_to_cpu == 0,
        fresh@.consumer_transitions_total == 0 && fresh@.processing_threads == 0,
        fresh@.consumer_clients == 0 && fresh@.input_down_ms_total == 0,
{
}

/// A histogram keeps the latest samples, in order: a new one comes last, and the oldest
/// leaves only a full histogram.
pub proof fn law_sample_recorded(h: &mut LatencyHistogram, value: u64)
    requires
        call_ensures(LatencyHistogram::record_us, (h, value), ()),
        old(h).wf(),
    ensures
        final(h).bound() == old(h).bound(),
        final(h)@.len() == (if old(h)@.len() < old(h).bound() {
            old(h)@.len() + 1
        } else {
            old(h)@.len()
        }),
        final(h)@.last() == value,
        forall|i: int|
            0 <= i < final(h)@.len() - 1 ==> #[trigger] final(h)@[i] == old(h)@[i + old(h)@.len() + 1
                - final(h)@.len()],
{
}

/// A duration counts in whole microseconds, as far as they fit; the smallest and the
/// largest histogram take it alike.
pub proof fn law_duration_recorded(h: &mut LatencyHistogram, d: Duration)
    requires
        call_ensures(LatencyHistogram::record_duration, (h, d), ()),
        old(h).wf(),
    ensures
        final(h)@.last() == (if frame::duration_micros(d) <= u64::MAX {
            frame::duration_micros(d) as u64
        } else {
            u64::MAX
        }),
        final(h)@.len() <= final(h).bound() == old(h).bound(),
{
}

/// A snapshot holds the samples, in ascending order.
pub proof fn law_snapshot_sorted(h: &LatencyHistogram, r: LatencySnapshot, i: int, j: int)
    requires
        call_ensures(LatencyHistogram::snapshot, (h,), r),
        0 <= i <= j < r@.len(),
    ensures
        r@.len() == h@.len(),
        r@.to_multiset() == h@.to_multiset(),
        r@[i] <= r@[j],
{
}

/// Quotients rounded up.
proof fn lemma_rounded_up(a: int, b: int)
    requires
        b > 0,
    ensures
        ceil_div(a, b) * b >= a,
        (ceil_div(a, b) - 1) * b < a,
{
    let q = ceil_div(a, b);
    vstd::arithmetic::div_mod::lemma_fundamental_div_mod(a + b - 1, b);
    vstd::arithmetic::div_mod::lemma_mod_bound(a + b - 1, b);
    assert(q * b >= a && (q - 1) * b < a) by (nonlinear_arith)
        requires
            a + b - 1 == b * q + (a + b - 1) % b,
            0 <= (a + b - 1) % b < b,
    ;
}

/// Nearest rank: where the fraction is `m / d`, the percentile is the sample at the
/// first place by which at least `m / d` of the samples are reached.  A fraction that
/// is negative or no number gives the smallest sample, one of one or more the largest.
pub proof fn law_nearest_rank(s: &LatencySnapshot, p: u32, r: u64)
    requires
        call_ensures(LatencySnapshot::percentile_us, (s, p), r),
        s@.len() > 0,
    ensures
        p >= 0x8000_0000u32 || p > 0x7F80_0000u32 ==> r == s@[0],
        0x3F80_0000u32 <= p <= 0x7F80_0000u32 ==> r == s@.last(),
        p < 0x3F80_0000u32 ==> exists|i: int| #[trigger]
            s@[i] == r && 0 <= i < s@.len() && nearest_rank(p, s@.len(), i),
{
    if p < 0x3F80_0000u32 {
        let n = s@.len();
        let m = significand(p) as int;
        let d = power2::pow2(places(p)) as int;
        power2::lemma_pow2_pos(places(p));
        lemma_rounded_up(m * n, d);
        lemma_rank_at_most(p, n);
        let i = percentile_index(p, n);
        let q = percentile_rank(p, n);
        assert(m * n >= 0) by (nonlinear_arith)
            requires
                m >= 0,
                n >= 0,
        ;
        assert(q >= 0) by (nonlinear_arith)
            requires
                q * d >= m * n,
                m * n >= 0,
                d > 0,
        ;
        if q == 0 {
            assert(m * n <= 0) by (nonlinear_arith)
                requires
                    q * d >= m * n,
                    q == 0,
            ;
            assert(m * n <= (i + 1) * d) by (nonlinear_arith)
                requires
                    m * n <= 0,
                    i == 0,
                    d > 0,
            ;
        }
        assert(nearest_rank(p, n, i));
        assert(s@[i] == r);
    }
}

/// Whether place `i` is the first by which the fraction with the pattern `p` of `n`
/// samples is reached.  The fraction is its significand over a power of two.
pub open spec fn nearest_rank(p: u32, n: nat, i: int) -> bool {
    let m = if p < 0x80_0000u32 {
        p as int
    } else {
        0x80_0000 + (p as int) % 0x80_0000
    };
    let d = if p < 0x80_0000u32 {
        power2::pow2(149) as int
    } else {
        power2::pow2((150 - (p as int) / 0x80_0000) as nat) as int
    };
    &&& m * n <= (i + 1) * d
    &&& i > 0 ==> i * d < m * n
}

/// The median is the middle sample, the lower of two where there are two.
pub proof fn law_median(s: &LatencySnapshot, r: u64)
    requires
        call_ensures(LatencySnapshot::percentile_us, (s, 0x3F00_0000u32), r),
        s@.len() > 0,
    ensures
        r == s@[(s@.len() - 1) / 2],
{
    law_nearest_rank(s, 0x3F00_0000u32, r);
    let n = s@.len();
    let i = choose|i: int| #[trigger]
        s@[i] == r && 0 <= i < s@.len() && nearest_rank(0x3F00_0000u32, n, i);
    power2::lemma2_to64();
    assert(0x3F00_0000int / 0x80_0000 == 126 && 0x3F00_0000int % 0x80_0000 == 0);
    assert(power2::pow2(24) == 0x100_0000);
    assert((150 - 0x3F00_0000int / 0x80_0000) as nat == 24);
    let m = 0x80_0000 + (0x3F00_0000u32 as int) % 0x80_0000;
    let d = power2::pow2((150 - (0x3F00_0000u32 as int) / 0x80_0000) as nat) as int;
    assert(m == 0x80_0000 && d == 0x100_0000);
    assert(m * n <= (i + 1) * d && (i > 0 ==> i * d < m * n));
    assert(n <= 2 * (i + 1) && (i > 0 ==> 2 * i < n)) by (nonlinear_arith)
        requires
            m == 0x80_0000,
            d == 0x100_0000,
            m * n <= (i + 1) * d,
            i > 0 ==> i * d < m * n,
    ;
}

/// One metrics line has, for each stage, the median and the 95th percentile of that
/// stage's own samples, every counter as it is, and the figures of the window where
/// there is one.
pub proof fn law_metrics_line(
    snap: &MetricsSnapshot,
    extras: Option<PeriodicExtras>,
    r: MetricsLine,
    v: u64,
)
    requires
        call_ensures(emit_metrics_line, (snap, extras), r),
    ensures
        call_ensures(LatencySnapshot::percentile_us, (&snap.capture, 0x3F00_0000u32), v) ==> r.capture.p50_us == v,
        call_ensures(LatencySnapshot::percentile_us, (&snap.capture, 0x3F73_3333u32), v) ==> r.capture.p95_us == v,
        call_ensures(LatencySnapshot::percentile_us, (&snap.inference, 0x3F00_0000u32), v) ==> r.inference.p50_us == v,
        call_ensures(LatencySnapshot::percentile_us, (&snap.inference, 0x3F73_3333u32), v) ==> r.inference.p95_us == v,
        call_ensures(LatencySnapshot::percentile_us, (&snap.processing, 0x3F00_0000u32), v) ==> r.processing.p50_us == v,
        call_ensures(LatencySnapshot::percentile_us, (&snap.processing, 0x3F73_3333u32), v) ==> r.processing.p95_us == v,
        call_ensures(LatencySnapshot::percentile_us, (&snap.output, 0x3F00_0000u32), v) ==> r.output.p50_us == v,
        call_ensures(LatencySnapshot::percentile_us, (&snap.output, 0x3F73_3333u32), v) ==> r.output.p95_us == v,
        call_ensures(LatencySnapshot::percentile_us, (&snap.end_to_end, 0x3F00_0000u32), v) ==> r.end_to_end.p50_us == v,
        call_ensures(LatencySnapshot::percentile_us, (&snap.end_to_end, 0x3F73_3333u32), v) ==> r.end_to_end.p95_us == v,
        r.counters == snap.counters,
        extras matches Some(e) ==> r.frames_out_delta == e.frames_out_delta && r.dropped_delta
            == e.dropped_delta && r.window == Some(e.window) && r.message@ == "metrics tick"@,
        extras is None ==> r.frames_out_delta == 0 && r.dropped_delta == 0 && r.window is None
            && r.message@ == "run metrics"@,
{
}

/// Each part of a snapshot is replaced on its own.
pub proof fn law_snapshot_parts(m: MetricsSnapshot, snap: LatencySnapshot, r: MetricsSnapshot)
    ensures
        call_ensures(MetricsSnapshot::with_capture, (m, snap), r) ==> r.capture == snap && r == (MetricsSnapshot {
            capture: snap,
            ..m
        }),
        call_ensures(MetricsSnapshot::with_inference, (m, snap), r) ==> r.inference == snap && r == (MetricsSnapshot {
            inference: snap,
            ..m
        }),
        call_ensures(MetricsSnapshot::with_processing, (m, snap), r) ==> r.processing == snap && r == (MetricsSnapshot {
            processing: snap,
            ..m
        }),
        call_ensures(MetricsSnapshot::with_output, (m, snap), r) ==> r.output == snap && r == (MetricsSnapshot {
            output: snap,
            ..m
        }),
        call_ensures(MetricsSnapshot::with_end_to_end, (m, snap), r) ==> r.end_to_end == snap && r == (MetricsSnapshot {
            end_to_end: snap,
            ..m
        }),
{
}

/// Whether a stage goes by a scope and a name.
pub open spec fn is_stage(s: StageSamples, scope: Seq<char>, stage: Seq<char>) -> bool {
    s.scope == scope && s.stage == stage
}

/// The position of a stage is the first that goes by its names.
proof fn lemma_stage_first(list: Seq<StageSamples>, scope: Seq<char>, stage: Seq<char>, n: int)
    requires
        0 <= n <= list.len(),
    ensures
        0 <= stage_position(list, scope, stage, n) <= n,
        forall|i: int|
            0 <= i < stage_position(list, scope, stage, n) ==> !is_stage(
                #[trigger] list[i],
                scope,
                stage,
            ),
        stage_position(list, scope, stage, n) < n ==> is_stage(
            list[stage_position(list, scope, stage, n)],
            scope,
            stage,
        ),
    decreases n,
{
    if n > 0 {
        lemma_stage_first(list, scope, stage, n - 1);
    }
}

/// A timing goes to the stage of its scope and name, as the latest sample there; a
/// stage that was not timed before comes last; no other stage changes.
pub proof fn law_stage_timed(t: &mut StageTimings, key: StageKey, d: Duration)
    requires
        call_ensures(StageTimings::record, (t, key, d), ()),
    ensures
        final(t).bound() == old(t).bound(),
        ({
            let (before, after) = (old(t)@, final(t)@);
            let us = if frame::duration_micros(d) <= u64::MAX {
                frame::duration_micros(d) as u64
            } else {
                u64::MAX
            };
            exists|at: int|
                {
                    &&& 0 <= at < after.len()
                    &&& is_stage(#[trigger] after[at], key.scope@, key.stage@)
                    &&& after[at].samples.len() > 0 && after[at].samples.last() == us
                    &&& forall|i: int| 0 <= i < at ==> !is_stage(
                        #[trigger] after[i],
                        key.scope@,
                        key.stage@,
                    )
                    &&& forall|i: int|
                        0 <= i < before.len() && i != at ==> after[i] == #[trigger] before[i]
                    &&& at < before.len() ==> after.len() == before.len()
                    &&& at >= before.len() ==> at == before.len() && after.len() == before.len() + 1
                        && after[at].samples.len() == 1
                }
        }),
{
    let (before, after) = (old(t)@, final(t)@);
    lemma_stage_first(before, key.scope@, key.stage@, before.len() as int);
    let at = stage_position(before, key.scope@, key.stage@, before.len() as int);
    assert(is_stage(after[at], key.scope@, key.stage@));
    assert forall|i: int| 0 <= i < at implies !is_stage(
        #[trigger] after[i],
        key.scope@,
        key.stage@,
    ) by {
        assert(after[i] == before[i]);
    }
}

/// A snapshot of a stage is that of the samples under its scope and name, and there is
/// one exactly where the stage was timed.
pub proof fn law_stage_snapshot(
    t: &StageTimings,
    scope: &str,
    stage: &str,
    r: Option<LatencySnapshot>,
)
    requires
        call_ensures(StageTimings::snapshot, (t, scope, stage), r),
    ensures
        r is Some <==> exists|i: int|
            0 <= i < t@.len() && is_stage(#[trigger] t@[i], scope@, stage@),
        r matches Some(s) ==> exists|i: int|
            0 <= i < t@.len() && is_stage(#[trigger] t@[i], scope@, stage@) && s@.to_multiset()
                == t@[i].samples.to_multiset(),
{
    lemma_stage_first(t@, scope@, stage@, t@.len() as int);
    let p = stage_position(t@, scope@, stage@, t@.len() as int);
    if r is Some {
        assert(is_stage(t@[p], scope@, stage@));
    }
}

} // verus!
