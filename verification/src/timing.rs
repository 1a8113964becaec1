//! Timing a command and handing the observation to the store.

use crate::estimate::{estimate_tokens, tokens_for};
use crate::record::ExecutionView;
use crate::time::{in_range, Timestamp};
use crate::tracker::{after_attempt, observed, Tracker};
use std::time::{Duration, Instant};
use vstd::prelude::*;

verus! {

/// std's `Instant`: a reading of the monotonic clock. Nothing of its
/// inside is known here.
#[verifier::external_type_specification]
#[verifier::external_body]
pub struct ExInstant(Instant);

/// std's `Instant::now` reads the monotonic clock: nothing is claimed of
/// the reading.
pub assume_specification[ Instant::now ]() -> Instant;

/// std's `Instant::elapsed` gives the time since the reading was taken, by
/// the clock: nothing is claimed of the span.
pub assume_specification[ Instant::elapsed ](start: &Instant) -> Duration;

/// std's `Duration::as_millis` gives the whole milliseconds in the span:
/// nothing is claimed of the number, since nothing is known of the span.
pub assume_specification[ Duration::as_millis ](span: &Duration) -> u128;

/// A timer around one command execution.
pub struct TimedExecution {
    start: Instant,
}

/// The history after an observation made during the execution of a command
/// is handed to the store at the instant `now`, the command having run for
/// `elapsed_ms`: the history after the attempt to record it. A record that
/// the store turns down is lost, and that is all.
pub open spec fn after_track(
    before: Seq<ExecutionView>,
    original_cmd: Seq<char>,
    rtk_cmd: Seq<char>,
    input_tokens: nat,
    output_tokens: nat,
    elapsed_ms: nat,
    now: int,
) -> Seq<ExecutionView> {
    after_attempt(
        before,
        observed(now, original_cmd, rtk_cmd, input_tokens, output_tokens, elapsed_ms),
        now,
    )
}

/// Records in `tracker`, at the instant `now`, a command that ran for
/// `elapsed_ms` and whose unwrapped output `input` and wrapped output
/// `output` were captured: the token counts are estimated from the two
/// texts. The store's refusal, if any, is swallowed.
pub fn track_at(
    tracker: &mut Tracker,
    original_cmd: &str,
    rtk_cmd: &str,
    input: &str,
    output: &str,
    elapsed_ms: u64,
    now: Timestamp,
)
    ensures
        final(tracker)@ == after_track(
            old(tracker)@,
            original_cmd@,
            rtk_cmd@,
            tokens_for(input@.len()),
            tokens_for(output@.len()),
            elapsed_ms as nat,
            now@,
        ),
{
    let input_tokens: usize = estimate_tokens(input);
    let output_tokens: usize = estimate_tokens(output);
    let _ = tracker.record_at(original_cmd, rtk_cmd, input_tokens, output_tokens, elapsed_ms, now);
}

/// Records in `tracker`, at the instant `now`, a command that ran for
/// `elapsed_ms` and whose output was not captured: with no token on either
/// side, so that it adds to the count and to the time and to no token sum.
/// The store's refusal, if any, is swallowed.
pub fn track_passthrough_at(
    tracker: &mut Tracker,
    original_cmd: &str,
    rtk_cmd: &str,
    elapsed_ms: u64,
    now: Timestamp,
)
    ensures
        final(tracker)@ == after_track(old(tracker)@, original_cmd@, rtk_cmd@, 0, 0, elapsed_ms as nat, now@),
{
    let _ = tracker.record_at(original_cmd, rtk_cmd, 0, 0, elapsed_ms, now);
}

/// A span of `millis` whole milliseconds as the store takes it: the number
/// itself where it fits 64 bits, which it does for any span under 584
/// million years, else its low 64 bits.
pub open spec fn span_millis(millis: u128) -> u64 {
    (millis % 0x1_0000_0000_0000_0000) as u64
}

/// The execution time that is recorded for a span of `millis` whole
/// milliseconds.
pub fn recorded_millis(millis: u128) -> (ms: u64)
    ensures
        ms == span_millis(millis),
        millis <= u64::MAX ==> ms == millis,
{
    assert(millis as u64 == (millis % 0x1_0000_0000_0000_0000) as u64) by (bit_vector);
    #[verifier::truncate]
    (millis as u64)
}

impl TimedExecution {
    /// Starts timing a command execution.
    pub fn start() -> TimedExecution {
        TimedExecution { start: Instant::now() }
    }

    /// The whole milliseconds since the timer was started.
    pub fn elapsed_ms(&self) -> u64 {
        let span: Duration = self.start.elapsed();
        recorded_millis(span.as_millis())
    }

    /// Records in `tracker` the command that this timer ran around, with
    /// the time elapsed since the start and the token counts estimated from
    /// the unwrapped output `input` and the wrapped output `output`. The
    /// elapsed time and the instant of recording are the clocks', so of the
    /// outcome this is known: it is that of `track_at` for some elapsed time
    /// and some instant.
    pub fn track(&self, tracker: &mut Tracker, original_cmd: &str, rtk_cmd: &str, input: &str, output: &str)
        ensures
            exists|elapsed_ms: u64, now: int|
                in_range(now) && final(tracker)@ == #[trigger] after_track(
                    old(tracker)@,
                    original_cmd@,
                    rtk_cmd@,
                    tokens_for(input@.len()),
                    tokens_for(output@.len()),
                    elapsed_ms as nat,
                    now,
                ),
    {
        let elapsed_ms: u64 = self.elapsed_ms();
        let now = Timestamp::now();
        track_at(tracker, original_cmd, rtk_cmd, input, output, elapsed_ms, now);
    }

    /// Records in `tracker` the command that this timer ran around, whose
    /// output was not captured: with the time elapsed since the start and
    /// no token on either side. Of the outcome this is known: it is that of
    /// `track_passthrough_at` for some elapsed time and some instant.
    pub fn track_passthrough(&self, tracker: &mut Tracker, original_cmd: &str, rtk_cmd: &str)
        ensures
            exists|elapsed_ms: u64, now: int|
                in_range(now) && final(tracker)@ == #[trigger] after_track(
                    old(tracker)@,
                    original_cmd@,
                    rtk_cmd@,
                    0,
                    0,
                    elapsed_ms as nat,
                    now,
                ),
    {
        let elapsed_ms: u64 = self.elapsed_ms();
        let now = Timestamp::now();
        track_passthrough_at(tracker, original_cmd, rtk_cmd, elapsed_ms, now);
    }
}

/// Records in `tracker` a command whose execution was not timed, with the
/// token counts estimated from the unwrapped output `input` and the wrapped
/// output `output` and an execution time of zero. Of the outcome this is
/// known: it is that of `track_at` with no time elapsed, at some instant.
pub fn track(tracker: &mut Tracker, original_cmd: &str, rtk_cmd: &str, input: &str, output: &str)
    ensures
        exists|now: int|
            in_range(now) && final(tracker)@ == #[trigger] after_track(
                old(tracker)@,
                original_cmd@,
                rtk_cmd@,
                tokens_for(input@.len()),
                tokens_for(output@.len()),
                0,
                now,
            ),
{
    let now = Timestamp::now();
    track_at(tracker, original_cmd, rtk_cmd, input, output, 0, now);
}

} // verus!
