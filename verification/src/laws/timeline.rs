//! Laws of the segment buffer: samples stay in order and leave it only from the front, a round
//! on a full window always moves on, so that the window stays bounded, and inference is neither
//! run too often nor put off for ever.
use vstd::arithmetic::power2::lemma2_to64;
use vstd::prelude::*;

use crate::audio::TARGET_SAMPLE_RATE;
use crate::error::ErrorView;
use crate::incremental::{
    backoff_factor, empty_transcriber, infer_threshold, samples_until, segment_end, Transcriber,
};
use crate::opts::Opts;

verus! {

/// What can happen to a segment buffer between the start and the end of a stream.
pub enum Happening<S> {
    /// Samples arrive.
    Samples(Seq<S>),
    /// Inference returns a number of segments.
    Inference(bool, int),
    /// Segments are written, the last of which ends after a number of centiseconds.
    Emitted(bool, i64),
    /// The stream is reset for a new utterance.
    Reset,
}

/// The buffer after something happened.
pub open spec fn after<S>(t: Transcriber<S>, happening: Happening<S>) -> Transcriber<S> {
    match happening {
        Happening::Samples(samples) => t.with_samples(samples),
        Happening::Inference(end_of_stream, n) => t.after_inference(end_of_stream, n),
        Happening::Emitted(end_of_stream, cs) => match segment_end(cs, t.window.len() as int) {
            Ok(end_samples) => t.advanced_past(end_of_stream, end_samples),
            Err(_) => t,
        },
        Happening::Reset => t.discarded(),
    }
}

/// The buffer after all that happened, in order.
pub open spec fn after_all<S>(t: Transcriber<S>, history: Seq<Happening<S>>) -> Transcriber<S>
    decreases history.len(),
{
    if history.len() == 0 {
        t
    } else {
        after(after_all(t, history.drop_last()), history.last())
    }
}

/// All samples that arrived, in order.
pub open spec fn received<S>(history: Seq<Happening<S>>) -> Seq<S>
    decreases history.len(),
{
    if history.len() == 0 {
        Seq::empty()
    } else {
        match history.last() {
            Happening::Samples(samples) => received(history.drop_last()) + samples,
            _ => received(history.drop_last()),
        }
    }
}

/// No sample is repeated or moved, and none is missing behind the front of the window: whatever
/// happens, the window is what arrived without the samples that the buffer has advanced past, and
/// that number never exceeds what arrived. So the offset with which segments are emitted is the
/// place of the window in the stream.
pub proof fn window_is_the_rest_of_the_stream<S>(opts: Opts, history: Seq<Happening<S>>)
    ensures
        ({
            let t = after_all(empty_transcriber::<S>(opts), history);
            &&& 0 <= t.advanced <= received(history).len()
            &&& t.window == received(history).skip(t.advanced)
        }),
    decreases history.len(),
{
    let start = empty_transcriber::<S>(opts);
    if history.len() == 0 {
        assert(start.window == received(history).skip(0));
    } else {
        let before = after_all(start, history.drop_last());
        let heard = received(history.drop_last());
        window_is_the_rest_of_the_stream(opts, history.drop_last());
        let t = after(before, history.last());
        match history.last() {
            Happening::Samples(samples) => {
                assert(t.window == (heard + samples).skip(t.advanced));
            },
            Happening::Inference(_, _) | Happening::Reset => {
                assert(heard.skip(heard.len() as int) == Seq::<S>::empty());
            },
            Happening::Emitted(end_of_stream, cs) => {
                segment_covers_part_of_the_window(cs, before.window.len() as int);
                if let Ok(end_samples) = segment_end(cs, before.window.len() as int) {
                    assert(t.window == heard.skip(t.advanced));
                }
            },
        }
    }
}

/// The buffer never moves back in the stream.
pub proof fn stream_position_never_decreases<S>(
    opts: Opts,
    history: Seq<Happening<S>>,
    earlier: int,
)
    requires
        0 <= earlier <= history.len(),
    ensures
        after_all(empty_transcriber::<S>(opts), history.take(earlier)).advanced <= after_all(
            empty_transcriber::<S>(opts),
            history,
        ).advanced,
    decreases history.len(),
{
    let start = empty_transcriber::<S>(opts);
    if earlier == history.len() {
        assert(history.take(earlier) == history);
    } else {
        stream_position_never_decreases(opts, history.drop_last(), earlier);
        assert(history.drop_last().take(earlier) == history.take(earlier));
        let before = after_all(start, history.drop_last());
        if let Happening::Emitted(_, cs) = history.last() {
            segment_covers_part_of_the_window(cs, before.window.len() as int);
        }
    }
}

/// A segment covers no more samples than there are, and at least one where there are any, so
/// that even a degenerate segment makes progress.
pub proof fn segment_covers_part_of_the_window(cs: i64, available: int)
    requires
        available >= 0,
    ensures
        segment_end(cs, available) matches Ok(samples) ==> 0 <= samples <= available && (available
            > 0 ==> samples >= 1),
{
}

/// A segment that ends within the window covers 160 samples per centisecond.
pub proof fn segment_covers_its_duration(cs: i64, available: int)
    requires
        0 < cs,
        cs * TARGET_SAMPLE_RATE <= usize::MAX,
        cs * 160 <= available,
    ensures
        segment_end(cs, available) == Ok::<int, ErrorView>(cs * 160),
{
}

/// A segment that ends later covers no less.
pub proof fn later_end_covers_no_less(cs: i64, later: i64, available: int)
    requires
        0 <= cs <= later <= usize::MAX,
    ensures
        samples_until(cs as int, available) <= samples_until(later as int, available),
{
}

/// Emitting segments shortens the window, and by as much as the stream position moves.
pub proof fn emitting_makes_progress<S>(t: Transcriber<S>, end_of_stream: bool, cs: i64)
    requires
        t.window.len() > 0,
    ensures
        segment_end(cs, t.window.len() as int) matches Ok(end_samples) ==> {
            let next = t.advanced_past(end_of_stream, end_samples);
            &&& next.window.len() < t.window.len()
            &&& next.advanced - t.advanced == t.window.len() - next.window.len()
        },
{
    segment_covers_part_of_the_window(cs, t.window.len() as int);
}

/// The flush at the end of the stream is a single pass: once its segments are written nothing
/// is left, and no further pass is due.
pub proof fn end_of_stream_is_one_pass<S>(t: Transcriber<S>, end_samples: int)
    ensures
        t.advanced_past(true, end_samples).window.len() == 0,
        !t.advanced_past(true, end_samples).inference_due(true),
{
}

/// At the end of the stream inference is run on any window that is not empty, and all that it
/// returns is final.
pub proof fn end_of_stream_flushes_everything<S>(t: Transcriber<S>, n: int)
    requires
        t.window.len() > 0,
        n >= 0,
    ensures
        t.inference_due(true),
        t.final_segments(true, n) == n,
{
}

/// The buffer after the last pass of a stream, in which inference, if it is due, returns `n`
/// segments, the last of which ends after `end_cs` centiseconds.
pub open spec fn after_last_pass<S>(t: Transcriber<S>, n: int, end_cs: i64) -> Transcriber<S> {
    if !t.inference_due(true) {
        t
    } else if t.final_segments(true, n) == 0 {
        t.after_inference(true, n)
    } else {
        after(t.after_inference(true, n), Happening::Emitted(true, end_cs))
    }
}

/// The buffer after the end of a stream: what the voice activity filter still gave went through
/// a round of its own, then came the last pass.
pub open spec fn after_end<S>(
    t: Transcriber<S>,
    filtered: Option<Round<S>>,
    n: int,
    end_cs: i64,
) -> Transcriber<S> {
    let drained = match filtered {
        Some(round) => after_round(t, round),
        None => t,
    };
    after_last_pass(drained, n, end_cs).finished()
}

/// Nothing stays buffered after the end of a stream, and no further pass is due. Where the last
/// pass returned segments and they were written, that is because all that was buffered went with
/// them, what the voice activity filter gave last included.
pub proof fn nothing_is_left_after_the_end<S>(
    t: Transcriber<S>,
    filtered: Option<Round<S>>,
    n: int,
    end_cs: i64,
)
    ensures
        after_end(t, filtered, n, end_cs).window.len() == 0,
        !after_end(t, filtered, n, end_cs).inference_due(true),
        !after_end(t, filtered, n, end_cs).inference_due(false),
        ({
            let drained = match filtered {
                Some(round) => after_round(t, round),
                None => t,
            };
            n > 0 && segment_end(end_cs, drained.window.len() as int) is Ok
                ==> after_end(t, filtered, n, end_cs).advanced == drained.advanced
                + drained.window.len()
        }),
{
}

/// A full window is not waited on: inference is run on it however long the last pass asked to
/// wait, and all that it returns is final.
pub proof fn full_window_is_flushed<S>(t: Transcriber<S>, n: int)
    requires
        t.window.len() > 0,
        t.window.len() >= t.max_window,
        t.window.len() >= t.min_window,
        n >= 0,
    ensures
        t.inference_due(false),
        t.final_segments(false, n) == n,
{
}

/// A round on a full window moves on whatever inference returns: without a segment the whole
/// window is passed over, otherwise the window becomes shorter with the segments.
pub proof fn full_window_always_moves_on<S>(t: Transcriber<S>, n: int, cs: i64)
    requires
        t.window.len() > 0,
        t.window.len() >= t.max_window,
    ensures
        n <= 0 ==> t.after_inference(false, n) == t.discarded(),
        n > 0 ==> t.after_inference(false, n) == t && t.final_segments(false, n) == n,
        t.discarded().window.len() == 0,
        t.discarded().advanced == t.advanced + t.window.len(),
        segment_end(cs, t.window.len() as int) matches Ok(end_samples) ==> t.advanced_past(
            false,
            end_samples,
        ).window.len() < t.window.len(),
{
    segment_covers_part_of_the_window(cs, t.window.len() as int);
}

/// A chunk of samples, and what comes of the pass that it may make due.
pub struct Round<S> {
    /// The samples that arrive.
    pub samples: Seq<S>,
    /// The number of segments that inference returns.
    pub segments: int,
    /// Where the last segment that is written ends, in centiseconds.
    pub end_cs: i64,
}

/// The buffer after a round of processing while the stream runs.
pub open spec fn after_round<S>(t: Transcriber<S>, round: Round<S>) -> Transcriber<S> {
    let grown = t.with_samples(round.samples);
    if !grown.inference_due(false) {
        grown
    } else if grown.final_segments(false, round.segments) == 0 {
        grown.after_inference(false, round.segments)
    } else {
        after(
            grown.after_inference(false, round.segments),
            Happening::Emitted(false, round.end_cs),
        )
    }
}

/// The buffer after all rounds, in order.
pub open spec fn after_rounds<S>(t: Transcriber<S>, rounds: Seq<Round<S>>) -> Transcriber<S>
    decreases rounds.len(),
{
    if rounds.len() == 0 {
        t
    } else {
        after_round(after_rounds(t, rounds.drop_last()), rounds.last())
    }
}

/// The longest window that a round can leave: the cap, or the minimum window if that is longer.
pub open spec fn window_bound<S>(t: Transcriber<S>) -> int {
    if t.min_window <= t.max_window {
        t.max_window
    } else {
        t.min_window
    }
}

/// The segments that a flush of the full window writes reach at least as far into it as the
/// chunk is long with which the round began.
pub open spec fn flush_keeps_up<S>(t: Transcriber<S>, round: Round<S>) -> bool {
    let len = t.window.len() + round.samples.len();
    len >= t.max_window && round.segments > 0 ==> match segment_end(round.end_cs, len as int) {
        Ok(end_samples) => end_samples >= round.samples.len(),
        Err(_) => false,
    }
}

/// A round leaves a window within the bound within the bound; in between, the window is longer
/// by the chunk that arrived, at most.
pub proof fn round_keeps_the_window_bounded<S>(t: Transcriber<S>, round: Round<S>)
    requires
        t.max_window > 0,
        t.window.len() <= window_bound(t),
        flush_keeps_up(t, round),
    ensures
        t.with_samples(round.samples).window.len() <= window_bound(t) + round.samples.len(),
        after_round(t, round).window.len() <= window_bound(t),
        window_bound(after_round(t, round)) == window_bound(t),
        after_round(t, round).max_window == t.max_window,
{
    let grown = t.with_samples(round.samples);
    segment_covers_part_of_the_window(round.end_cs, grown.window.len() as int);
}

/// Memory does not grow without bound: over any number of rounds the window stays within the cap,
/// or the minimum window if that is longer, provided that flushes of a full window keep up with
/// what arrives. Passes that return no segment need no such provision.
pub proof fn window_stays_bounded<S>(opts: Opts, rounds: Seq<Round<S>>)
    requires
        forall|i: int|
            0 <= i < rounds.len() ==> flush_keeps_up(
                after_rounds(empty_transcriber::<S>(opts), #[trigger] rounds.take(i)),
                rounds[i],
            ),
    ensures
        ({
            let start = empty_transcriber::<S>(opts);
            let t = after_rounds(start, rounds);
            &&& t.window.len() <= window_bound(start)
            &&& window_bound(t) == window_bound(start)
            &&& t.max_window == start.max_window
        }),
    decreases rounds.len(),
{
    let start = empty_transcriber::<S>(opts);
    if rounds.len() > 0 {
        let earlier = rounds.drop_last();
        assert forall|i: int| 0 <= i < earlier.len() implies flush_keeps_up(
            after_rounds(start, #[trigger] earlier.take(i)),
            earlier[i],
        ) by {
            assert(earlier.take(i) == rounds.take(i));
        }
        window_stays_bounded(opts, earlier);
        assert(rounds.take(rounds.len() - 1) == earlier);
        round_keeps_the_window_bounded(after_rounds(start, earlier), rounds.last());
    }
}

/// After a reset nothing is left to transcribe, not even at the end of the stream, and the stream
/// position is behind all that was heard.
pub proof fn reset_forgets_what_was_heard<S>(t: Transcriber<S>)
    ensures
        t.discarded().window.len() == 0,
        !t.discarded().inference_due(true),
        !t.discarded().inference_due(false),
        t.discarded().advanced == t.advanced + t.window.len(),
{
}

/// Before the window is full, all segments but the last are final: the last may still change. A
/// single segment is final where that is enabled.
pub proof fn last_segment_is_held_back<S>(t: Transcriber<S>, n: int)
    requires
        !t.force_flush(false),
    ensures
        n >= 2 ==> t.final_segments(false, n) == n - 1,
        n == 1 ==> t.final_segments(false, n) == (if t.emit_single {
            1int
        } else {
            0int
        }),
        n <= 0 ==> t.final_segments(false, n) == 0,
{
}

proof fn backoff_is_between_1_and_16(runs: int)
    ensures
        1 <= backoff_factor(runs) <= 16,
{
    lemma2_to64();
}

/// After a pass without progress inference is not run again before the window has grown by a
/// minimum window or is full.
pub proof fn no_pass_before_more_audio<S>(t: Transcriber<S>, samples: Seq<S>)
    requires
        t.min_window >= 0,
        t.backed_off().with_samples(samples).inference_due(false),
    ensures
        samples.len() >= t.min_window || t.window.len() + samples.len() >= t.max_window,
{
    let runs = t.backed_off().no_progress_runs;
    backoff_is_between_1_and_16(runs);
    assert(t.min_window * backoff_factor(runs) >= t.min_window) by (nonlinear_arith)
        requires
            t.min_window >= 0,
            backoff_factor(runs) >= 1,
    ;
}

/// After segments were emitted, other than in a forced flush, inference is not run again before
/// a minimum window of further audio has arrived or the window is full.
pub proof fn no_pass_right_after_emitting<S>(t: Transcriber<S>, end_samples: int, samples: Seq<S>)
    requires
        !t.force_flush(false),
        0 <= end_samples <= t.window.len(),
        t.advanced_past(false, end_samples).with_samples(samples).inference_due(false),
    ensures
        samples.len() >= t.min_window || t.window.len() - end_samples + samples.len()
            >= t.max_window,
{
}

/// Inference is never put off beyond the length at which the window is flushed anyway, nor, up
/// to that, to a window that is no longer than the current one.
pub proof fn threshold_lies_ahead_within_the_cap(
    current_len: int,
    min_window: int,
    max_window: int,
    runs: int,
)
    requires
        min_window > 0,
    ensures
        infer_threshold(current_len, min_window, max_window, runs) <= max_window,
        current_len < max_window ==> infer_threshold(current_len, min_window, max_window, runs)
            > current_len,
{
    backoff_is_between_1_and_16(runs);
    assert(min_window * backoff_factor(runs) >= min_window) by (nonlinear_arith)
        requires
            min_window > 0,
            backoff_factor(runs) >= 1,
    ;
}

/// Every further pass without progress makes the wait no shorter, and twice as long at first;
/// it is never longer than 16 minimum windows.
pub proof fn backoff_grows_up_to_16(runs: int)
    ensures
        1 <= backoff_factor(runs) <= 16,
        backoff_factor(runs) <= backoff_factor(runs + 1),
        1 <= runs < 5 ==> backoff_factor(runs + 1) == 2 * backoff_factor(runs),
        runs >= 5 ==> backoff_factor(runs) == 16,
{
    lemma2_to64();
    backoff_is_between_1_and_16(runs);
    if 1 <= runs < 5 {
        assert(runs == 1 || runs == 2 || runs == 3 || runs == 4);
    }
}

} // verus!
