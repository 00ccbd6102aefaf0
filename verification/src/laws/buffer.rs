//! Laws of the operations of the segment buffer: what each of them does to the window, to the
//! place of the window in the stream and to the wait for the next pass, whatever came before.
use vstd::arithmetic::power2::lemma2_to64;
use vstd::prelude::*;

use crate::error::{Error, ErrorView};
use crate::incremental::{
    backoff_factor, next_infer_threshold, segment_end_samples, BufferedSegmentTranscriber, Next,
    Progress, Transcriber,
};
use crate::opts::Opts;

verus! {

/// The settings of a buffer are those of another: nothing but the start of a stream sets them.
pub open spec fn same_settings<S>(a: Transcriber<S>, b: Transcriber<S>) -> bool {
    &&& a.min_window == b.min_window
    &&& a.max_window == b.max_window
    &&& a.emit_single == b.emit_single
}

/// Two buffers stand for the same.
pub open spec fn same_buffer<S>(a: Transcriber<S>, b: Transcriber<S>) -> bool {
    &&& same_settings(a, b)
    &&& a.window == b.window
    &&& a.advanced == b.advanced
    &&& a.next_infer_at == b.next_infer_at
    &&& a.no_progress_runs == b.no_progress_runs
}

/// A stream starts with nothing heard, at its first sample. A second of audio is 16,000 samples:
/// the first pass is due after as many seconds as were asked for, but not before one, and a window
/// of 30 seconds is full. Windows of any length that can be counted may be asked for.
pub proof fn stream_starts_empty<S>(opts: Opts, t: BufferedSegmentTranscriber<S>)
    requires
        call_ensures(BufferedSegmentTranscriber::<S>::new, (&opts,), t),
    ensures
        t.inv(),
        t@.window.len() == 0,
        t@.advanced == 0,
        t@.no_progress_runs == 0,
        opts.incremental_min_window_seconds > 0 ==> t@.min_window
            == opts.incremental_min_window_seconds * 16_000,
        opts.incremental_min_window_seconds == 0 ==> t@.min_window == 16_000,
        t@.next_infer_at == t@.min_window,
        t@.max_window == 30 * 16_000,
        t@.emit_single == opts.emit_single_segments,
        forall|other: Opts|
            other.incremental_min_window_seconds * 16_000 <= usize::MAX
                ==> #[trigger] call_requires(BufferedSegmentTranscriber::<S>::new, (&other,)),
{
}

/// The window that is handed to inference is the one that the buffer holds, and it is as long as
/// the buffer says.
pub proof fn window_is_what_is_held<S>(t: BufferedSegmentTranscriber<S>, window: &[S], len: usize)
    requires
        t.inv(),
        call_ensures(BufferedSegmentTranscriber::<S>::window, (&t,), window),
        call_ensures(BufferedSegmentTranscriber::<S>::window_len, (&t,), len),
    ensures
        window@ == t@.window,
        window@.len() == len,
        call_requires(BufferedSegmentTranscriber::<S>::window, (&t,)),
        call_requires(BufferedSegmentTranscriber::<S>::window_len, (&t,)),
{
}

/// While the stream runs, a pass is due exactly if the window is not empty, is at least the
/// minimum window and has grown as far as the last pass asked for or is full. Nothing else counts,
/// the place in the stream least of all.
pub proof fn pass_is_due_when_the_window_has_grown<S>(
    t: BufferedSegmentTranscriber<S>,
    next: Next,
)
    requires
        call_ensures(BufferedSegmentTranscriber::<S>::process_available, (&t, false), next),
    ensures
        t@.window.len() > 0 && t@.window.len() >= t@.min_window && (t@.window.len()
            >= t@.next_infer_at || t@.window.len() >= t@.max_window) ==> next == Next::Infer,
        t@.window.len() == 0 || t@.window.len() < t@.min_window || (t@.window.len()
            < t@.next_infer_at && t@.window.len() < t@.max_window) ==> next == Next::Done(
            Progress::NoOp,
        ),
        t.inv() ==> call_requires(
            BufferedSegmentTranscriber::<S>::process_available,
            (&t, false),
        ),
{
}

/// At the end of the stream a pass is due exactly if anything is left.
pub proof fn last_pass_is_due_while_anything_is_left<S>(
    t: BufferedSegmentTranscriber<S>,
    next: Next,
)
    requires
        call_ensures(BufferedSegmentTranscriber::<S>::process_available, (&t, true), next),
    ensures
        t@.window.len() > 0 ==> next == Next::Infer,
        t@.window.len() == 0 ==> next == Next::Done(Progress::NoOp),
        t.inv() ==> call_requires(BufferedSegmentTranscriber::<S>::process_available, (&t, true)),
{
}

/// Whether a pass is due depends on the lengths alone: two buffers whose windows are as long, and
/// which wait for the same lengths, agree, wherever in their streams they are.
pub proof fn due_passes_depend_on_lengths_alone<S>(
    t: BufferedSegmentTranscriber<S>,
    other: BufferedSegmentTranscriber<S>,
    end_of_stream: bool,
    next: Next,
    other_next: Next,
)
    requires
        t@.window.len() == other@.window.len(),
        t@.min_window == other@.min_window,
        t@.max_window == other@.max_window,
        t@.next_infer_at == other@.next_infer_at,
        call_ensures(BufferedSegmentTranscriber::<S>::process_available, (&t, end_of_stream), next),
        call_ensures(
            BufferedSegmentTranscriber::<S>::process_available,
            (&other, end_of_stream),
            other_next,
        ),
    ensures
        next == other_next,
{
}

/// Samples that arrive are appended, all of them and in their order, and nothing else changes. A
/// pass is then due as it would be if the buffer were asked.
pub proof fn samples_are_appended<S: Copy>(samples: &[S])
    ensures
        forall|t: &mut BufferedSegmentTranscriber<S>, next: Next|
            #[trigger] call_ensures(BufferedSegmentTranscriber::<S>::on_samples, (t, samples), next)
                ==> {
                let before = t@;
                let now = (*final(t))@;
                let len = before.window.len() + samples@.len();
                &&& (*final(t)).inv()
                &&& same_settings(before, now)
                &&& now.window.len() == len
                &&& now.window.take(before.window.len() as int) == before.window
                &&& now.window.skip(before.window.len() as int) == samples@
                &&& now.advanced == before.advanced
                &&& now.next_infer_at == before.next_infer_at
                &&& now.no_progress_runs == before.no_progress_runs
                &&& next == Next::Infer <==> {
                    &&& len > 0
                    &&& len >= before.min_window
                    &&& len >= before.next_infer_at || len >= before.max_window
                }
                &&& next != Next::Infer ==> next == Next::Done(Progress::NoOp)
            },
        forall|t: &mut BufferedSegmentTranscriber<S>|
            t.inv() && t@.advanced + t@.window.len() + samples@.len() <= usize::MAX
                ==> #[trigger] call_requires(
                BufferedSegmentTranscriber::<S>::on_samples,
                (t, samples),
            ),
{
    assert forall|t: &mut BufferedSegmentTranscriber<S>, next: Next|
        #[trigger] call_ensures(
            BufferedSegmentTranscriber::<S>::on_samples,
            (t, samples),
            next,
        ) implies {
        let before = t@;
        let now = (*final(t))@;
        &&& now.window.take(before.window.len() as int) == before.window
        &&& now.window.skip(before.window.len() as int) == samples@
    } by {
        let before = t@;
        let now = (*final(t))@;
        assert(now.window.take(before.window.len() as int) == before.window);
        assert(now.window.skip(before.window.len() as int) == samples@);
    }
}

/// What a pass returns on a window that is not full is final but for the last segment, which
/// further audio may change; a single segment is final where that was asked for. The segments are
/// written with the place of the window in the stream, and the buffer stays as it is until they
/// are.
pub proof fn finished_segments_are_emitted<S>(n: i32)
    requires
        n > 0,
    ensures
        forall|t: &mut BufferedSegmentTranscriber<S>, next: Next|
            #[trigger] call_ensures(
                BufferedSegmentTranscriber::<S>::on_inference,
                (t, false, n),
                next,
            ) && t@.window.len() < t@.max_window && (n >= 2 || t@.emit_single) ==> {
                &&& next matches Next::Emit { count, offset_samples } && offset_samples
                    == t@.advanced && count == (if n == 1 {
                    1
                } else {
                    n - 1
                })
                &&& same_buffer(t@, (*final(t))@)
            },
        forall|t: &mut BufferedSegmentTranscriber<S>|
            t.inv() ==> #[trigger] call_requires(
                BufferedSegmentTranscriber::<S>::on_inference,
                (t, false, n),
            ),
{
}

/// All segments that a pass returns on a full window, or at the end of the stream, are final, and
/// the buffer stays as it is until they are written.
pub proof fn flushed_segments_are_all_emitted<S>(end_of_stream: bool, n: i32)
    requires
        n > 0,
    ensures
        forall|t: &mut BufferedSegmentTranscriber<S>, next: Next|
            #[trigger] call_ensures(
                BufferedSegmentTranscriber::<S>::on_inference,
                (t, end_of_stream, n),
                next,
            ) && (end_of_stream || t@.window.len() >= t@.max_window) ==> {
                &&& next matches Next::Emit { count, offset_samples } && offset_samples
                    == t@.advanced && count == n
                &&& same_buffer(t@, (*final(t))@)
            },
{
}

proof fn waits_in_minimum_windows(min_window: int, runs: int)
    ensures
        backoff_factor(runs) >= 1,
        min_window >= 0 ==> min_window * backoff_factor(runs) >= min_window,
        min_window * backoff_factor(runs) == (if runs <= 1 {
            min_window
        } else if runs == 2 {
            2 * min_window
        } else if runs == 3 {
            4 * min_window
        } else if runs == 4 {
            8 * min_window
        } else {
            16 * min_window
        }),
{
    lemma2_to64();
    let factor = backoff_factor(runs);
    assert(factor == 1 || factor == 2 || factor == 4 || factor == 8 || factor == 16);
    assert(min_window * 1 == min_window) by (nonlinear_arith);
    assert(min_window * 2 == 2 * min_window) by (nonlinear_arith);
    assert(min_window * 4 == 4 * min_window) by (nonlinear_arith);
    assert(min_window * 8 == 8 * min_window) by (nonlinear_arith);
    assert(min_window * 16 == 16 * min_window) by (nonlinear_arith);
}

/// A pass on a window that is not full, and that returns nothing final, moves nothing: no sample
/// leaves, and the place in the stream stays. The next pass waits for a minimum window of further
/// audio, after a second one in a row for two, then for four, eight and from then on sixteen, but
/// never for more than a full window.
pub proof fn fruitless_pass_waits_for_more_audio<S>(n: i32)
    requires
        n <= 1,
    ensures
        forall|t: &mut BufferedSegmentTranscriber<S>, next: Next|
            #[trigger] call_ensures(
                BufferedSegmentTranscriber::<S>::on_inference,
                (t, false, n),
                next,
            ) && t@.window.len() < t@.max_window && (n <= 0 || !t@.emit_single) ==> {
                let before = t@;
                let now = (*final(t))@;
                let runs = now.no_progress_runs;
                let wait = if runs <= 1 {
                    before.min_window
                } else if runs == 2 {
                    2 * before.min_window
                } else if runs == 3 {
                    4 * before.min_window
                } else if runs == 4 {
                    8 * before.min_window
                } else {
                    16 * before.min_window
                };
                &&& next == Next::Done(Progress::NoOp)
                &&& same_settings(before, now)
                &&& now.window == before.window
                &&& now.advanced == before.advanced
                &&& before.no_progress_runs < u32::MAX ==> runs == before.no_progress_runs + 1
                &&& before.no_progress_runs >= u32::MAX ==> runs == u32::MAX
                &&& before.window.len() + wait <= before.max_window ==> now.next_infer_at
                    == before.window.len() + wait
                &&& before.window.len() + wait >= before.max_window ==> now.next_infer_at
                    == before.max_window
            },
{
    assert forall|t: &mut BufferedSegmentTranscriber<S>, next: Next|
        #[trigger] call_ensures(BufferedSegmentTranscriber::<S>::on_inference, (t, false, n), next)
            && t@.window.len() < t@.max_window && (n <= 0 || !t@.emit_single) implies {
        let before = t@;
        let now = (*final(t))@;
        let wait = before.min_window * backoff_factor(now.no_progress_runs);
        &&& before.window.len() + wait <= before.max_window ==> now.next_infer_at
            == before.window.len() + wait
        &&& before.window.len() + wait >= before.max_window ==> now.next_infer_at
            == before.max_window
    } by {
        waits_in_minimum_windows(t@.min_window, (*final(t))@.no_progress_runs);
    }
    assert forall|t: &mut BufferedSegmentTranscriber<S>, next: Next|
        #[trigger] call_ensures(BufferedSegmentTranscriber::<S>::on_inference, (t, false, n), next)
            implies {
        let m = t@.min_window;
        let runs = (*final(t))@.no_progress_runs;
        m * backoff_factor(runs) == (if runs <= 1 {
            m
        } else if runs == 2 {
            2 * m
        } else if runs == 3 {
            4 * m
        } else if runs == 4 {
            8 * m
        } else {
            16 * m
        })
    } by {
        waits_in_minimum_windows(t@.min_window, (*final(t))@.no_progress_runs);
    }
}

/// A full window on which a pass returns nothing is passed over while the stream runs: it is
/// emptied, the place in the stream moves behind it, and the wait starts anew.
pub proof fn full_window_without_segments_is_passed_over<S>(n: i32)
    requires
        n <= 0,
    ensures
        forall|t: &mut BufferedSegmentTranscriber<S>, next: Next|
            #[trigger] call_ensures(
                BufferedSegmentTranscriber::<S>::on_inference,
                (t, false, n),
                next,
            ) && t@.window.len() >= t@.max_window ==> {
                let now = (*final(t))@;
                &&& next == Next::Done(Progress::Advanced)
                &&& same_settings(t@, now)
                &&& now.window.len() == 0
                &&& now.advanced == t@.advanced + t@.window.len()
                &&& now.next_infer_at == t@.min_window
                &&& now.no_progress_runs == 0
            },
{
}

/// A last pass that returns nothing leaves the buffer as it is.
pub proof fn last_pass_without_segments_changes_nothing<S>(n: i32)
    requires
        n <= 0,
    ensures
        forall|t: &mut BufferedSegmentTranscriber<S>, next: Next|
            #[trigger] call_ensures(
                BufferedSegmentTranscriber::<S>::on_inference,
                (t, true, n),
                next,
            ) ==> next == Next::Done(Progress::NoOp) && same_buffer(t@, (*final(t))@),
        forall|t: &mut BufferedSegmentTranscriber<S>|
            t.inv() ==> #[trigger] call_requires(
                BufferedSegmentTranscriber::<S>::on_inference,
                (t, true, n),
            ),
{
}

/// A segment that ends `cs` centiseconds into a window covers 160 samples for each of them, or all
/// samples where it ends behind the last. One that ends where it starts covers one sample, if there
/// is any, so that a degenerate segment makes progress.
pub proof fn segment_covers_160_samples_per_centisecond(
    cs: i64,
    available: usize,
    r: Result<usize, Error>,
)
    requires
        call_ensures(segment_end_samples, (cs, available), r),
        0 <= cs,
        cs * 16_000 <= usize::MAX,
    ensures
        0 < cs * 160 <= available ==> r == Ok::<usize, Error>((cs * 160) as usize),
        cs * 160 >= available ==> r == Ok::<usize, Error>(available),
        cs == 0 && available > 0 ==> r == Ok::<usize, Error>(1),
        call_requires(segment_end_samples, (cs, available)),
{
}

/// Ends that lie too far away for their samples to be counted are as good as any behind the window;
/// only a window that is itself beyond that count is cut there. An end before the window is an
/// error that names it, and so is one that no machine word holds.
pub proof fn far_and_negative_ends(cs: i64, available: usize, r: Result<usize, Error>)
    requires
        call_ensures(segment_end_samples, (cs, available), r),
        cs < 0 || cs * 16_000 > usize::MAX,
    ensures
        cs < 0 ==> (r matches Err(error) && error@ == ErrorView::NegativeEndTimestamp(cs)),
        cs > usize::MAX ==> (r matches Err(error) && error@ == ErrorView::EndTimestampTooLarge),
        0 <= cs <= usize::MAX && available <= usize::MAX / 100 ==> r == Ok::<usize, Error>(
            available,
        ),
        0 <= cs <= usize::MAX && available > usize::MAX / 100 ==> r == Ok::<usize, Error>(
            usize::MAX / 100,
        ),
        call_requires(segment_end_samples, (cs, available)),
{
}

/// While the stream runs, the window advances to the end of the last segment that was written and
/// keeps the rest. Where that segment ends after `end` samples, exactly the first `end` samples
/// leave, every sample behind them stays in its order, and the place in the stream grows by exactly
/// `end`: what was held back is transcribed in the next pass, with the place where it stands.
pub proof fn window_advances_to_the_end_of_the_last_segment<S>(
    count: usize,
    cs: i64,
    available: usize,
    end: usize,
)
    requires
        count > 0,
        call_ensures(segment_end_samples, (cs, available), Ok(end)),
    ensures
        end <= available,
        available > 0 ==> end > 0,
        forall|t: &mut BufferedSegmentTranscriber<S>, r: Result<Next, Error>|
            #[trigger] call_ensures(
                BufferedSegmentTranscriber::<S>::on_emitted,
                (t, false, count, Some(cs)),
                r,
            ) && t@.window.len() == available ==> {
                let before = t@;
                let now = (*final(t))@;
                &&& r == Ok::<Next, Error>(Next::Done(Progress::Advanced))
                &&& (*final(t)).inv()
                &&& same_settings(before, now)
                &&& now.window.len() == available - end
                &&& forall|i: int|
                    0 <= i < available - end ==> #[trigger] now.window[i] == before.window[end + i]
                &&& now.advanced == before.advanced + end
                &&& now.no_progress_runs == 0
                &&& available < before.max_window ==> now.next_infer_at == available - end
                    + before.min_window
                &&& available >= before.max_window ==> now.next_infer_at == before.min_window
            },
        forall|t: &mut BufferedSegmentTranscriber<S>|
            t.inv() && 0 < t@.window.len() && t@.window.len() >= t@.min_window && (t@.window.len()
                >= t@.next_infer_at || t@.window.len() >= t@.max_window)
                ==> #[trigger] call_requires(
                BufferedSegmentTranscriber::<S>::on_emitted,
                (t, false, count, Some(cs)),
            ),
{
}

/// The same in centiseconds: a segment that ends `cs` centiseconds into the window takes the first
/// 160 samples for each of them out of it, and no other.
pub proof fn written_audio_leaves_and_the_rest_stays<S>(count: usize, cs: i64)
    requires
        count > 0,
        0 < cs,
        cs * 16_000 <= usize::MAX,
    ensures
        forall|t: &mut BufferedSegmentTranscriber<S>, r: Result<Next, Error>|
            #[trigger] call_ensures(
                BufferedSegmentTranscriber::<S>::on_emitted,
                (t, false, count, Some(cs)),
                r,
            ) && cs * 160 <= t@.window.len() ==> {
                let now = (*final(t))@;
                &&& r is Ok
                &&& t@.window == t@.window.take(cs * 160) + now.window
                &&& now.advanced == t@.advanced + cs * 160
            },
{
    assert forall|t: &mut BufferedSegmentTranscriber<S>, r: Result<Next, Error>|
        #[trigger] call_ensures(
            BufferedSegmentTranscriber::<S>::on_emitted,
            (t, false, count, Some(cs)),
            r,
        ) && cs * 160 <= t@.window.len() implies {
        let now = (*final(t))@;
        &&& r is Ok
        &&& t@.window == t@.window.take(cs * 160) + now.window
        &&& now.advanced == t@.advanced + cs * 160
    } by {
        let now = (*final(t))@;
        assert(now.window == t@.window.skip(cs * 160));
        assert(t@.window == t@.window.take(cs * 160) + t@.window.skip(cs * 160));
    }
}

/// At the end of the stream the whole window goes with the segments of the last pass, wherever the
/// last of them ends, as long as its end is accepted.
pub proof fn last_segments_take_the_whole_window<S>(count: usize, cs: i64)
    requires
        count > 0,
        0 <= cs <= usize::MAX,
    ensures
        forall|t: &mut BufferedSegmentTranscriber<S>, r: Result<Next, Error>|
            #[trigger] call_ensures(
                BufferedSegmentTranscriber::<S>::on_emitted,
                (t, true, count, Some(cs)),
                r,
            ) ==> {
                let now = (*final(t))@;
                &&& r == Ok::<Next, Error>(Next::Done(Progress::Advanced))
                &&& (*final(t)).inv()
                &&& same_settings(t@, now)
                &&& now.window.len() == 0
                &&& now.advanced == t@.advanced + t@.window.len()
                &&& now.no_progress_runs == 0
                &&& now.next_infer_at == t@.min_window
            },
        forall|t: &mut BufferedSegmentTranscriber<S>|
            t.inv() && 0 < t@.window.len() ==> #[trigger] call_requires(
                BufferedSegmentTranscriber::<S>::on_emitted,
                (t, true, count, Some(cs)),
            ),
{
}

/// A last segment that inference does not have, or whose end is not accepted, is an error that says
/// so, and the buffer stays as it is.
pub proof fn missing_or_misplaced_segments_change_nothing<S>(
    end_of_stream: bool,
    count: usize,
    cs: i64,
)
    requires
        count > 0,
        cs < 0,
    ensures
        forall|t: &mut BufferedSegmentTranscriber<S>, r: Result<Next, Error>|
            #[trigger] call_ensures(
                BufferedSegmentTranscriber::<S>::on_emitted,
                (t, end_of_stream, count, None),
                r,
            ) ==> {
                &&& r matches Err(error) && error@ == ErrorView::MissingSegment(
                    (count - 1) as usize,
                )
                &&& same_buffer(t@, (*final(t))@)
            },
        forall|t: &mut BufferedSegmentTranscriber<S>, r: Result<Next, Error>|
            #[trigger] call_ensures(
                BufferedSegmentTranscriber::<S>::on_emitted,
                (t, end_of_stream, count, Some(cs)),
                r,
            ) ==> {
                &&& r matches Err(error) && error@ == ErrorView::NegativeEndTimestamp(cs)
                &&& same_buffer(t@, (*final(t))@)
            },
{
}

/// Samples that were advanced past are not kept for long: after segments were written while the
/// stream runs, they are dropped if they are a second of audio or half of all that is held, and are
/// kept otherwise.
pub proof fn samples_before_the_window_are_dropped<S>(count: usize, cs: i64)
    requires
        count > 0,
    ensures
        forall|t: &mut BufferedSegmentTranscriber<S>, r: Result<Next, Error>|
            #[trigger] call_ensures(
                BufferedSegmentTranscriber::<S>::on_emitted,
                (t, false, count, Some(cs)),
                r,
            ) && r is Ok ==> {
                let dead = t.dead_samples() + (*final(t))@.advanced - t@.advanced;
                let held = dead + (*final(t))@.window.len();
                (*final(t)).dead_samples() == if dead < 16_000 && dead < held / 2 {
                    dead
                } else {
                    0
                }
            },
{
}

/// A reset forgets what was heard, for a new utterance: the window is empty, its place is behind
/// all that was heard, and the wait starts anew. The settings stay.
pub proof fn reset_moves_behind_what_was_heard<S>(done: ())
    ensures
        forall|t: &mut BufferedSegmentTranscriber<S>|
            #[trigger] call_ensures(BufferedSegmentTranscriber::<S>::reset, (t,), done) ==> {
                let now = (*final(t))@;
                &&& (*final(t)).inv()
                &&& same_settings(t@, now)
                &&& now.window.len() == 0
                &&& now.advanced == t@.advanced + t@.window.len()
                &&& now.next_infer_at == t@.min_window
                &&& now.no_progress_runs == 0
            },
        forall|t: &mut BufferedSegmentTranscriber<S>|
            t.inv() ==> #[trigger] call_requires(BufferedSegmentTranscriber::<S>::reset, (t,)),
{
}

/// The end of a stream empties the window and changes nothing else.
pub proof fn finish_empties_the_window<S>(done: ())
    ensures
        forall|t: &mut BufferedSegmentTranscriber<S>|
            #[trigger] call_ensures(BufferedSegmentTranscriber::<S>::finish, (t,), done) ==> {
                let now = (*final(t))@;
                &&& (*final(t)).inv()
                &&& same_settings(t@, now)
                &&& now.window.len() == 0
                &&& now.advanced == t@.advanced
                &&& now.next_infer_at == t@.next_infer_at
                &&& now.no_progress_runs == t@.no_progress_runs
            },
        forall|t: &mut BufferedSegmentTranscriber<S>|
            t.inv() ==> #[trigger] call_requires(BufferedSegmentTranscriber::<S>::finish, (t,)),
{
}

/// The wait after passes without progress: at first a minimum window of further audio, and never
/// beyond the length at which the window is full.
pub proof fn first_wait_is_a_minimum_window(
    len: usize,
    min_window: usize,
    max_window: usize,
    runs: u32,
    threshold: usize,
)
    requires
        call_ensures(next_infer_threshold, (len, min_window, max_window, runs), threshold),
    ensures
        threshold <= max_window,
        runs <= 1 && len + min_window <= max_window ==> threshold == len + min_window,
        len + min_window >= max_window ==> threshold == max_window,
        call_requires(next_infer_threshold, (len, min_window, max_window, runs)),
{
    waits_in_minimum_windows(min_window as int, runs as int);
}

/// Each further pass without progress doubles the wait, up to sixteen minimum windows; after that
/// it stays.
pub proof fn wait_doubles_up_to_sixteen_windows(
    len: usize,
    min_window: usize,
    max_window: usize,
    runs: u32,
    threshold: usize,
    next_threshold: usize,
)
    requires
        1 <= runs < u32::MAX,
        call_ensures(next_infer_threshold, (len, min_window, max_window, runs), threshold),
        call_ensures(
            next_infer_threshold,
            (len, min_window, max_window, (runs + 1) as u32),
            next_threshold,
        ),
    ensures
        runs < 5 && len <= threshold < max_window ==> {
            &&& len + 2 * (threshold - len) <= max_window ==> next_threshold == len + 2 * (threshold
                - len)
            &&& len + 2 * (threshold - len) >= max_window ==> next_threshold == max_window
        },
        runs >= 5 ==> next_threshold == threshold,
{
    waits_in_minimum_windows(min_window as int, runs as int);
    waits_in_minimum_windows(min_window as int, runs + 1);
    assert(runs < 5 ==> runs == 1 || runs == 2 || runs == 3 || runs == 4);
}

} // verus!
