//! Laws of requests: which output format they get, what is looked at of their bodies, and how
//! they are refused.
use vstd::prelude::*;

use crate::app_error::{AppErrorView, Status};
use crate::container::probe_returns;
use crate::error::ErrorView;
use crate::media::{default_track, probe_outcome, TrackView};
use crate::opts::{optional_string, OptsView};
use crate::output_type::{requested_output_type, OutputType};
use crate::prefix::{concat, Taken};
use crate::server::{request_outcome, TranscribeQuery};
use crate::text::{ascii_lowercase, is_blank, is_white_space, trimmed};

verus! {

/// Every output format is obtained by its name.
pub proof fn output_types_go_by_their_names(output_type: OutputType)
    ensures
        requested_output_type(Some(output_type.name())) == Ok::<OutputType, ErrorView>(output_type),
{
    reveal_strlit("json");
    reveal_strlit("vtt");
    let name = output_type.name();
    assert(trimmed(name) == name);
    assert(ascii_lowercase(name) == name);
}

proof fn trimmed_ignores_leading_blanks(blank: Seq<char>, s: Seq<char>)
    requires
        is_blank(blank),
    ensures
        trimmed(blank + s) == trimmed(s),
    decreases blank.len(),
{
    if blank.len() == 0 {
        assert(blank + s == s);
    } else {
        assert((blank + s).drop_first() == blank.drop_first() + s);
        assert((blank + s).first() == blank[0]);
        assert(is_blank(blank.drop_first()));
        trimmed_ignores_leading_blanks(blank.drop_first(), s);
    }
}

proof fn trimmed_of_blank(blank: Seq<char>)
    requires
        is_blank(blank),
    ensures
        trimmed(blank) == Seq::<char>::empty(),
    decreases blank.len(),
{
    if blank.len() > 0 {
        assert(is_white_space(blank[0]));
        assert(is_blank(blank.drop_first()));
        trimmed_of_blank(blank.drop_first());
    } else {
        assert(blank == Seq::<char>::empty());
    }
}

proof fn trimmed_ignores_trailing_blanks(s: Seq<char>, blank: Seq<char>)
    requires
        is_blank(blank),
    ensures
        trimmed(s + blank) == trimmed(s),
    decreases s.len() + blank.len(),
{
    if blank.len() == 0 {
        assert(s + blank == s);
    } else if s.len() == 0 {
        assert(s + blank == blank);
        trimmed_of_blank(blank);
        assert(s == Seq::<char>::empty());
    } else if is_white_space(s.first()) {
        assert((s + blank).first() == s.first());
        assert((s + blank).drop_first() == s.drop_first() + blank);
        trimmed_ignores_trailing_blanks(s.drop_first(), blank);
    } else {
        assert((s + blank).first() == s.first());
        assert((s + blank).last() == blank.last());
        assert((s + blank).drop_last() == s + blank.drop_last());
        assert(is_blank(blank.drop_last()));
        trimmed_ignores_trailing_blanks(s, blank.drop_last());
    }
}

/// White space around the name of an output format makes no difference.
pub proof fn white_space_around_output_types_is_ignored(
    before: Seq<char>,
    raw: Seq<char>,
    behind: Seq<char>,
)
    requires
        is_blank(before),
        is_blank(behind),
    ensures
        requested_output_type(Some(before + raw + behind)) == requested_output_type(Some(raw)),
{
    trimmed_ignores_trailing_blanks(before + raw, behind);
    trimmed_ignores_leading_blanks(before, raw);
}

proof fn trimming_keeps_the_case(s: Seq<char>)
    ensures
        trimmed(ascii_lowercase(s)) == ascii_lowercase(trimmed(s)),
    decreases s.len(),
{
    let lower = ascii_lowercase(s);
    if s.len() > 0 {
        assert(is_white_space(lower.first()) == is_white_space(s.first()));
        assert(is_white_space(lower.last()) == is_white_space(s.last()));
        assert(lower.drop_first() == ascii_lowercase(s.drop_first()));
        assert(lower.drop_last() == ascii_lowercase(s.drop_last()));
        if is_white_space(s.first()) {
            trimming_keeps_the_case(s.drop_first());
        } else if is_white_space(s.last()) {
            trimming_keeps_the_case(s.drop_last());
        }
    } else {
        assert(lower == s);
    }
}

/// Two spellings of the name of an output format that differ in the case of ASCII letters only
/// ask for the same.
pub proof fn case_of_output_types_is_ignored(raw: Seq<char>, other: Seq<char>)
    requires
        ascii_lowercase(raw) == ascii_lowercase(other),
    ensures
        requested_output_type(Some(raw)) == requested_output_type(Some(other)),
{
    trimming_keeps_the_case(raw);
    trimming_keeps_the_case(other);
}

/// What was taken from a body after its first `n` chunks.
pub open spec fn taken_from(limit: int, body: Seq<Seq<u8>>, n: int) -> Taken
    decreases n,
{
    if n <= 0 {
        Taken::nothing(limit)
    } else {
        taken_from(limit, body, n - 1).with(body[n - 1])
    }
}

/// Chunks are taken only while the limit is not reached.
pub open spec fn taken_as_wanted(limit: int, body: Seq<Seq<u8>>, n: int) -> bool {
    forall|i: int| 0 <= i < n ==> #[trigger] taken_from(limit, body, i).wants_more()
}

/// What was looked at is replayed, and nothing else: followed by the chunks that were not
/// fetched, it is the body. No more than the limit is looked at.
pub proof fn body_is_replayed_from_its_first_byte(limit: int, body: Seq<Seq<u8>>, n: int)
    requires
        0 <= limit,
        0 <= n <= body.len(),
        taken_as_wanted(limit, body, n),
    ensures
        taken_from(limit, body, n).inv(),
        taken_from(limit, body, n).limit == limit,
        taken_from(limit, body, n).replayed() == concat(body.take(n)),
        taken_from(limit, body, n).wants_more() ==> taken_from(limit, body, n).tail is None,
    decreases n,
{
    if n <= 0 {
        assert(body.take(n) == Seq::<Seq<u8>>::empty());
        assert(taken_from(limit, body, n).replayed() == Seq::<u8>::empty());
    } else {
        body_is_replayed_from_its_first_byte(limit, body, n - 1);
        let before = taken_from(limit, body, n - 1);
        let taken = taken_from(limit, body, n);
        let chunk = body[n - 1];
        assert(before.wants_more());
        assert(body.take(n).drop_last() == body.take(n - 1));
        assert(body.take(n).last() == chunk);
        let room = limit - before.bytes().len();
        if chunk.len() == 0 {
            assert(concat(body.take(n)) == concat(body.take(n - 1)));
        } else if chunk.len() <= room {
            assert(taken.chunks.drop_last() == before.chunks);
            assert(taken.replayed() == before.replayed() + chunk);
        } else {
            assert(taken.chunks.drop_last() == before.chunks);
            assert(chunk.take(room) + chunk.skip(room) == chunk);
            assert(taken.replayed() == before.replayed() + chunk);
        }
    }
}

proof fn concat_starts_with(body: Seq<Seq<u8>>, n: int)
    requires
        0 <= n <= body.len(),
    ensures
        concat(body.take(n)).len() <= concat(body).len(),
        concat(body).take(concat(body.take(n)).len() as int) == concat(body.take(n)),
    decreases body.len() - n,
{
    if n == body.len() {
        assert(body.take(n) == body);
        assert(concat(body).take(concat(body).len() as int) == concat(body));
    } else {
        concat_starts_with(body, n + 1);
        let more = concat(body.take(n + 1));
        assert(body.take(n + 1).drop_last() == body.take(n));
        assert(more == concat(body.take(n)) + body[n]);
        let len = concat(body.take(n)).len() as int;
        assert(concat(body).take(len) == concat(body).take(more.len() as int).take(len));
        assert(more.take(len) == concat(body.take(n)));
    }
}

/// When the look at a body ends, it has seen the first bytes of the body up to the limit, or
/// all of it where it is shorter.
pub proof fn look_sees_the_start_of_the_body(limit: int, body: Seq<Seq<u8>>, n: int)
    requires
        0 <= limit,
        0 <= n <= body.len(),
        taken_as_wanted(limit, body, n),
        n == body.len() || !taken_from(limit, body, n).wants_more(),
    ensures
        taken_from(limit, body, n).bytes() == concat(body).take(
            if concat(body).len() <= limit {
                concat(body).len() as int
            } else {
                limit
            },
        ),
{
    body_is_replayed_from_its_first_byte(limit, body, n);
    concat_starts_with(body, n);
    let taken = taken_from(limit, body, n);
    let seen = taken.bytes();
    let fetched = concat(body.take(n));
    assert(fetched.take(seen.len() as int) == seen);
    assert(concat(body).take(seen.len() as int) == concat(body).take(fetched.len() as int).take(
        seen.len() as int,
    ));
    if n == body.len() {
        assert(body.take(n) == body);
    }
}

/// A request whose media is not recognised is refused as unsupported, whatever its query asks
/// for.
pub proof fn unrecognised_media_is_unsupported(reason: ErrorView, query: TranscribeQuery)
    ensures
        request_outcome(Err(reason), query) matches Err(refusal) && refusal.status
            == Status::UnsupportedMediaType,
{
}

/// A request whose first bytes would keep recognition from coming to an end is refused like one
/// whose media is not recognised, whatever its query asks for.
pub proof fn bytes_that_cannot_be_probed_are_refused(prefix: Seq<u8>, query: TranscribeQuery)
    requires
        !probe_returns(prefix),
    ensures
        request_outcome(default_track(probe_outcome(prefix, None)), query) == request_outcome(
            Err(ErrorView::ProbeFailed),
            query,
        ),
{
}

/// A request whose media is recognised is refused exactly where it asks for an output format
/// that does not exist, as a bad request; otherwise it is served in the format it asks for.
pub proof fn recognised_media_is_served(track: TrackView, query: TranscribeQuery)
    ensures
        match requested_output_type(optional_string(query.output)) {
            Ok(output_type) => request_outcome(Ok(track), query) matches Ok(opts)
                && opts.output_type == output_type,
            Err(error) => request_outcome(Ok(track), query) == Err::<OptsView, AppErrorView>(
                AppErrorView { status: Status::BadRequest, message: error.message() },
            ),
        },
{
}

} // verus!
