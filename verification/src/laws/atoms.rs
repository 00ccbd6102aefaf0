//! Laws of ISO base media files: how atoms are told apart and passed over, and that the length of
//! the audio makes no difference.
use vstd::prelude::*;

use crate::container::bytes::number;
use crate::container::can_be_probed;
use crate::container::mp4::{
    atom_fits, atom_len, atom_returns, atoms_in, atoms_return, behind_optional_fields,
    chunks_add_up, descriptor_header_len, descriptor_len, descriptors_return, durations_add_up,
    entry_fields_len, header_len, is_atom, is_audio_entry, is_last_atom, is_read_tag,
    media_header_returns, payload_end, payload_returns, short_len, stream_content_returns,
    stream_url, table_fits, Atoms,
};
use crate::laws::chunks::numbers_are_made_of_bytes;
use crate::laws::containers::{
    containers_are_told_by_their_first_bytes, no_marker_before, reads,
    search_goes_to_the_first_marker,
};

verus! {

/// The bytes before `end` are the same.
pub open spec fn agree(s: Seq<u8>, t: Seq<u8>, end: int) -> bool {
    &&& end <= s.len()
    &&& end <= t.len()
    &&& forall|i: int| 0 <= i < end ==> #[trigger] s[i] == t[i]
}

proof fn numbers_agree(s: Seq<u8>, t: Seq<u8>, end: int, at: int, n: int)
    requires
        agree(s, t, end),
        0 <= at,
        at + n <= end,
    ensures
        number(s, at, n) == number(t, at, n),
    decreases n,
{
    if n > 0 {
        numbers_agree(s, t, end, at, n - 1);
        assert(s[at + n - 1] == t[at + n - 1]);
    }
}

proof fn headers_agree(s: Seq<u8>, t: Seq<u8>, end: int, at: int)
    requires
        agree(s, t, end),
        0 <= at,
        at + 8 <= end,
    ensures
        short_len(s, at) == short_len(t, at),
        header_len(s, at) == header_len(t, at),
        forall|a: u8, b: u8, c: u8, d: u8|
            #[trigger] is_atom(s, at, a, b, c, d) == is_atom(t, at, a, b, c, d),
        number(s, at + 4, 4) == number(t, at + 4, 4),
        at + header_len(s, at) <= end ==> atom_len(s, at, end) == atom_len(t, at, end),
        atom_fits(s, at, end) == atom_fits(t, at, end),
{
    numbers_agree(s, t, end, at, 4);
    numbers_agree(s, t, end, at + 4, 4);
    assert(s[at + 4] == t[at + 4] && s[at + 5] == t[at + 5] && s[at + 6] == t[at + 6] && s[at + 7]
        == t[at + 7]);
    if at + 16 <= end {
        numbers_agree(s, t, end, at + 8, 8);
    }
}

proof fn durations_agree(
    s: Seq<u8>,
    t: Seq<u8>,
    end: int,
    from: int,
    k: int,
    count: int,
    total: int,
)
    requires
        agree(s, t, end),
        0 <= from,
        0 <= k,
        from + 8 + 8 * count <= end,
    ensures
        durations_add_up(s, from, k, count, total) == durations_add_up(t, from, k, count, total),
    decreases count - k,
{
    if k < count {
        numbers_agree(s, t, end, from + 8 + 8 * k, 4);
        numbers_agree(s, t, end, from + 12 + 8 * k, 4);
        let next = total + number(s, from + 8 + 8 * k, 4) * number(s, from + 12 + 8 * k, 4);
        durations_agree(s, t, end, from, k + 1, count, next);
    }
}

proof fn chunks_agree(
    s: Seq<u8>,
    t: Seq<u8>,
    end: int,
    from: int,
    k: int,
    count: int,
    first: int,
)
    requires
        agree(s, t, end),
        0 <= from,
        0 <= k,
        from + 8 + 12 * count <= end,
    ensures
        chunks_add_up(s, from, k, count, first) == chunks_add_up(t, from, k, count, first),
    decreases count - k,
{
    if k < count {
        numbers_agree(s, t, end, from + 8 + 12 * k, 4);
        numbers_agree(s, t, end, from + 12 + 12 * k, 4);
        if k + 1 < count {
            numbers_agree(s, t, end, from + 20 + 12 * k, 4);
            let chunk = number(s, from + 8 + 12 * k, 4);
            let next_chunk = number(s, from + 20 + 12 * k, 4);
            let next = first + (next_chunk - chunk) * number(s, from + 12 + 12 * k, 4);
            chunks_agree(s, t, end, from, k + 1, count, next);
        }
    }
}

proof fn descriptor_lens_agree(s: Seq<u8>, t: Seq<u8>, end: int, at: int, n: int)
    requires
        agree(s, t, end),
        0 <= at,
        at + n <= end,
    ensures
        descriptor_len(s, at, n) == descriptor_len(t, at, n),
        descriptor_len(s, at, n) >= 0,
    decreases n,
{
    if n > 1 {
        descriptor_lens_agree(s, t, end, at, n - 1);
        assert(s[at + n - 1] == t[at + n - 1]);
    }
}

proof fn stream_contents_agree(s: Seq<u8>, t: Seq<u8>, all: int, at: int, end: int)
    requires
        agree(s, t, all),
        0 <= at,
        end <= all,
    ensures
        stream_content_returns(s, at, end) == stream_content_returns(t, at, end),
    decreases end - at,
{
    if end - at > 2 {
        let n = descriptor_header_len(s, at, end);
        assert(n == descriptor_header_len(t, at, end));
        descriptor_lens_agree(s, t, all, at, n);
        let len = descriptor_len(s, at, n);
        assert(s[at] == t[at]);
        let next = at + n + (if s[at] == 6 {
            1
        } else {
            len
        });
        if at < next <= end {
            stream_contents_agree(s, t, all, next, end);
        }
    }
}

proof fn descriptors_agree(s: Seq<u8>, t: Seq<u8>, all: int, at: int, end: int, seen: bool)
    requires
        agree(s, t, all),
        0 <= at,
        end <= all,
    ensures
        descriptors_return(s, at, end, seen) == descriptors_return(t, at, end, seen),
    decreases end - at,
{
    if end - at > 2 {
        let n = descriptor_header_len(s, at, end);
        assert(n == descriptor_header_len(t, at, end));
        descriptor_lens_agree(s, t, all, at, n);
        let len = descriptor_len(s, at, n);
        assert(s[at] == t[at]);
        if n > 0 && s[at] == 3 {
            let flags = at + n + 2;
            if len >= 3 && flags < end {
                assert(s[flags] == t[flags]);
                let url = stream_url(s, flags);
                if url < end {
                    assert(s[url] == t[url]);
                    let behind = behind_optional_fields(s, flags);
                    assert(behind == behind_optional_fields(t, flags));
                    if at < behind && behind + len - 3 <= end {
                        stream_contents_agree(s, t, all, behind, behind + len - 3);
                        descriptors_agree(s, t, all, behind + len - 3, end, true);
                    }
                }
            }
        } else if n > 0 && at < at + n + len <= end {
            descriptors_agree(s, t, all, at + n + len, end, seen);
        }
    }
}

proof fn tables_agree(s: Seq<u8>, t: Seq<u8>, all: int, from: int, end: int, head: int, size: int)
    requires
        agree(s, t, all),
        0 <= from,
        end <= all,
        head >= 4,
    ensures
        table_fits(s, from, end, head, size) == table_fits(t, from, end, head, size),
{
    if from + head <= end {
        numbers_agree(s, t, all, from + head - 4, 4);
    }
}

proof fn payloads_agree(
    kind: Atoms,
    s: Seq<u8>,
    t: Seq<u8>,
    all: int,
    at: int,
    from: int,
    end: int,
)
    requires
        agree(s, t, all),
        0 <= at,
        at + 8 <= from,
        from <= end <= all,
    ensures
        payload_returns(kind, s, at, from, end) == payload_returns(kind, t, at, from, end),
{
    headers_agree(s, t, all, at);
    match kind {
        Atoms::Media => {
            assert(media_header_returns(s, from, end) == media_header_returns(t, from, end)) by {
                if from < end {
                    assert(s[from] == t[from]);
                }
                if from + 16 <= end {
                    numbers_agree(s, t, all, from + 12, 4);
                }
                if from + 24 <= end {
                    numbers_agree(s, t, all, from + 20, 4);
                }
            }
        },
        Atoms::SampleTable => {
            tables_agree(s, t, all, from, end, 8, 8);
            tables_agree(s, t, all, from, end, 8, 12);
            tables_agree(s, t, all, from, end, 12, 4);
            tables_agree(s, t, all, from, end, 8, 4);
            if from + 8 <= end {
                numbers_agree(s, t, all, from + 4, 4);
            }
            let count = number(s, from + 4, 4);
            if table_fits(s, from, end, 8, 8) {
                durations_agree(s, t, all, from, 0, count, 0);
            }
            if table_fits(s, from, end, 8, 12) {
                chunks_agree(s, t, all, from, 0, count, 0);
            }
        },
        Atoms::AudioEntry | Atoms::Wave => {
            descriptors_agree(s, t, all, from + 4, end, false);
        },
        _ => {},
    }
}

proof fn atom_agrees(kind: Atoms, s: Seq<u8>, t: Seq<u8>, at: int, end: int)
    requires
        agree(s, t, end),
        0 <= at,
        atom_fits(s, at, end),
    ensures
        atom_returns(kind, s, at, end) == atom_returns(kind, t, at, end),
    decreases end - at, 0int,
{
    headers_agree(s, t, end, at);
    let from = at + header_len(s, at);
    if kind == Atoms::SampleTable && is_atom(s, at, 0x73, 0x74, 0x73, 0x64) {
        let entry = from + 8;
        if entry + 8 <= end {
            headers_agree(s, t, end, entry);
            assert(is_audio_entry(s, entry) == is_audio_entry(t, entry));
            let fields = entry + header_len(s, entry);
            let entry_end = entry + atom_len(s, entry, end);
            if atom_fits(s, entry, end) && fields + 10 <= entry_end {
                numbers_agree(s, t, end, fields + 8, 2);
                let version = number(s, fields + 8, 2);
                let first = fields + entry_fields_len(version);
                if first <= entry_end && entry_end <= end {
                    assert(agree(s, t, entry_end));
                    atoms_agree(Atoms::AudioEntry, s, t, first, entry_end);
                }
            }
        }
    } else {
        assert(atoms_in(kind, s, at) == atoms_in(kind, t, at));
        match atoms_in(kind, s, at) {
            Some((inner, skipped)) => {
                if short_len(s, at) != 0 && from + skipped <= end {
                    atoms_agree(inner, s, t, from + skipped, end);
                }
            },
            None => {
                let stop = payload_end(kind, s, at, end);
                assert(stop == payload_end(kind, t, at, end));
                payloads_agree(kind, s, t, end, at, from, stop);
            },
        }
    }
}

proof fn atoms_agree(kind: Atoms, s: Seq<u8>, t: Seq<u8>, at: int, end: int)
    requires
        agree(s, t, end),
        0 <= at,
        kind != Atoms::File,
    ensures
        atoms_return(kind, s, at, end) == atoms_return(kind, t, at, end),
    decreases end - at, 1int,
{
    if at + 8 <= end {
        headers_agree(s, t, end, at);
        let next = at + atom_len(s, at, end);
        if atom_fits(s, at, end) && at < next <= end {
            assert(agree(s, t, next));
            assert(atom_fits(s, at, next)) by {
                if short_len(s, at) == 0 {
                    assert(next == end);
                }
            }
            atom_agrees(kind, s, t, at, next);
            atoms_agree(kind, s, t, next, end);
        }
    }
}

proof fn file_of_more(s: Seq<u8>, tail: Seq<u8>, at: int)
    requires
        0 <= at,
        atoms_return(Atoms::File, s, at, s.len() as int),
    ensures
        atoms_return(Atoms::File, s + tail, at, (s + tail).len() as int),
    decreases s.len() - at,
{
    let t = s + tail;
    let end = s.len() as int;
    assert(agree(s, t, end));
    if at + 8 <= end {
        headers_agree(s, t, end, at);
        if !is_last_atom(s, at) {
            let next = at + atom_len(s, at, end);
            assert(agree(s, t, next));
            if short_len(s, at) == 0 {
                assert(!atoms_return(Atoms::File, s, end, end));
            }
            assert(atom_fits(s, at, next));
            atom_agrees(Atoms::File, s, t, at, next);
            file_of_more(s, tail, next);
        } else {
            let from = at + header_len(s, at);
            if at + 16 <= end {
                assert(s[at + 8] == t[at + 8]);
            }
            if from + 21 <= end {
                assert(s[from] == t[from] && s[from + 20] == t[from + 20]);
            }
        }
    }
}

/// An ISO base media file that can be probed can be probed just as well with more behind it,
/// however much that is.
pub proof fn more_media_can_be_probed(source: &[u8], longer: &[u8], at: int, a: bool, b: bool)
    requires
        call_ensures(can_be_probed, (source,), a),
        call_ensures(can_be_probed, (longer,), b),
        source@.len() <= longer@.len(),
        longer@.take(source@.len() as int) == source@,
        4 <= at,
        at + 16 <= source@.len(),
        no_marker_before(source@, at),
        no_marker_before(longer@, at),
        reads(source@, at, seq![0x66, 0x74, 0x79, 0x70]),
        a,
    ensures
        b,
{
    let s = source@;
    let tail = longer@.skip(s.len() as int);
    assert(s + tail == longer@);
    assert(longer@.subrange(at, at + 4) == s.subrange(at, at + 4));
    search_goes_to_the_first_marker(s, at);
    search_goes_to_the_first_marker(longer@, at);
    containers_are_told_by_their_first_bytes(s, at);
    containers_are_told_by_their_first_bytes(longer@, at);
    file_of_more(s, tail, at - 4);
}

/// What an atom holds is read from its own bytes alone: what follows it makes no difference.
pub proof fn atom_is_read_from_its_bytes(kind: Atoms, s: Seq<u8>, t: Seq<u8>, at: int, end: int)
    requires
        0 <= at < end <= s.len(),
        end <= t.len(),
        s.take(end) == t.take(end),
        atom_fits(s, at, end),
    ensures
        atom_returns(kind, s, at, end) == atom_returns(kind, t, at, end),
{
    assert forall|i: int| 0 <= i < end implies #[trigger] s[i] == t[i] by {
        assert(s.take(end)[i] == s[i]);
        assert(t.take(end)[i] == t[i]);
    }
    atom_agrees(kind, s, t, at, end);
}

/// The length of an atom is in its first four bytes, or in the eight behind its kind where those
/// say 1; one whose length is 0 extends to the end.
pub proof fn atoms_are_as_long_as_they_say(s: Seq<u8>, at: int, end: int)
    ensures
        ({
            let short = 16_777_216 * s[at] + 65_536 * s[at + 1] + 256 * s[at + 2] + s[at + 3];
            &&& short > 1 ==> atom_len(s, at, end) == short && header_len(s, at) == 8
            &&& short == 0 ==> atom_len(s, at, end) == end - at && header_len(s, at) == 8
            &&& short == 1 ==> atom_len(s, at, end) == number(s, at + 8, 8) && header_len(s, at)
                == 16
        }),
{
    numbers_are_made_of_bytes(s, at);
}

/// An ISO base media file can be probed whose audio follows its first atom, whatever that audio is
/// and however long it is. What comes before the file makes no difference.
pub proof fn audio_behind_the_first_atom_can_be_probed(source: &[u8], at: int, len: int, r: bool)
    requires
        call_ensures(can_be_probed, (source,), r),
        0 <= at,
        no_marker_before(source@, at + 4),
        reads(source@, at + 4, seq![0x66, 0x74, 0x79, 0x70]),
        number(source@, at, 4) == len,
        12 <= len,
        at + len + 8 <= source@.len(),
        reads(source@, at + len + 4, seq![0x6D, 0x64, 0x61, 0x74]),
        number(source@, at + len, 4) != 1,
    ensures
        r,
{
    let s = source@;
    search_goes_to_the_first_marker(s, at + 4);
    containers_are_told_by_their_first_bytes(s, at + 4);
    let kind = s.subrange(at + 4, at + 8);
    assert(kind[0] == 0x66 && kind[1] == 0x74 && kind[2] == 0x79 && kind[3] == 0x70);
    let kind = s.subrange(at + len + 4, at + len + 8);
    assert(kind[0] == 0x6D && kind[1] == 0x64 && kind[2] == 0x61 && kind[3] == 0x74);
    let end = s.len() as int;
    assert(is_last_atom(s, at + len));
    assert(atoms_return(Atoms::File, s, at + len, end));
    assert(atom_returns(Atoms::File, s, at, at + len));
    assert(atoms_return(Atoms::File, s, at, end));
}

/// An atom of the file that is neither the movie, nor metadata, nor audio or an index of it, is
/// passed over, whatever it holds.
pub proof fn other_atoms_are_passed_over(s: Seq<u8>, at: int, end: int)
    requires
        0 <= at,
        end <= s.len(),
        atom_fits(s, at, end),
        !reads(s, at + 4, seq![0x6D, 0x6F, 0x6F, 0x76]),
        !reads(s, at + 4, seq![0x6D, 0x65, 0x74, 0x61]),
        !reads(s, at + 4, seq![0x6D, 0x64, 0x61, 0x74]),
        !reads(s, at + 4, seq![0x6D, 0x6F, 0x6F, 0x66]),
        !reads(s, at + 4, seq![0x73, 0x69, 0x64, 0x78]),
    ensures
        atoms_return(Atoms::File, s, at, end) == atoms_return(
            Atoms::File,
            s,
            at + atom_len(s, at, end),
            end,
        ),
{
    let kind = s.subrange(at + 4, at + 8);
    assert(kind =~= seq![s[at + 4], s[at + 5], s[at + 6], s[at + 7]]);
    assert(atom_returns(Atoms::File, s, at, at + atom_len(s, at, end)));
}

/// The movie can be read exactly if its atoms can be, and is then passed over.
pub proof fn movie_is_read_by_its_atoms(s: Seq<u8>, at: int, len: int)
    requires
        0 <= at,
        at + len <= s.len(),
        number(s, at, 4) == len,
        8 <= len,
        reads(s, at + 4, seq![0x6D, 0x6F, 0x6F, 0x76]),
    ensures
        atoms_return(Atoms::File, s, at, s.len() as int) <==> atoms_return(
            Atoms::Movie,
            s,
            at + 8,
            at + len,
        ) && atoms_return(Atoms::File, s, at + len, s.len() as int),
{
    let kind = s.subrange(at + 4, at + 8);
    assert(kind[0] == 0x6D && kind[1] == 0x6F && kind[2] == 0x6F && kind[3] == 0x76);
    assert(atom_returns(Atoms::File, s, at, at + len) == atoms_return(
        Atoms::Movie,
        s,
        at + 8,
        at + len,
    ));
}

/// Outside of the file itself, a run of atoms may be empty, and is read one atom after the other.
pub proof fn atoms_are_read_one_by_one(kind: Atoms, s: Seq<u8>, at: int, end: int)
    requires
        0 <= at,
        kind != Atoms::File,
    ensures
        atoms_return(kind, s, end, end),
        at + 8 <= end && atom_fits(s, at, end) ==> (atoms_return(kind, s, at, end) <==> {
            let next = at + atom_len(s, at, end);
            atom_returns(kind, s, at, next) && atoms_return(kind, s, next, end)
        }),
{
}

/// A media header can be read exactly if its time scale is not zero: in its first version a number
/// of four bytes behind twelve, in the second behind twenty.
pub proof fn time_scale_of_media_is_not_zero(s: Seq<u8>, from: int, end: int)
    requires
        from + 24 <= end,
        s[from] <= 1,
    ensures
        media_header_returns(s, from, end) <==> {
            let at = from + (if s[from] == 0 {
                12int
            } else {
                20
            });
            s[at] != 0 || s[at + 1] != 0 || s[at + 2] != 0 || s[at + 3] != 0
        },
{
    numbers_are_made_of_bytes(s, from + 12);
    numbers_are_made_of_bytes(s, from + 20);
}

/// A table can be read exactly if it is there to its end: an entry of `size` bytes for each that it
/// counts.
pub proof fn tables_are_there_to_their_end(s: Seq<u8>, from: int, end: int, count: int)
    requires
        number(s, from + 4, 4) == count,
        from + 8 <= end,
    ensures
        table_fits(s, from, end, 8, 4) <==> from + 8 + 4 * count <= end,
        table_fits(s, from, end, 8, 8) <==> from + 8 + 8 * count <= end,
        table_fits(s, from, end, 8, 12) <==> from + 8 + 12 * count <= end,
{
}

/// The kind of an atom stands behind the four bytes of its length.
pub proof fn kinds_stand_behind_lengths(s: Seq<u8>, at: int, a: u8, b: u8, c: u8, d: u8)
    requires
        at >= 0,
    ensures
        is_atom(s, at, a, b, c, d) <==> reads(s, at + 4, seq![a, b, c, d]),
{
    if at + 8 <= s.len() {
        let kind = s.subrange(at + 4, at + 8);
        if reads(s, at + 4, seq![a, b, c, d]) {
            assert(kind[0] == a && kind[1] == b && kind[2] == c && kind[3] == d);
        }
        if kind[0] == a && kind[1] == b && kind[2] == c && kind[3] == d {
            assert(kind == seq![a, b, c, d]);
        }
    }
}

/// The atoms of a file are read up to `mdat`, `moof` or `sidx`. With a length of four bytes the
/// first two of these can be, and with one of eight exactly if its first two bits are clear.
pub proof fn audio_ends_the_reading(s: Seq<u8>, at: int)
    requires
        0 <= at,
        at + 16 <= s.len(),
    ensures
        is_last_atom(s, at) <==> reads(s, at + 4, seq![0x6D, 0x64, 0x61, 0x74]) || reads(
            s,
            at + 4,
            seq![0x6D, 0x6F, 0x6F, 0x66],
        ) || reads(s, at + 4, seq![0x73, 0x69, 0x64, 0x78]),
        is_last_atom(s, at) && !reads(s, at + 4, seq![0x73, 0x69, 0x64, 0x78]) ==> (
        atoms_return(Atoms::File, s, at, s.len() as int) <==> number(s, at, 4) != 1 || s[at + 8]
            < 0x40),
{
    kinds_stand_behind_lengths(s, at, 0x6D, 0x64, 0x61, 0x74);
    kinds_stand_behind_lengths(s, at, 0x6D, 0x6F, 0x6F, 0x66);
    kinds_stand_behind_lengths(s, at, 0x73, 0x69, 0x64, 0x78);
}

/// The atoms from the file down to a sample table: `moov`, `trak`, `mdia`, `minf` and `stbl`.
pub proof fn sample_tables_lie_in_tracks(s: Seq<u8>, at: int)
    ensures
        atoms_in(Atoms::File, s, at) == Some((Atoms::Movie, 0int)) <==> is_atom(
            s,
            at,
            0x6D,
            0x6F,
            0x6F,
            0x76,
        ),
        atoms_in(Atoms::Movie, s, at) == Some((Atoms::Track, 0int)) <==> is_atom(
            s,
            at,
            0x74,
            0x72,
            0x61,
            0x6B,
        ),
        atoms_in(Atoms::Track, s, at) == Some((Atoms::Media, 0int)) <==> is_atom(
            s,
            at,
            0x6D,
            0x64,
            0x69,
            0x61,
        ),
        atoms_in(Atoms::Media, s, at) == Some((Atoms::MediaInfo, 0int)) <==> is_atom(
            s,
            at,
            0x6D,
            0x69,
            0x6E,
            0x66,
        ),
        atoms_in(Atoms::MediaInfo, s, at) == Some((Atoms::SampleTable, 0int)) <==> is_atom(
            s,
            at,
            0x73,
            0x74,
            0x62,
            0x6C,
        ),
        atoms_in(Atoms::SampleTable, s, at) is None,
{
}

/// An atom that holds atoms, with a length of four bytes, is read exactly if those can be.
pub proof fn atoms_are_read_by_their_atoms(
    kind: Atoms,
    s: Seq<u8>,
    at: int,
    end: int,
    inner: Atoms,
)
    requires
        0 <= at,
        kind != Atoms::SampleTable,
        atoms_in(kind, s, at) == Some((inner, 0int)),
        number(s, at, 4) > 1,
        at + 8 <= end,
    ensures
        atom_returns(kind, s, at, end) <==> atoms_return(inner, s, at + 8, end),
{
}

/// Outside of the media, the sample table, the entries of audio and the tags, no atom that holds no
/// atoms keeps the file from being read.
pub proof fn plain_atoms_can_be_read(kind: Atoms, s: Seq<u8>, at: int, from: int, end: int)
    requires
        kind == Atoms::File || kind == Atoms::Movie || kind == Atoms::Track || kind == Atoms::Edits
            || kind == Atoms::MediaInfo || kind == Atoms::Extends || kind == Atoms::UserData || kind
            == Atoms::Meta || kind == Atoms::Tags,
    ensures
        payload_returns(kind, s, at, from, end),
{
}

/// The durations of the samples add up as long as 64 bits can count them: those of a single entry
/// always do.
pub proof fn durations_are_added_up(s: Seq<u8>, from: int, k: int, count: int, total: int)
    requires
        0 <= k < count,
    ensures
        ({
            let next = total + number(s, from + 8 + 8 * k, 4) * number(s, from + 12 + 8 * k, 4);
            durations_add_up(s, from, k, count, total) <==> next <= 0xFFFF_FFFF_FFFF_FFFF
                && durations_add_up(s, from, k + 1, count, next)
        }),
        durations_add_up(s, from, count, count, total),
        durations_add_up(s, from, 0, 1, 0),
{
    four_bytes_fit(s, from + 8);
    four_bytes_fit(s, from + 12);
    let a = number(s, from + 8, 4);
    let b = number(s, from + 12, 4);
    assert(a * b <= 0xFFFF_FFFF * 0xFFFF_FFFF) by (nonlinear_arith)
        requires
            0 <= a <= 0xFFFF_FFFF,
            0 <= b <= 0xFFFF_FFFF,
    ;
    assert(durations_add_up(s, from, 1, 1, a * b));
}

proof fn four_bytes_fit(s: Seq<u8>, at: int)
    ensures
        0 <= number(s, at, 4) <= 0xFFFF_FFFF,
{
    numbers_are_made_of_bytes(s, at);
}

/// The chunks of a single entry can be counted exactly if the first has a number other than zero.
pub proof fn chunks_of_one_entry_can_be_counted(s: Seq<u8>, from: int)
    ensures
        chunks_add_up(s, from, 0, 1, 0) <==> s[from + 8] != 0 || s[from + 9] != 0 || s[from + 10]
            != 0 || s[from + 11] != 0,
{
    numbers_are_made_of_bytes(s, from + 8);
}

/// The entries of the chunks are counted one after the other, in ascending order of their first
/// chunks, as long as 32 bits can count the samples.
pub proof fn chunks_are_counted(s: Seq<u8>, from: int, k: int, count: int, first: int)
    requires
        0 <= k,
        k + 1 < count,
    ensures
        ({
            let chunk = number(s, from + 8 + 12 * k, 4);
            let next_chunk = number(s, from + 8 + 12 * (k + 1), 4);
            let samples = number(s, from + 12 + 12 * k, 4);
            let next = first + (next_chunk - chunk) * samples;
            chunks_add_up(s, from, k, count, first) <==> 0 < chunk <= next_chunk && next
                <= 0xFFFF_FFFF && chunks_add_up(s, from, k + 1, count, next)
        }),
{
}

/// The content of a descriptor with a length of one byte is as long as that says; one of two bytes
/// has seven bits in each.
pub proof fn descriptors_are_as_long_as_they_say(s: Seq<u8>, at: int, end: int)
    requires
        at + 3 <= end,
    ensures
        s[at + 1] < 128 ==> descriptor_header_len(s, at, end) == 2 && descriptor_len(s, at, 2)
            == s[at + 1],
        s[at + 1] >= 128 && s[at + 2] < 128 ==> descriptor_header_len(s, at, end) == 3
            && descriptor_len(s, at, 3) == 128 * (s[at + 1] - 128) + s[at + 2],
{
    reveal_with_fuel(descriptor_len, 4);
}

/// The descriptors in that of an elementary stream are passed over by their lengths. That of the
/// decoder needs 13 bytes, and one of the kind 6 is taken to have one.
pub proof fn stream_descriptors_are_passed_over(s: Seq<u8>, at: int, end: int)
    requires
        at + 3 <= end,
        s[at + 1] < 128,
    ensures
        ({
            let next = at + 2 + (if s[at] == 6 {
                1int
            } else {
                s[at + 1] as int
            });
            stream_content_returns(s, at, end) <==> (s[at] != 4 || s[at + 1] >= 13) && next <= end
                && stream_content_returns(s, next, end)
        }),
        stream_content_returns(s, end, end),
{
    reveal_with_fuel(descriptor_len, 3);
}

/// An elementary stream descriptor without optional fields, with a length of one byte and to the
/// end of its atom, can be read exactly if the descriptors in it can be.
pub proof fn stream_descriptor_is_read_by_its_content(s: Seq<u8>, at: int, end: int)
    requires
        s[at] == 3,
        3 < s[at + 1] < 128,
        s[at + 4] == 0,
        end == at + 2 + s[at + 1],
    ensures
        descriptors_return(s, at, end, false) <==> stream_content_returns(s, at + 5, end),
{
    reveal_with_fuel(descriptor_len, 3);
    assert(descriptors_return(s, end, end, true));
}

/// An entry of audio, with a length of four bytes and alone in its table, is read by the atoms
/// behind its fields: 28 bytes, and 16 or 36 more in its later versions.
pub proof fn entry_of_audio_is_read_by_its_atoms(s: Seq<u8>, at: int, end: int, version: int)
    requires
        0 <= at,
        end <= s.len(),
        is_atom(s, at, 0x73, 0x74, 0x73, 0x64),
        number(s, at, 4) > 1,
        is_atom(s, at + 16, 0x6D, 0x70, 0x34, 0x61),
        number(s, at + 16, 4) == end - (at + 16),
        number(s, at + 32, 2) == version,
        version <= 2,
        at + 52 + 36 <= end,
    ensures
        ({
            let more = if version == 0 {
                0int
            } else if version == 1 {
                16
            } else {
                36
            };
            atom_returns(Atoms::SampleTable, s, at, end) <==> atoms_return(
                Atoms::AudioEntry,
                s,
                at + 52 + more,
                end,
            )
        }),
{
    numbers_are_made_of_bytes(s, at + 32);
}

/// In the media, the sample table, an entry of audio and a tag only some kinds of atoms are read:
/// any other that holds no atoms can be passed over. A handler takes 24 bytes, the data of a tag 8,
/// and its name and meaning 4 each.
pub proof fn atoms_have_room_for_what_is_read(kind: Atoms, s: Seq<u8>, at: int, from: int, end: int)
    requires
        0 <= at,
        from <= end,
    ensures
        kind == Atoms::Media && !is_atom(s, at, 0x6D, 0x64, 0x68, 0x64) ==> (payload_returns(
            kind,
            s,
            at,
            from,
            end,
        ) <==> !is_atom(s, at, 0x68, 0x64, 0x6C, 0x72) || from + 24 <= end),
        kind == Atoms::Tag ==> (payload_returns(kind, s, at, from, end) <==> {
            ||| is_atom(s, at, 0x64, 0x61, 0x74, 0x61) && from + 8 <= end
            ||| (is_atom(s, at, 0x6E, 0x61, 0x6D, 0x65) || is_atom(s, at, 0x6D, 0x65, 0x61, 0x6E))
                && from + 4 <= end
            ||| !is_atom(s, at, 0x64, 0x61, 0x74, 0x61) && !is_atom(s, at, 0x6E, 0x61, 0x6D, 0x65)
                && !is_atom(s, at, 0x6D, 0x65, 0x61, 0x6E)
        }),
        (kind == Atoms::AudioEntry || kind == Atoms::Wave) && !is_atom(
            s,
            at,
            0x65,
            0x73,
            0x64,
            0x73,
        ) ==> payload_returns(kind, s, at, from, end),
        kind == Atoms::SampleTable && !(s[at + 4] == 0x73 && s[at + 5] == 0x74) && !(s[at + 4]
            == 0x63 && s[at + 5] == 0x6F) ==> payload_returns(kind, s, at, from, end),
{
}

/// A table of the sizes of samples is needed only where they are not all the same.
pub proof fn samples_of_one_size_need_no_table(s: Seq<u8>, at: int, from: int, end: int)
    requires
        is_atom(s, at, 0x73, 0x74, 0x73, 0x7A),
        0 <= from,
    ensures
        payload_returns(Atoms::SampleTable, s, at, from, end) <==> {
            &&& from + 12 <= end
            &&& number(s, from + 4, 4) == 0 ==> from + 12 + 4 * number(s, from + 8, 4) <= end
        },
{
}

/// Beside the way down to a sample table, atoms are held by `mvex` and `udta` of a movie, `edts` of
/// a track, `wave` of an entry of audio, `meta`, behind four bytes, and `ilst` in that.
pub proof fn other_atoms_that_hold_atoms(s: Seq<u8>, at: int)
    ensures
        atoms_in(Atoms::Movie, s, at) == Some((Atoms::Extends, 0int)) <==> is_atom(
            s,
            at,
            0x6D,
            0x76,
            0x65,
            0x78,
        ),
        atoms_in(Atoms::Movie, s, at) == Some((Atoms::UserData, 0int)) <==> is_atom(
            s,
            at,
            0x75,
            0x64,
            0x74,
            0x61,
        ),
        atoms_in(Atoms::Track, s, at) == Some((Atoms::Edits, 0int)) <==> is_atom(
            s,
            at,
            0x65,
            0x64,
            0x74,
            0x73,
        ),
        atoms_in(Atoms::AudioEntry, s, at) == Some((Atoms::Wave, 0int)) <==> is_atom(
            s,
            at,
            0x77,
            0x61,
            0x76,
            0x65,
        ),
        atoms_in(Atoms::Meta, s, at) == Some((Atoms::Tags, 0int)) <==> is_atom(
            s,
            at,
            0x69,
            0x6C,
            0x73,
            0x74,
        ),
        atoms_in(Atoms::File, s, at) == Some((Atoms::Meta, 4int)) <==> is_atom(
            s,
            at,
            0x6D,
            0x65,
            0x74,
            0x61,
        ),
        atoms_in(Atoms::UserData, s, at) == Some((Atoms::Meta, 4int)) <==> is_atom(
            s,
            at,
            0x6D,
            0x65,
            0x74,
            0x61,
        ),
        atoms_in(Atoms::Edits, s, at) is None,
        atoms_in(Atoms::Extends, s, at) is None,
        atoms_in(Atoms::Wave, s, at) is None,
        atoms_in(Atoms::Tag, s, at) is None,
{
}

/// The entries of audio are told by their kind, as one number.
pub proof fn entries_of_audio(s: Seq<u8>, at: int)
    requires
        0 <= at,
        at + 8 <= s.len(),
    ensures
        ({
            let kind = number(s, at + 4, 4);
            is_audio_entry(s, at) <==> {
                ||| kind == 0x2E6D_7033
                ||| kind == 0x4F70_7573
                ||| kind == 0x616C_6163
                ||| kind == 0x616C_6177
                ||| kind == 0x664C_6143
                ||| kind == 0x666C_3332
                ||| kind == 0x666C_3634
                ||| kind == 0x696E_3234
                ||| kind == 0x696E_3332
                ||| kind == 0x6C70_636D
                ||| kind == 0x6D70_3461
                ||| kind == 0x7261_7720
                ||| kind == 0x736F_7774
                ||| kind == 0x7477_6F73
                ||| kind == 0x756C_6177
                ||| kind == 0x7761_7665
            }
        }),
{
    numbers_are_made_of_bytes(s, at + 4);
}

/// The tags that are read: those that begin with a copyright sign by the three bytes behind it, the
/// others by all four.
pub proof fn tags_that_are_read(kind: int)
    ensures
        is_read_tag(kind) <==> if kind >= 0xA900_0000 {
            let name = kind - 0xA900_0000;
            ||| name == 0x41_5254
            ||| name == 0x61_6C62
            ||| name == 0x63_6D74
            ||| name == 0x64_6179
            ||| name == 0x65_6E63
            ||| name == 0x67_656E
            ||| name == 0x67_7270
            ||| name == 0x6C_7972
            ||| name == 0x6E_616D
            ||| name == 0x74_6F6F
            ||| name == 0x77_7274
        } else {
            ||| kind == 0x2D2D_2D2D || kind == 0x6141_5254 || kind == 0x6361_7467
            ||| kind == 0x636F_7672 || kind == 0x6370_696C || kind == 0x6370_7274
            ||| kind == 0x6465_7363 || kind == 0x6469_736B || kind == 0x6567_6964
            ||| kind == 0x676E_7265 || kind == 0x6B65_7977 || kind == 0x6C64_6573
            ||| kind == 0x6F77_6E72 || kind == 0x7063_7374 || kind == 0x7075_7264
            ||| kind == 0x7075_726C || kind == 0x7261_7465 || kind == 0x736F_6161
            ||| kind == 0x736F_616C || kind == 0x736F_6172 || kind == 0x736F_636F
            ||| kind == 0x736F_6E6D || kind == 0x7374_696B || kind == 0x746D_706F
            ||| kind == 0x7472_6B6E || kind == 0x7476_656E || kind == 0x7476_6573
            ||| kind == 0x7476_6E6E || kind == 0x7476_7368 || kind == 0x7476_736E
        },
{
}

/// The optional fields of an elementary stream descriptor are told by the three highest bits of its
/// flags: another stream and a clock take two bytes each, and an address as many as a byte before
/// it says.
pub proof fn optional_fields_are_passed_over(s: Seq<u8>, flags: int)
    ensures
        s[flags] < 32 ==> behind_optional_fields(s, flags) == flags + 1,
        32 <= s[flags] < 64 ==> behind_optional_fields(s, flags) == flags + 3,
        64 <= s[flags] < 96 ==> behind_optional_fields(s, flags) == flags + 2 + s[flags + 1],
        96 <= s[flags] < 128 ==> behind_optional_fields(s, flags) == flags + 4 + s[flags + 1],
        128 <= s[flags] < 160 ==> behind_optional_fields(s, flags) == flags + 3,
        160 <= s[flags] < 192 ==> behind_optional_fields(s, flags) == flags + 5,
        192 <= s[flags] < 224 ==> behind_optional_fields(s, flags) == flags + 4 + s[flags + 3],
        224 <= s[flags] ==> behind_optional_fields(s, flags) == flags + 6 + s[flags + 3],
        stream_url(s, flags) == flags + 1 + (if s[flags] >= 128 {
            2int
        } else {
            0
        }),
{
}

/// A descriptor whose length is not there to its end cannot be read, nor can what holds it.
pub proof fn descriptors_are_there_to_their_end(s: Seq<u8>, at: int, end: int, seen: bool)
    requires
        end - at == 3,
        s[at + 1] >= 128,
        s[at + 2] >= 128,
    ensures
        !stream_content_returns(s, at, end),
        !descriptors_return(s, at, end, seen),
{
}

/// The descriptors of an `esds` atom cannot be read that are over before that of an elementary
/// stream was among them.
pub proof fn stream_descriptor_is_needed(s: Seq<u8>, at: int, end: int)
    requires
        end - at <= 2,
    ensures
        !descriptors_return(s, at, end, false),
        descriptors_return(s, at, end, true),
{
}

} // verus!
