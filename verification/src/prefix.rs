//! The bounded look at the start of a request body.
//!
//! A body arrives in chunks. Its first bytes are looked at before it is transcribed, and are
//! then replayed, so that transcription starts at the first byte although the body is never
//! held as a whole. A [`PrefixProbe`] takes the chunks that are looked at; fetching them is
//! the caller's part.
use vstd::prelude::*;

use crate::app_error::{AppError, AppErrorView, Status};

verus! {

/// The most bytes of a body that are looked at before it is transcribed.
pub const MAX_PROBE_BYTES: usize = 512 * 1024;

/// Chunks one after the other.
pub open spec fn concat(chunks: Seq<Seq<u8>>) -> Seq<u8>
    decreases chunks.len(),
{
    if chunks.len() == 0 {
        Seq::empty()
    } else {
        concat(chunks.drop_last()) + chunks.last()
    }
}

/// The bytes of a vector of chunks.
pub open spec fn chunks_view(chunks: Seq<Vec<u8>>) -> Seq<Seq<u8>> {
    chunks.map_values(|chunk: Vec<u8>| chunk@)
}

/// What was taken from a body so far.
#[verifier::ext_equal]
pub struct Taken {
    /// How many bytes are looked at, at most.
    pub limit: int,
    /// The chunks within the limit, the last of them cut at it.
    pub chunks: Seq<Seq<u8>>,
    /// What was cut off.
    pub tail: Option<Seq<u8>>,
}

impl Taken {
    /// The bytes that are looked at.
    pub open spec fn bytes(self) -> Seq<u8> {
        concat(self.chunks)
    }

    /// Before anything is taken.
    pub open spec fn nothing(limit: int) -> Self {
        Taken { limit, chunks: Seq::empty(), tail: None }
    }

    /// The limit is not reached.
    pub open spec fn wants_more(self) -> bool {
        self.bytes().len() < self.limit
    }

    /// After one more chunk: an empty one leaves no trace, one that fits is taken whole, and
    /// one that does not is cut at the limit.
    pub open spec fn with(self, chunk: Seq<u8>) -> Self {
        let room = self.limit - self.bytes().len();
        if chunk.len() == 0 {
            self
        } else if chunk.len() <= room {
            Taken { chunks: self.chunks.push(chunk), ..self }
        } else {
            Taken {
                chunks: self.chunks.push(chunk.take(room)),
                tail: Some(chunk.skip(room)),
                ..self
            }
        }
    }

    /// All that was taken, in the order in which it is replayed.
    pub open spec fn replayed(self) -> Seq<u8> {
        self.bytes() + match self.tail {
            Some(tail) => tail,
            None => Seq::empty(),
        }
    }

    /// No more is looked at than allowed, no chunk is empty, and something was cut off only
    /// where the limit is reached.
    pub open spec fn inv(self) -> bool {
        &&& self.bytes().len() <= self.limit
        &&& forall|i: int| 0 <= i < self.chunks.len() ==> #[trigger] self.chunks[i].len() > 0
        &&& self.tail matches Some(tail) ==> self.bytes().len() == self.limit && tail.len() > 0
    }
}

/// The first bytes of a body, within a limit.
pub struct PrefixProbe {
    limit: usize,
    bytes: Vec<u8>,
    chunks: Vec<Vec<u8>>,
    tail: Option<Vec<u8>>,
}

/// The first bytes of a body, and the chunks with which it is replayed.
pub struct Prefix {
    /// The bytes that are looked at.
    pub bytes: Vec<u8>,
    /// The same bytes, in the chunks in which they arrived.
    pub chunks: Vec<Vec<u8>>,
    /// What follows in the chunk that was cut, if one was.
    pub tail: Option<Vec<u8>>,
}

/// The bytes of an optional chunk.
pub open spec fn optional_bytes(chunk: Option<Vec<u8>>) -> Option<Seq<u8>> {
    match chunk {
        None => None,
        Some(chunk) => Some(chunk@),
    }
}

impl View for PrefixProbe {
    type V = Taken;

    closed spec fn view(&self) -> Taken {
        Taken {
            limit: self.limit as int,
            chunks: chunks_view(self.chunks@),
            tail: optional_bytes(self.tail),
        }
    }
}

impl PrefixProbe {
    /// The bytes are those of the chunks.
    pub closed spec fn inv(&self) -> bool {
        &&& self.bytes@ == self@.bytes()
        &&& self@.inv()
    }

    /// Nothing yet, of at most `limit` bytes.
    pub fn new(limit: usize) -> (r: Self)
        ensures
            r.inv(),
            r@ == Taken::nothing(limit as int),
    {
        let r = PrefixProbe { limit, bytes: Vec::new(), chunks: Vec::new(), tail: None };
        assert(r@.chunks == Seq::<Seq<u8>>::empty());
        r
    }

    /// Whether another chunk is to be fetched.
    pub fn wants_more(&self) -> (r: bool)
        requires
            self.inv(),
        ensures
            r == self@.wants_more(),
    {
        self.bytes.len() < self.limit
    }

    /// Takes the next chunk of the body.
    pub fn push(&mut self, chunk: Vec<u8>)
        requires
            old(self).inv(),
            old(self)@.wants_more(),
        ensures
            final(self).inv(),
            final(self)@ == old(self)@.with(chunk@),
    {
        if chunk.is_empty() {
            return;
        }
        let ghost whole = chunk@;
        let room: usize = self.limit - self.bytes.len();
        let mut chunk = chunk;
        if chunk.len() > room {
            // Cut the chunk at the limit; the rest is put back in front of the body.
            self.tail = Some(chunk.split_off(room));
        }
        self.bytes.extend_from_slice(chunk.as_slice());
        self.chunks.push(chunk);
        proof {
            assert(chunk@ == whole.take(chunk@.len() as int));
            assert(self@.chunks == old(self)@.chunks.push(chunk@));
            assert(self@.chunks.drop_last() == old(self)@.chunks);
            assert(self.bytes@ == old(self).bytes@ + chunk@);
        }
    }

    /// Ends the look at the body, when it ends or the limit is reached: a body without any byte
    /// is refused.
    pub fn finish(self) -> (r: Result<Prefix, AppError>)
        requires
            self.inv(),
        ensures
            if self@.bytes().len() == 0 {
                r matches Err(error) && error@ == (AppErrorView {
                    status: Status::BadRequest,
                    message: "request body was empty"@,
                })
            } else {
                r matches Ok(prefix) && {
                    &&& prefix.bytes@ == self@.bytes()
                    &&& chunks_view(prefix.chunks@) == self@.chunks
                    &&& optional_bytes(prefix.tail) == self@.tail
                }
            },
    {
        if self.bytes.is_empty() {
            return Err(AppError::bad_request("request body was empty".to_owned()));
        }
        Ok(Prefix { bytes: self.bytes, chunks: self.chunks, tail: self.tail })
    }
}

} // verus!
