//! Reading a response body under a size cap: a declared length over the cap
//! is refused before reading, and the body is refused as soon as a chunk
//! would take it over the cap.
use vstd::prelude::*;

use crate::text::{chars_of, extend_chars, string_of};

verus! {

/// The cap on a JSON response from Deezer, in bytes.
pub const MAX_JSON_RESPONSE_BYTES: usize = 16777216;

/// The refusal of an oversized body.
pub open spec fn too_large_spec(label: Seq<char>) -> Seq<char> {
    label + " is too large"@
}

/// The text of the refusal of an oversized body.
pub fn too_large_message(label: &str) -> (r: String)
    ensures
        r@ == too_large_spec(label@),
{
    let mut v = chars_of(label);
    extend_chars(&mut v, chars_of(" is too large").as_slice());
    string_of(v.as_slice())
}

/// Whether a declared length may be read under the cap.
pub fn declared_length_ok(content_length: Option<u64>, max_bytes: usize) -> (r: bool)
    ensures
        r == (match content_length {
            Some(n) => n <= max_bytes,
            None => true,
        }),
{
    match content_length {
        Some(n) => n <= max_bytes as u64,
        None => true,
    }
}

/// A body read chunk by chunk under a cap.
pub struct BodyReader {
    body: Vec<u8>,
    max_bytes: usize,
}

impl BodyReader {
    /// The bytes read so far.
    pub closed spec fn body(&self) -> Seq<u8> {
        self.body@
    }

    /// The cap.
    pub closed spec fn max_bytes(&self) -> nat {
        self.max_bytes as nat
    }

    /// The body never exceeds the cap.
    pub closed spec fn wf(&self) -> bool {
        self.body@.len() <= self.max_bytes
    }

    pub fn new(max_bytes: usize) -> (r: Self)
        ensures
            r.wf(),
            r.body() == Seq::<u8>::empty(),
            r.max_bytes() == max_bytes,
    {
        BodyReader { body: Vec::new(), max_bytes }
    }

    /// Appends a chunk, or refuses it (the body unchanged) when it would
    /// take the body over the cap.
    pub fn push(&mut self, chunk: &[u8]) -> (accepted: bool)
        requires
            old(self).wf(),
        ensures
            final(self).wf(),
            final(self).max_bytes() == old(self).max_bytes(),
            accepted == (old(self).body().len() + chunk@.len() <= old(self).max_bytes()),
            accepted ==> final(self).body() == old(self).body() + chunk@,
            !accepted ==> final(self).body() == old(self).body(),
    {
        if chunk.len() > self.max_bytes - self.body.len() {
            return false;
        }
        let ghost before = self.body@;
        let mut i: usize = 0;
        while i < chunk.len()
            invariant
                i <= chunk.len(),
                self.max_bytes == old(self).max_bytes,
                before == old(self).body@,
                before.len() + chunk@.len() <= self.max_bytes,
                self.body@ == before + chunk@.take(i as int),
            decreases chunk.len() - i,
        {
            self.body.push(chunk[i]);
            assert(chunk@.take(i + 1) =~= chunk@.take(i as int).push(chunk@[i as int]));
            i += 1;
        }
        assert(chunk@.take(chunk.len() as int) =~= chunk@);
        true
    }

    /// The body read.
    pub fn into_body(self) -> (r: Vec<u8>)
        ensures
            r@ == self.body(),
    {
        self.body
    }
}

} // verus!
