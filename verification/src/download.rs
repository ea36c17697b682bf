//! The decisions of a track download: which response sizes are accepted, how
//! the encrypted stream is cut into stripes, which stripes are decrypted, and
//! the names of the temporary and final files.
use vstd::prelude::*;

use crate::paths::sanitize_component_spec;
use crate::paths::sanitize_path_component;
use crate::text::{chars_of, decimal, extend_chars, string_of, u64_to_string};

verus! {

/// The size of one stripe of Deezer's stream.
pub const CHUNK_SIZE: usize = 2048;

/// Downloads larger than this (1 GiB) are refused.
pub const MAX_TRACK_DOWNLOAD_BYTES: u64 = 1073741824;

/// The ending of a temporary download file's name.
pub const IN_PROGRESS_SUFFIX: &'static str = ".deezy.part";

/// Why a download stream is refused.
#[derive(Debug, Clone, Copy, PartialEq, Eq, Structural)]
pub enum StreamError {
    /// The server announced an empty body.
    EmptyResponse,
    /// The server announced a body larger than the limit (its length).
    ResponseTooLarge(u64),
    /// The bytes received so far would pass the limit.
    ExceedsLimit,
}

impl StreamError {
    pub open spec fn message_spec(&self) -> Seq<char> {
        match *self {
            StreamError::EmptyResponse => "Download failed: empty response"@,
            StreamError::ResponseTooLarge(n) => "Download aborted: response too large ("@
                + decimal(n as nat) + " bytes)"@,
            StreamError::ExceedsLimit => "Download aborted: file exceeds allowed size limit"@,
        }
    }

    /// The error's text, as the user sees it.
    pub fn message(&self) -> (r: String)
        ensures
            r@ == self.message_spec(),
    {
        match *self {
            StreamError::EmptyResponse => String::from_str("Download failed: empty response"),
            StreamError::ResponseTooLarge(n) => {
                let mut v = chars_of("Download aborted: response too large (");
                let d = chars_of(u64_to_string(n).as_str());
                extend_chars(&mut v, d.as_slice());
                let tail = chars_of(" bytes)");
                extend_chars(&mut v, tail.as_slice());
                string_of(v.as_slice())
            },
            StreamError::ExceedsLimit => String::from_str(
                "Download aborted: file exceeds allowed size limit",
            ),
        }
    }
}

/// Checks the length that the server announces before the body is read, and
/// gives the total to report progress against (0 when unknown).
pub fn check_content_length(content_length: Option<u64>) -> (r: Result<u64, StreamError>)
    ensures
        match content_length {
            None => r == Ok::<u64, StreamError>(0),
            Some(n) => if n == 0 {
                r == Err::<u64, StreamError>(StreamError::EmptyResponse)
            } else if n > MAX_TRACK_DOWNLOAD_BYTES {
                r == Err::<u64, StreamError>(StreamError::ResponseTooLarge(n))
            } else {
                r == Ok::<u64, StreamError>(n)
            },
        },
{
    match content_length {
        None => Ok(0),
        Some(n) => if n == 0 {
            Err(StreamError::EmptyResponse)
        } else if n > MAX_TRACK_DOWNLOAD_BYTES {
            Err(StreamError::ResponseTooLarge(n))
        } else {
            Ok(n)
        },
    }
}

/// One stripe of the stream, and whether it is encrypted.
pub struct Stripe {
    pub data: Vec<u8>,
    pub encrypted: bool,
}

/// Cuts the downloaded byte stream into stripes of `CHUNK_SIZE` bytes.
/// Every third stripe, starting with the first, is encrypted; a shorter
/// trailing piece is never encrypted.
pub struct StripeDecoder {
    buffer: Vec<u8>,
    chunk_index: u64,
    downloaded: u64,
    received: Ghost<Seq<u8>>,
}

impl StripeDecoder {
    /// Every byte handed to the decoder so far.
    pub closed spec fn received(&self) -> Seq<u8> {
        self.received@
    }

    /// The bytes handed out in stripes so far.
    pub closed spec fn emitted(&self) -> Seq<u8> {
        self.received@.take(self.downloaded as int)
    }

    /// The bytes waiting for a full stripe.
    pub closed spec fn pending(&self) -> Seq<u8> {
        self.buffer@
    }

    /// How many stripes have been handed out.
    pub closed spec fn stripes(&self) -> nat {
        self.chunk_index as nat
    }

    pub closed spec fn wf(&self) -> bool {
        &&& self.downloaded as int == self.chunk_index * CHUNK_SIZE
        &&& self.downloaded <= MAX_TRACK_DOWNLOAD_BYTES
        &&& self.downloaded <= self.received@.len()
        &&& self.received@ == self.received@.take(self.downloaded as int) + self.buffer@
    }

    pub fn new() -> (r: Self)
        ensures
            r.wf(),
            r.received() == Seq::<u8>::empty(),
            r.stripes() == 0,
            r.pending() == Seq::<u8>::empty(),
    {
        let r = StripeDecoder {
            buffer: Vec::new(),
            chunk_index: 0,
            downloaded: 0,
            received: Ghost(Seq::empty()),
        };
        assert(r.received@.take(0) + r.buffer@ =~= r.received@);
        r
    }

    /// Bytes counted towards the limit so far.
    pub fn downloaded(&self) -> (r: u64)
        requires
            self.wf(),
        ensures
            r == self.emitted().len(),
            r == self.stripes() * CHUNK_SIZE,
    {
        self.downloaded
    }

    /// How many bytes wait for a full stripe.
    pub fn pending_len(&self) -> (r: usize)
        ensures
            r == self.pending().len(),
    {
        self.buffer.len()
    }

    /// Hands the next bytes of the stream to the decoder.
    pub fn push(&mut self, bytes: &[u8])
        requires
            old(self).wf(),
        ensures
            final(self).wf(),
            final(self).received() == old(self).received() + bytes@,
            final(self).pending() == old(self).pending() + bytes@,
            final(self).stripes() == old(self).stripes(),
            final(self).emitted() == old(self).emitted(),
    {
        let ghost before = self.received@;
        self.buffer.extend_from_slice(bytes);
        self.received = Ghost(before + bytes@);
        proof {
            let d = self.downloaded as int;
            assert(self.received@.take(d) =~= before.take(d));
            assert(self.received@ =~= self.received@.take(d) + self.buffer@);
        }
    }

    /// The next full stripe, if one is buffered: `None` when fewer than
    /// `CHUNK_SIZE` bytes wait, an error when the stripe would pass the size
    /// limit.
    pub fn next_chunk(&mut self) -> (r: Option<Result<Stripe, StreamError>>)
        requires
            old(self).wf(),
        ensures
            final(self).wf(),
            final(self).received() == old(self).received(),
            old(self).pending().len() < CHUNK_SIZE ==> r is None && *final(self) == *old(self),
            old(self).pending().len() >= CHUNK_SIZE && old(self).emitted().len() + CHUNK_SIZE
                > MAX_TRACK_DOWNLOAD_BYTES ==> r == Some(
                Err::<Stripe, StreamError>(StreamError::ExceedsLimit),
            ) && *final(self) == *old(self),
            old(self).pending().len() >= CHUNK_SIZE && old(self).emitted().len() + CHUNK_SIZE
                <= MAX_TRACK_DOWNLOAD_BYTES ==> {
                &&& r matches Some(Ok(stripe))
                &&& stripe.data@ == old(self).pending().take(CHUNK_SIZE as int)
                &&& stripe.encrypted == (old(self).stripes() % 3 == 0)
                &&& final(self).pending() == old(self).pending().skip(CHUNK_SIZE as int)
                &&& final(self).stripes() == old(self).stripes() + 1
                &&& final(self).emitted() == old(self).emitted() + stripe.data@
            },
    {
        if self.buffer.len() < CHUNK_SIZE {
            return None;
        }
        if self.downloaded > MAX_TRACK_DOWNLOAD_BYTES - (CHUNK_SIZE as u64) {
            return Some(Err(StreamError::ExceedsLimit));
        }
        let ghost old_buf = self.buffer@;
        let ghost d = self.downloaded as int;
        let mut rest = self.buffer.split_off(CHUNK_SIZE);
        std::mem::swap(&mut self.buffer, &mut rest);
        let data = rest;
        let encrypted = self.chunk_index % 3 == 0;
        self.chunk_index = self.chunk_index + 1;
        self.downloaded = self.downloaded + (CHUNK_SIZE as u64);
        proof {
            let rec = self.received@;
            assert(old_buf.take(CHUNK_SIZE as int) =~= data@);
            assert(old_buf.skip(CHUNK_SIZE as int) =~= self.buffer@);
            assert(rec.take(d) =~= rec.take(d + CHUNK_SIZE).take(d));
            assert(rec.take(d + CHUNK_SIZE) =~= rec.take(d) + data@) by {
                assert(rec =~= rec.take(d) + old_buf);
            }
            assert(rec =~= rec.take(d + CHUNK_SIZE) + self.buffer@);
        }
        Some(Ok(Stripe { data, encrypted }))
    }

    /// The bytes left once the stream has ended, written unencrypted; an
    /// error when they would pass the size limit.
    pub fn finish(&mut self) -> (r: Result<Vec<u8>, StreamError>)
        requires
            old(self).wf(),
        ensures
            old(self).emitted().len() + old(self).pending().len() > MAX_TRACK_DOWNLOAD_BYTES
                ==> r == Err::<Vec<u8>, StreamError>(StreamError::ExceedsLimit),
            old(self).emitted().len() + old(self).pending().len() <= MAX_TRACK_DOWNLOAD_BYTES
                ==> (r matches Ok(tail) && tail@ == old(self).pending()),
    {
        if (self.buffer.len() as u64) > MAX_TRACK_DOWNLOAD_BYTES - self.downloaded {
            return Err(StreamError::ExceedsLimit);
        }
        let mut rest: Vec<u8> = Vec::new();
        std::mem::swap(&mut self.buffer, &mut rest);
        Ok(rest)
    }
}

/// What the decoder hands out is exactly the stream it was given: the
/// stripes handed out so far followed by the bytes still pending.
pub proof fn lemma_stripes_reassemble(d: &StripeDecoder)
    requires
        d.wf(),
    ensures
        d.emitted() + d.pending() == d.received(),
        d.emitted().len() == d.stripes() * CHUNK_SIZE,
        d.emitted().len() <= MAX_TRACK_DOWNLOAD_BYTES,
{
}

// ---------------------------------------------------------------------------
// File names
// ---------------------------------------------------------------------------

/// The temporary file that a download is written to before it is given its
/// final name: `{file_name}.{track_id}.{counter}.deezy.part`, with the track
/// id sanitized as a folder name.
pub open spec fn temp_file_name_spec(file_name: Seq<char>, track_id: Seq<char>, counter: nat) -> Seq<
    char,
> {
    file_name + "."@ + sanitize_component_spec(track_id) + "."@ + decimal(counter)
        + ".deezy.part"@
}

pub fn temp_file_name(file_name: &str, track_id: &str, counter: u64) -> (r: String)
    ensures
        r@ == temp_file_name_spec(file_name@, track_id@, counter as nat),
{
    let mut v = chars_of(file_name);
    let dot = chars_of(".");
    extend_chars(&mut v, dot.as_slice());
    let id = chars_of(sanitize_path_component(track_id).as_str());
    extend_chars(&mut v, id.as_slice());
    extend_chars(&mut v, dot.as_slice());
    let n = chars_of(u64_to_string(counter).as_str());
    extend_chars(&mut v, n.as_slice());
    let suffix = chars_of(IN_PROGRESS_SUFFIX);
    extend_chars(&mut v, suffix.as_slice());
    string_of(v.as_slice())
}

/// The name tried on the `counter`-th attempt to give a finished download its
/// final name: the preferred name first, then `{stem} ({counter}){ext}`.
pub open spec fn numbered_name_spec(preferred: Seq<char>, stem: Seq<char>, counter: nat, ext: Seq<
    char,
>) -> Seq<char> {
    if counter == 0 {
        preferred
    } else {
        stem + " ("@ + decimal(counter) + ")"@ + ext
    }
}

pub fn numbered_name(preferred: &str, stem: &str, counter: u64, ext: &str) -> (r: String)
    ensures
        r@ == numbered_name_spec(preferred@, stem@, counter as nat, ext@),
{
    if counter == 0 {
        return string_of(chars_of(preferred).as_slice());
    }
    let mut v = chars_of(stem);
    let open = chars_of(" (");
    extend_chars(&mut v, open.as_slice());
    let n = chars_of(u64_to_string(counter).as_str());
    extend_chars(&mut v, n.as_slice());
    let close = chars_of(")");
    extend_chars(&mut v, close.as_slice());
    let e = chars_of(ext);
    extend_chars(&mut v, e.as_slice());
    string_of(v.as_slice())
}

// ---------------------------------------------------------------------------
// How a transfer ends
// ---------------------------------------------------------------------------

/// How a download's transfer ends: canceled by the user; the response
/// stream failed, with its error; a stripe could not be decrypted, with the
/// cipher's error; another step failed, with its message (a short or
/// oversized stream, a write, naming the file); or the file got its final
/// name, at this path.
pub enum TransferEvent {
    Canceled,
    StreamFailed(String),
    DecryptFailed(String),
    Failed(String),
    Finalized(String),
}

/// What a download returns: canceled, an error, or the finished file's path.
pub enum TransferOutcome {
    Canceled,
    Failed(String),
    Complete(String),
}

/// What is done when a transfer ends: whether the temporary file is
/// removed, and what the download returns.
pub struct TransferEnd {
    pub remove_temp: bool,
    pub outcome: TransferOutcome,
}

fn prefixed(prefix: &str, e: &str) -> (r: String)
    ensures
        r@ == prefix@ + e@,
{
    let mut v = chars_of(prefix);
    extend_chars(&mut v, chars_of(e).as_slice());
    string_of(v.as_slice())
}

/// Ends a transfer: on a cancel or any error the temporary file is removed
/// and the download returns canceled or the error; once the file has its
/// final name (which takes the temporary file away), the path is returned.
pub fn end_transfer(event: TransferEvent) -> (r: TransferEnd)
    ensures
        r.remove_temp == !(event is Finalized),
        match event {
            TransferEvent::Canceled => r.outcome is Canceled,
            TransferEvent::StreamFailed(e) => r.outcome matches TransferOutcome::Failed(m) && m@
                == "Stream error: "@ + e@,
            TransferEvent::DecryptFailed(e) => r.outcome matches TransferOutcome::Failed(m) && m@
                == "Decryption failed: "@ + e@,
            TransferEvent::Failed(e) => r.outcome matches TransferOutcome::Failed(m) && m@ == e@,
            TransferEvent::Finalized(p) => r.outcome matches TransferOutcome::Complete(q) && q@
                == p@,
        },
{
    match event {
        TransferEvent::Canceled => TransferEnd { remove_temp: true, outcome: TransferOutcome::Canceled },
        TransferEvent::StreamFailed(e) => TransferEnd {
            remove_temp: true,
            outcome: TransferOutcome::Failed(prefixed("Stream error: ", e.as_str())),
        },
        TransferEvent::DecryptFailed(e) => TransferEnd {
            remove_temp: true,
            outcome: TransferOutcome::Failed(prefixed("Decryption failed: ", e.as_str())),
        },
        TransferEvent::Failed(e) => TransferEnd { remove_temp: true, outcome: TransferOutcome::Failed(e) },
        TransferEvent::Finalized(p) => TransferEnd {
            remove_temp: false,
            outcome: TransferOutcome::Complete(p),
        },
    }
}

} // verus!
