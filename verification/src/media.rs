//! Cover art: recognising image types, data URLs for previews, and the
//! addresses of album covers.
use base64::Engine;
use vstd::prelude::*;

use crate::text::{chars_of, decimal, extend_chars, matches_at, occurs_at, string_of, u64_to_string};

verus! {

/// The character of a six-bit value in the standard base64 alphabet.
pub open spec fn base64_char(v: int) -> char {
    if v < 26 {
        (65 + v) as char
    } else if v < 52 {
        (97 + (v - 26)) as char
    } else if v < 62 {
        (48 + (v - 52)) as char
    } else if v == 62 {
        '+'
    } else {
        '/'
    }
}

/// Bytes in standard base64 (RFC 4648, with padding): each group of three
/// bytes gives four characters; a last group of one or two bytes gives two
/// or three characters and is padded with `=` to four.
pub open spec fn base64_standard(b: Seq<u8>) -> Seq<char>
    decreases b.len(),
{
    if b.len() == 0 {
        Seq::empty()
    } else if b.len() == 1 {
        seq![base64_char(b[0] as int / 4), base64_char((b[0] as int % 4) * 16), '=', '=']
    } else if b.len() == 2 {
        seq![
            base64_char(b[0] as int / 4),
            base64_char((b[0] as int % 4) * 16 + b[1] as int / 16),
            base64_char((b[1] as int % 16) * 4),
            '=',
        ]
    } else {
        seq![
            base64_char(b[0] as int / 4),
            base64_char((b[0] as int % 4) * 16 + b[1] as int / 16),
            base64_char((b[1] as int % 16) * 4 + b[2] as int / 64),
            base64_char(b[2] as int % 64),
        ] + base64_standard(b.skip(3))
    }
}

/// `base64::engine::general_purpose::STANDARD.encode`: the bytes in standard
/// base64 with padding. The crate panics when the encoded length overflows
/// `usize`, which the `requires` rules out.
#[verifier::external_body]
fn base64_encode(bytes: &[u8]) -> (r: String)
    requires
        bytes@.len() <= usize::MAX / 2,
    ensures
        r@ == base64_standard(bytes@),
{
    base64::engine::general_purpose::STANDARD.encode(bytes)
}

/// Bytes in standard base64 with padding.
pub fn encode_base64(bytes: &[u8]) -> (r: String)
    requires
        bytes@.len() <= usize::MAX / 2,
    ensures
        r@ == base64_standard(bytes@),
{
    base64_encode(bytes)
}

pub open spec fn starts_with_bytes(b: Seq<u8>, p: Seq<u8>) -> bool {
    p.len() <= b.len() && b.take(p.len() as int) == p
}

/// The type of an image from its first bytes: PNG when it carries the PNG
/// signature, JPEG otherwise.
pub open spec fn image_mime_spec(b: Seq<u8>) -> Seq<char> {
    if starts_with_bytes(b, seq![0xFFu8, 0xD8u8, 0xFFu8]) {
        "image/jpeg"@
    } else if starts_with_bytes(b, seq![0x89u8, 0x50u8, 0x4Eu8, 0x47u8]) {
        "image/png"@
    } else {
        "image/jpeg"@
    }
}

/// Detects an image's MIME type from its magic bytes.
pub fn detect_image_mime(bytes: &[u8]) -> (r: String)
    ensures
        r@ == image_mime_spec(bytes@),
{
    if bytes.len() >= 3 && bytes[0] == 0xFF && bytes[1] == 0xD8 && bytes[2] == 0xFF {
        assert(bytes@.take(3) =~= seq![0xFFu8, 0xD8u8, 0xFFu8]);
        String::from_str("image/jpeg")
    } else if bytes.len() >= 4 && bytes[0] == 0x89 && bytes[1] == 0x50 && bytes[2] == 0x4E
        && bytes[3] == 0x47 {
        proof {
            assert(bytes@.take(4) =~= seq![0x89u8, 0x50u8, 0x4Eu8, 0x47u8]);
            if bytes@.len() >= 3 && bytes@.take(3) == seq![0xFFu8, 0xD8u8, 0xFFu8] {
                assert(bytes@.take(3)[0] == bytes@[0]);
            }
        }
        String::from_str("image/png")
    } else {
        proof {
            if bytes@.len() >= 3 && bytes@.take(3) == seq![0xFFu8, 0xD8u8, 0xFFu8] {
                assert(bytes@.take(3)[0] == bytes@[0]);
                assert(bytes@.take(3)[1] == bytes@[1]);
                assert(bytes@.take(3)[2] == bytes@[2]);
            }
            if bytes@.len() >= 4 && bytes@.take(4) == seq![0x89u8, 0x50u8, 0x4Eu8, 0x47u8] {
                assert(bytes@.take(4)[0] == bytes@[0]);
                assert(bytes@.take(4)[1] == bytes@[1]);
                assert(bytes@.take(4)[2] == bytes@[2]);
                assert(bytes@.take(4)[3] == bytes@[3]);
            }
        }
        String::from_str("image/jpeg")
    }
}

/// The data URL of an image for previewing it.
pub open spec fn data_url_spec(b: Seq<u8>) -> Seq<char> {
    "data:"@ + image_mime_spec(b) + ";base64,"@ + base64_standard(b)
}

/// An image as a `data:` URL with its detected type and base64 content.
pub fn image_data_url(bytes: &[u8]) -> (r: String)
    requires
        bytes@.len() <= usize::MAX / 2,
    ensures
        r@ == data_url_spec(bytes@),
{
    let mut v = chars_of("data:");
    let mime = chars_of(detect_image_mime(bytes).as_str());
    extend_chars(&mut v, mime.as_slice());
    let mid = chars_of(";base64,");
    extend_chars(&mut v, mid.as_slice());
    let enc = chars_of(base64_encode(bytes).as_str());
    extend_chars(&mut v, enc.as_slice());
    string_of(v.as_slice())
}

// ---------------------------------------------------------------------------
// Album covers
// ---------------------------------------------------------------------------

/// The first position at or after `i` where `p` occurs in `s`.
pub open spec fn find_from(s: Seq<char>, p: Seq<char>, i: int) -> Option<int>
    decreases s.len() + 1 - i,
{
    if i < 0 || i + p.len() > s.len() {
        None
    } else if occurs_at(s, p, i) {
        Some(i)
    } else {
        find_from(s, p, i + 1)
    }
}

/// The text up to the first occurrence of `p`, or all of it
/// (`split(p).next()`).
pub open spec fn before_first(s: Seq<char>, p: Seq<char>) -> Seq<char> {
    match find_from(s, p, 0) {
        Some(j) => s.take(j),
        None => s,
    }
}

/// The cover id in a cover address such as
/// `https://e-cdns-images.dzcdn.net/images/cover/<id>/56x56-000000-80-0-0.jpg`:
/// the text after the first `cover/`, up to the next `cover/`, then up to
/// the first `/`; empty when the address has no `cover/`.
pub open spec fn cover_id_spec(url: Seq<char>) -> Seq<char> {
    match find_from(url, "cover/"@, 0) {
        None => Seq::empty(),
        Some(i) => before_first(before_first(url.skip(i + 6), "cover/"@), "/"@),
    }
}

fn find_chars(s: &[char], p: &[char]) -> (r: Option<usize>)
    requires
        p@.len() > 0,
    ensures
        match r {
            Some(j) => find_from(s@, p@, 0) == Some(j as int) && j + p@.len() <= s@.len(),
            None => find_from(s@, p@, 0) is None,
        },
{
    if p.len() > s.len() {
        return None;
    }
    let last = s.len() - p.len();
    let mut i: usize = 0;
    while i <= last
        invariant
            p.len() <= s.len(),
            last == s.len() - p.len(),
            p@.len() > 0,
            i <= last + 1,
            find_from(s@, p@, 0) == find_from(s@, p@, i as int),
        decreases last + 1 - i,
    {
        if matches_at(s, p, i) {
            return Some(i);
        }
        i += 1;
    }
    None
}

fn before_first_chars(s: &[char], p: &[char]) -> (r: Vec<char>)
    requires
        p@.len() > 0,
    ensures
        r@ == before_first(s@, p@),
{
    let end = match find_chars(s, p) {
        Some(j) => j,
        None => s.len(),
    };
    let mut r: Vec<char> = Vec::new();
    let mut k: usize = 0;
    while k < end
        invariant
            end <= s.len(),
            k <= end,
            r@ == s@.take(k as int),
        decreases end - k,
    {
        r.push(s[k]);
        assert(s@.take(k as int).push(s@[k as int]) =~= s@.take(k + 1));
        k += 1;
    }
    proof {
        if end == s.len() {
            assert(s@.take(end as int) =~= s@);
        }
        if let Some(j) = find_from(s@, p@, 0) {
            lemma_find_in_range(s@, p@, 0);
        }
    }
    r
}

proof fn lemma_find_in_range(s: Seq<char>, p: Seq<char>, i: int)
    requires
        find_from(s, p, i) is Some,
    ensures
        i <= find_from(s, p, i)->0 <= s.len() - p.len(),
    decreases s.len() + 1 - i,
{
    if !(i < 0 || i + p.len() > s.len()) && !occurs_at(s, p, i) {
        lemma_find_in_range(s, p, i + 1);
    }
}

/// Reads the cover id from an album's `cover_small` address.
pub fn cover_id_from(cover_small: &str) -> (r: String)
    ensures
        r@ == cover_id_spec(cover_small@),
{
    proof {
        reveal_strlit("cover/");
        reveal_strlit("/");
    }
    let s = chars_of(cover_small);
    let marker = chars_of("cover/");
    let slash = chars_of("/");
    assert(marker@.len() == 6);
    match find_chars(s.as_slice(), marker.as_slice()) {
        None => String::new(),
        Some(i) => {
            proof {
                lemma_find_in_range(s@, marker@, 0);
            }
            assert(marker@.len() == 6);
            assert(i + marker@.len() <= s@.len());
            let n = s.len();
            assert(i + 6 <= n);
            let mut rest: Vec<char> = Vec::new();
            let mut k: usize = i + 6;
            while k < s.len()
                invariant
                    i + 6 <= s.len(),
                    i + 6 <= k <= s.len(),
                    rest@ == s@.subrange(i + 6, k as int),
                decreases s.len() - k,
            {
                rest.push(s[k]);
                assert(s@.subrange(i + 6, k as int).push(s@[k as int]) =~= s@.subrange(
                    i + 6,
                    k + 1,
                ));
                k += 1;
            }
            assert(rest@ =~= s@.skip(i + 6));
            let seg = before_first_chars(rest.as_slice(), marker.as_slice());
            let id = before_first_chars(seg.as_slice(), slash.as_slice());
            string_of(id.as_slice())
        },
    }
}

/// The address of an album cover of the given size in pixels.
pub open spec fn cover_url_spec(cover_id: Seq<char>, size: u32) -> Seq<char> {
    "https://e-cdns-images.dzcdn.net/images/cover/"@ + cover_id + "/"@ + decimal(size as nat) + "x"@
        + decimal(size as nat) + ".jpg"@
}

pub fn album_cover_url(cover_id: &str, size: u32) -> (r: String)
    ensures
        r@ == cover_url_spec(cover_id@, size),
{
    let mut v = chars_of("https://e-cdns-images.dzcdn.net/images/cover/");
    let id = chars_of(cover_id);
    extend_chars(&mut v, id.as_slice());
    let slash = chars_of("/");
    extend_chars(&mut v, slash.as_slice());
    let n = chars_of(u64_to_string(size as u64).as_str());
    extend_chars(&mut v, n.as_slice());
    let x = chars_of("x");
    extend_chars(&mut v, x.as_slice());
    extend_chars(&mut v, n.as_slice());
    let ext = chars_of(".jpg");
    extend_chars(&mut v, ext.as_slice());
    string_of(v.as_slice())
}

/// Covers larger than this (10 MiB) are refused.
pub const MAX_COVER_BYTES: u64 = 10485760;

/// Whether a cover of this many bytes is accepted.
pub fn cover_size_ok(len: u64) -> (r: bool)
    ensures
        r == (len <= MAX_COVER_BYTES),
{
    len <= MAX_COVER_BYTES
}

/// Whether an album id names an album whose data is fetched for tagging.
pub fn album_id_usable(album_id: &str) -> (r: bool)
    ensures
        r == (album_id@.len() > 0 && album_id@ != "0"@),
{
    let v = chars_of(album_id);
    v.len() > 0 && !crate::text::str_eq(album_id, "0")
}

} // verus!
