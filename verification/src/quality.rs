//! Audio qualities: their codes, file extensions and fallbacks, and the
//! quality that an account may download.
use vstd::prelude::*;

use crate::text::{chars_of, str_eq};

verus! {

/// The code of a quality in Deezer's legacy download URLs.
pub open spec fn quality_code_spec(q: Seq<char>) -> u32 {
    if q == "FLAC"@ {
        9
    } else if q == "MP3_128"@ {
        1
    } else if q == "MP3_256"@ {
        5
    } else if q == "MP3_320"@ {
        3
    } else if q == "MP4_RA1"@ {
        13
    } else if q == "MP4_RA2"@ {
        14
    } else if q == "MP4_RA3"@ {
        15
    } else {
        3
    }
}

/// The code of a quality in Deezer's legacy download URLs (that of MP3 320
/// for an unknown quality).
pub fn get_quality_code(quality: &str) -> (r: u32)
    ensures
        r == quality_code_spec(quality@),
{
    if str_eq(quality, "FLAC") {
        9
    } else if str_eq(quality, "MP3_128") {
        1
    } else if str_eq(quality, "MP3_256") {
        5
    } else if str_eq(quality, "MP3_320") {
        3
    } else if str_eq(quality, "MP4_RA1") {
        13
    } else if str_eq(quality, "MP4_RA2") {
        14
    } else if str_eq(quality, "MP4_RA3") {
        15
    } else {
        3
    }
}

/// The lower qualities tried, in order, when a quality is unavailable.
pub open spec fn fallback_spec(q: Seq<char>) -> Seq<Seq<char>> {
    if q == "FLAC"@ {
        seq!["MP3_320"@, "MP3_128"@]
    } else if q == "MP3_320"@ {
        seq!["MP3_128"@]
    } else {
        Seq::empty()
    }
}

pub open spec fn str_views(v: Seq<&'static str>) -> Seq<Seq<char>> {
    v.map_values(|s: &'static str| s@)
}

/// The lower qualities tried, in order, when a quality is unavailable: FLAC
/// falls back to MP3 320 then MP3 128, MP3 320 to MP3 128, and the others to
/// nothing.
pub fn fallback_qualities(quality: &str) -> (r: Vec<&'static str>)
    ensures
        str_views(r@) == fallback_spec(quality@),
{
    let mut r: Vec<&'static str> = Vec::new();
    if str_eq(quality, "FLAC") {
        r.push("MP3_320");
        r.push("MP3_128");
    } else if str_eq(quality, "MP3_320") {
        r.push("MP3_128");
    }
    assert(str_views(r@) =~= fallback_spec(quality@));
    r
}

/// The file extension of a quality.
pub open spec fn quality_ext_spec(q: Seq<char>) -> Seq<char> {
    if q == "FLAC"@ {
        ".flac"@
    } else if q == "MP4_RA1"@ || q == "MP4_RA2"@ || q == "MP4_RA3"@ {
        ".mp4"@
    } else {
        ".mp3"@
    }
}

/// The file extension of a quality: `.flac`, `.mp4` for the 360 Reality
/// Audio formats, `.mp3` otherwise.
pub fn get_quality_ext(quality: &str) -> (r: &'static str)
    ensures
        r@ == quality_ext_spec(quality@),
{
    if str_eq(quality, "FLAC") {
        ".flac"
    } else if str_eq(quality, "MP4_RA1") || str_eq(quality, "MP4_RA2") || str_eq(
        quality,
        "MP4_RA3",
    ) {
        ".mp4"
    } else {
        ".mp3"
    }
}

/// The quality that is requested for an account: a free account gets MP3 128
/// whatever was chosen.
pub open spec fn effective_quality_spec(q: Seq<char>, is_free: bool) -> Seq<char> {
    if is_free {
        "MP3_128"@
    } else {
        q
    }
}

pub fn effective_quality(quality: &str, is_free_account: bool) -> (r: String)
    ensures
        r@ == effective_quality_spec(quality@, is_free_account),
{
    if is_free_account && !str_eq(quality, "MP3_128") {
        String::from_str("MP3_128")
    } else {
        String::from_str(quality)
    }
}

/// The qualities tried for a download, in order: the requested one, then,
/// when falling back is allowed, its fallbacks.
pub open spec fn quality_attempts_spec(q: Seq<char>, fallback: bool) -> Seq<Seq<char>> {
    if fallback {
        seq![q] + fallback_spec(q)
    } else {
        seq![q]
    }
}

pub open spec fn string_views(v: Seq<String>) -> Seq<Seq<char>> {
    v.map_values(|s: String| s@)
}

pub fn quality_attempts(quality: &str, fallback: bool) -> (r: Vec<String>)
    ensures
        string_views(r@) == quality_attempts_spec(quality@, fallback),
{
    let mut r: Vec<String> = Vec::new();
    r.push(String::from_str(quality));
    if fallback {
        let f = fallback_qualities(quality);
        let mut i: usize = 0;
        while i < f.len()
            invariant
                i <= f.len(),
                str_views(f@) == fallback_spec(quality@),
                string_views(r@) == seq![quality@] + str_views(f@).take(i as int),
            decreases f.len() - i,
        {
            let ghost before = string_views(r@);
            r.push(String::from_str(f[i]));
            assert(string_views(r@) =~= before.push(f@[i as int]@));
            assert(str_views(f@).take(i + 1) =~= str_views(f@).take(i as int).push(f@[i as int]@));
            i += 1;
        }
        assert(str_views(f@).take(f.len() as int) =~= str_views(f@));
    }
    assert(string_views(r@) =~= quality_attempts_spec(quality@, fallback));
    r
}

/// The rank of a downloadable quality: higher is better.
pub open spec fn quality_rank(q: Seq<char>) -> int {
    if q == "FLAC"@ {
        3
    } else if q == "MP3_320"@ {
        2
    } else if q == "MP3_128"@ {
        1
    } else {
        0
    }
}

/// A download never falls back to a better quality: every attempt after the
/// first is of a strictly lower quality than the one before, and at most
/// three qualities are tried.
pub proof fn lemma_fallback_only_degrades(q: Seq<char>, fallback: bool)
    ensures
        quality_attempts_spec(q, fallback).len() <= 3,
        quality_attempts_spec(q, fallback)[0] == q,
        forall|i: int|
            1 <= i < quality_attempts_spec(q, fallback).len() ==> quality_rank(
                #[trigger] quality_attempts_spec(q, fallback)[i],
            ) < quality_rank(quality_attempts_spec(q, fallback)[i - 1]),
{
    reveal_strlit("FLAC");
    reveal_strlit("MP3_320");
    reveal_strlit("MP3_128");
    assert("FLAC"@[0] != "MP3_320"@[0]);
    assert("FLAC"@[0] != "MP3_128"@[0]);
    assert("MP3_320"@[4] != "MP3_128"@[4]);
}

/// A free account downloads MP3 128 whatever quality was chosen, and so
/// tries no other quality; any other account downloads the quality chosen.
pub proof fn lemma_free_accounts_get_mp3_128(q: Seq<char>, fallback: bool)
    ensures
        effective_quality_spec(q, true) == "MP3_128"@,
        quality_attempts_spec(effective_quality_spec(q, true), fallback) == seq!["MP3_128"@],
        effective_quality_spec(q, false) == q,
{
    reveal_strlit("FLAC");
    reveal_strlit("MP3_320");
    reveal_strlit("MP3_128");
    assert("MP3_128"@[0] != "FLAC"@[0]);
    assert("MP3_128"@[4] != "MP3_320"@[4]);
    assert(seq!["MP3_128"@] + Seq::<Seq<char>>::empty() =~= seq!["MP3_128"@]);
}

} // verus!
