//! The fields of Deezer's track records that the library reads.
use vstd::prelude::*;

use crate::text::{
    byte_len, byte_len_capped, byte_prefix, char_boundary, chars_of, decimal, extend_chars, i64_to_string,
    is_char_boundary, parse_i32, parse_i32_spec, parse_u32, parse_u32_spec, signed_decimal,
    string_of, take_bytes, u64_to_string,
};

verus! {

/// A JSON value read as text or as a number: a string, a non-negative
/// integer, a negative integer, or anything else (absent, null, float,
/// array, object).
pub enum FieldValue {
    Text(String),
    Unsigned(u64),
    Signed(i64),
    Other,
}

/// The fields of a track record (`song.getData` results) that downloading and
/// tagging read; a string field is `None` when it is absent or not a string.
pub struct TrackData {
    pub sng_id: FieldValue,
    pub sng_title: Option<String>,
    pub art_name: Option<String>,
    pub alb_title: Option<String>,
    pub alb_id: FieldValue,
    pub version: Option<String>,
    pub physical_release_date: Option<String>,
    pub digital_release_date: Option<String>,
    pub track_number: FieldValue,
    pub disk_number: FieldValue,
    pub track_token: Option<String>,
    pub md5_origin: Option<String>,
    pub media_version: Option<String>,
}

/// The text of a value: the string itself, or the decimal form of a number,
/// or nothing.
pub open spec fn field_text(v: &FieldValue) -> Seq<char> {
    match v {
        FieldValue::Text(s) => s@,
        FieldValue::Unsigned(n) => decimal(*n as nat),
        FieldValue::Signed(n) => signed_decimal(*n as int),
        FieldValue::Other => Seq::empty(),
    }
}

/// A value read as a `u32`: a string is parsed, a non-negative number is
/// truncated to 32 bits, anything else gives nothing.
pub open spec fn scalar_u32_spec(v: &FieldValue) -> Option<u32> {
    match v {
        FieldValue::Text(s) => parse_u32_spec(s@),
        FieldValue::Unsigned(n) => Some(*n as u32),
        _ => None,
    }
}

/// The text of a string-or-number field, empty when it is neither.
pub fn extract_val(val: &FieldValue) -> (r: String)
    ensures
        r@ == field_text(val),
{
    match val {
        FieldValue::Text(s) => s.clone(),
        FieldValue::Unsigned(n) => u64_to_string(*n),
        FieldValue::Signed(n) => i64_to_string(*n),
        FieldValue::Other => String::new(),
    }
}

/// A track or disc number read from a string or number field.
pub fn parse_u32_from_value(val: &FieldValue) -> (r: Option<u32>)
    ensures
        r == scalar_u32_spec(val),
{
    match val {
        FieldValue::Text(s) => parse_u32(s.as_str()),
        FieldValue::Unsigned(n) => Some(*n as u32),
        _ => None,
    }
}

/// The names a download is labelled with.
pub struct TrackLabels {
    pub title: String,
    pub artist: String,
    pub album_title: String,
    /// The title followed by the version (such as "(Live)"), when there is one.
    pub full_title: String,
    pub album_id: String,
    pub sng_id: String,
}

pub open spec fn text_or_unknown(o: Option<String>) -> Seq<char> {
    match o {
        Some(s) => s@,
        None => "Unknown"@,
    }
}

/// The title with its version appended after a space, when the version is
/// present and not empty.
pub open spec fn full_title_spec(d: &TrackData) -> Seq<char> {
    let title = text_or_unknown(d.sng_title);
    match d.version {
        Some(v) => if v@.len() > 0 {
            title + " "@ + v@
        } else {
            title
        },
        None => title,
    }
}

fn or_unknown(o: &Option<String>) -> (r: String)
    ensures
        r@ == text_or_unknown(*o),
{
    match o {
        Some(s) => s.clone(),
        None => String::from_str("Unknown"),
    }
}

/// The labels of a track: title, artist and album ("Unknown" when missing),
/// the full title, and the album and song ids as text.
pub fn describe_track(d: &TrackData) -> (r: TrackLabels)
    ensures
        r.title@ == text_or_unknown(d.sng_title),
        r.artist@ == text_or_unknown(d.art_name),
        r.album_title@ == text_or_unknown(d.alb_title),
        r.full_title@ == full_title_spec(d),
        r.album_id@ == field_text(&d.alb_id),
        r.sng_id@ == field_text(&d.sng_id),
{
    let title = or_unknown(&d.sng_title);
    let full_title = match &d.version {
        Some(v) => {
            let vv = chars_of(v.as_str());
            if vv.len() > 0 {
                let mut t = chars_of(title.as_str());
                t.push(' ');
                extend_chars(&mut t, vv.as_slice());
                proof {
                    reveal_strlit(" ");
                    assert(" "@ =~= seq![' ']);
                }
                string_of(t.as_slice())
            } else {
                title.clone()
            }
        },
        None => title.clone(),
    };
    TrackLabels {
        title,
        artist: or_unknown(&d.art_name),
        album_title: or_unknown(&d.alb_title),
        full_title,
        album_id: extract_val(&d.alb_id),
        sng_id: extract_val(&d.sng_id),
    }
}

/// Reading the first four bytes of a release date does not split a
/// character, which would panic.
pub open spec fn date_prefix_ok(date: Option<String>) -> bool {
    match date {
        Some(d) => byte_len(d@) < 4 || is_char_boundary(d@, 4),
        None => true,
    }
}

/// Whether the first four bytes of a release date can be read.
pub fn date_prefix_readable(date: &Option<String>) -> (r: bool)
    ensures
        r == date_prefix_ok(*date),
{
    match date {
        Some(d) => {
            let v = chars_of(d.as_str());
            byte_len_capped(v.as_slice(), 4) < 4 || char_boundary(v.as_slice(), 4)
        },
        None => true,
    }
}

/// The year written to an MP3's tag: the first four bytes of the release
/// date read as a number, when the date has at least four bytes.
pub open spec fn tag_year_spec(date: Option<String>) -> Option<i32> {
    match date {
        Some(d) => if byte_len(d@) >= 4 {
            parse_i32_spec(byte_prefix(d@, 4))
        } else {
            None
        },
        None => None,
    }
}

/// The date written to a FLAC's tag: the first four bytes of the release
/// date, when it has at least four.
pub open spec fn tag_date_spec(date: Option<String>) -> Option<Seq<char>> {
    match date {
        Some(d) => if byte_len(d@) >= 4 {
            Some(byte_prefix(d@, 4))
        } else {
            None
        },
        None => None,
    }
}

pub open spec fn opt_string_view(o: Option<String>) -> Option<Seq<char>> {
    match o {
        Some(s) => Some(s@),
        None => None,
    }
}

pub fn tag_date(date: &Option<String>) -> (r: Option<String>)
    requires
        date_prefix_ok(*date),
    ensures
        opt_string_view(r) == tag_date_spec(*date),
{
    match date {
        Some(d) => {
            let v = chars_of(d.as_str());
            if byte_len_capped(v.as_slice(), 4) >= 4 {
                let p = take_bytes(v.as_slice(), 4);
                Some(string_of(p.as_slice()))
            } else {
                None
            }
        },
        None => None,
    }
}

pub fn tag_year(date: &Option<String>) -> (r: Option<i32>)
    requires
        date_prefix_ok(*date),
    ensures
        r == tag_year_spec(*date),
{
    match tag_date(date) {
        Some(y) => parse_i32(y.as_str()),
        None => None,
    }
}

} // verus!
