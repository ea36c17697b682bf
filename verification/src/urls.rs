//! Deezer web links: which hosts the HTTP client may talk to, and how a
//! pasted `deezer.com` link names a track, album, artist or playlist.
use vstd::prelude::*;

use crate::text::{chars_eq, chars_of, ends_with, has_suffix, string_of, trim_str, trim_ws};

verus! {

/// What `url::Url::parse` makes of a string, in the parts the library reads:
/// the scheme, the host (`host_str`), and the path segments
/// (`path_segments`); `None` when the string is not a URL.
pub uninterp spec fn parsed_url(input: Seq<char>) -> Option<
    (Seq<char>, Option<Seq<char>>, Option<Seq<Seq<char>>>),
>;

/// The parts of a parsed URL that the library reads.
pub struct UrlParts {
    pub scheme: String,
    pub host: Option<String>,
    pub segments: Option<Vec<String>>,
}

pub open spec fn opt_view(o: Option<String>) -> Option<Seq<char>> {
    match o {
        Some(s) => Some(s@),
        None => None,
    }
}

pub open spec fn strings_view(v: Seq<String>) -> Seq<Seq<char>> {
    v.map_values(|s: String| s@)
}

impl UrlParts {
    pub open spec fn parts_view(&self) -> (Seq<char>, Option<Seq<char>>, Option<Seq<Seq<char>>>) {
        (
            self.scheme@,
            opt_view(self.host),
            match self.segments {
                Some(v) => Some(strings_view(v@)),
                None => None,
            },
        )
    }
}

/// Parses a URL with `url::Url::parse` and reads its scheme, host and path
/// segments. The contract names the result `parsed_url(input)`: the url
/// crate's parser (WHATWG URL parsing) is not restated here.
#[verifier::external_body]
fn url_parts(input: &str) -> (r: Option<UrlParts>)
    ensures
        match r {
            Some(p) => parsed_url(input@) == Some(p.parts_view()),
            None => parsed_url(input@) is None,
        },
{
    let url = url::Url::parse(input).ok()?;
    Some(UrlParts {
        scheme: url.scheme().to_string(),
        host: url.host_str().map(|h| h.to_string()),
        segments: url.path_segments().map(|s| s.map(|x| x.to_string()).collect()),
    })
}

/// Parses a URL into the parts the library reads.
pub fn parse_url(input: &str) -> (r: Option<UrlParts>)
    ensures
        match r {
            Some(p) => parsed_url(input@) == Some(p.parts_view()),
            None => parsed_url(input@) is None,
        },
{
    url_parts(input)
}

// ---------------------------------------------------------------------------
// ASCII helpers
// ---------------------------------------------------------------------------

pub open spec fn ascii_lower_char(c: char) -> char {
    if 'A' <= c && c <= 'Z' {
        ((c as u32) + 32) as char
    } else {
        c
    }
}

/// `str::to_ascii_lowercase`.
pub open spec fn ascii_lower(s: Seq<char>) -> Seq<char> {
    s.map_values(|c: char| ascii_lower_char(c))
}

fn lower_char(c: char) -> (r: char)
    ensures
        r == ascii_lower_char(c),
{
    if 'A' <= c && c <= 'Z' {
        ((c as u8) + 32) as char
    } else {
        c
    }
}

pub fn ascii_lower_chars(s: &[char]) -> (r: Vec<char>)
    ensures
        r@ == ascii_lower(s@),
{
    let mut r: Vec<char> = Vec::new();
    let mut i: usize = 0;
    while i < s.len()
        invariant
            i <= s.len(),
            r@ == ascii_lower(s@.take(i as int)),
        decreases s.len() - i,
    {
        r.push(lower_char(s[i]));
        assert(ascii_lower(s@.take(i + 1)) =~= ascii_lower(s@.take(i as int)).push(
            ascii_lower_char(s@[i as int]),
        ));
        i += 1;
    }
    assert(s@.take(s.len() as int) =~= s@);
    r
}

pub open spec fn is_ascii_alpha(c: char) -> bool {
    ('a' <= c && c <= 'z') || ('A' <= c && c <= 'Z')
}

pub open spec fn is_ascii_digit(c: char) -> bool {
    '0' <= c && c <= '9'
}

fn eq_lit(s: &[char], lit: &str) -> (r: bool)
    ensures
        r == (s@ == lit@),
{
    let l = chars_of(lit);
    chars_eq(s, l.as_slice())
}

// ---------------------------------------------------------------------------
// Allowed hosts
// ---------------------------------------------------------------------------

/// A host that belongs to Deezer or its CDN.
pub open spec fn is_deezer_host(host: Seq<char>) -> bool {
    ||| host == "deezer.com"@
    ||| has_suffix(host, ".deezer.com"@)
    ||| host == "dzcdn.net"@
    ||| has_suffix(host, ".dzcdn.net"@)
}

pub open spec fn allowed_url_spec(scheme: Seq<char>, host: Option<Seq<char>>) -> bool {
    scheme == "https"@ && host is Some && is_deezer_host(ascii_lower(host->0))
}

/// Whether the HTTP client may request or follow a redirect to this URL:
/// HTTPS only, and only Deezer's and its CDN's hosts.
pub fn is_allowed_deezer_url(url: &UrlParts) -> (r: bool)
    ensures
        r == allowed_url_spec(url.scheme@, opt_view(url.host)),
{
    let scheme = chars_of(url.scheme.as_str());
    if !eq_lit(scheme.as_slice(), "https") {
        return false;
    }
    let host = match &url.host {
        Some(h) => chars_of(h.as_str()),
        None => {
            return false;
        },
    };
    let host = ascii_lower_chars(host.as_slice());
    let sub1 = chars_of(".deezer.com");
    let sub2 = chars_of(".dzcdn.net");
    eq_lit(host.as_slice(), "deezer.com") || ends_with(host.as_slice(), sub1.as_slice())
        || eq_lit(host.as_slice(), "dzcdn.net") || ends_with(host.as_slice(), sub2.as_slice())
}

// ---------------------------------------------------------------------------
// Deezer links
// ---------------------------------------------------------------------------

/// What a link points to.
pub struct DeezerLink {
    pub kind: String,
    pub id: String,
}

/// Why a pasted link is refused.
#[derive(Debug, Clone, Copy, PartialEq, Eq, Structural)]
pub enum LinkError {
    InvalidUrl,
    UnsupportedScheme,
    MissingHost,
    WrongHost,
    MissingPath,
    UnsupportedFormat,
    NonNumericId,
}

impl LinkError {
    pub open spec fn message_spec(&self) -> Seq<char> {
        match *self {
            LinkError::InvalidUrl => "Invalid URL"@,
            LinkError::UnsupportedScheme => "Invalid Deezer URL: only http/https are supported"@,
            LinkError::MissingHost => "Invalid Deezer URL host"@,
            LinkError::WrongHost => "Invalid Deezer URL: host must be deezer.com"@,
            LinkError::MissingPath => "Invalid Deezer URL path"@,
            LinkError::UnsupportedFormat => "Invalid Deezer URL format"@,
            LinkError::NonNumericId => "Invalid Deezer URL: expected numeric identifier"@,
        }
    }

    /// The error's text, as the user sees it.
    pub fn message(&self) -> (r: String)
        ensures
            r@ == self.message_spec(),
    {
        match *self {
            LinkError::InvalidUrl => String::from_str("Invalid URL"),
            LinkError::UnsupportedScheme => String::from_str(
                "Invalid Deezer URL: only http/https are supported",
            ),
            LinkError::MissingHost => String::from_str("Invalid Deezer URL host"),
            LinkError::WrongHost => String::from_str("Invalid Deezer URL: host must be deezer.com"),
            LinkError::MissingPath => String::from_str("Invalid Deezer URL path"),
            LinkError::UnsupportedFormat => String::from_str("Invalid Deezer URL format"),
            LinkError::NonNumericId => String::from_str(
                "Invalid Deezer URL: expected numeric identifier",
            ),
        }
    }
}

pub open spec fn supported_kind_spec(s: Seq<char>) -> bool {
    s == "track"@ || s == "album"@ || s == "artist"@ || s == "playlist"@
}

pub open spec fn locale_segment_spec(s: Seq<char>) -> bool {
    s.len() == 2 && is_ascii_alpha(s[0]) && is_ascii_alpha(s[1])
}

/// The kinds of content that a link may name.
pub fn is_supported_deezer_kind(segment: &str) -> (r: bool)
    ensures
        r == supported_kind_spec(segment@),
{
    let s = chars_of(segment);
    eq_lit(s.as_slice(), "track") || eq_lit(s.as_slice(), "album") || eq_lit(s.as_slice(), "artist")
        || eq_lit(s.as_slice(), "playlist")
}

/// A two-letter language segment such as `en` in `deezer.com/en/track/1`.
pub fn is_locale_segment(segment: &str) -> (r: bool)
    ensures
        r == locale_segment_spec(segment@),
{
    let s = chars_of(segment);
    if s.len() != 2 {
        return false;
    }
    let a = s[0];
    let b = s[1];
    (('a' <= a && a <= 'z') || ('A' <= a && a <= 'Z')) && (('a' <= b && b <= 'z') || ('A' <= b
        && b <= 'Z'))
}

/// The segments left once the empty ones are dropped.
pub open spec fn non_empty_segments(s: Seq<Seq<char>>) -> Seq<Seq<char>>
    decreases s.len(),
{
    if s.len() == 0 {
        Seq::empty()
    } else {
        let prev = non_empty_segments(s.drop_last());
        if s.last().len() > 0 {
            prev.push(s.last())
        } else {
            prev
        }
    }
}

/// The kind and identifier named by the path segments, if the path has a
/// supported shape.
pub open spec fn link_target(segs: Seq<Seq<char>>) -> Option<(Seq<char>, Seq<char>)> {
    if segs.len() == 2 && supported_kind_spec(segs[0]) {
        Some((segs[0], segs[1]))
    } else if segs.len() == 3 && locale_segment_spec(segs[0]) && supported_kind_spec(segs[1]) {
        Some((segs[1], segs[2]))
    } else {
        None
    }
}

pub open spec fn all_ascii_digits(s: Seq<char>) -> bool {
    forall|i: int| 0 <= i < s.len() ==> is_ascii_digit(#[trigger] s[i])
}

/// What the parts of a parsed link name, or why they are refused.
pub open spec fn link_from_parts_spec(
    parts: (Seq<char>, Option<Seq<char>>, Option<Seq<Seq<char>>>),
) -> Result<(Seq<char>, Seq<char>), LinkError> {
    let (scheme, host, segments) = parts;
    if scheme != "http"@ && scheme != "https"@ {
        Err(LinkError::UnsupportedScheme)
    } else {
        match host {
            None => Err(LinkError::MissingHost),
            Some(h) => if ascii_lower(h) != "deezer.com"@ && ascii_lower(h) != "www.deezer.com"@ {
                Err(LinkError::WrongHost)
            } else {
                match segments {
                    None => Err(LinkError::MissingPath),
                    Some(segs) => match link_target(non_empty_segments(segs)) {
                        None => Err(LinkError::UnsupportedFormat),
                        Some((kind, id)) => if all_ascii_digits(id) {
                            Ok((kind, id))
                        } else {
                            Err(LinkError::NonNumericId)
                        },
                    },
                }
            },
        }
    }
}

/// What a pasted link names, or why it is refused.
pub open spec fn deezer_link_spec(input: Seq<char>) -> Result<(Seq<char>, Seq<char>), LinkError> {
    match parsed_url(trim_ws(input)) {
        None => Err(LinkError::InvalidUrl),
        Some(parts) => link_from_parts_spec(parts),
    }
}

fn non_empty_strings(v: &Vec<String>) -> (r: Vec<String>)
    ensures
        strings_view(r@) == non_empty_segments(strings_view(v@)),
{
    let mut r: Vec<String> = Vec::new();
    let mut i: usize = 0;
    while i < v.len()
        invariant
            i <= v.len(),
            strings_view(r@) == non_empty_segments(strings_view(v@).take(i as int)),
        decreases v.len() - i,
    {
        let ghost before = r@;
        let c = chars_of(v[i].as_str());
        assert(strings_view(v@).take(i + 1).drop_last() =~= strings_view(v@).take(i as int));
        assert(strings_view(v@).take(i + 1).last() == v@[i as int]@);
        if c.len() > 0 {
            r.push(v[i].clone());
            assert(strings_view(r@) =~= strings_view(before).push(v@[i as int]@));
        }
        i += 1;
    }
    assert(strings_view(v@).take(v.len() as int) =~= strings_view(v@));
    r
}

fn all_digits_str(s: &str) -> (r: bool)
    ensures
        r == all_ascii_digits(s@),
{
    let v = chars_of(s);
    let mut i: usize = 0;
    while i < v.len()
        invariant
            v@ == s@,
            i <= v.len(),
            forall|k: int| 0 <= k < i ==> is_ascii_digit(#[trigger] v@[k]),
        decreases v.len() - i,
    {
        if !('0' <= v[i] && v[i] <= '9') {
            assert(!is_ascii_digit(s@[i as int]));
            return false;
        }
        i += 1;
    }
    true
}

/// Reads the kind and numeric identifier from the parts of a parsed
/// `deezer.com` link, optionally with a two-letter language segment before
/// the kind.
pub fn deezer_link_from_parts(parts: &UrlParts) -> (r: Result<DeezerLink, LinkError>)
    ensures
        match r {
            Ok(link) => link_from_parts_spec(parts.parts_view()) == Ok::<
                (Seq<char>, Seq<char>),
                LinkError,
            >((link.kind@, link.id@)),
            Err(e) => link_from_parts_spec(parts.parts_view()) == Err::<
                (Seq<char>, Seq<char>),
                LinkError,
            >(e),
        },
{
    let scheme = chars_of(parts.scheme.as_str());
    if !eq_lit(scheme.as_slice(), "http") && !eq_lit(scheme.as_slice(), "https") {
        return Err(LinkError::UnsupportedScheme);
    }
    let host = match &parts.host {
        Some(h) => ascii_lower_chars(chars_of(h.as_str()).as_slice()),
        None => {
            return Err(LinkError::MissingHost);
        },
    };
    if !eq_lit(host.as_slice(), "deezer.com") && !eq_lit(host.as_slice(), "www.deezer.com") {
        return Err(LinkError::WrongHost);
    }
    let segments = match &parts.segments {
        Some(s) => non_empty_strings(s),
        None => {
            return Err(LinkError::MissingPath);
        },
    };
    let ghost segs = strings_view(segments@);
    let (kind, id): (String, String) = if segments.len() == 2 && is_supported_deezer_kind(
        segments[0].as_str(),
    ) {
        assert(segs[0] == segments@[0]@);
        assert(segs[1] == segments@[1]@);
        (segments[0].clone(), segments[1].clone())
    } else if segments.len() == 3 && is_locale_segment(segments[0].as_str())
        && is_supported_deezer_kind(segments[1].as_str()) {
        assert(segs[0] == segments@[0]@);
        assert(segs[1] == segments@[1]@);
        assert(segs[2] == segments@[2]@);
        (segments[1].clone(), segments[2].clone())
    } else {
        proof {
            if segments@.len() == 2 {
                assert(segs[0] == segments@[0]@);
            }
            if segments@.len() == 3 {
                assert(segs[0] == segments@[0]@);
                assert(segs[1] == segments@[1]@);
            }
        }
        return Err(LinkError::UnsupportedFormat);
    };
    if !all_digits_str(id.as_str()) {
        return Err(LinkError::NonNumericId);
    }
    Ok(DeezerLink { kind, id })
}

/// Reads the kind and numeric identifier from a pasted `deezer.com` link,
/// optionally with a two-letter language segment before the kind.
pub fn parse_deezer_url(url: &str) -> (r: Result<DeezerLink, LinkError>)
    ensures
        match r {
            Ok(link) => deezer_link_spec(url@) == Ok::<(Seq<char>, Seq<char>), LinkError>(
                (link.kind@, link.id@),
            ),
            Err(e) => deezer_link_spec(url@) == Err::<(Seq<char>, Seq<char>), LinkError>(e),
        },
{
    let trimmed = trim_str(url);
    match url_parts(trimmed.as_str()) {
        Some(parts) => deezer_link_from_parts(&parts),
        None => Err(LinkError::InvalidUrl),
    }
}

} // verus!
