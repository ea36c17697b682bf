//! Choosing the URL a track is downloaded from. The media service is asked
//! first, quality by quality; when it gives nothing, legacy URLs are probed
//! in the same order. The network calls are the caller's: the resolver says
//! what to ask for next and, from each answer, what follows.
use vstd::prelude::*;

use crate::quality::{get_quality_code, quality_attempts, quality_attempts_spec, quality_code_spec, string_views};
use crate::text::{i64_to_string, signed_decimal, decimal, u64_to_string};
use crate::track::{opt_string_view, FieldValue, TrackData};

verus! {

/// What the legacy URL of a track is made from.
pub struct LegacyTrack {
    pub md5_origin: String,
    pub sng_id: String,
    pub media_version: String,
}

/// The text of a string-or-number field, when it is one of those.
pub open spec fn string_or_number(v: &FieldValue) -> Option<Seq<char>> {
    match v {
        FieldValue::Text(s) => Some(s@),
        FieldValue::Unsigned(n) => Some(decimal(*n as nat)),
        FieldValue::Signed(n) => Some(signed_decimal(*n as int)),
        FieldValue::Other => None,
    }
}

/// The legacy fields of a track, or the message naming the first one that
/// is missing.
pub open spec fn legacy_spec(d: &TrackData) -> Result<(Seq<char>, Seq<char>, Seq<char>), Seq<char>> {
    match opt_string_view(d.md5_origin) {
        None => Err("Track unavailable (no MD5_ORIGIN)"@),
        Some(md5) => match string_or_number(&d.sng_id) {
            None => Err("Track unavailable (no SNG_ID)"@),
            Some(id) => match opt_string_view(d.media_version) {
                None => Err("Track unavailable (no MEDIA_VERSION)"@),
                Some(mv) => Ok((md5, id, mv)),
            },
        },
    }
}

pub open spec fn legacy_view(r: Result<LegacyTrack, String>) -> Result<
    (Seq<char>, Seq<char>, Seq<char>),
    Seq<char>,
> {
    match r {
        Ok(l) => Ok((l.md5_origin@, l.sng_id@, l.media_version@)),
        Err(e) => Err(e@),
    }
}

fn string_or_number_exec(v: &FieldValue) -> (r: Option<String>)
    ensures
        opt_string_view(r) == string_or_number(v),
{
    match v {
        FieldValue::Text(s) => Some(s.clone()),
        FieldValue::Unsigned(n) => Some(u64_to_string(*n)),
        FieldValue::Signed(n) => Some(i64_to_string(*n)),
        FieldValue::Other => None,
    }
}

/// The fields a legacy download URL is made from.
pub fn legacy_track(d: &TrackData) -> (r: Result<LegacyTrack, String>)
    ensures
        legacy_view(r) == legacy_spec(d),
{
    let md5_origin = match &d.md5_origin {
        Some(m) => m.clone(),
        None => return Err(String::from_str("Track unavailable (no MD5_ORIGIN)")),
    };
    let sng_id = match string_or_number_exec(&d.sng_id) {
        Some(s) => s,
        None => return Err(String::from_str("Track unavailable (no SNG_ID)")),
    };
    let media_version = match &d.media_version {
        Some(m) => m.clone(),
        None => return Err(String::from_str("Track unavailable (no MEDIA_VERSION)")),
    };
    Ok(LegacyTrack { md5_origin, sng_id, media_version })
}

/// Where a resolution stands: asking the media service for the attempt at
/// the index, probing the legacy URL of the attempt at the index, or done.
#[derive(Clone, Copy, PartialEq, Eq, Structural)]
pub enum Phase {
    Media(usize),
    Legacy(usize),
    Done,
}

/// What the caller does next.
pub enum UrlAction {
    /// Ask the media service for a URL in this quality alone.
    RequestMedia { quality: String },
    /// Build the legacy URL from these fields and quality code, fetch it, and
    /// report whether it answered with success and a non-empty body.
    ProbeLegacy {
        md5_origin: String,
        sng_id: String,
        media_version: String,
        quality_code: u32,
        quality: String,
    },
    /// The outcome: the URL and the quality it delivers, or the error.
    Finish(Result<(String, String), String>),
}

/// The view of an action: what is asked for, or the outcome.
pub enum ActionView {
    RequestMedia(Seq<char>),
    ProbeLegacy(Seq<char>, Seq<char>, Seq<char>, u32, Seq<char>),
    Finish(Result<(Seq<char>, Seq<char>), Seq<char>>),
}

impl UrlAction {
    pub open spec fn view(&self) -> ActionView {
        match self {
            UrlAction::RequestMedia { quality } => ActionView::RequestMedia(quality@),
            UrlAction::ProbeLegacy { md5_origin, sng_id, media_version, quality_code, quality } =>
                ActionView::ProbeLegacy(
                md5_origin@,
                sng_id@,
                media_version@,
                *quality_code,
                quality@,
            ),
            UrlAction::Finish(r) => ActionView::Finish(
                match r {
                    Ok(p) => Ok((p.0@, p.1@)),
                    Err(e) => Err(e@),
                },
            ),
        }
    }
}

/// The resolution of one track's download URL.
pub struct UrlResolver {
    attempts: Vec<String>,
    fallback: bool,
    legacy: Result<LegacyTrack, String>,
    phase: Phase,
}

impl UrlResolver {
    /// The qualities tried, in order.
    pub closed spec fn attempts(&self) -> Seq<Seq<char>> {
        string_views(self.attempts@)
    }

    pub closed spec fn fallback(&self) -> bool {
        self.fallback
    }

    pub closed spec fn legacy(&self) -> Result<(Seq<char>, Seq<char>, Seq<char>), Seq<char>> {
        legacy_view(self.legacy)
    }

    pub closed spec fn phase(&self) -> Phase {
        self.phase
    }

    pub closed spec fn wf(&self) -> bool {
        &&& 1 <= self.attempts@.len() <= 3
        &&& match self.phase {
            Phase::Media(i) => i < self.attempts@.len(),
            Phase::Legacy(i) => i < self.attempts@.len(),
            Phase::Done => true,
        }
    }

    /// The action that starts the legacy probes: the first probe, or the
    /// error for a missing field.
    pub open spec fn legacy_start(&self) -> ActionView {
        match self.legacy() {
            Err(e) => ActionView::Finish(Err(e)),
            Ok(l) => ActionView::ProbeLegacy(
                l.0,
                l.1,
                l.2,
                quality_code_spec(self.attempts()[0]),
                self.attempts()[0],
            ),
        }
    }

    /// A resolver for a track: `quality` first, then its fallbacks when
    /// `fallback` is set; the media service is asked only when the track has
    /// a track token and a license token is known.
    pub fn new(quality: &str, fallback: bool, has_tokens: bool, track: &TrackData) -> (r: Self)
        ensures
            r.wf(),
            r.attempts() == quality_attempts_spec(quality@, fallback),
            r.fallback() == fallback,
            r.legacy() == legacy_spec(track),
            r.phase() == (if has_tokens {
                Phase::Media(0)
            } else {
                Phase::Legacy(0)
            }),
    {
        let attempts = quality_attempts(quality, fallback);
        proof {
            crate::quality::lemma_fallback_only_degrades(quality@, fallback);
        }
        UrlResolver {
            attempts,
            fallback,
            legacy: legacy_track(track),
            phase: if has_tokens {
                Phase::Media(0)
            } else {
                Phase::Legacy(0)
            },
        }
    }

    fn start_legacy(&mut self) -> (a: UrlAction)
        requires
            old(self).wf(),
        ensures
            final(self).wf(),
            final(self).attempts() == old(self).attempts(),
            final(self).fallback() == old(self).fallback(),
            final(self).legacy() == old(self).legacy(),
            a@ == old(self).legacy_start(),
            final(self).phase() == (match old(self).legacy() {
                Ok(_) => Phase::Legacy(0),
                Err(_) => Phase::Done,
            }),
    {
        match &self.legacy {
            Err(e) => {
                let e = e.clone();
                self.phase = Phase::Done;
                UrlAction::Finish(Err(e))
            },
            Ok(l) => {
                self.phase = Phase::Legacy(0);
                let q = self.attempts[0].clone();
                UrlAction::ProbeLegacy {
                    md5_origin: l.md5_origin.clone(),
                    sng_id: l.sng_id.clone(),
                    media_version: l.media_version.clone(),
                    quality_code: get_quality_code(q.as_str()),
                    quality: q,
                }
            },
        }
    }

    /// The first action: the media request for the first quality, or the
    /// first legacy probe.
    pub fn first_action(&mut self) -> (a: UrlAction)
        requires
            old(self).wf(),
            old(self).phase() == Phase::Media(0) || old(self).phase() == Phase::Legacy(0),
        ensures
            final(self).wf(),
            final(self).attempts() == old(self).attempts(),
            final(self).fallback() == old(self).fallback(),
            final(self).legacy() == old(self).legacy(),
            old(self).phase() == Phase::Media(0) ==> a@ == ActionView::RequestMedia(
                old(self).attempts()[0],
            ) && final(self).phase() == Phase::Media(0),
            old(self).phase() == Phase::Legacy(0) ==> a@ == old(self).legacy_start() && final(self).phase() == (match old(self).legacy() {
                Ok(_) => Phase::Legacy(0),
                Err(_) => Phase::Done,
            }),
    {
        match self.phase {
            Phase::Media(_) => UrlAction::RequestMedia { quality: self.attempts[0].clone() },
            _ => self.start_legacy(),
        }
    }

    /// The media service's answer for the current quality: a URL and its
    /// format ends the resolution; none moves on to the next quality, and
    /// after the last to the legacy probes.
    pub fn on_media(&mut self, answer: Option<(String, String)>) -> (a: UrlAction)
        requires
            old(self).wf(),
            old(self).phase() is Media,
        ensures
            final(self).wf(),
            final(self).attempts() == old(self).attempts(),
            final(self).fallback() == old(self).fallback(),
            final(self).legacy() == old(self).legacy(),
            ({
                let i = old(self).phase()->Media_0;
                match answer {
                    Some(p) => a@ == ActionView::Finish(Ok((p.0@, p.1@))) && final(self).phase()
                        == Phase::Done,
                    None => if i + 1 < old(self).attempts().len() {
                        a@ == ActionView::RequestMedia(old(self).attempts()[i + 1]) && final(self).phase() == Phase::Media((i + 1) as usize)
                    } else {
                        a@ == old(self).legacy_start() && final(self).phase() == (match old(self).legacy() {
                            Ok(_) => Phase::Legacy(0),
                            Err(_) => Phase::Done,
                        })
                    },
                }
            }),
    {
        let i = match self.phase {
            Phase::Media(i) => i,
            _ => 0,
        };
        match answer {
            Some(p) => {
                self.phase = Phase::Done;
                UrlAction::Finish(Ok(p))
            },
            None => {
                if i + 1 < self.attempts.len() {
                    self.phase = Phase::Media(i + 1);
                    UrlAction::RequestMedia { quality: self.attempts[i + 1].clone() }
                } else {
                    self.start_legacy()
                }
            },
        }
    }

    /// The outcome of probing the current legacy URL: the URL and whether it
    /// answered with success and a non-empty body, or the error of building
    /// or fetching it. A working URL ends the resolution with the probed
    /// quality; without fallback a dead one ends it at once; with fallback
    /// the next quality is probed, and after the last the resolution fails.
    pub fn on_probe(&mut self, outcome: Result<(String, bool), String>) -> (a: UrlAction)
        requires
            old(self).wf(),
            old(self).phase() is Legacy,
            old(self).legacy() is Ok,
        ensures
            final(self).wf(),
            final(self).attempts() == old(self).attempts(),
            final(self).fallback() == old(self).fallback(),
            final(self).legacy() == old(self).legacy(),
            ({
                let i = old(self).phase()->Legacy_0;
                let l = old(self).legacy()->Ok_0;
                match outcome {
                    Err(e) => a@ == ActionView::Finish(Err(e@)) && final(self).phase() == Phase::Done,
                    Ok((url, true)) => a@ == ActionView::Finish(Ok((url@, old(self).attempts()[i as int])))
                        && final(self).phase() == Phase::Done,
                    Ok((_, false)) => if !old(self).fallback() {
                        a@ == ActionView::Finish(Err("Track not available in requested quality"@))
                            && final(self).phase() == Phase::Done
                    } else if i + 1 < old(self).attempts().len() {
                        a@ == ActionView::ProbeLegacy(
                            l.0,
                            l.1,
                            l.2,
                            quality_code_spec(old(self).attempts()[i + 1]),
                            old(self).attempts()[i + 1],
                        ) && final(self).phase() == Phase::Legacy((i + 1) as usize)
                    } else {
                        a@ == ActionView::Finish(Err("No working download URL found"@)) && final(self).phase() == Phase::Done
                    },
                }
            }),
    {
        let i = match self.phase {
            Phase::Legacy(i) => i,
            _ => 0,
        };
        match outcome {
            Err(e) => {
                self.phase = Phase::Done;
                UrlAction::Finish(Err(e))
            },
            Ok((url, working)) => {
                if working {
                    self.phase = Phase::Done;
                    UrlAction::Finish(Ok((url, self.attempts[i].clone())))
                } else if !self.fallback {
                    self.phase = Phase::Done;
                    UrlAction::Finish(Err(String::from_str("Track not available in requested quality")))
                } else if i + 1 < self.attempts.len() {
                    self.phase = Phase::Legacy(i + 1);
                    let q = self.attempts[i + 1].clone();
                    match &self.legacy {
                        Ok(l) => UrlAction::ProbeLegacy {
                            md5_origin: l.md5_origin.clone(),
                            sng_id: l.sng_id.clone(),
                            media_version: l.media_version.clone(),
                            quality_code: get_quality_code(q.as_str()),
                            quality: q,
                        },
                        Err(e) => UrlAction::Finish(Err(e.clone())),
                    }
                } else {
                    self.phase = Phase::Done;
                    UrlAction::Finish(Err(String::from_str("No working download URL found")))
                }
            },
        }
    }
}

/// One media entry of the media service's answer: its format and the URLs
/// of its sources (`None` for a source without a string URL); `None` where
/// the answer has no array.
pub struct MediaItem {
    pub format: Option<String>,
    pub sources: Option<Vec<Option<String>>>,
}

/// The URL the media service's answer offers: the first source of the first
/// media entry of the first data entry, with that entry's format (the
/// requested quality when it names none).
pub open spec fn media_url_spec(data: Option<Seq<Option<Seq<MediaItem>>>>, quality: Seq<char>) -> Option<
    (Seq<char>, Seq<char>),
> {
    match data {
        None => None,
        Some(d) => if d.len() == 0 {
            None
        } else {
            match d[0] {
                None => None,
                Some(media) => if media.len() == 0 {
                    None
                } else {
                    match media[0].sources {
                        None => None,
                        Some(srcs) => if srcs@.len() == 0 {
                            None
                        } else {
                            match srcs@[0] {
                                None => None,
                                Some(url) => Some(
                                    (
                                        url@,
                                        match media[0].format {
                                            Some(f) => f@,
                                            None => quality,
                                        },
                                    ),
                                ),
                            }
                        },
                    }
                },
            }
        },
    }
}

pub open spec fn media_data_view(data: Option<Vec<Option<Vec<MediaItem>>>>) -> Option<
    Seq<Option<Seq<MediaItem>>>,
> {
    match data {
        None => None,
        Some(d) => Some(
            d@.map_values(
                |e: Option<Vec<MediaItem>>|
                    match e {
                        None => None,
                        Some(m) => Some(m@),
                    },
            ),
        ),
    }
}

/// Reads the media service's answer: `data` holds, for each data entry, its
/// media entries (`None` where it has no array).
pub fn media_url_from(data: &Option<Vec<Option<Vec<MediaItem>>>>, quality: &str) -> (r: Option<
    (String, String),
>)
    ensures
        match r {
            Some(p) => media_url_spec(media_data_view(*data), quality@) == Some((p.0@, p.1@)),
            None => media_url_spec(media_data_view(*data), quality@) is None,
        },
{
    let d = match data {
        Some(d) => d,
        None => return None,
    };
    if d.len() == 0 {
        return None;
    }
    let media = match &d[0] {
        Some(m) => m,
        None => return None,
    };
    if media.len() == 0 {
        return None;
    }
    let srcs = match &media[0].sources {
        Some(s) => s,
        None => return None,
    };
    if srcs.len() == 0 {
        return None;
    }
    let url = match &srcs[0] {
        Some(u) => u.clone(),
        None => return None,
    };
    let fmt = match &media[0].format {
        Some(f) => f.clone(),
        None => String::from_str(quality),
    };
    Some((url, fmt))
}

} // verus!
