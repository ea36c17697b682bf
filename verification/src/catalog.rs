//! Search and browse results: which records of Deezer's public API are kept,
//! and the values that stand in for missing fields.
use vstd::prelude::*;

use crate::text::{chars_of, extend_chars, parse_u64, parse_u64_spec, string_of};

verus! {

// ---------------------------------------------------------------------------
// Records as received
// ---------------------------------------------------------------------------

/// A track record of the public API; a field is `None` when it is missing or
/// of another JSON type.
pub struct RawTrack {
    pub id: Option<u64>,
    pub title: Option<String>,
    pub artist_name: Option<String>,
    pub artist_id: Option<u64>,
    pub album_title: Option<String>,
    pub duration: Option<u64>,
    pub album_cover_small: Option<String>,
    pub album_cover_medium: Option<String>,
    pub preview: Option<String>,
}

/// An album record of the public API.
pub struct RawAlbum {
    pub id: Option<u64>,
    pub title: Option<String>,
    pub artist_name: Option<String>,
    pub artist_id: Option<u64>,
    pub cover_small: Option<String>,
    pub cover_medium: Option<String>,
    pub nb_tracks: Option<u64>,
}

/// An artist record of the public API.
pub struct RawArtist {
    pub id: Option<u64>,
    pub name: Option<String>,
    pub picture_small: Option<String>,
    pub picture_medium: Option<String>,
    pub nb_album: Option<u64>,
    pub nb_fan: Option<u64>,
}

/// A playlist record of the public API.
pub struct RawPlaylist {
    pub id: Option<u64>,
    pub title: Option<String>,
    pub user_name: Option<String>,
    pub picture_small: Option<String>,
    pub picture_medium: Option<String>,
    pub nb_tracks: Option<u64>,
}

// ---------------------------------------------------------------------------
// Results
// ---------------------------------------------------------------------------

/// A track as the user interface lists it.
pub struct SearchResult {
    pub id: u64,
    pub title: String,
    pub artist: String,
    pub artist_id: u64,
    pub album: String,
    pub duration: u64,
    pub cover_small: String,
    pub cover_medium: String,
    pub preview: Option<String>,
}

/// An album as the user interface lists it.
pub struct AlbumResult {
    pub id: u64,
    pub title: String,
    pub artist: String,
    pub artist_id: u64,
    pub cover_small: String,
    pub cover_medium: String,
    pub nb_tracks: u64,
}

/// An artist as the user interface lists it.
pub struct ArtistResult {
    pub id: u64,
    pub name: String,
    pub picture_small: String,
    pub picture_medium: String,
    pub nb_album: u64,
    pub nb_fan: u64,
}

/// A playlist as the user interface lists it.
pub struct PlaylistResult {
    pub id: u64,
    pub title: String,
    pub creator: String,
    pub cover_small: String,
    pub cover_medium: String,
    pub nb_tracks: u64,
}

pub ghost struct TrackView {
    pub id: u64,
    pub title: Seq<char>,
    pub artist: Seq<char>,
    pub artist_id: u64,
    pub album: Seq<char>,
    pub duration: u64,
    pub cover_small: Seq<char>,
    pub cover_medium: Seq<char>,
    pub preview: Option<Seq<char>>,
}

pub ghost struct AlbumView {
    pub id: u64,
    pub title: Seq<char>,
    pub artist: Seq<char>,
    pub artist_id: u64,
    pub cover_small: Seq<char>,
    pub cover_medium: Seq<char>,
    pub nb_tracks: u64,
}

pub ghost struct ArtistView {
    pub id: u64,
    pub name: Seq<char>,
    pub picture_small: Seq<char>,
    pub picture_medium: Seq<char>,
    pub nb_album: u64,
    pub nb_fan: u64,
}

pub ghost struct PlaylistView {
    pub id: u64,
    pub title: Seq<char>,
    pub creator: Seq<char>,
    pub cover_small: Seq<char>,
    pub cover_medium: Seq<char>,
    pub nb_tracks: u64,
}

impl SearchResult {
    pub open spec fn view(&self) -> TrackView {
        TrackView {
            id: self.id,
            title: self.title@,
            artist: self.artist@,
            artist_id: self.artist_id,
            album: self.album@,
            duration: self.duration,
            cover_small: self.cover_small@,
            cover_medium: self.cover_medium@,
            preview: opt_view(self.preview),
        }
    }
}

impl AlbumResult {
    pub open spec fn view(&self) -> AlbumView {
        AlbumView {
            id: self.id,
            title: self.title@,
            artist: self.artist@,
            artist_id: self.artist_id,
            cover_small: self.cover_small@,
            cover_medium: self.cover_medium@,
            nb_tracks: self.nb_tracks,
        }
    }
}

impl ArtistResult {
    pub open spec fn view(&self) -> ArtistView {
        ArtistView {
            id: self.id,
            name: self.name@,
            picture_small: self.picture_small@,
            picture_medium: self.picture_medium@,
            nb_album: self.nb_album,
            nb_fan: self.nb_fan,
        }
    }
}

impl PlaylistResult {
    pub open spec fn view(&self) -> PlaylistView {
        PlaylistView {
            id: self.id,
            title: self.title@,
            creator: self.creator@,
            cover_small: self.cover_small@,
            cover_medium: self.cover_medium@,
            nb_tracks: self.nb_tracks,
        }
    }
}

pub open spec fn opt_view(o: Option<String>) -> Option<Seq<char>> {
    match o {
        Some(s) => Some(s@),
        None => None,
    }
}

/// The field's text, or `default` when it is missing.
pub open spec fn or_text(o: Option<String>, default: Seq<char>) -> Seq<char> {
    match o {
        Some(s) => s@,
        None => default,
    }
}

pub open spec fn or_zero(o: Option<u64>) -> u64 {
    match o {
        Some(n) => n,
        None => 0,
    }
}

fn text_or(o: &Option<String>, default: &str) -> (r: String)
    ensures
        r@ == or_text(*o, default@),
{
    match o {
        Some(s) => s.clone(),
        None => String::from_str(default),
    }
}

fn text_or_empty(o: &Option<String>) -> (r: String)
    ensures
        r@ == or_text(*o, Seq::empty()),
{
    match o {
        Some(s) => s.clone(),
        None => String::new(),
    }
}

fn text_or_string(o: &Option<String>, default: &String) -> (r: String)
    ensures
        r@ == or_text(*o, default@),
{
    match o {
        Some(s) => s.clone(),
        None => default.clone(),
    }
}

fn zero_or(o: Option<u64>) -> (r: u64)
    ensures
        r == or_zero(o),
{
    match o {
        Some(n) => n,
        None => 0,
    }
}

fn clone_opt(o: &Option<String>) -> (r: Option<String>)
    ensures
        opt_view(r) == opt_view(*o),
{
    match o {
        Some(s) => Some(s.clone()),
        None => None,
    }
}

// ---------------------------------------------------------------------------
// Per-record rules
// ---------------------------------------------------------------------------

/// The defaults that a track list fills in: the album's title and covers for
/// an album's tracks, the playlist's covers for a playlist's tracks.
pub ghost struct TrackDefaults {
    pub album: Option<Seq<char>>,
    pub cover_small: Seq<char>,
    pub cover_medium: Seq<char>,
    pub album_fixed: bool,
    pub covers_fixed: bool,
}

/// A track record as listed: kept when it has an id, a title and an
/// artist name. The album title and covers come from the record, with
/// defaults, or are fixed for every track of the list.
pub open spec fn track_view(t: RawTrack, d: TrackDefaults) -> Option<TrackView> {
    if t.id is Some && t.title is Some && t.artist_name is Some {
        Some(
            TrackView {
                id: t.id->0,
                title: t.title->0@,
                artist: t.artist_name->0@,
                artist_id: or_zero(t.artist_id),
                album: if d.album_fixed {
                    d.album->0
                } else {
                    or_text(t.album_title, "Unknown"@)
                },
                duration: or_zero(t.duration),
                cover_small: if d.covers_fixed {
                    d.cover_small
                } else {
                    or_text(t.album_cover_small, d.cover_small)
                },
                cover_medium: if d.covers_fixed {
                    d.cover_medium
                } else {
                    or_text(t.album_cover_medium, d.cover_medium)
                },
                preview: opt_view(t.preview),
            },
        )
    } else {
        None
    }
}

/// The views of the records that a rule keeps, in order.
pub open spec fn kept_tracks(s: Seq<RawTrack>, d: TrackDefaults) -> Seq<TrackView>
    decreases s.len(),
{
    if s.len() == 0 {
        Seq::empty()
    } else {
        let prev = kept_tracks(s.drop_last(), d);
        match track_view(s.last(), d) {
            Some(v) => prev.push(v),
            None => prev,
        }
    }
}

pub open spec fn track_views(v: Seq<SearchResult>) -> Seq<TrackView> {
    v.map_values(|r: SearchResult| r.view())
}

/// The track results of a list of records, with the fixed or default values
/// given (`album`: `Some` when every track takes the album's title).
fn collect_tracks(
    items: &[RawTrack],
    album: &Option<String>,
    cover_small: &String,
    cover_medium: &String,
    covers_fixed: bool,
) -> (r: Vec<SearchResult>)
    ensures
        track_views(r@) == kept_tracks(
            items@,
            TrackDefaults {
                album: opt_view(*album),
                cover_small: cover_small@,
                cover_medium: cover_medium@,
                album_fixed: album is Some,
                covers_fixed,
            },
        ),
{
    let ghost d = TrackDefaults {
        album: opt_view(*album),
        cover_small: cover_small@,
        cover_medium: cover_medium@,
        album_fixed: album is Some,
        covers_fixed,
    };
    let mut r: Vec<SearchResult> = Vec::new();
    let mut i: usize = 0;
    while i < items.len()
        invariant
            i <= items.len(),
            d == (TrackDefaults {
                album: opt_view(*album),
                cover_small: cover_small@,
                cover_medium: cover_medium@,
                album_fixed: album is Some,
                covers_fixed,
            }),
            track_views(r@) == kept_tracks(items@.take(i as int), d),
        decreases items.len() - i,
    {
        assert(items@.take(i + 1).drop_last() =~= items@.take(i as int));
        assert(items@.take(i + 1).last() == items@[i as int]);
        let t = &items[i];
        let ghost before = track_views(r@);
        match (t.id, &t.title, &t.artist_name) {
            (Some(id), Some(title), Some(artist)) => {
                let album_text = match album {
                    Some(a) => a.clone(),
                    None => text_or(&t.album_title, "Unknown"),
                };
                let small = if covers_fixed {
                    cover_small.clone()
                } else {
                    text_or_string(&t.album_cover_small, cover_small)
                };
                let medium = if covers_fixed {
                    cover_medium.clone()
                } else {
                    text_or_string(&t.album_cover_medium, cover_medium)
                };
                let result = SearchResult {
                    id,
                    title: title.clone(),
                    artist: artist.clone(),
                    artist_id: zero_or(t.artist_id),
                    album: album_text,
                    duration: zero_or(t.duration),
                    cover_small: small,
                    cover_medium: medium,
                    preview: clone_opt(&t.preview),
                };
                r.push(result);
                assert(track_views(r@) =~= before.push(result.view()));
            },
            _ => {},
        }
        i += 1;
    }
    assert(items@.take(items.len() as int) =~= items@);
    r
}

/// The error text of a missing result list.
fn missing(message: &str) -> (r: String)
    ensures
        r@ == message@,
{
    String::from_str(message)
}

pub open spec fn search_defaults() -> TrackDefaults {
    TrackDefaults {
        album: None,
        cover_small: Seq::empty(),
        cover_medium: Seq::empty(),
        album_fixed: false,
        covers_fixed: false,
    }
}

/// A track of a search is listed when its record has an id, a title and an
/// artist name, with those values, its album title from the record's album
/// title ("Unknown" only when the record has none), its covers from the
/// record ("" when missing), and its artist id and duration (0 when
/// missing).
pub proof fn lemma_search_track_fields(t: RawTrack)
    ensures
        track_view(t, search_defaults()) is Some <==> (t.id is Some && t.title is Some
            && t.artist_name is Some),
        track_view(t, search_defaults()) matches Some(v) ==> {
            &&& v.id == t.id->0
            &&& v.title == t.title->0@
            &&& v.artist == t.artist_name->0@
            &&& v.album == (match t.album_title {
                Some(a) => a@,
                None => "Unknown"@,
            })
            &&& v.cover_small == (match t.album_cover_small {
                Some(c) => c@,
                None => Seq::<char>::empty(),
            })
            &&& v.cover_medium == (match t.album_cover_medium {
                Some(c) => c@,
                None => Seq::<char>::empty(),
            })
            &&& v.artist_id == (match t.artist_id {
                Some(a) => a,
                None => 0,
            })
            &&& v.duration == (match t.duration {
                Some(x) => x,
                None => 0,
            })
        },
{
}

/// A search lists its records in order, one result for each record with an
/// id, a title and an artist name.
pub proof fn lemma_search_keeps_records(s: Seq<RawTrack>, t: RawTrack)
    ensures
        kept_tracks(s.push(t), search_defaults()) == (match track_view(t, search_defaults()) {
            Some(v) => kept_tracks(s, search_defaults()).push(v),
            None => kept_tracks(s, search_defaults()),
        }),
{
    assert(s.push(t).drop_last() =~= s);
}

/// The tracks of a search (`data` of `/search/track`); an error when the
/// response has no result list.
pub fn search_tracks(data: &Option<Vec<RawTrack>>) -> (r: Result<Vec<SearchResult>, String>)
    ensures
        match data {
            None => r matches Err(e) && e@ == "No results found"@,
            Some(items) => r matches Ok(v) && track_views(v@) == kept_tracks(
                items@,
                search_defaults(),
            ),
        },
{
    match data {
        None => Err(missing("No results found")),
        Some(items) => {
            let empty = String::new();
            Ok(collect_tracks(items.as_slice(), &None, &empty, &empty, false))
        },
    }
}

/// The defaults of an album's tracks: every track takes the album's title
/// ("Unknown" when it has none) and covers ("" when missing).
pub open spec fn album_defaults(title: Option<String>, small: Option<String>, medium: Option<
    String,
>) -> TrackDefaults {
    TrackDefaults {
        album: Some(or_text(title, "Unknown"@)),
        cover_small: or_text(small, Seq::empty()),
        cover_medium: or_text(medium, Seq::empty()),
        album_fixed: true,
        covers_fixed: true,
    }
}

/// The tracks of an album (`/album/{id}/tracks`), each given the album's
/// title and covers (`/album/{id}`).
pub fn get_album_tracks(
    data: &Option<Vec<RawTrack>>,
    album_title: &Option<String>,
    album_cover_small: &Option<String>,
    album_cover_medium: &Option<String>,
) -> (r: Result<Vec<SearchResult>, String>)
    ensures
        match data {
            None => r matches Err(e) && e@ == "No tracks found in album"@,
            Some(items) => r matches Ok(v) && track_views(v@) == kept_tracks(
                items@,
                album_defaults(*album_title, *album_cover_small, *album_cover_medium),
            ),
        },
{
    match data {
        None => Err(missing("No tracks found in album")),
        Some(items) => {
            let title = Some(text_or(album_title, "Unknown"));
            let small = text_or_empty(album_cover_small);
            let medium = text_or_empty(album_cover_medium);
            Ok(collect_tracks(items.as_slice(), &title, &small, &medium, true))
        },
    }
}

/// The defaults of a playlist's tracks: a track without album covers takes
/// the playlist's pictures ("" when missing).
pub open spec fn playlist_defaults(small: Option<String>, medium: Option<String>) -> TrackDefaults {
    TrackDefaults {
        album: None,
        cover_small: or_text(small, Seq::empty()),
        cover_medium: or_text(medium, Seq::empty()),
        album_fixed: false,
        covers_fixed: false,
    }
}

/// A track of an album is listed with the album's title ("Unknown" when the
/// album has none) and the album's covers; a track of a playlist with its
/// own album title ("Unknown" when missing) and its own covers, or else the
/// playlist's pictures.
pub proof fn lemma_album_and_playlist_track_fields(
    t: RawTrack,
    title: Option<String>,
    small: Option<String>,
    medium: Option<String>,
)
    ensures
        track_view(t, album_defaults(title, small, medium)) matches Some(v) ==> {
            &&& v.album == (match title {
                Some(a) => a@,
                None => "Unknown"@,
            })
            &&& v.cover_small == (match small {
                Some(c) => c@,
                None => Seq::<char>::empty(),
            })
            &&& v.cover_medium == (match medium {
                Some(c) => c@,
                None => Seq::<char>::empty(),
            })
        },
        track_view(t, playlist_defaults(small, medium)) matches Some(v) ==> {
            &&& v.album == (match t.album_title {
                Some(a) => a@,
                None => "Unknown"@,
            })
            &&& v.cover_small == (match t.album_cover_small {
                Some(c) => c@,
                None => match small {
                    Some(c) => c@,
                    None => Seq::<char>::empty(),
                },
            })
            &&& v.cover_medium == (match t.album_cover_medium {
                Some(c) => c@,
                None => match medium {
                    Some(c) => c@,
                    None => Seq::<char>::empty(),
                },
            })
        },
{
}

/// The tracks of a playlist (`tracks.data` of `/playlist/{id}`).
pub fn get_playlist_tracks(
    data: &Option<Vec<RawTrack>>,
    picture_small: &Option<String>,
    picture_medium: &Option<String>,
) -> (r: Result<Vec<SearchResult>, String>)
    ensures
        match data {
            None => r matches Err(e) && e@ == "No tracks found in playlist"@,
            Some(items) => r matches Ok(v) && track_views(v@) == kept_tracks(
                items@,
                playlist_defaults(*picture_small, *picture_medium),
            ),
        },
{
    match data {
        None => Err(missing("No tracks found in playlist")),
        Some(items) => {
            let small = text_or_empty(picture_small);
            let medium = text_or_empty(picture_medium);
            Ok(collect_tracks(items.as_slice(), &None, &small, &medium, false))
        },
    }
}

/// The result of looking a track up by id (`/track/{id}`): an API error's
/// message, or the track; its id is the record's, else the requested id
/// read as a number.
pub open spec fn track_lookup_spec(t: RawTrack, api_error: Option<String>, track_id: Seq<char>) -> Result<TrackView, Seq<char>> {
    if api_error is Some {
        Err("API error: "@ + api_error->0@)
    } else {
        let id = if t.id is Some {
            Some(t.id->0)
        } else {
            parse_u64_spec(track_id)
        };
        if id is None || or_text(t.title, Seq::empty()).len() == 0 {
            Err("Track not found"@)
        } else {
            Ok(
                TrackView {
                    id: id->0,
                    title: t.title->0@,
                    artist: or_text(t.artist_name, "Unknown"@),
                    artist_id: or_zero(t.artist_id),
                    album: or_text(t.album_title, "Unknown"@),
                    duration: or_zero(t.duration),
                    cover_small: or_text(t.album_cover_small, Seq::empty()),
                    cover_medium: or_text(t.album_cover_medium, Seq::empty()),
                    preview: opt_view(t.preview),
                },
            )
        }
    }
}

/// Looks a track up by id; `api_error` is the `error.message` of the
/// response, if it has one.
pub fn get_track_by_id(data: &RawTrack, api_error: &Option<String>, track_id: &str) -> (r: Result<
    SearchResult,
    String,
>)
    ensures
        match r {
            Ok(v) => track_lookup_spec(*data, *api_error, track_id@) == Ok::<
                TrackView,
                Seq<char>,
            >(v.view()),
            Err(e) => track_lookup_spec(*data, *api_error, track_id@) == Err::<
                TrackView,
                Seq<char>,
            >(e@),
        },
{
    if let Some(msg) = api_error {
        let mut v = chars_of("API error: ");
        let m = chars_of(msg.as_str());
        extend_chars(&mut v, m.as_slice());
        return Err(string_of(v.as_slice()));
    }
    let id = match data.id {
        Some(n) => n,
        None => match parse_u64(track_id) {
            Some(n) => n,
            None => {
                return Err(missing("Track not found"));
            },
        },
    };
    let title = text_or_empty(&data.title);
    if chars_of(title.as_str()).len() == 0 {
        return Err(missing("Track not found"));
    }
    Ok(
        SearchResult {
            id,
            title,
            artist: text_or(&data.artist_name, "Unknown"),
            artist_id: zero_or(data.artist_id),
            album: text_or(&data.album_title, "Unknown"),
            duration: zero_or(data.duration),
            cover_small: text_or_empty(&data.album_cover_small),
            cover_medium: text_or_empty(&data.album_cover_medium),
            preview: clone_opt(&data.preview),
        },
    )
}

// ---------------------------------------------------------------------------
// Albums, artists and playlists
// ---------------------------------------------------------------------------

/// An album record as listed; `artist_required`: a search keeps only albums
/// with an artist name, an artist's discography lists the rest with "".
pub open spec fn album_view(a: RawAlbum, artist_required: bool) -> Option<AlbumView> {
    if a.id is Some && a.title is Some && (!artist_required || a.artist_name is Some) {
        Some(
            AlbumView {
                id: a.id->0,
                title: a.title->0@,
                artist: or_text(a.artist_name, Seq::empty()),
                artist_id: or_zero(a.artist_id),
                cover_small: or_text(a.cover_small, Seq::empty()),
                cover_medium: or_text(a.cover_medium, Seq::empty()),
                nb_tracks: or_zero(a.nb_tracks),
            },
        )
    } else {
        None
    }
}

pub open spec fn kept_albums(s: Seq<RawAlbum>, artist_required: bool) -> Seq<AlbumView>
    decreases s.len(),
{
    if s.len() == 0 {
        Seq::empty()
    } else {
        let prev = kept_albums(s.drop_last(), artist_required);
        match album_view(s.last(), artist_required) {
            Some(v) => prev.push(v),
            None => prev,
        }
    }
}

pub open spec fn album_views(v: Seq<AlbumResult>) -> Seq<AlbumView> {
    v.map_values(|r: AlbumResult| r.view())
}

fn collect_albums(items: &[RawAlbum], artist_required: bool) -> (r: Vec<AlbumResult>)
    ensures
        album_views(r@) == kept_albums(items@, artist_required),
{
    let mut r: Vec<AlbumResult> = Vec::new();
    let mut i: usize = 0;
    while i < items.len()
        invariant
            i <= items.len(),
            album_views(r@) == kept_albums(items@.take(i as int), artist_required),
        decreases items.len() - i,
    {
        assert(items@.take(i + 1).drop_last() =~= items@.take(i as int));
        assert(items@.take(i + 1).last() == items@[i as int]);
        let a = &items[i];
        let ghost before = album_views(r@);
        match (a.id, &a.title) {
            (Some(id), Some(title)) => {
                if !artist_required || a.artist_name.is_some() {
                    let result = AlbumResult {
                        id,
                        title: title.clone(),
                        artist: text_or_empty(&a.artist_name),
                        artist_id: zero_or(a.artist_id),
                        cover_small: text_or_empty(&a.cover_small),
                        cover_medium: text_or_empty(&a.cover_medium),
                        nb_tracks: zero_or(a.nb_tracks),
                    };
                    r.push(result);
                    assert(album_views(r@) =~= before.push(result.view()));
                }
            },
            _ => {},
        }
        i += 1;
    }
    assert(items@.take(items.len() as int) =~= items@);
    r
}

/// The albums of a search (`/search/album`): those with an id, a title and
/// an artist name.
pub fn search_albums(data: &Option<Vec<RawAlbum>>) -> (r: Result<Vec<AlbumResult>, String>)
    ensures
        match data {
            None => r matches Err(e) && e@ == "No results found"@,
            Some(items) => r matches Ok(v) && album_views(v@) == kept_albums(items@, true),
        },
{
    match data {
        None => Err(missing("No results found")),
        Some(items) => Ok(collect_albums(items.as_slice(), true)),
    }
}

/// The albums of an artist (`/artist/{id}/albums`): those with an id and a
/// title.
pub fn get_artist_albums(data: &Option<Vec<RawAlbum>>) -> (r: Result<Vec<AlbumResult>, String>)
    ensures
        match data {
            None => r matches Err(e) && e@ == "No albums found for artist"@,
            Some(items) => r matches Ok(v) && album_views(v@) == kept_albums(items@, false),
        },
{
    match data {
        None => Err(missing("No albums found for artist")),
        Some(items) => Ok(collect_albums(items.as_slice(), false)),
    }
}

/// An artist record as listed: kept when it has an id and a name.
pub open spec fn artist_view(a: RawArtist) -> Option<ArtistView> {
    if a.id is Some && a.name is Some {
        Some(
            ArtistView {
                id: a.id->0,
                name: a.name->0@,
                picture_small: or_text(a.picture_small, Seq::empty()),
                picture_medium: or_text(a.picture_medium, Seq::empty()),
                nb_album: or_zero(a.nb_album),
                nb_fan: or_zero(a.nb_fan),
            },
        )
    } else {
        None
    }
}

pub open spec fn kept_artists(s: Seq<RawArtist>) -> Seq<ArtistView>
    decreases s.len(),
{
    if s.len() == 0 {
        Seq::empty()
    } else {
        let prev = kept_artists(s.drop_last());
        match artist_view(s.last()) {
            Some(v) => prev.push(v),
            None => prev,
        }
    }
}

pub open spec fn artist_views(v: Seq<ArtistResult>) -> Seq<ArtistView> {
    v.map_values(|r: ArtistResult| r.view())
}

/// The artists of a search (`/search/artist`).
pub fn search_artists(data: &Option<Vec<RawArtist>>) -> (r: Result<Vec<ArtistResult>, String>)
    ensures
        match data {
            None => r matches Err(e) && e@ == "No results found"@,
            Some(items) => r matches Ok(v) && artist_views(v@) == kept_artists(items@),
        },
{
    let items = match data {
        None => {
            return Err(missing("No results found"));
        },
        Some(items) => items,
    };
    let mut r: Vec<ArtistResult> = Vec::new();
    let mut i: usize = 0;
    while i < items.len()
        invariant
            i <= items.len(),
            artist_views(r@) == kept_artists(items@.take(i as int)),
        decreases items.len() - i,
    {
        assert(items@.take(i + 1).drop_last() =~= items@.take(i as int));
        assert(items@.take(i + 1).last() == items@[i as int]);
        let a = &items[i];
        let ghost before = artist_views(r@);
        match (a.id, &a.name) {
            (Some(id), Some(name)) => {
                let result = ArtistResult {
                    id,
                    name: name.clone(),
                    picture_small: text_or_empty(&a.picture_small),
                    picture_medium: text_or_empty(&a.picture_medium),
                    nb_album: zero_or(a.nb_album),
                    nb_fan: zero_or(a.nb_fan),
                };
                r.push(result);
                assert(artist_views(r@) =~= before.push(result.view()));
            },
            _ => {},
        }
        i += 1;
    }
    assert(items@.take(items.len() as int) =~= items@);
    Ok(r)
}

/// A playlist record as listed: kept when it has an id and a title.
pub open spec fn playlist_view(p: RawPlaylist) -> Option<PlaylistView> {
    if p.id is Some && p.title is Some {
        Some(
            PlaylistView {
                id: p.id->0,
                title: p.title->0@,
                creator: or_text(p.user_name, Seq::empty()),
                cover_small: or_text(p.picture_small, Seq::empty()),
                cover_medium: or_text(p.picture_medium, Seq::empty()),
                nb_tracks: or_zero(p.nb_tracks),
            },
        )
    } else {
        None
    }
}

pub open spec fn kept_playlists(s: Seq<RawPlaylist>) -> Seq<PlaylistView>
    decreases s.len(),
{
    if s.len() == 0 {
        Seq::empty()
    } else {
        let prev = kept_playlists(s.drop_last());
        match playlist_view(s.last()) {
            Some(v) => prev.push(v),
            None => prev,
        }
    }
}

pub open spec fn playlist_views(v: Seq<PlaylistResult>) -> Seq<PlaylistView> {
    v.map_values(|r: PlaylistResult| r.view())
}

/// The playlists of a search (`/search/playlist`).
pub fn search_playlists(data: &Option<Vec<RawPlaylist>>) -> (r: Result<
    Vec<PlaylistResult>,
    String,
>)
    ensures
        match data {
            None => r matches Err(e) && e@ == "No results found"@,
            Some(items) => r matches Ok(v) && playlist_views(v@) == kept_playlists(items@),
        },
{
    let items = match data {
        None => {
            return Err(missing("No results found"));
        },
        Some(items) => items,
    };
    let mut r: Vec<PlaylistResult> = Vec::new();
    let mut i: usize = 0;
    while i < items.len()
        invariant
            i <= items.len(),
            playlist_views(r@) == kept_playlists(items@.take(i as int)),
        decreases items.len() - i,
    {
        assert(items@.take(i + 1).drop_last() =~= items@.take(i as int));
        assert(items@.take(i + 1).last() == items@[i as int]);
        let p = &items[i];
        let ghost before = playlist_views(r@);
        match (p.id, &p.title) {
            (Some(id), Some(title)) => {
                let result = PlaylistResult {
                    id,
                    title: title.clone(),
                    creator: text_or_empty(&p.user_name),
                    cover_small: text_or_empty(&p.picture_small),
                    cover_medium: text_or_empty(&p.picture_medium),
                    nb_tracks: zero_or(p.nb_tracks),
                };
                r.push(result);
                assert(playlist_views(r@) =~= before.push(result.view()));
            },
            _ => {},
        }
        i += 1;
    }
    assert(items@.take(items.len() as int) =~= items@);
    Ok(r)
}

// ---------------------------------------------------------------------------
// API errors
// ---------------------------------------------------------------------------

/// The error that a response reports: when its `error` field is a
/// non-empty object (`error` holds its values in key order, each as text if
/// it is a string), the first value, or "Unknown error", after `prefix`.
pub open spec fn api_error_spec(prefix: Seq<char>, error: Option<Seq<Option<String>>>) -> Option<
    Seq<char>,
> {
    match error {
        Some(values) => if values.len() > 0 {
            Some(prefix + or_text(values[0], "Unknown error"@))
        } else {
            None
        },
        None => None,
    }
}

pub fn api_error_message(prefix: &str, error: &Option<Vec<Option<String>>>) -> (r: Option<String>)
    ensures
        opt_view(r) == api_error_spec(
            prefix@,
            match error {
                Some(v) => Some(v@),
                None => None,
            },
        ),
{
    match error {
        Some(values) => {
            if values.len() == 0 {
                return None;
            }
            let first = text_or(&values[0], "Unknown error");
            let mut v = chars_of(prefix);
            let f = chars_of(first.as_str());
            extend_chars(&mut v, f.as_slice());
            Some(string_of(v.as_slice()))
        },
        None => None,
    }
}

} // verus!
