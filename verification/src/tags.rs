//! Audio file tags: the FLAC (Vorbis comment) fields that the tag editor
//! reads and writes and those a download is tagged with, and what the editor
//! shows of a file of either format.
use vstd::prelude::*;

use crate::media::{base64_standard, detect_image_mime, encode_base64, image_mime_spec};
use crate::text::{
    byte_len, byte_prefix, char_boundary, chars_eq, chars_of, decimal, extend_chars,
    i64_to_string, is_char_boundary, lowercase, parse_i32, parse_i32_spec, parse_u32,
    parse_u32_spec, signed_decimal, string_of, take_bytes, to_lowercase, u64_to_string,
    lemma_parse_short_year, lemma_parse_u32_decimal,
};
use crate::track::{
    date_prefix_ok, parse_u32_from_value, scalar_u32_spec, tag_date, tag_date_spec, TrackData,
};

verus! {

// ---------------------------------------------------------------------------
// FLAC tags (metaflac)
// ---------------------------------------------------------------------------

#[verifier::external_type_specification]
#[verifier::external_body]
pub struct ExFlacTag(metaflac::Tag);

/// The Vorbis comments of a FLAC tag (its first Vorbis comment block, which
/// `metaflac` reads and writes): each key with its values.
pub uninterp spec fn flac_comments(tag: metaflac::Tag) -> Map<Seq<char>, Seq<Seq<char>>>;

/// The pictures of a FLAC tag, in order: whether it is the front cover, its
/// MIME type and its bytes.
pub uninterp spec fn flac_pictures(tag: metaflac::Tag) -> Seq<(bool, Seq<char>, Seq<u8>)>;

pub open spec fn ascii_upper_char(c: char) -> char {
    if 'a' <= c && c <= 'z' {
        ((c as u32) - 32) as char
    } else {
        c
    }
}

/// `str::to_ascii_uppercase`, which metaflac applies to every key.
pub open spec fn ascii_upper(s: Seq<char>) -> Seq<char> {
    s.map_values(|c: char| ascii_upper_char(c))
}

pub open spec fn not_front_cover(p: (bool, Seq<char>, Seq<u8>)) -> bool {
    !p.0
}

/// `metaflac::Tag::set_vorbis` with one value: the key, upper-cased, now
/// holds exactly that value; pictures are untouched.
#[verifier::external_body]
fn flac_set_vorbis(tag: &mut metaflac::Tag, key: &str, value: &str)
    ensures
        flac_comments(*final(tag)) == flac_comments(*old(tag)).insert(
            ascii_upper(key@),
            seq![value@],
        ),
        flac_pictures(*final(tag)) == flac_pictures(*old(tag)),
{
    tag.set_vorbis(key, vec![value]);
}

/// `metaflac::Tag::remove_picture_type(CoverFront)`: every front cover is
/// removed, the other pictures and the comments stay.
#[verifier::external_body]
fn flac_remove_front_cover(tag: &mut metaflac::Tag)
    ensures
        flac_comments(*final(tag)) == flac_comments(*old(tag)),
        flac_pictures(*final(tag)) == flac_pictures(*old(tag)).filter(
            |p: (bool, Seq<char>, Seq<u8>)| not_front_cover(p),
        ),
{
    tag.remove_picture_type(metaflac::block::PictureType::CoverFront);
}

/// `metaflac::Tag::add_picture(mime, CoverFront, data)`: every front cover is
/// removed and the new one is appended; the comments stay.
#[verifier::external_body]
fn flac_add_front_cover(tag: &mut metaflac::Tag, mime: &str, data: Vec<u8>)
    ensures
        flac_comments(*final(tag)) == flac_comments(*old(tag)),
        flac_pictures(*final(tag)) == flac_pictures(*old(tag)).filter(
            |p: (bool, Seq<char>, Seq<u8>)| not_front_cover(p),
        ).push((true, mime@, data@)),
{
    tag.add_picture(mime, metaflac::block::PictureType::CoverFront, data);
}

// ---------------------------------------------------------------------------
// The tag editor
// ---------------------------------------------------------------------------

/// The audio formats whose tags can be edited.
#[derive(Debug, Clone, Copy, PartialEq, Eq, Structural)]
pub enum AudioFormat {
    Mp3,
    Flac,
}

/// The format named by a file's extension (compared in lower case); the
/// refusal names the lower-cased extension.
pub fn audio_format(extension: &str) -> (r: Result<AudioFormat, String>)
    ensures
        lowercase(extension@) == "mp3"@ ==> r == Ok::<AudioFormat, String>(AudioFormat::Mp3),
        lowercase(extension@) == "flac"@ ==> r == Ok::<AudioFormat, String>(AudioFormat::Flac),
        lowercase(extension@) != "mp3"@ && lowercase(extension@) != "flac"@ ==> (r matches Err(e)
            && e@ == "Unsupported file format: "@ + lowercase(extension@)),
{
    proof {
        reveal_strlit("mp3");
        reveal_strlit("flac");
        assert("mp3"@.len() != "flac"@.len());
    }
    let lower = to_lowercase(extension);
    let l = chars_of(lower.as_str());
    if chars_eq(l.as_slice(), chars_of("mp3").as_slice()) {
        Ok(AudioFormat::Mp3)
    } else if chars_eq(l.as_slice(), chars_of("flac").as_slice()) {
        Ok(AudioFormat::Flac)
    } else {
        let mut v = chars_of("Unsupported file format: ");
        extend_chars(&mut v, l.as_slice());
        Err(string_of(v.as_slice()))
    }
}

/// The edits asked for in the tag editor; `None` leaves a field as it is.
pub struct WriteTagData {
    pub title: Option<String>,
    pub artist: Option<String>,
    pub album: Option<String>,
    pub album_artist: Option<String>,
    pub year: Option<i32>,
    pub track: Option<u32>,
    pub total_tracks: Option<u32>,
    pub disc: Option<u32>,
    pub total_discs: Option<u32>,
    pub genre: Option<String>,
    pub label: Option<String>,
    pub comment: Option<String>,
    pub new_cover_path: Option<String>,
    pub remove_cover: bool,
}

pub open spec fn opt_view(o: Option<String>) -> Option<Seq<char>> {
    match o {
        Some(s) => Some(s@),
        None => None,
    }
}

/// The comments with `key` set to the value, when there is one.
pub open spec fn set_if(m: Map<Seq<char>, Seq<Seq<char>>>, key: Seq<char>, v: Option<Seq<char>>) -> Map<
    Seq<char>,
    Seq<Seq<char>>,
> {
    match v {
        Some(x) => m.insert(ascii_upper(key), seq![x]),
        None => m,
    }
}

pub open spec fn num_text(n: Option<u32>) -> Option<Seq<char>> {
    match n {
        Some(x) => Some(decimal(x as nat)),
        None => None,
    }
}

pub open spec fn year_number_text(n: Option<i32>) -> Option<Seq<char>> {
    match n {
        Some(x) => Some(signed_decimal(x as int)),
        None => None,
    }
}

/// The Vorbis comments after the tag editor's edits, in the order they are
/// made.
pub open spec fn flac_edited(m: Map<Seq<char>, Seq<Seq<char>>>, t: &WriteTagData) -> Map<
    Seq<char>,
    Seq<Seq<char>>,
> {
    let m = set_if(m, "TITLE"@, opt_view(t.title));
    let m = set_if(m, "ARTIST"@, opt_view(t.artist));
    let m = set_if(m, "ALBUM"@, opt_view(t.album));
    let m = set_if(m, "ALBUMARTIST"@, opt_view(t.album_artist));
    let m = set_if(m, "DATE"@, year_number_text(t.year));
    let m = set_if(m, "TRACKNUMBER"@, num_text(t.track));
    let m = set_if(m, "TOTALTRACKS"@, num_text(t.total_tracks));
    let m = set_if(m, "DISCNUMBER"@, num_text(t.disc));
    let m = set_if(m, "TOTALDISCS"@, num_text(t.total_discs));
    let m = set_if(m, "GENRE"@, opt_view(t.genre));
    let m = set_if(m, "LABEL"@, opt_view(t.label));
    set_if(m, "COMMENT"@, opt_view(t.comment))
}

/// The pictures after the cover edit: all front covers removed when asked,
/// else replaced by the new cover (with its detected type) when one is given.
pub open spec fn covers_edited(
    pics: Seq<(bool, Seq<char>, Seq<u8>)>,
    remove: bool,
    cover: Option<Seq<u8>>,
) -> Seq<(bool, Seq<char>, Seq<u8>)> {
    if remove {
        pics.filter(|p: (bool, Seq<char>, Seq<u8>)| not_front_cover(p))
    } else {
        match cover {
            Some(b) => pics.filter(|p: (bool, Seq<char>, Seq<u8>)| not_front_cover(p)).push(
                (true, image_mime_spec(b), b),
            ),
            None => pics,
        }
    }
}

pub open spec fn bytes_view(o: Option<Vec<u8>>) -> Option<Seq<u8>> {
    match o {
        Some(b) => Some(b@),
        None => None,
    }
}

fn flac_set_opt(tag: &mut metaflac::Tag, key: &str, value: &Option<String>)
    ensures
        flac_comments(*final(tag)) == set_if(flac_comments(*old(tag)), key@, opt_view(*value)),
        flac_pictures(*final(tag)) == flac_pictures(*old(tag)),
{
    match value {
        Some(v) => flac_set_vorbis(tag, key, v.as_str()),
        None => {},
    }
}

fn u32_text(n: Option<u32>) -> (r: Option<String>)
    ensures
        opt_view(r) == num_text(n),
{
    match n {
        Some(x) => Some(u64_to_string(x as u64)),
        None => None,
    }
}

fn i32_text(n: Option<i32>) -> (r: Option<String>)
    ensures
        opt_view(r) == year_number_text(n),
{
    match n {
        Some(x) => Some(i64_to_string(x as i64)),
        None => None,
    }
}

/// Applies the tag editor's edits to a FLAC tag.
pub fn apply_flac_edits(tag: &mut metaflac::Tag, tags: &WriteTagData, new_cover: Option<Vec<u8>>)
    ensures
        flac_comments(*final(tag)) == flac_edited(flac_comments(*old(tag)), tags),
        flac_pictures(*final(tag)) == covers_edited(
            flac_pictures(*old(tag)),
            tags.remove_cover,
            bytes_view(new_cover),
        ),
{
    flac_set_opt(tag, "TITLE", &tags.title);
    flac_set_opt(tag, "ARTIST", &tags.artist);
    flac_set_opt(tag, "ALBUM", &tags.album);
    flac_set_opt(tag, "ALBUMARTIST", &tags.album_artist);
    flac_set_opt(tag, "DATE", &i32_text(tags.year));
    flac_set_opt(tag, "TRACKNUMBER", &u32_text(tags.track));
    flac_set_opt(tag, "TOTALTRACKS", &u32_text(tags.total_tracks));
    flac_set_opt(tag, "DISCNUMBER", &u32_text(tags.disc));
    flac_set_opt(tag, "TOTALDISCS", &u32_text(tags.total_discs));
    flac_set_opt(tag, "GENRE", &tags.genre);
    flac_set_opt(tag, "LABEL", &tags.label);
    flac_set_opt(tag, "COMMENT", &tags.comment);
    if tags.remove_cover {
        flac_remove_front_cover(tag);
    } else {
        match new_cover {
            Some(bytes) => {
                let mime = detect_image_mime(bytes.as_slice());
                flac_add_front_cover(tag, mime.as_str(), bytes);
            },
            None => {},
        }
    }
}

// ---------------------------------------------------------------------------
// Tagging a finished download
// ---------------------------------------------------------------------------

/// What a download's tags take from its album record, when the album could
/// be fetched: the cover's bytes (when its id was found and it downloaded),
/// the names of the album's genres in order (`None` for an entry without a
/// name) and the label.
pub struct AlbumTagInfo {
    pub cover: Option<Vec<u8>>,
    pub genres: Vec<Option<String>>,
    pub label: Option<String>,
}

/// The genre a download is tagged with: the first of the album's genres,
/// when it has a name.
pub open spec fn album_genre(info: Option<AlbumTagInfo>) -> Option<Seq<char>> {
    match info {
        Some(i) => if i.genres@.len() > 0 {
            opt_view(i.genres@[0])
        } else {
            None
        },
        None => None,
    }
}

pub open spec fn album_label(info: Option<AlbumTagInfo>) -> Option<Seq<char>> {
    match info {
        Some(i) => opt_view(i.label),
        None => None,
    }
}

pub open spec fn album_cover(info: Option<AlbumTagInfo>) -> Option<Seq<u8>> {
    match info {
        Some(i) => bytes_view(i.cover),
        None => None,
    }
}

pub(crate) fn first_genre(info: &Option<AlbumTagInfo>) -> (r: Option<String>)
    ensures
        opt_view(r) == album_genre(*info),
{
    match info {
        Some(i) => if i.genres.len() > 0 {
            i.genres[0].clone()
        } else {
            None
        },
        None => None,
    }
}

pub(crate) fn label_of(info: &Option<AlbumTagInfo>) -> (r: Option<String>)
    ensures
        opt_view(r) == album_label(*info),
{
    match info {
        Some(i) => i.label.clone(),
        None => None,
    }
}

pub(crate) fn cover_of(info: &Option<AlbumTagInfo>) -> (r: Option<Vec<u8>>)
    ensures
        bytes_view(r) == album_cover(*info),
{
    match info {
        Some(i) => i.cover.clone(),
        None => None,
    }
}

/// The Vorbis comments a FLAC download ends with: the title, artist and
/// album, then what the track and album records give.
pub open spec fn flac_download_comments(
    m: Map<Seq<char>, Seq<Seq<char>>>,
    title: Seq<char>,
    artist: Seq<char>,
    album: Seq<char>,
    d: &TrackData,
    info: Option<AlbumTagInfo>,
) -> Map<Seq<char>, Seq<Seq<char>>> {
    let m = set_if(m, "TITLE"@, Some(title));
    let m = set_if(m, "ARTIST"@, Some(artist));
    let m = set_if(m, "ALBUM"@, Some(album));
    let m = set_if(m, "ALBUMARTIST"@, opt_view(d.art_name));
    let m = set_if(m, "DATE"@, tag_date_spec(d.physical_release_date));
    let m = set_if(m, "TRACKNUMBER"@, num_text(scalar_u32_spec(&d.track_number)));
    let m = set_if(m, "DISCNUMBER"@, num_text(scalar_u32_spec(&d.disk_number)));
    let m = set_if(m, "GENRE"@, album_genre(info));
    set_if(m, "LABEL"@, album_label(info))
}

/// The pictures a download ends with: the album's cover replaces every
/// front cover, when there is one.
pub open spec fn download_pictures(
    pics: Seq<(bool, Seq<char>, Seq<u8>)>,
    cover: Option<Seq<u8>>,
) -> Seq<(bool, Seq<char>, Seq<u8>)> {
    match cover {
        Some(b) => pics.filter(|p: (bool, Seq<char>, Seq<u8>)| not_front_cover(p)).push(
            (true, "image/jpeg"@, b),
        ),
        None => pics,
    }
}

/// Tags a downloaded FLAC file's tag with the track's metadata.
pub fn tag_flac_download(
    tag: &mut metaflac::Tag,
    title: &str,
    artist: &str,
    album: &str,
    track: &TrackData,
    album_info: &Option<AlbumTagInfo>,
)
    requires
        date_prefix_ok(track.physical_release_date),
    ensures
        flac_comments(*final(tag)) == flac_download_comments(
            flac_comments(*old(tag)),
            title@,
            artist@,
            album@,
            track,
            *album_info,
        ),
        flac_pictures(*final(tag)) == download_pictures(
            flac_pictures(*old(tag)),
            album_cover(*album_info),
        ),
{
    flac_set_vorbis(tag, "TITLE", title);
    flac_set_vorbis(tag, "ARTIST", artist);
    flac_set_vorbis(tag, "ALBUM", album);
    flac_set_opt(tag, "ALBUMARTIST", &track.art_name);
    flac_set_opt(tag, "DATE", &tag_date(&track.physical_release_date));
    flac_set_opt(tag, "TRACKNUMBER", &u32_text(parse_u32_from_value(&track.track_number)));
    flac_set_opt(tag, "DISCNUMBER", &u32_text(parse_u32_from_value(&track.disk_number)));
    match cover_of(album_info) {
        Some(bytes) => flac_add_front_cover(tag, "image/jpeg", bytes),
        None => {},
    }
    flac_set_opt(tag, "GENRE", &first_genre(album_info));
    flac_set_opt(tag, "LABEL", &label_of(album_info));
}

// ---------------------------------------------------------------------------
// Reading a file's tags for the editor
// ---------------------------------------------------------------------------

/// The tags of an audio file as the editor shows them; the cover is the
/// first picture, in base64, with its MIME type.
pub struct FileTagData {
    pub file_path: String,
    pub format: String,
    pub title: Option<String>,
    pub artist: Option<String>,
    pub album: Option<String>,
    pub album_artist: Option<String>,
    pub year: Option<i32>,
    pub track: Option<u32>,
    pub total_tracks: Option<u32>,
    pub disc: Option<u32>,
    pub total_discs: Option<u32>,
    pub genre: Option<String>,
    pub label: Option<String>,
    pub comment: Option<String>,
    pub cover_data: Option<String>,
    pub cover_mime: Option<String>,
}

/// The first value of a Vorbis comment, looked up by its upper-cased key.
pub open spec fn first_comment(m: Map<Seq<char>, Seq<Seq<char>>>, key: Seq<char>) -> Option<
    Seq<char>,
> {
    let k = ascii_upper(key);
    if m.contains_key(k) && m[k].len() > 0 {
        Some(m[k][0])
    } else {
        None
    }
}

/// `metaflac::Tag::get_vorbis(key)` and its first value: the key is
/// upper-cased and looked up among the comments.
#[verifier::external_body]
fn flac_first_value(tag: &metaflac::Tag, key: &str) -> (r: Option<String>)
    ensures
        opt_view(r) == first_comment(flac_comments(*tag), key@),
{
    tag.get_vorbis(key).and_then(|mut v| v.next()).map(|s| s.to_string())
}

/// `metaflac::Tag::pictures().next()`: the first picture's MIME type and
/// bytes. A `Vec` never holds more than `isize::MAX` bytes.
#[verifier::external_body]
fn flac_first_picture(tag: &metaflac::Tag) -> (r: Option<(String, Vec<u8>)>)
    ensures
        r is None <==> flac_pictures(*tag).len() == 0,
        r matches Some(p) ==> p.0@ == flac_pictures(*tag)[0].1 && p.1@ == flac_pictures(*tag)[0].2
            && p.1@.len() <= usize::MAX / 2,
{
    tag.pictures().next().map(|p| (p.mime_type.clone(), p.data.clone()))
}

pub open spec fn parse_u32_opt(v: Option<Seq<char>>) -> Option<u32> {
    match v {
        Some(s) => parse_u32_spec(s),
        None => None,
    }
}

/// A FLAC's year: the first four bytes of its date (all of it when shorter)
/// read as a number.
pub open spec fn flac_year_spec(date: Option<Seq<char>>) -> Option<i32> {
    match date {
        Some(d) => parse_i32_spec(byte_prefix(d, 4)),
        None => None,
    }
}

/// Reading the year does not split a character of the date.
pub open spec fn flac_date_readable(m: Map<Seq<char>, Seq<Seq<char>>>) -> bool {
    match first_comment(m, "DATE"@) {
        Some(d) => is_char_boundary(d, 4),
        None => true,
    }
}

/// The first of two comments that is present.
pub open spec fn or_else(a: Option<Seq<char>>, b: Option<Seq<char>>) -> Option<Seq<char>> {
    match a {
        Some(x) => Some(x),
        None => b,
    }
}

pub open spec fn cover_data_spec(pic: Option<(Seq<char>, Seq<u8>)>) -> Option<Seq<char>> {
    match pic {
        Some(p) => Some(base64_standard(p.1)),
        None => None,
    }
}

pub open spec fn cover_mime_spec(pic: Option<(Seq<char>, Seq<u8>)>) -> Option<Seq<char>> {
    match pic {
        Some(p) => Some(p.0),
        None => None,
    }
}

pub open spec fn first_flac_picture(tag: metaflac::Tag) -> Option<(Seq<char>, Seq<u8>)> {
    if flac_pictures(tag).len() > 0 {
        Some((flac_pictures(tag)[0].1, flac_pictures(tag)[0].2))
    } else {
        None
    }
}

fn parse_u32_opt_exec(v: &Option<String>) -> (r: Option<u32>)
    ensures
        r == parse_u32_opt(opt_view(*v)),
{
    match v {
        Some(s) => parse_u32(s.as_str()),
        None => None,
    }
}

fn cover_fields(pic: Option<(String, Vec<u8>)>) -> (r: (Option<String>, Option<String>))
    requires
        pic matches Some(p) ==> p.1@.len() <= usize::MAX / 2,
    ensures
        opt_view(r.0) == cover_data_spec(match pic {
            Some(p) => Some((p.0@, p.1@)),
            None => None,
        }),
        opt_view(r.1) == cover_mime_spec(match pic {
            Some(p) => Some((p.0@, p.1@)),
            None => None,
        }),
{
    match pic {
        Some((mime, data)) => (Some(encode_base64(data.as_slice())), Some(mime)),
        None => (None, None),
    }
}

/// The editor's view of a FLAC file's tag: each field is the first value of
/// its comment (the totals fall back to `TRACKTOTAL` and `DISCTOTAL`), the
/// numbers parsed, and the first picture as the cover. `None` when the
/// date's first four bytes end inside a character, which cannot be read.
pub fn flac_file_tags(file_path: String, tag: &metaflac::Tag) -> (r: Option<FileTagData>)
    ensures
        r is None <==> !flac_date_readable(flac_comments(*tag)),
        r matches Some(d) ==> {
            let m = flac_comments(*tag);
            &&& d.file_path@ == file_path@
            &&& d.format@ == "flac"@
            &&& opt_view(d.title) == first_comment(m, "TITLE"@)
            &&& opt_view(d.artist) == first_comment(m, "ARTIST"@)
            &&& opt_view(d.album) == first_comment(m, "ALBUM"@)
            &&& opt_view(d.album_artist) == first_comment(m, "ALBUMARTIST"@)
            &&& d.year == flac_year_spec(first_comment(m, "DATE"@))
            &&& d.track == parse_u32_opt(first_comment(m, "TRACKNUMBER"@))
            &&& d.total_tracks == parse_u32_opt(
                or_else(first_comment(m, "TOTALTRACKS"@), first_comment(m, "TRACKTOTAL"@)),
            )
            &&& d.disc == parse_u32_opt(first_comment(m, "DISCNUMBER"@))
            &&& d.total_discs == parse_u32_opt(
                or_else(first_comment(m, "TOTALDISCS"@), first_comment(m, "DISCTOTAL"@)),
            )
            &&& opt_view(d.genre) == first_comment(m, "GENRE"@)
            &&& opt_view(d.label) == first_comment(m, "LABEL"@)
            &&& opt_view(d.comment) == first_comment(m, "COMMENT"@)
            &&& opt_view(d.cover_data) == cover_data_spec(first_flac_picture(*tag))
            &&& opt_view(d.cover_mime) == cover_mime_spec(first_flac_picture(*tag))
        },
{
    let date = flac_first_value(tag, "DATE");
    let year = match &date {
        Some(d) => {
            let v = chars_of(d.as_str());
            if !char_boundary(v.as_slice(), 4) {
                return None;
            }
            let p = take_bytes(v.as_slice(), 4);
            parse_i32(string_of(p.as_slice()).as_str())
        },
        None => None,
    };
    let total_tracks = match flac_first_value(tag, "TOTALTRACKS") {
        Some(t) => Some(t),
        None => flac_first_value(tag, "TRACKTOTAL"),
    };
    let total_discs = match flac_first_value(tag, "TOTALDISCS") {
        Some(t) => Some(t),
        None => flac_first_value(tag, "DISCTOTAL"),
    };
    let (cover_data, cover_mime) = cover_fields(flac_first_picture(tag));
    Some(
        FileTagData {
            file_path,
            format: String::from_str("flac"),
            title: flac_first_value(tag, "TITLE"),
            artist: flac_first_value(tag, "ARTIST"),
            album: flac_first_value(tag, "ALBUM"),
            album_artist: flac_first_value(tag, "ALBUMARTIST"),
            year,
            track: parse_u32_opt_exec(&flac_first_value(tag, "TRACKNUMBER")),
            total_tracks: parse_u32_opt_exec(&total_tracks),
            disc: parse_u32_opt_exec(&flac_first_value(tag, "DISCNUMBER")),
            total_discs: parse_u32_opt_exec(&total_discs),
            genre: flac_first_value(tag, "GENRE"),
            label: flac_first_value(tag, "LABEL"),
            comment: flac_first_value(tag, "COMMENT"),
            cover_data,
            cover_mime,
        },
    )
}

/// What an MP3's ID3 tag gives the editor, as read from it: the text of
/// each field's frame, the year and numbers as `id3` parses them, the first
/// `TPUB` text frame, the first comment's text and the first picture's MIME
/// type and bytes.
pub struct Mp3Fields {
    pub title: Option<String>,
    pub artist: Option<String>,
    pub album: Option<String>,
    pub album_artist: Option<String>,
    pub year: Option<i32>,
    pub track: Option<u32>,
    pub total_tracks: Option<u32>,
    pub disc: Option<u32>,
    pub total_discs: Option<u32>,
    pub genre: Option<String>,
    pub label: Option<String>,
    pub comment: Option<String>,
    pub picture: Option<(String, Vec<u8>)>,
}

pub open spec fn picture_view(p: Option<(String, Vec<u8>)>) -> Option<(Seq<char>, Seq<u8>)> {
    match p {
        Some(x) => Some((x.0@, x.1@)),
        None => None,
    }
}

/// The editor's view of an MP3 file's tag: the fields as read, with the
/// first picture as the cover in base64.
pub fn mp3_file_tags(file_path: String, fields: Mp3Fields) -> (r: FileTagData)
    requires
        fields.picture matches Some(p) ==> p.1@.len() <= usize::MAX / 2,
    ensures
        r.file_path@ == file_path@,
        r.format@ == "mp3"@,
        r.title == fields.title,
        r.artist == fields.artist,
        r.album == fields.album,
        r.album_artist == fields.album_artist,
        r.year == fields.year,
        r.track == fields.track,
        r.total_tracks == fields.total_tracks,
        r.disc == fields.disc,
        r.total_discs == fields.total_discs,
        r.genre == fields.genre,
        r.label == fields.label,
        r.comment == fields.comment,
        opt_view(r.cover_data) == cover_data_spec(picture_view(fields.picture)),
        opt_view(r.cover_mime) == cover_mime_spec(picture_view(fields.picture)),
{
    let (cover_data, cover_mime) = cover_fields(fields.picture);
    FileTagData {
        file_path,
        format: String::from_str("mp3"),
        title: fields.title,
        artist: fields.artist,
        album: fields.album,
        album_artist: fields.album_artist,
        year: fields.year,
        track: fields.track,
        total_tracks: fields.total_tracks,
        disc: fields.disc,
        total_discs: fields.total_discs,
        genre: fields.genre,
        label: fields.label,
        comment: fields.comment,
        cover_data,
        cover_mime,
    }
}

// ---------------------------------------------------------------------------
// Reading back the editor's FLAC edits
// ---------------------------------------------------------------------------

/// The Vorbis comment keys the editor writes, spelled in upper case and told
/// apart by their length and first letters.
proof fn lemma_flac_keys()
    ensures
        ascii_upper("TITLE"@) == "TITLE"@ && "TITLE"@.len() == 5 && "TITLE"@[0] == 'T' && "TITLE"@[1] == 'I',
        ascii_upper("ARTIST"@) == "ARTIST"@ && "ARTIST"@.len() == 6 && "ARTIST"@[0] == 'A' && "ARTIST"@[1] == 'R',
        ascii_upper("ALBUM"@) == "ALBUM"@ && "ALBUM"@.len() == 5 && "ALBUM"@[0] == 'A' && "ALBUM"@[1] == 'L',
        ascii_upper("ALBUMARTIST"@) == "ALBUMARTIST"@ && "ALBUMARTIST"@.len() == 11 && "ALBUMARTIST"@[0] == 'A' && "ALBUMARTIST"@[1] == 'L',
        ascii_upper("DATE"@) == "DATE"@ && "DATE"@.len() == 4 && "DATE"@[0] == 'D' && "DATE"@[1] == 'A',
        ascii_upper("TRACKNUMBER"@) == "TRACKNUMBER"@ && "TRACKNUMBER"@.len() == 11 && "TRACKNUMBER"@[0] == 'T' && "TRACKNUMBER"@[1] == 'R',
        ascii_upper("TOTALTRACKS"@) == "TOTALTRACKS"@ && "TOTALTRACKS"@.len() == 11 && "TOTALTRACKS"@[0] == 'T' && "TOTALTRACKS"@[1] == 'O',
        ascii_upper("DISCNUMBER"@) == "DISCNUMBER"@ && "DISCNUMBER"@.len() == 10 && "DISCNUMBER"@[0] == 'D' && "DISCNUMBER"@[1] == 'I',
        ascii_upper("TOTALDISCS"@) == "TOTALDISCS"@ && "TOTALDISCS"@.len() == 10 && "TOTALDISCS"@[0] == 'T' && "TOTALDISCS"@[1] == 'O',
        ascii_upper("GENRE"@) == "GENRE"@ && "GENRE"@.len() == 5 && "GENRE"@[0] == 'G' && "GENRE"@[1] == 'E',
        ascii_upper("LABEL"@) == "LABEL"@ && "LABEL"@.len() == 5 && "LABEL"@[0] == 'L' && "LABEL"@[1] == 'A',
        ascii_upper("COMMENT"@) == "COMMENT"@ && "COMMENT"@.len() == 7 && "COMMENT"@[0] == 'C' && "COMMENT"@[1] == 'O',
{
    reveal_strlit("TITLE");
    assert(ascii_upper("TITLE"@) =~= "TITLE"@);
    reveal_strlit("ARTIST");
    assert(ascii_upper("ARTIST"@) =~= "ARTIST"@);
    reveal_strlit("ALBUM");
    assert(ascii_upper("ALBUM"@) =~= "ALBUM"@);
    reveal_strlit("ALBUMARTIST");
    assert(ascii_upper("ALBUMARTIST"@) =~= "ALBUMARTIST"@);
    reveal_strlit("DATE");
    assert(ascii_upper("DATE"@) =~= "DATE"@);
    reveal_strlit("TRACKNUMBER");
    assert(ascii_upper("TRACKNUMBER"@) =~= "TRACKNUMBER"@);
    reveal_strlit("TOTALTRACKS");
    assert(ascii_upper("TOTALTRACKS"@) =~= "TOTALTRACKS"@);
    reveal_strlit("DISCNUMBER");
    assert(ascii_upper("DISCNUMBER"@) =~= "DISCNUMBER"@);
    reveal_strlit("TOTALDISCS");
    assert(ascii_upper("TOTALDISCS"@) =~= "TOTALDISCS"@);
    reveal_strlit("GENRE");
    assert(ascii_upper("GENRE"@) =~= "GENRE"@);
    reveal_strlit("LABEL");
    assert(ascii_upper("LABEL"@) =~= "LABEL"@);
    reveal_strlit("COMMENT");
    assert(ascii_upper("COMMENT"@) =~= "COMMENT"@);
}

/// Each edited text field of a FLAC file reads back as written.
pub proof fn lemma_flac_text_read_back(m: Map<Seq<char>, Seq<Seq<char>>>, t: &WriteTagData)
    ensures
        t.title matches Some(v) ==> first_comment(flac_edited(m, t), "TITLE"@) == Some(v@),
        t.artist matches Some(v) ==> first_comment(flac_edited(m, t), "ARTIST"@) == Some(v@),
        t.album matches Some(v) ==> first_comment(flac_edited(m, t), "ALBUM"@) == Some(v@),
        t.album_artist matches Some(v) ==> first_comment(flac_edited(m, t), "ALBUMARTIST"@) == Some(
            v@,
        ),
        t.genre matches Some(v) ==> first_comment(flac_edited(m, t), "GENRE"@) == Some(v@),
        t.label matches Some(v) ==> first_comment(flac_edited(m, t), "LABEL"@) == Some(v@),
        t.comment matches Some(v) ==> first_comment(flac_edited(m, t), "COMMENT"@) == Some(v@),
{
    lemma_flac_keys();
}

/// Each edited track or disc number and total of a FLAC file reads back as
/// written.
pub proof fn lemma_flac_numbers_read_back(m: Map<Seq<char>, Seq<Seq<char>>>, t: &WriteTagData)
    ensures
        t.track matches Some(n) ==> parse_u32_opt(first_comment(flac_edited(m, t), "TRACKNUMBER"@))
            == Some(n),
        t.disc matches Some(n) ==> parse_u32_opt(first_comment(flac_edited(m, t), "DISCNUMBER"@))
            == Some(n),
        t.total_tracks matches Some(n) ==> parse_u32_opt(
            or_else(
                first_comment(flac_edited(m, t), "TOTALTRACKS"@),
                first_comment(flac_edited(m, t), "TRACKTOTAL"@),
            ),
        ) == Some(n),
        t.total_discs matches Some(n) ==> parse_u32_opt(
            or_else(
                first_comment(flac_edited(m, t), "TOTALDISCS"@),
                first_comment(flac_edited(m, t), "DISCTOTAL"@),
            ),
        ) == Some(n),
{
    lemma_flac_keys();
    if let Some(n) = t.track {
        lemma_parse_u32_decimal(n);
    }
    if let Some(n) = t.disc {
        lemma_parse_u32_decimal(n);
    }
    if let Some(n) = t.total_tracks {
        lemma_parse_u32_decimal(n);
    }
    if let Some(n) = t.total_discs {
        lemma_parse_u32_decimal(n);
    }
}

/// An edited year of at most four characters reads back from a FLAC file
/// as written, and keeps the date readable.
pub proof fn lemma_flac_year_read_back(m: Map<Seq<char>, Seq<Seq<char>>>, t: &WriteTagData)
    requires
        t.year matches Some(y) && -999 <= y <= 9999,
    ensures
        flac_date_readable(flac_edited(m, t)),
        flac_year_spec(first_comment(flac_edited(m, t), "DATE"@)) == t.year,
{
    lemma_flac_keys();
    lemma_parse_short_year(t.year->0);
}

/// What a FLAC download's tag reads back: the title, artist and album
/// given; the album artist of the track record; the first four bytes of its
/// physical release date as the date; the track number parsed from
/// the record's own track-number field and the disc number from its own
/// disc-number field; the first of the album's genres and its label. A
/// field the record or the album does not give keeps what the tag held.
pub proof fn lemma_flac_download_read_back(
    m: Map<Seq<char>, Seq<Seq<char>>>,
    title: Seq<char>,
    artist: Seq<char>,
    album: Seq<char>,
    d: &TrackData,
    info: Option<AlbumTagInfo>,
)
    ensures
        ({
            let c = flac_download_comments(m, title, artist, album, d, info);
            &&& first_comment(c, "TITLE"@) == Some(title)
            &&& first_comment(c, "ARTIST"@) == Some(artist)
            &&& first_comment(c, "ALBUM"@) == Some(album)
            &&& d.art_name matches Some(a) ==> first_comment(c, "ALBUMARTIST"@) == Some(a@)
            &&& (d.physical_release_date matches Some(p) && byte_len(p@) >= 4) ==> first_comment(
                c,
                "DATE"@,
            ) == Some(byte_prefix(d.physical_release_date->0@, 4))
            &&& scalar_u32_spec(&d.track_number) matches Some(n) ==> parse_u32_opt(
                first_comment(c, "TRACKNUMBER"@),
            ) == Some(n)
            &&& scalar_u32_spec(&d.disk_number) matches Some(n) ==> parse_u32_opt(
                first_comment(c, "DISCNUMBER"@),
            ) == Some(n)
            &&& scalar_u32_spec(&d.track_number) is None ==> first_comment(c, "TRACKNUMBER"@)
                == first_comment(m, "TRACKNUMBER"@)
            &&& scalar_u32_spec(&d.disk_number) is None ==> first_comment(c, "DISCNUMBER"@)
                == first_comment(m, "DISCNUMBER"@)
            &&& (info matches Some(i) && i.genres@.len() > 0 && i.genres@[0] is Some) ==> first_comment(
                c,
                "GENRE"@,
            ) == Some(info->0.genres@[0]->0@)
            &&& (info matches Some(i) && i.label is Some) ==> first_comment(c, "LABEL"@) == Some(
                info->0.label->0@,
            )
        }),
{
    lemma_flac_keys();
    if let Some(n) = scalar_u32_spec(&d.track_number) {
        lemma_parse_u32_decimal(n);
    }
    if let Some(n) = scalar_u32_spec(&d.disk_number) {
        lemma_parse_u32_decimal(n);
    }
}

} // verus!
