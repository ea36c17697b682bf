//! MP3 tags (ID3): the frames that the tag editor and downloads write, and
//! what the editor reads back from them.
use id3::TagLike;
use vstd::prelude::*;

use crate::media::{detect_image_mime, image_mime_spec};
use crate::tags::{
    album_cover, album_genre, album_label, bytes_view, cover_of, first_genre, label_of, num_text,
    opt_view, picture_view, AlbumTagInfo, Mp3Fields, WriteTagData,
};
use crate::text::{
    all_digits, byte_len, decimal, is_digit, lemma_ascii_byte_len, lemma_decimal_digits,
    lemma_parse_short_year, lemma_parse_u32_decimal, parse_i32_spec, parse_u32_spec,
};
use crate::track::{
    date_prefix_ok, parse_u32_from_value, scalar_u32_spec, tag_year, tag_year_spec,
    TrackData,
};

verus! {

#[verifier::external_type_specification]
#[verifier::external_body]
pub struct ExId3Tag(id3::Tag);

/// A frame as the library sees it: its id; its kind (0 for text content, 1
/// for a comment, 2 for a picture, 3 for another content that `id3` keeps
/// one of per id: a link under an id other than `WCOM` and `WOAR`, an MPEG
/// location table or an involved-people list, 4 for any other content); its
/// text (a text frame's text or a comment's text, empty otherwise); and for
/// a picture whether it is the front cover, its MIME type and its bytes
/// (`false`, empty, empty otherwise). An id that `id3` could not convert
/// from ID3v2.2 keeps its three characters, so it never equals a four-byte
/// id. A comment's language and description, a picture's description, the
/// content of other kinds and a frame's text encoding are not part of this
/// view; the contracts below only ever compare them on frames that the
/// library itself creates.
pub type Id3Frame = (Seq<char>, u8, Seq<char>, (bool, Seq<char>, Seq<u8>));

/// The frames of an ID3 tag, in order.
pub uninterp spec fn id3_frames(tag: id3::Tag) -> Seq<Id3Frame>;

pub open spec fn no_picture() -> (bool, Seq<char>, Seq<u8>) {
    (false, Seq::empty(), Seq::empty())
}

/// A text frame.
pub open spec fn text_frame(id: Seq<char>, t: Seq<char>) -> Id3Frame {
    (id, 0u8, t, no_picture())
}

/// An English comment with no description.
pub open spec fn comment_frame(t: Seq<char>) -> Id3Frame {
    ("COMM"@, 1u8, t, no_picture())
}

/// A front cover with no description.
pub open spec fn cover_frame(mime: Seq<char>, data: Seq<u8>) -> Id3Frame {
    ("APIC"@, 2u8, Seq::empty(), (true, mime, data))
}

/// A frame that a new text frame with this id replaces: same id, and a
/// content that `id3` treats as one per id.
pub open spec fn replaceable(f: Id3Frame, id: Seq<char>) -> bool {
    f.0 == id && (f.1 == 0 || f.1 == 3)
}

/// The index of the first frame that a new text frame with this id replaces.
pub open spec fn first_replaceable(fs: Seq<Id3Frame>, id: Seq<char>) -> Option<int>
    decreases fs.len(),
{
    if fs.len() == 0 {
        None
    } else {
        match first_replaceable(fs.drop_last(), id) {
            Some(k) => Some(k),
            None => if replaceable(fs.last(), id) {
                Some(fs.len() - 1)
            } else {
                None
            },
        }
    }
}

/// `TagLike::add_frame` of a text frame: the first frame it replaces is
/// removed, and the new frame is appended.
pub open spec fn text_set(fs: Seq<Id3Frame>, id: Seq<char>, t: Seq<char>) -> Seq<Id3Frame> {
    match first_replaceable(fs, id) {
        Some(k) => fs.remove(k).push(text_frame(id, t)),
        None => fs.push(text_frame(id, t)),
    }
}

pub open spec fn has_id(f: Id3Frame, id: Seq<char>) -> bool {
    f.0 == id
}

pub open spec fn other_id(f: Id3Frame, id: Seq<char>) -> bool {
    f.0 != id
}

/// The frames with this id, in order.
pub open spec fn with_id(fs: Seq<Id3Frame>, id: Seq<char>) -> Seq<Id3Frame> {
    fs.filter(|f: Id3Frame| has_id(f, id))
}

/// The frames without this id, in order.
pub open spec fn without_id(fs: Seq<Id3Frame>, id: Seq<char>) -> Seq<Id3Frame> {
    fs.filter(|f: Id3Frame| other_id(f, id))
}

/// A frame that `remove_picture_by_type(CoverFront)` keeps: not an `APIC`
/// frame, or a picture that is not the front cover.
pub open spec fn kept_by_cover_removal(f: Id3Frame) -> bool {
    f.0 != "APIC"@ || (f.1 == 2 && !f.3.0)
}

pub open spec fn without_front_covers(fs: Seq<Id3Frame>) -> Seq<Id3Frame> {
    fs.filter(|f: Id3Frame| kept_by_cover_removal(f))
}

/// The text of the first frame with this id, when it is a text frame
/// (`TagLike::get` and `Content::text`).
pub open spec fn text_of(fs: Seq<Id3Frame>, id: Seq<char>) -> Option<Seq<char>> {
    let g = with_id(fs, id);
    if g.len() > 0 && g[0].1 == 0 {
        Some(g[0].2)
    } else {
        None
    }
}

pub open spec fn is_kind(f: Id3Frame, kind: u8) -> bool {
    f.1 == kind
}

/// The frames of a kind, in order.
pub open spec fn of_kind(fs: Seq<Id3Frame>, kind: u8) -> Seq<Id3Frame> {
    fs.filter(|f: Id3Frame| is_kind(f, kind))
}

/// The first comment's text (`Tag::comments`).
pub open spec fn first_comment_text(fs: Seq<Id3Frame>) -> Option<Seq<char>> {
    if of_kind(fs, 1).len() > 0 {
        Some(of_kind(fs, 1)[0].2)
    } else {
        None
    }
}

/// The first picture's MIME type and bytes (`Tag::pictures`).
pub open spec fn first_picture(fs: Seq<Id3Frame>) -> Option<(Seq<char>, Seq<u8>)> {
    if of_kind(fs, 2).len() > 0 {
        Some((of_kind(fs, 2)[0].3.1, of_kind(fs, 2)[0].3.2))
    } else {
        None
    }
}

/// The index of the first `/` or NUL.
pub open spec fn first_separator(t: Seq<char>) -> Option<int>
    decreases t.len(),
{
    if t.len() == 0 {
        None
    } else {
        match first_separator(t.drop_last()) {
            Some(k) => Some(k),
            None => if t.last() == '/' || t.last() == '\0' {
                Some(t.len() - 1)
            } else {
                None
            },
        }
    }
}

/// A number frame's text read as a number and an optional total
/// (`TagLike::text_pair`): the part before the first `/` or NUL must parse.
pub open spec fn text_pair(t: Seq<char>) -> Option<(u32, Option<u32>)> {
    match first_separator(t) {
        None => match parse_u32_spec(t) {
            Some(a) => Some((a, None)),
            None => None,
        },
        Some(k) => match parse_u32_spec(t.take(k)) {
            Some(a) => Some((a, parse_u32_spec(t.skip(k + 1)))),
            None => None,
        },
    }
}

pub open spec fn pair_of(fs: Seq<Id3Frame>, id: Seq<char>) -> Option<(u32, Option<u32>)> {
    match text_of(fs, id) {
        Some(t) => text_pair(t),
        None => None,
    }
}

/// The text `set_track`/`set_disc` writes: the number, then the total the
/// frame already had.
pub open spec fn number_text(fs: Seq<Id3Frame>, id: Seq<char>, n: u32) -> Seq<char> {
    match pair_of(fs, id) {
        Some((_, Some(b))) => decimal(n as nat) + "/"@ + decimal(b as nat),
        _ => decimal(n as nat),
    }
}

/// The text `set_total_tracks`/`set_total_discs` writes: the number the frame
/// already had (1 when none), then the total.
pub open spec fn total_text(fs: Seq<Id3Frame>, id: Seq<char>, t: u32) -> Seq<char> {
    match pair_of(fs, id) {
        Some((a, _)) => decimal(a as nat) + "/"@ + decimal(t as nat),
        None => "1/"@ + decimal(t as nat),
    }
}

/// The year as `format!("{:04}", year)` writes it.
pub open spec fn year_text(y: i32) -> Seq<char> {
    if y >= 0 {
        pad_zeros(decimal(y as nat), 4)
    } else {
        seq!['-'] + pad_zeros(decimal((-(y as int)) as nat), 3)
    }
}

/// `s` with zeros in front up to `width` characters.
pub open spec fn pad_zeros(s: Seq<char>, width: nat) -> Seq<char>
    decreases width,
{
    if s.len() >= width {
        s
    } else {
        seq!['0'] + pad_zeros(s, (width - 1) as nat)
    }
}

/// `s` without its leading zeros.
pub open spec fn strip_zeros(s: Seq<char>) -> Seq<char>
    decreases s.len(),
{
    if s.len() > 0 && s[0] == '0' {
        strip_zeros(s.drop_first())
    } else {
        s
    }
}

/// The year as `TagLike::year` reads it: the `TYER` text without its
/// leading zeros, parsed.
pub open spec fn year_read(fs: Seq<Id3Frame>) -> Option<i32> {
    match text_of(fs, "TYER"@) {
        Some(t) => parse_i32_spec(strip_zeros(t)),
        None => None,
    }
}

/// The number of a number frame (`TagLike::track`, `TagLike::disc`).
pub open spec fn number_read(fs: Seq<Id3Frame>, id: Seq<char>) -> Option<u32> {
    match pair_of(fs, id) {
        Some(p) => Some(p.0),
        None => None,
    }
}

/// The total of a number frame (`TagLike::total_tracks`,
/// `TagLike::total_discs`).
pub open spec fn total_read(fs: Seq<Id3Frame>, id: Seq<char>) -> Option<u32> {
    match pair_of(fs, id) {
        Some(p) => p.1,
        None => None,
    }
}

// ---------------------------------------------------------------------------
// Calls into id3
// ---------------------------------------------------------------------------

/// An empty ID3 tag (`id3::Tag::new`).
#[verifier::external_body]
fn id3_new() -> (r: id3::Tag)
    ensures
        id3_frames(r) == Seq::<Id3Frame>::empty(),
{
    id3::Tag::new()
}

/// `TagLike::set_title`: sets the `TIT2` text frame.
#[verifier::external_body]
fn id3_set_title(tag: &mut id3::Tag, v: &str)
    ensures
        id3_frames(*final(tag)) == text_set(id3_frames(*old(tag)), "TIT2"@, v@),
{
    tag.set_title(v);
}

/// `TagLike::set_artist`: sets the `TPE1` text frame.
#[verifier::external_body]
fn id3_set_artist(tag: &mut id3::Tag, v: &str)
    ensures
        id3_frames(*final(tag)) == text_set(id3_frames(*old(tag)), "TPE1"@, v@),
{
    tag.set_artist(v);
}

/// `TagLike::set_album`: sets the `TALB` text frame.
#[verifier::external_body]
fn id3_set_album(tag: &mut id3::Tag, v: &str)
    ensures
        id3_frames(*final(tag)) == text_set(id3_frames(*old(tag)), "TALB"@, v@),
{
    tag.set_album(v);
}

/// `TagLike::set_album_artist`: sets the `TPE2` text frame.
#[verifier::external_body]
fn id3_set_album_artist(tag: &mut id3::Tag, v: &str)
    ensures
        id3_frames(*final(tag)) == text_set(id3_frames(*old(tag)), "TPE2"@, v@),
{
    tag.set_album_artist(v);
}

/// `TagLike::set_genre`: sets the `TCON` text frame.
#[verifier::external_body]
fn id3_set_genre(tag: &mut id3::Tag, v: &str)
    ensures
        id3_frames(*final(tag)) == text_set(id3_frames(*old(tag)), "TCON"@, v@),
{
    tag.set_genre(v);
}

/// `TagLike::set_year`: sets the `TYER` text frame to the year in at least
/// four digits.
#[verifier::external_body]
fn id3_set_year(tag: &mut id3::Tag, y: i32)
    ensures
        id3_frames(*final(tag)) == text_set(id3_frames(*old(tag)), "TYER"@, year_text(y)),
{
    tag.set_year(y);
}

/// `TagLike::set_track`: sets the `TRCK` frame to the track, followed by the
/// total the frame already had.
#[verifier::external_body]
fn id3_set_track(tag: &mut id3::Tag, n: u32)
    ensures
        id3_frames(*final(tag)) == text_set(
            id3_frames(*old(tag)),
            "TRCK"@,
            number_text(id3_frames(*old(tag)), "TRCK"@, n),
        ),
{
    tag.set_track(n);
}

/// `TagLike::set_total_tracks`: sets the `TRCK` frame to the track it
/// already had (1 when none), followed by the total.
#[verifier::external_body]
fn id3_set_total_tracks(tag: &mut id3::Tag, n: u32)
    ensures
        id3_frames(*final(tag)) == text_set(
            id3_frames(*old(tag)),
            "TRCK"@,
            total_text(id3_frames(*old(tag)), "TRCK"@, n),
        ),
{
    tag.set_total_tracks(n);
}

/// `TagLike::set_disc`: sets the `TPOS` frame to the disc, followed by the
/// total the frame already had.
#[verifier::external_body]
fn id3_set_disc(tag: &mut id3::Tag, n: u32)
    ensures
        id3_frames(*final(tag)) == text_set(
            id3_frames(*old(tag)),
            "TPOS"@,
            number_text(id3_frames(*old(tag)), "TPOS"@, n),
        ),
{
    tag.set_disc(n);
}

/// `TagLike::set_total_discs`: sets the `TPOS` frame to the disc it already
/// had (1 when none), followed by the total.
#[verifier::external_body]
fn id3_set_total_discs(tag: &mut id3::Tag, n: u32)
    ensures
        id3_frames(*final(tag)) == text_set(
            id3_frames(*old(tag)),
            "TPOS"@,
            total_text(id3_frames(*old(tag)), "TPOS"@, n),
        ),
{
    tag.set_total_discs(n);
}

/// `TagLike::remove`: every frame with the id goes, the others stay in
/// order.
#[verifier::external_body]
fn id3_remove(tag: &mut id3::Tag, id: &str)
    ensures
        id3_frames(*final(tag)) == without_id(id3_frames(*old(tag)), id@),
{
    tag.remove(id);
}

/// `TagLike::add_frame` of a text frame with a four-byte id
/// (`Frame::with_content(id, Content::Text(v))`, which panics on an id of
/// another length and rewrites a three-byte one).
#[verifier::external_body]
fn id3_add_text_frame(tag: &mut id3::Tag, id: &str, v: &str)
    requires
        byte_len(id@) == 4,
    ensures
        id3_frames(*final(tag)) == text_set(id3_frames(*old(tag)), id@, v@),
{
    tag.add_frame(id3::Frame::with_content(id, id3::Content::Text(v.to_string())));
}

/// `TagLike::add_frame` of an English comment with no description, on a tag
/// with no `COMM` frame (so none is replaced).
#[verifier::external_body]
fn id3_add_comment(tag: &mut id3::Tag, v: &str)
    requires
        forall|i: int|
            0 <= i < id3_frames(*old(tag)).len() ==> (#[trigger] id3_frames(*old(tag))[i]).0
                != "COMM"@,
    ensures
        id3_frames(*final(tag)) == id3_frames(*old(tag)).push(comment_frame(v@)),
{
    tag.add_frame(
        id3::Frame::with_content(
            "COMM",
            id3::Content::Comment(
                id3::frame::Comment {
                    lang: "eng".to_string(),
                    description: String::new(),
                    text: v.to_string(),
                },
            ),
        ),
    );
}

/// `TagLike::remove_picture_by_type(CoverFront)`: every `APIC` frame goes
/// but the pictures that are not the front cover.
#[verifier::external_body]
fn id3_remove_front_cover(tag: &mut id3::Tag)
    ensures
        id3_frames(*final(tag)) == without_front_covers(id3_frames(*old(tag))),
{
    tag.remove_picture_by_type(id3::frame::PictureType::CoverFront);
}

/// `TagLike::add_frame` of a front cover with no description, on a tag whose
/// `APIC` frames are all pictures other than the front cover (so none is
/// replaced).
#[verifier::external_body]
fn id3_add_front_cover(tag: &mut id3::Tag, mime: &str, data: Vec<u8>)
    requires
        forall|i: int|
            0 <= i < id3_frames(*old(tag)).len() ==> kept_by_cover_removal(
                #[trigger] id3_frames(*old(tag))[i],
            ),
    ensures
        id3_frames(*final(tag)) == id3_frames(*old(tag)).push(cover_frame(mime@, data@)),
{
    tag.add_frame(
        id3::Frame::with_content(
            "APIC",
            id3::Content::Picture(
                id3::frame::Picture {
                    mime_type: mime.to_string(),
                    picture_type: id3::frame::PictureType::CoverFront,
                    description: String::new(),
                    data,
                },
            ),
        ),
    );
}

/// `TagLike::get(id)` and `Content::text`: the text of the first frame with
/// the id, when it is a text frame.
#[verifier::external_body]
fn id3_text(tag: &id3::Tag, id: &str) -> (r: Option<String>)
    ensures
        opt_view(r) == text_of(id3_frames(*tag), id@),
{
    tag.get(id).and_then(|f| f.content().text()).map(|t| t.to_string())
}

/// `TagLike::year`: the `TYER` text without its leading zeros, parsed.
#[verifier::external_body]
fn id3_year(tag: &id3::Tag) -> (r: Option<i32>)
    ensures
        r == year_read(id3_frames(*tag)),
{
    tag.year()
}

/// `TagLike::track`: the number of the `TRCK` pair.
#[verifier::external_body]
fn id3_track(tag: &id3::Tag) -> (r: Option<u32>)
    ensures
        r == number_read(id3_frames(*tag), "TRCK"@),
{
    tag.track()
}

/// `TagLike::total_tracks`: the total of the `TRCK` pair.
#[verifier::external_body]
fn id3_total_tracks(tag: &id3::Tag) -> (r: Option<u32>)
    ensures
        r == total_read(id3_frames(*tag), "TRCK"@),
{
    tag.total_tracks()
}

/// `TagLike::disc`: the number of the `TPOS` pair.
#[verifier::external_body]
fn id3_disc(tag: &id3::Tag) -> (r: Option<u32>)
    ensures
        r == number_read(id3_frames(*tag), "TPOS"@),
{
    tag.disc()
}

/// `TagLike::total_discs`: the total of the `TPOS` pair.
#[verifier::external_body]
fn id3_total_discs(tag: &id3::Tag) -> (r: Option<u32>)
    ensures
        r == total_read(id3_frames(*tag), "TPOS"@),
{
    tag.total_discs()
}

/// `Tag::comments().next()`: the first comment's text.
#[verifier::external_body]
fn id3_first_comment(tag: &id3::Tag) -> (r: Option<String>)
    ensures
        opt_view(r) == first_comment_text(id3_frames(*tag)),
{
    tag.comments().next().map(|c| c.text.clone())
}

/// `Tag::pictures().next()`: the first picture's MIME type and bytes. A
/// `Vec` never holds more than `isize::MAX` bytes.
#[verifier::external_body]
fn id3_first_picture(tag: &id3::Tag) -> (r: Option<(String, Vec<u8>)>)
    ensures
        (match r {
            Some(p) => Some((p.0@, p.1@)),
            None => None,
        }) == first_picture(id3_frames(*tag)),
        r matches Some(p) ==> p.1@.len() <= usize::MAX / 2,
{
    tag.pictures().next().map(|p| (p.mime_type.clone(), p.data.clone()))
}

// ---------------------------------------------------------------------------
// The tag editor's edits
// ---------------------------------------------------------------------------

/// The frames with a text frame set when there is a value.
pub open spec fn set_text_opt(fs: Seq<Id3Frame>, id: Seq<char>, v: Option<Seq<char>>) -> Seq<
    Id3Frame,
> {
    match v {
        Some(t) => text_set(fs, id, t),
        None => fs,
    }
}

pub open spec fn year_frame_text(y: Option<i32>) -> Option<Seq<char>> {
    match y {
        Some(x) => Some(year_text(x)),
        None => None,
    }
}

/// The frames with a number set (`set_track`, `set_disc`) when there is one.
pub open spec fn set_number_opt(fs: Seq<Id3Frame>, id: Seq<char>, n: Option<u32>) -> Seq<Id3Frame> {
    match n {
        Some(x) => text_set(fs, id, number_text(fs, id, x)),
        None => fs,
    }
}

/// The frames with a total set (`set_total_tracks`, `set_total_discs`) when
/// there is one.
pub open spec fn set_total_opt(fs: Seq<Id3Frame>, id: Seq<char>, n: Option<u32>) -> Seq<Id3Frame> {
    match n {
        Some(x) => text_set(fs, id, total_text(fs, id, x)),
        None => fs,
    }
}

/// The frames after the name edits: title, artist, album, album artist and
/// year, in that order.
pub open spec fn names_edited(fs: Seq<Id3Frame>, t: &WriteTagData) -> Seq<Id3Frame> {
    let f = set_text_opt(fs, "TIT2"@, opt_view(t.title));
    let f = set_text_opt(f, "TPE1"@, opt_view(t.artist));
    let f = set_text_opt(f, "TALB"@, opt_view(t.album));
    let f = set_text_opt(f, "TPE2"@, opt_view(t.album_artist));
    set_text_opt(f, "TYER"@, year_frame_text(t.year))
}

/// The frames after the number edits: track, total tracks, disc and total
/// discs, in that order.
pub open spec fn numbers_edited(fs: Seq<Id3Frame>, t: &WriteTagData) -> Seq<Id3Frame> {
    let f = set_number_opt(fs, "TRCK"@, t.track);
    let f = set_total_opt(f, "TRCK"@, t.total_tracks);
    let f = set_number_opt(f, "TPOS"@, t.disc);
    set_total_opt(f, "TPOS"@, t.total_discs)
}

/// The frames after the genre, label and comment edits: the genre is set;
/// the label and the comment each replace every frame with their id and are
/// appended.
pub open spec fn others_edited(fs: Seq<Id3Frame>, t: &WriteTagData) -> Seq<Id3Frame> {
    let f = set_text_opt(fs, "TCON"@, opt_view(t.genre));
    let f = match t.label {
        Some(v) => without_id(f, "TPUB"@).push(text_frame("TPUB"@, v@)),
        None => f,
    };
    match t.comment {
        Some(v) => without_id(f, "COMM"@).push(comment_frame(v@)),
        None => f,
    }
}

/// The frames after the cover edit: every front cover removed when asked,
/// else replaced by the new cover (with its detected type) when one is given.
pub open spec fn cover_edited(fs: Seq<Id3Frame>, remove: bool, cover: Option<Seq<u8>>) -> Seq<
    Id3Frame,
> {
    if remove {
        without_front_covers(fs)
    } else {
        match cover {
            Some(b) => without_front_covers(fs).push(cover_frame(image_mime_spec(b), b)),
            None => fs,
        }
    }
}

/// The frames of an MP3's tag after the tag editor's edits.
pub open spec fn mp3_edited(fs: Seq<Id3Frame>, t: &WriteTagData, cover: Option<Seq<u8>>) -> Seq<
    Id3Frame,
> {
    cover_edited(
        others_edited(numbers_edited(names_edited(fs, t), t), t),
        t.remove_cover,
        cover,
    )
}

/// The four-byte ids the library writes itself.
proof fn lemma_own_ids()
    ensures
        byte_len("TPUB"@) == 4,
        "TPUB"@ != "COMM"@,
        "APIC"@ != "COMM"@,
{
    reveal_strlit("TPUB");
    reveal_strlit("COMM");
    reveal_strlit("APIC");
    let s = "TPUB"@;
    assert forall|i: int| 0 <= i < s.len() implies (#[trigger] s[i] as u32) < 0x80 by {}
    lemma_ascii_byte_len(s);
    assert("TPUB"@[1] != "COMM"@[1]);
    assert("APIC"@[0] != "COMM"@[0]);
}

/// With no frame with the id, a new text frame with it replaces nothing.
proof fn lemma_none_replaceable(fs: Seq<Id3Frame>, id: Seq<char>)
    requires
        forall|i: int| 0 <= i < fs.len() ==> (#[trigger] fs[i]).0 != id,
    ensures
        first_replaceable(fs, id) is None,
    decreases fs.len(),
{
    if fs.len() > 0 {
        assert(fs.last() == fs[fs.len() - 1]);
        lemma_none_replaceable(fs.drop_last(), id);
    }
}

/// After every frame with the id is removed, none is left to replace.
proof fn lemma_without_id_fresh(fs: Seq<Id3Frame>, id: Seq<char>)
    ensures
        forall|i: int|
            0 <= i < without_id(fs, id).len() ==> (#[trigger] without_id(fs, id)[i]).0 != id,
        first_replaceable(without_id(fs, id), id) is None,
{
    broadcast use vstd::seq_lib::group_filter_ensures;

    let w = without_id(fs, id);
    assert forall|i: int| 0 <= i < w.len() implies (#[trigger] w[i]).0 != id by {
        assert(other_id(w[i], id));
    }
    lemma_none_replaceable(w, id);
}

fn mp3_set_names(tag: &mut id3::Tag, tags: &WriteTagData)
    ensures
        id3_frames(*final(tag)) == names_edited(id3_frames(*old(tag)), tags),
{
    if let Some(v) = &tags.title {
        id3_set_title(tag, v.as_str());
    }
    if let Some(v) = &tags.artist {
        id3_set_artist(tag, v.as_str());
    }
    if let Some(v) = &tags.album {
        id3_set_album(tag, v.as_str());
    }
    if let Some(v) = &tags.album_artist {
        id3_set_album_artist(tag, v.as_str());
    }
    if let Some(y) = tags.year {
        id3_set_year(tag, y);
    }
}

fn mp3_set_numbers(tag: &mut id3::Tag, tags: &WriteTagData)
    ensures
        id3_frames(*final(tag)) == numbers_edited(id3_frames(*old(tag)), tags),
{
    if let Some(n) = tags.track {
        id3_set_track(tag, n);
    }
    if let Some(n) = tags.total_tracks {
        id3_set_total_tracks(tag, n);
    }
    if let Some(n) = tags.disc {
        id3_set_disc(tag, n);
    }
    if let Some(n) = tags.total_discs {
        id3_set_total_discs(tag, n);
    }
}

fn mp3_set_others(tag: &mut id3::Tag, tags: &WriteTagData)
    ensures
        id3_frames(*final(tag)) == others_edited(id3_frames(*old(tag)), tags),
{
    proof {
        lemma_own_ids();
    }
    if let Some(v) = &tags.genre {
        id3_set_genre(tag, v.as_str());
    }
    if let Some(v) = &tags.label {
        let ghost a = id3_frames(*tag);
        id3_remove(tag, "TPUB");
        proof {
            lemma_without_id_fresh(a, "TPUB"@);
        }
        id3_add_text_frame(tag, "TPUB", v.as_str());
    }
    if let Some(v) = &tags.comment {
        let ghost a = id3_frames(*tag);
        id3_remove(tag, "COMM");
        proof {
            lemma_without_id_fresh(a, "COMM"@);
        }
        id3_add_comment(tag, v.as_str());
    }
}

/// Applies the tag editor's edits to an MP3's ID3 tag.
pub fn apply_mp3_edits(tag: &mut id3::Tag, tags: &WriteTagData, new_cover: Option<Vec<u8>>)
    ensures
        id3_frames(*final(tag)) == mp3_edited(id3_frames(*old(tag)), tags, bytes_view(new_cover)),
{
    mp3_set_names(tag, tags);
    mp3_set_numbers(tag, tags);
    mp3_set_others(tag, tags);
    if tags.remove_cover {
        id3_remove_front_cover(tag);
    } else {
        match new_cover {
            Some(bytes) => {
                let mime = detect_image_mime(bytes.as_slice());
                id3_remove_front_cover(tag);
                proof {
                    broadcast use vstd::seq_lib::group_filter_ensures;

                }
                id3_add_front_cover(tag, mime.as_str(), bytes);
            },
            None => {},
        }
    }
}

// ---------------------------------------------------------------------------
// Tagging a finished download
// ---------------------------------------------------------------------------

/// A text frame with the value, when there is one.
pub open spec fn opt_text_frame(id: Seq<char>, v: Option<Seq<char>>) -> Seq<Id3Frame> {
    match v {
        Some(t) => seq![text_frame(id, t)],
        None => Seq::empty(),
    }
}

/// The album's front cover, when there is one.
pub open spec fn opt_cover_frame(cover: Option<Seq<u8>>) -> Seq<Id3Frame> {
    match cover {
        Some(b) => seq![cover_frame("image/jpeg"@, b)],
        None => Seq::empty(),
    }
}

/// The frames of a downloaded MP3's tag, in order: the title, artist and
/// album; the album artist, year, track and disc that the track record
/// gives; the album's cover, genre and label, when the album gives them.
pub open spec fn mp3_download_frames(
    title: Seq<char>,
    artist: Seq<char>,
    album: Seq<char>,
    d: &TrackData,
    info: Option<AlbumTagInfo>,
) -> Seq<Id3Frame> {
    seq![text_frame("TIT2"@, title), text_frame("TPE1"@, artist), text_frame("TALB"@, album)]
        + opt_text_frame("TPE2"@, opt_view(d.art_name))
        + opt_text_frame("TYER"@, year_frame_text(tag_year_spec(d.physical_release_date)))
        + opt_text_frame("TRCK"@, num_text(scalar_u32_spec(&d.track_number)))
        + opt_text_frame("TPOS"@, num_text(scalar_u32_spec(&d.disk_number)))
        + opt_cover_frame(album_cover(info))
        + opt_text_frame("TCON"@, album_genre(info))
        + opt_text_frame("TPUB"@, album_label(info))
}

/// Whether an id is the four given characters.
spec fn spelled(id: Seq<char>, a: char, b: char, c: char, d: char) -> bool {
    id.len() == 4 && id[0] == a && id[1] == b && id[2] == c && id[3] == d
}

/// The place of each id in a download's tag.
spec fn download_rank(id: Seq<char>) -> int {
    if spelled(id, 'T', 'I', 'T', '2') {
        0
    } else if spelled(id, 'T', 'P', 'E', '1') {
        1
    } else if spelled(id, 'T', 'A', 'L', 'B') {
        2
    } else if spelled(id, 'T', 'P', 'E', '2') {
        3
    } else if spelled(id, 'T', 'Y', 'E', 'R') {
        4
    } else if spelled(id, 'T', 'R', 'C', 'K') {
        5
    } else if spelled(id, 'T', 'P', 'O', 'S') {
        6
    } else if spelled(id, 'A', 'P', 'I', 'C') {
        7
    } else if spelled(id, 'T', 'C', 'O', 'N') {
        8
    } else if spelled(id, 'T', 'P', 'U', 'B') {
        9
    } else {
        10
    }
}

spec fn ranked_below(fs: Seq<Id3Frame>, k: int) -> bool {
    forall|i: int| 0 <= i < fs.len() ==> download_rank((#[trigger] fs[i]).0) < k
}

/// The ids of a download's tag, told apart by their letters.
proof fn lemma_download_ranks()
    ensures
        download_rank("TIT2"@) == 0,
        download_rank("TPE1"@) == 1,
        download_rank("TALB"@) == 2,
        download_rank("TPE2"@) == 3,
        download_rank("TYER"@) == 4,
        download_rank("TRCK"@) == 5,
        download_rank("TPOS"@) == 6,
        download_rank("APIC"@) == 7,
        download_rank("TCON"@) == 8,
        download_rank("TPUB"@) == 9,
        byte_len("TPUB"@) == 4,
{
    reveal_strlit("TIT2");
    reveal_strlit("TPE1");
    reveal_strlit("TALB");
    reveal_strlit("TPE2");
    reveal_strlit("TYER");
    reveal_strlit("TRCK");
    reveal_strlit("TPOS");
    reveal_strlit("APIC");
    reveal_strlit("TCON");
    reveal_strlit("TPUB");
    lemma_own_ids();
}

/// A text frame whose id ranks above every frame's is appended, and a number
/// set on it is the number alone.
proof fn lemma_fresh_text(fs: Seq<Id3Frame>, id: Seq<char>, k: int)
    requires
        ranked_below(fs, k),
        download_rank(id) == k,
    ensures
        forall|t: Seq<char>| #[trigger] text_set(fs, id, t) == fs.push(text_frame(id, t)),
        forall|n: u32| #[trigger] number_text(fs, id, n) == decimal(n as nat),
        forall|i: int| 0 <= i < fs.len() ==> (#[trigger] fs[i]).0 != id,
{
    broadcast use vstd::seq_lib::group_filter_ensures;

    assert forall|i: int| 0 <= i < fs.len() implies (#[trigger] fs[i]).0 != id by {
        assert(download_rank(fs[i].0) < k);
    }
    lemma_none_replaceable(fs, id);
    let g = with_id(fs, id);
    if g.len() > 0 {
        assert(has_id(g[0], id));
        assert(g.contains(g[0]));
        fs.lemma_filter_contains_rev(|f: Id3Frame| has_id(f, id), g[0]);
        assert(false);
    }
}

proof fn lemma_ranked_push(fs: Seq<Id3Frame>, f: Id3Frame, k: int)
    requires
        ranked_below(fs, k),
        download_rank(f.0) == k,
    ensures
        ranked_below(fs.push(f), k + 1),
{
    assert forall|i: int| 0 <= i < fs.push(f).len() implies download_rank(
        (#[trigger] fs.push(f)[i]).0,
    ) < k + 1 by {
        if i < fs.len() {
            assert(fs.push(f)[i] == fs[i]);
        }
    }
}

fn mp3_track_tags(tag: &mut id3::Tag, title: &str, artist: &str, album: &str, track: &TrackData)
    requires
        date_prefix_ok(track.physical_release_date),
        id3_frames(*old(tag)) == Seq::<Id3Frame>::empty(),
    ensures
        id3_frames(*final(tag)) == seq![
            text_frame("TIT2"@, title@),
            text_frame("TPE1"@, artist@),
            text_frame("TALB"@, album@),
        ] + opt_text_frame("TPE2"@, opt_view(track.art_name)) + opt_text_frame(
            "TYER"@,
            year_frame_text(tag_year_spec(track.physical_release_date)),
        ) + opt_text_frame("TRCK"@, num_text(scalar_u32_spec(&track.track_number)))
            + opt_text_frame("TPOS"@, num_text(scalar_u32_spec(&track.disk_number))),
        ranked_below(id3_frames(*final(tag)), 7),
{
    proof {
        lemma_download_ranks();
    }
    let ghost e = id3_frames(*tag);
    proof {
        lemma_fresh_text(e, "TIT2"@, 0);
    }
    id3_set_title(tag, title);
    proof {
        lemma_ranked_push(e, text_frame("TIT2"@, title@), 0);
        e = id3_frames(*tag);
        lemma_fresh_text(e, "TPE1"@, 1);
    }
    id3_set_artist(tag, artist);
    proof {
        lemma_ranked_push(e, text_frame("TPE1"@, artist@), 1);
        e = id3_frames(*tag);
        lemma_fresh_text(e, "TALB"@, 2);
    }
    id3_set_album(tag, album);
    proof {
        lemma_ranked_push(e, text_frame("TALB"@, album@), 2);
        e = id3_frames(*tag);
        assert(e =~= seq![
            text_frame("TIT2"@, title@),
            text_frame("TPE1"@, artist@),
            text_frame("TALB"@, album@),
        ]);
        lemma_fresh_text(e, "TPE2"@, 3);
    }
    if let Some(v) = &track.art_name {
        id3_set_album_artist(tag, v.as_str());
        proof {
            lemma_ranked_push(e, text_frame("TPE2"@, v@), 3);
        }
    }
    proof {
        assert(id3_frames(*tag) =~= e + opt_text_frame("TPE2"@, opt_view(track.art_name)));
        e = id3_frames(*tag);
        lemma_fresh_text(e, "TYER"@, 4);
    }
    if let Some(y) = tag_year(&track.physical_release_date) {
        id3_set_year(tag, y);
        proof {
            lemma_ranked_push(e, text_frame("TYER"@, year_text(y)), 4);
        }
    }
    proof {
        assert(id3_frames(*tag) =~= e + opt_text_frame(
            "TYER"@,
            year_frame_text(tag_year_spec(track.physical_release_date)),
        ));
        e = id3_frames(*tag);
        lemma_fresh_text(e, "TRCK"@, 5);
    }
    if let Some(n) = parse_u32_from_value(&track.track_number) {
        id3_set_track(tag, n);
        proof {
            lemma_ranked_push(e, text_frame("TRCK"@, decimal(n as nat)), 5);
        }
    }
    proof {
        assert(id3_frames(*tag) =~= e + opt_text_frame(
            "TRCK"@,
            num_text(scalar_u32_spec(&track.track_number)),
        ));
        e = id3_frames(*tag);
        lemma_fresh_text(e, "TPOS"@, 6);
    }
    if let Some(n) = parse_u32_from_value(&track.disk_number) {
        id3_set_disc(tag, n);
        proof {
            lemma_ranked_push(e, text_frame("TPOS"@, decimal(n as nat)), 6);
        }
    }
    proof {
        assert(id3_frames(*tag) =~= e + opt_text_frame(
            "TPOS"@,
            num_text(scalar_u32_spec(&track.disk_number)),
        ));
    }
}

/// Builds the ID3 tag of a downloaded MP3: the track's metadata, then the
/// album's cover, genre and label.
pub fn tag_mp3_download(
    title: &str,
    artist: &str,
    album: &str,
    track: &TrackData,
    album_info: &Option<AlbumTagInfo>,
) -> (tag: id3::Tag)
    requires
        date_prefix_ok(track.physical_release_date),
    ensures
        id3_frames(tag) == mp3_download_frames(title@, artist@, album@, track, *album_info),
{
    proof {
        lemma_download_ranks();
    }
    let mut tag = id3_new();
    mp3_track_tags(&mut tag, title, artist, album, track);
    let ghost e = id3_frames(tag);
    match cover_of(album_info) {
        Some(bytes) => {
            proof {
                assert forall|i: int| 0 <= i < e.len() implies kept_by_cover_removal(
                    #[trigger] e[i],
                ) by {
                    assert(download_rank(e[i].0) < 7);
                }
            }
            let ghost b = bytes@;
            id3_add_front_cover(&mut tag, "image/jpeg", bytes);
            proof {
                lemma_ranked_push(e, cover_frame("image/jpeg"@, b), 7);
            }
        },
        None => {},
    }
    proof {
        assert(id3_frames(tag) =~= e + opt_cover_frame(album_cover(*album_info)));
        e = id3_frames(tag);
        lemma_fresh_text(e, "TCON"@, 8);
    }
    if let Some(g) = first_genre(album_info) {
        id3_set_genre(&mut tag, g.as_str());
        proof {
            lemma_ranked_push(e, text_frame("TCON"@, g@), 8);
        }
    }
    proof {
        assert(id3_frames(tag) =~= e + opt_text_frame("TCON"@, album_genre(*album_info)));
        e = id3_frames(tag);
        lemma_fresh_text(e, "TPUB"@, 9);
    }
    if let Some(l) = label_of(album_info) {
        id3_add_text_frame(&mut tag, "TPUB", l.as_str());
    }
    proof {
        assert(id3_frames(tag) =~= e + opt_text_frame("TPUB"@, album_label(*album_info)));
    }
    tag
}

// ---------------------------------------------------------------------------
// Reading a tag for the editor
// ---------------------------------------------------------------------------

/// What the tag editor reads from an MP3's ID3 tag: the text of the first
/// frame of each field's id, the year and numbers as `id3` parses them, the
/// first `TPUB` frame's text, the first comment and the first picture.
pub fn mp3_fields(tag: &id3::Tag) -> (r: Mp3Fields)
    ensures
        opt_view(r.title) == text_of(id3_frames(*tag), "TIT2"@),
        opt_view(r.artist) == text_of(id3_frames(*tag), "TPE1"@),
        opt_view(r.album) == text_of(id3_frames(*tag), "TALB"@),
        opt_view(r.album_artist) == text_of(id3_frames(*tag), "TPE2"@),
        r.year == year_read(id3_frames(*tag)),
        r.track == number_read(id3_frames(*tag), "TRCK"@),
        r.total_tracks == total_read(id3_frames(*tag), "TRCK"@),
        r.disc == number_read(id3_frames(*tag), "TPOS"@),
        r.total_discs == total_read(id3_frames(*tag), "TPOS"@),
        opt_view(r.genre) == text_of(id3_frames(*tag), "TCON"@),
        opt_view(r.label) == text_of(id3_frames(*tag), "TPUB"@),
        opt_view(r.comment) == first_comment_text(id3_frames(*tag)),
        picture_view(r.picture) == first_picture(id3_frames(*tag)),
        r.picture matches Some(p) ==> p.1@.len() <= usize::MAX / 2,
{
    Mp3Fields {
        title: id3_text(tag, "TIT2"),
        artist: id3_text(tag, "TPE1"),
        album: id3_text(tag, "TALB"),
        album_artist: id3_text(tag, "TPE2"),
        year: id3_year(tag),
        track: id3_track(tag),
        total_tracks: id3_total_tracks(tag),
        disc: id3_disc(tag),
        total_discs: id3_total_discs(tag),
        genre: id3_text(tag, "TCON"),
        label: id3_text(tag, "TPUB"),
        comment: id3_first_comment(tag),
        picture: id3_first_picture(tag),
    }
}

// ---------------------------------------------------------------------------
// Reading back the editor's MP3 edits
// ---------------------------------------------------------------------------

/// Filtering by two predicates in either order keeps the same items.
proof fn lemma_filter_commute(s: Seq<Id3Frame>, p: spec_fn(Id3Frame) -> bool, q: spec_fn(Id3Frame) -> bool)
    ensures
        s.filter(p).filter(q) == s.filter(q).filter(p),
    decreases s.len(),
{
    broadcast use vstd::seq::Seq::lemma_filter_push;

    if s.len() == 0 {
        assert(s.filter(p) =~= s);
        assert(s.filter(q) =~= s);
        assert(s.filter(p).filter(q) =~= s);
        assert(s.filter(q).filter(p) =~= s);
    } else {
        let r = s.drop_last();
        assert(s =~= r.push(s.last()));
        lemma_filter_commute(r, p, q);
    }
}

/// A filter that every item passes keeps the sequence.
proof fn lemma_filter_all(s: Seq<Id3Frame>, p: spec_fn(Id3Frame) -> bool)
    requires
        forall|i: int| 0 <= i < s.len() ==> p(#[trigger] s[i]),
    ensures
        s.filter(p) == s,
    decreases s.len(),
{
    broadcast use vstd::seq::Seq::lemma_filter_push;

    if s.len() == 0 {
        assert(s.filter(p) =~= s);
    } else {
        let r = s.drop_last();
        assert(s =~= r.push(s.last()));
        assert(p(s[s.len() - 1]));
        assert forall|i: int| 0 <= i < r.len() implies p(#[trigger] r[i]) by {
            assert(r[i] == s[i]);
        }
        lemma_filter_all(r, p);
    }
}

/// Removing one item removes it from a filter that keeps it, and changes
/// nothing in a filter that drops it.
proof fn lemma_remove_filter(s: Seq<Id3Frame>, k: int, q: spec_fn(Id3Frame) -> bool)
    requires
        0 <= k < s.len(),
    ensures
        q(s[k]) ==> s.remove(k).filter(q).len() + 1 == s.filter(q).len(),
        !q(s[k]) ==> s.remove(k).filter(q) == s.filter(q),
    decreases s.len(),
{
    broadcast use vstd::seq::Seq::lemma_filter_push;

    let r = s.drop_last();
    assert(s =~= r.push(s.last()));
    if k == s.len() - 1 {
        assert(s.remove(k) =~= r);
    } else {
        lemma_remove_filter(r, k, q);
        assert(s.remove(k) =~= r.remove(k).push(s.last()));
        assert(r[k] == s[k]);
    }
}

/// Where a frame that a new text frame replaces is found.
proof fn lemma_first_replaceable(fs: Seq<Id3Frame>, id: Seq<char>)
    ensures
        first_replaceable(fs, id) matches Some(k) ==> 0 <= k < fs.len() && replaceable(fs[k], id),
        first_replaceable(fs, id) is None ==> forall|i: int|
            0 <= i < fs.len() ==> !replaceable(#[trigger] fs[i], id),
    decreases fs.len(),
{
    if fs.len() > 0 {
        let r = fs.drop_last();
        lemma_first_replaceable(r, id);
        assert forall|i: int| 0 <= i < r.len() implies r[i] == fs[i] by {}
        if first_replaceable(fs, id) is None {
            assert forall|i: int| 0 <= i < fs.len() implies !replaceable(#[trigger] fs[i], id) by {
                if i < r.len() {
                    assert(r[i] == fs[i]);
                }
            }
        }
    }
}

/// Setting a text frame with another id leaves the frames of a given kind,
/// and those with a given id, as they were.
proof fn lemma_text_set_filter(fs: Seq<Id3Frame>, x: Seq<char>, t: Seq<char>, q: spec_fn(Id3Frame) -> bool)
    requires
        !q(text_frame(x, t)),
        forall|f: Id3Frame| replaceable(f, x) ==> !q(f),
    ensures
        text_set(fs, x, t).filter(q) == fs.filter(q),
{
    broadcast use vstd::seq::Seq::lemma_filter_push;

    lemma_first_replaceable(fs, x);
    match first_replaceable(fs, x) {
        Some(k) => {
            lemma_remove_filter(fs, k, q);
        },
        None => {},
    }
}

/// A tag where the frames with the id are at most one text frame.
pub open spec fn single_text(fs: Seq<Id3Frame>, id: Seq<char>) -> bool {
    &&& with_id(fs, id).len() <= 1
    &&& with_id(fs, id).len() == 1 ==> with_id(fs, id)[0].1 == 0
}

/// Setting the text frame of an id that holds at most one text frame leaves
/// the new frame as the only one with the id.
proof fn lemma_text_set_own(fs: Seq<Id3Frame>, y: Seq<char>, t: Seq<char>)
    requires
        single_text(fs, y),
    ensures
        with_id(text_set(fs, y, t), y) == seq![text_frame(y, t)],
{
    broadcast use vstd::seq::Seq::lemma_filter_push;
    broadcast use vstd::seq_lib::group_filter_ensures;

    let p = |f: Id3Frame| has_id(f, y);
    lemma_first_replaceable(fs, y);
    match first_replaceable(fs, y) {
        Some(k) => {
            lemma_remove_filter(fs, k, p);
            assert(fs.remove(k).filter(p) =~= Seq::<Id3Frame>::empty());
        },
        None => {
            let g = with_id(fs, y);
            if g.len() > 0 {
                assert(has_id(g[0], y));
                assert(g.contains(g[0]));
                fs.lemma_filter_contains_rev(p, g[0]);
                let j = choose|j: int| 0 <= j < fs.len() && fs[j] == g[0];
                assert(replaceable(fs[j], y));
                assert(false);
            }
            assert(g =~= Seq::<Id3Frame>::empty());
        },
    }
    assert(seq![text_frame(y, t)] =~= Seq::<Id3Frame>::empty().push(text_frame(y, t)));
}

/// What the frames with an id hold while the edits go on: those of the
/// tag before the edits until the id's own edit, then its new text frame.
pub open spec fn follows_edits(f: Seq<Id3Frame>, y: Seq<char>, init: Seq<Id3Frame>, done: Option<Seq<char>>) -> bool {
    match done {
        Some(v) => with_id(f, y) == seq![text_frame(y, v)],
        None => with_id(f, y) == init,
    }
}

pub open spec fn after_write(done: Option<Seq<char>>, x: Seq<char>, y: Seq<char>, v: Option<Seq<char>>) -> Option<Seq<char>> {
    if x == y && v is Some {
        v
    } else {
        done
    }
}

proof fn lemma_single_while_editing(f: Seq<Id3Frame>, y: Seq<char>, init: Seq<Id3Frame>, done: Option<Seq<char>>)
    requires
        follows_edits(f, y, init, done),
        init.len() <= 1,
        init.len() == 1 ==> init[0].1 == 0,
    ensures
        single_text(f, y),
{
}

proof fn lemma_step_text(
    f: Seq<Id3Frame>,
    x: Seq<char>,
    v: Option<Seq<char>>,
    y: Seq<char>,
    init: Seq<Id3Frame>,
    done: Option<Seq<char>>,
)
    requires
        follows_edits(f, y, init, done),
        init.len() <= 1,
        init.len() == 1 ==> init[0].1 == 0,
    ensures
        follows_edits(set_text_opt(f, x, v), y, init, after_write(done, x, y, v)),
{
    if let Some(t) = v {
        if x == y {
            lemma_single_while_editing(f, y, init, done);
            lemma_text_set_own(f, y, t);
        } else {
            lemma_text_set_filter(f, x, t, |g: Id3Frame| has_id(g, y));
        }
    }
}

/// Setting a frame with another id leaves the frames with the id alone.
proof fn lemma_step_other(f: Seq<Id3Frame>, x: Seq<char>, t: Seq<char>, y: Seq<char>)
    requires
        x != y,
    ensures
        with_id(text_set(f, x, t), y) == with_id(f, y),
{
    lemma_text_set_filter(f, x, t, |g: Id3Frame| has_id(g, y));
}

/// Removing every frame with an id and appending a new one, as the label
/// and comment edits do, leaves the frames with another id alone.
proof fn lemma_replace_all_other(f: Seq<Id3Frame>, z: Seq<char>, n: Id3Frame, y: Seq<char>)
    requires
        z != y,
        n.0 != y,
    ensures
        with_id(without_id(f, z).push(n), y) == with_id(f, y),
{
    broadcast use vstd::seq::Seq::lemma_filter_push;
    broadcast use vstd::seq_lib::group_filter_ensures;

    let p = |g: Id3Frame| other_id(g, z);
    let q = |g: Id3Frame| has_id(g, y);
    lemma_filter_commute(f, p, q);
    lemma_filter_all(f.filter(q), p);
}

/// The cover edit leaves the frames with another id than `APIC` alone.
proof fn lemma_cover_other(f: Seq<Id3Frame>, remove: bool, cover: Option<Seq<u8>>, y: Seq<char>)
    requires
        y != "APIC"@,
    ensures
        with_id(cover_edited(f, remove, cover), y) == with_id(f, y),
{
    broadcast use vstd::seq::Seq::lemma_filter_push;
    broadcast use vstd::seq_lib::group_filter_ensures;

    reveal_strlit("APIC");
    let p = |g: Id3Frame| kept_by_cover_removal(g);
    let q = |g: Id3Frame| has_id(g, y);
    lemma_filter_commute(f, p, q);
    lemma_filter_all(f.filter(q), p);
}

/// A filter that no item passes leaves nothing.
proof fn lemma_filter_none(s: Seq<Id3Frame>, p: spec_fn(Id3Frame) -> bool)
    requires
        forall|i: int| 0 <= i < s.len() ==> !p(#[trigger] s[i]),
    ensures
        s.filter(p) == Seq::<Id3Frame>::empty(),
    decreases s.len(),
{
    broadcast use vstd::seq::Seq::lemma_filter_push;

    if s.len() == 0 {
        assert(s.filter(p) =~= s);
    } else {
        let r = s.drop_last();
        assert(s =~= r.push(s.last()));
        assert(!p(s[s.len() - 1]));
        assert forall|i: int| 0 <= i < r.len() implies !p(#[trigger] r[i]) by {
            assert(r[i] == s[i]);
        }
        lemma_filter_none(r, p);
    }
}

/// The ids the editor writes, spelled out.
proof fn lemma_editor_ids()
    ensures
        spelled("TIT2"@, 'T', 'I', 'T', '2'),
        spelled("TPE1"@, 'T', 'P', 'E', '1'),
        spelled("TALB"@, 'T', 'A', 'L', 'B'),
        spelled("TPE2"@, 'T', 'P', 'E', '2'),
        spelled("TYER"@, 'T', 'Y', 'E', 'R'),
        spelled("TRCK"@, 'T', 'R', 'C', 'K'),
        spelled("TPOS"@, 'T', 'P', 'O', 'S'),
        spelled("TCON"@, 'T', 'C', 'O', 'N'),
        spelled("TPUB"@, 'T', 'P', 'U', 'B'),
        spelled("COMM"@, 'C', 'O', 'M', 'M'),
        spelled("APIC"@, 'A', 'P', 'I', 'C'),
{
    reveal_strlit("TIT2");
    reveal_strlit("TPE1");
    reveal_strlit("TALB");
    reveal_strlit("TPE2");
    reveal_strlit("TYER");
    reveal_strlit("TRCK");
    reveal_strlit("TPOS");
    reveal_strlit("TCON");
    reveal_strlit("TPUB");
    reveal_strlit("COMM");
    reveal_strlit("APIC");
}

/// Which text each id holds after the name edits, if one of them sets it.
pub open spec fn names_done(t: &WriteTagData, y: Seq<char>, done: Option<Seq<char>>) -> Option<
    Seq<char>,
> {
    let d = after_write(done, "TIT2"@, y, opt_view(t.title));
    let d = after_write(d, "TPE1"@, y, opt_view(t.artist));
    let d = after_write(d, "TALB"@, y, opt_view(t.album));
    let d = after_write(d, "TPE2"@, y, opt_view(t.album_artist));
    after_write(d, "TYER"@, y, year_frame_text(t.year))
}

proof fn lemma_names_follow(
    fs: Seq<Id3Frame>,
    t: &WriteTagData,
    y: Seq<char>,
    init: Seq<Id3Frame>,
    done: Option<Seq<char>>,
)
    requires
        follows_edits(fs, y, init, done),
        init.len() <= 1,
        init.len() == 1 ==> init[0].1 == 0,
    ensures
        follows_edits(names_edited(fs, t), y, init, names_done(t, y, done)),
{
    let f1 = set_text_opt(fs, "TIT2"@, opt_view(t.title));
    let d1 = after_write(done, "TIT2"@, y, opt_view(t.title));
    lemma_step_text(fs, "TIT2"@, opt_view(t.title), y, init, done);
    let f2 = set_text_opt(f1, "TPE1"@, opt_view(t.artist));
    let d2 = after_write(d1, "TPE1"@, y, opt_view(t.artist));
    lemma_step_text(f1, "TPE1"@, opt_view(t.artist), y, init, d1);
    let f3 = set_text_opt(f2, "TALB"@, opt_view(t.album));
    let d3 = after_write(d2, "TALB"@, y, opt_view(t.album));
    lemma_step_text(f2, "TALB"@, opt_view(t.album), y, init, d2);
    let f4 = set_text_opt(f3, "TPE2"@, opt_view(t.album_artist));
    let d4 = after_write(d3, "TPE2"@, y, opt_view(t.album_artist));
    lemma_step_text(f3, "TPE2"@, opt_view(t.album_artist), y, init, d3);
    lemma_step_text(f4, "TYER"@, year_frame_text(t.year), y, init, d4);
}

/// The number edits leave the frames of every other id alone.
proof fn lemma_numbers_other(fs: Seq<Id3Frame>, t: &WriteTagData, y: Seq<char>)
    requires
        y != "TRCK"@,
        y != "TPOS"@,
    ensures
        with_id(numbers_edited(fs, t), y) == with_id(fs, y),
{
    let f1 = set_number_opt(fs, "TRCK"@, t.track);
    if let Some(n) = t.track {
        lemma_step_other(fs, "TRCK"@, number_text(fs, "TRCK"@, n), y);
    }
    let f2 = set_total_opt(f1, "TRCK"@, t.total_tracks);
    if let Some(n) = t.total_tracks {
        lemma_step_other(f1, "TRCK"@, total_text(f1, "TRCK"@, n), y);
    }
    let f3 = set_number_opt(f2, "TPOS"@, t.disc);
    if let Some(n) = t.disc {
        lemma_step_other(f2, "TPOS"@, number_text(f2, "TPOS"@, n), y);
    }
    if let Some(n) = t.total_discs {
        lemma_step_other(f3, "TPOS"@, total_text(f3, "TPOS"@, n), y);
    }
}

/// After every frame with the id is removed and one is appended, that one is
/// the only frame with the id.
proof fn lemma_replace_all_own(f: Seq<Id3Frame>, z: Seq<char>, n: Id3Frame)
    requires
        n.0 == z,
    ensures
        with_id(without_id(f, z).push(n), z) == seq![n],
{
    broadcast use vstd::seq::Seq::lemma_filter_push;
    broadcast use vstd::seq_lib::group_filter_ensures;

    let p = |g: Id3Frame| other_id(g, z);
    let q = |g: Id3Frame| has_id(g, z);
    lemma_filter_commute(f, p, q);
    lemma_filter_none(f.filter(q), p);
    assert(seq![n] =~= Seq::<Id3Frame>::empty().push(n));
}

proof fn lemma_others_follow(
    fs: Seq<Id3Frame>,
    t: &WriteTagData,
    y: Seq<char>,
    init: Seq<Id3Frame>,
    done: Option<Seq<char>>,
)
    requires
        follows_edits(fs, y, init, done),
        init.len() <= 1,
        init.len() == 1 ==> init[0].1 == 0,
        y != "COMM"@,
    ensures
        follows_edits(
            others_edited(fs, t),
            y,
            init,
            after_write(
                after_write(done, "TCON"@, y, opt_view(t.genre)),
                "TPUB"@,
                y,
                opt_view(t.label),
            ),
        ),
{
    lemma_editor_ids();
    let f1 = set_text_opt(fs, "TCON"@, opt_view(t.genre));
    let d1 = after_write(done, "TCON"@, y, opt_view(t.genre));
    lemma_step_text(fs, "TCON"@, opt_view(t.genre), y, init, done);
    let f2 = match t.label {
        Some(v) => without_id(f1, "TPUB"@).push(text_frame("TPUB"@, v@)),
        None => f1,
    };
    if let Some(v) = t.label {
        if y == "TPUB"@ {
            lemma_replace_all_own(f1, "TPUB"@, text_frame("TPUB"@, v@));
        } else {
            lemma_replace_all_other(f1, "TPUB"@, text_frame("TPUB"@, v@), y);
        }
    }
    if let Some(v) = t.comment {
        lemma_replace_all_other(f2, "COMM"@, comment_frame(v@), y);
    }
}

/// The fields whose text frame the editor sets: with at most one text frame
/// of its id in the tag, it reads back as the value written.
pub open spec fn text_read_back_ready(fs: Seq<Id3Frame>, t: &WriteTagData) -> bool {
    &&& t.title is Some ==> single_text(fs, "TIT2"@)
    &&& t.artist is Some ==> single_text(fs, "TPE1"@)
    &&& t.album is Some ==> single_text(fs, "TALB"@)
    &&& t.album_artist is Some ==> single_text(fs, "TPE2"@)
    &&& t.genre is Some ==> single_text(fs, "TCON"@)
}

proof fn lemma_text_field_read_back(
    fs: Seq<Id3Frame>,
    t: &WriteTagData,
    cover: Option<Seq<u8>>,
    y: Seq<char>,
)
    requires
        single_text(fs, y),
        y != "COMM"@,
        y != "APIC"@,
        y != "TRCK"@,
        y != "TPOS"@,
    ensures
        ({
            let d = names_done(t, y, None);
            let d = after_write(after_write(d, "TCON"@, y, opt_view(t.genre)), "TPUB"@, y, opt_view(t.label));
            d matches Some(v) ==> text_of(mp3_edited(fs, t, cover), y) == Some(v)
        }),
{
    let init = with_id(fs, y);
    lemma_names_follow(fs, t, y, init, None);
    let f1 = names_edited(fs, t);
    let d1 = names_done(t, y, None);
    lemma_numbers_other(f1, t, y);
    let f2 = numbers_edited(f1, t);
    lemma_others_follow(f2, t, y, init, d1);
    let f3 = others_edited(f2, t);
    lemma_cover_other(f3, t.remove_cover, cover, y);
}

/// Reading back the editor's MP3 edits: each title, artist, album, album
/// artist or genre written reads back as written, where the tag held at most
/// one text frame with that field's id; a label written always reads back.
pub proof fn lemma_mp3_text_read_back(fs: Seq<Id3Frame>, t: &WriteTagData, cover: Option<Seq<u8>>)
    requires
        text_read_back_ready(fs, t),
    ensures
        t.title matches Some(v) ==> text_of(mp3_edited(fs, t, cover), "TIT2"@) == Some(v@),
        t.artist matches Some(v) ==> text_of(mp3_edited(fs, t, cover), "TPE1"@) == Some(v@),
        t.album matches Some(v) ==> text_of(mp3_edited(fs, t, cover), "TALB"@) == Some(v@),
        t.album_artist matches Some(v) ==> text_of(mp3_edited(fs, t, cover), "TPE2"@) == Some(
            v@,
        ),
        t.genre matches Some(v) ==> text_of(mp3_edited(fs, t, cover), "TCON"@) == Some(v@),
        t.label matches Some(v) ==> text_of(mp3_edited(fs, t, cover), "TPUB"@) == Some(v@),
{
    lemma_editor_ids();
    if t.title is Some {
        lemma_text_field_read_back(fs, t, cover, "TIT2"@);
    }
    if t.artist is Some {
        lemma_text_field_read_back(fs, t, cover, "TPE1"@);
    }
    if t.album is Some {
        lemma_text_field_read_back(fs, t, cover, "TALB"@);
    }
    if t.album_artist is Some {
        lemma_text_field_read_back(fs, t, cover, "TPE2"@);
    }
    if t.genre is Some {
        lemma_text_field_read_back(fs, t, cover, "TCON"@);
    }
    if t.label is Some {
        let y = "TPUB"@;
        let f1 = names_edited(fs, t);
        lemma_numbers_other(f1, t, y);
        let f2 = numbers_edited(f1, t);
        let f3 = set_text_opt(f2, "TCON"@, opt_view(t.genre));
        let v = t.label->0;
        lemma_replace_all_own(f3, y, text_frame(y, v@));
        let f4 = without_id(f3, y).push(text_frame(y, v@));
        let f5 = match t.comment {
            Some(c) => without_id(f4, "COMM"@).push(comment_frame(c@)),
            None => f4,
        };
        if let Some(c) = t.comment {
            lemma_replace_all_other(f4, "COMM"@, comment_frame(c@), y);
        }
        lemma_cover_other(f5, t.remove_cover, cover, y);
    }
}

/// Setting a text frame leaves the comments as they were.
proof fn lemma_text_set_comments(f: Seq<Id3Frame>, x: Seq<char>, t: Seq<char>)
    ensures
        of_kind(text_set(f, x, t), 1) == of_kind(f, 1),
{
    lemma_text_set_filter(f, x, t, |g: Id3Frame| is_kind(g, 1));
}

/// The name, number and genre edits leave the comments as they were.
proof fn lemma_text_edits_keep_comments(fs: Seq<Id3Frame>, t: &WriteTagData)
    ensures
        of_kind(set_text_opt(numbers_edited(names_edited(fs, t), t), "TCON"@, opt_view(t.genre)), 1)
            == of_kind(fs, 1),
{
    let f1 = set_text_opt(fs, "TIT2"@, opt_view(t.title));
    if let Some(v) = t.title {
        lemma_text_set_comments(fs, "TIT2"@, v@);
    }
    let f2 = set_text_opt(f1, "TPE1"@, opt_view(t.artist));
    if let Some(v) = t.artist {
        lemma_text_set_comments(f1, "TPE1"@, v@);
    }
    let f3 = set_text_opt(f2, "TALB"@, opt_view(t.album));
    if let Some(v) = t.album {
        lemma_text_set_comments(f2, "TALB"@, v@);
    }
    let f4 = set_text_opt(f3, "TPE2"@, opt_view(t.album_artist));
    if let Some(v) = t.album_artist {
        lemma_text_set_comments(f3, "TPE2"@, v@);
    }
    let f5 = set_text_opt(f4, "TYER"@, year_frame_text(t.year));
    if let Some(y) = t.year {
        lemma_text_set_comments(f4, "TYER"@, year_text(y));
    }
    let g1 = set_number_opt(f5, "TRCK"@, t.track);
    if let Some(n) = t.track {
        lemma_text_set_comments(f5, "TRCK"@, number_text(f5, "TRCK"@, n));
    }
    let g2 = set_total_opt(g1, "TRCK"@, t.total_tracks);
    if let Some(n) = t.total_tracks {
        lemma_text_set_comments(g1, "TRCK"@, total_text(g1, "TRCK"@, n));
    }
    let g3 = set_number_opt(g2, "TPOS"@, t.disc);
    if let Some(n) = t.disc {
        lemma_text_set_comments(g2, "TPOS"@, number_text(g2, "TPOS"@, n));
    }
    let g4 = set_total_opt(g3, "TPOS"@, t.total_discs);
    if let Some(n) = t.total_discs {
        lemma_text_set_comments(g3, "TPOS"@, total_text(g3, "TPOS"@, n));
    }
    if let Some(v) = t.genre {
        lemma_text_set_comments(g4, "TCON"@, v@);
    }
}

/// Every comment of the tag sits in a `COMM` frame.
pub open spec fn comments_in_comm(fs: Seq<Id3Frame>) -> bool {
    forall|i: int| 0 <= i < fs.len() && (#[trigger] fs[i]).1 == 1 ==> fs[i].0 == "COMM"@
}

/// Reading back the editor's MP3 edits: a comment written is the first
/// comment read, where every comment of the tag sat in a `COMM` frame.
pub proof fn lemma_mp3_comment_read_back(fs: Seq<Id3Frame>, t: &WriteTagData, cover: Option<Seq<u8>>)
    requires
        t.comment is Some ==> comments_in_comm(fs),
    ensures
        t.comment matches Some(v) ==> first_comment_text(mp3_edited(fs, t, cover)) == Some(v@),
{
    broadcast use vstd::seq::Seq::lemma_filter_push;
    broadcast use vstd::seq_lib::group_filter_ensures;

    if let Some(v) = t.comment {
        lemma_editor_ids();
        let k = |g: Id3Frame| is_kind(g, 1);
        let c0 = of_kind(fs, 1);
        assert forall|i: int| 0 <= i < c0.len() implies (#[trigger] c0[i]).0 == "COMM"@ by {
            assert(c0.contains(c0[i]));
            fs.lemma_filter_contains_rev(k, c0[i]);
            let j = choose|j: int| 0 <= j < fs.len() && fs[j] == c0[i];
            assert(fs[j].1 == 1);
        }
        lemma_text_edits_keep_comments(fs, t);
        let f3 = set_text_opt(numbers_edited(names_edited(fs, t), t), "TCON"@, opt_view(t.genre));
        let f4 = match t.label {
            Some(l) => without_id(f3, "TPUB"@).push(text_frame("TPUB"@, l@)),
            None => f3,
        };
        if let Some(l) = t.label {
            let p = |g: Id3Frame| other_id(g, "TPUB"@);
            lemma_filter_commute(f3, p, k);
            lemma_filter_all(c0, p);
        }
        assert(of_kind(f4, 1) == c0);
        let p = |g: Id3Frame| other_id(g, "COMM"@);
        lemma_filter_commute(f4, p, k);
        lemma_filter_none(c0, p);
        let f5 = without_id(f4, "COMM"@).push(comment_frame(v@));
        assert(of_kind(f5, 1) =~= seq![comment_frame(v@)]);
        let kc = |g: Id3Frame| kept_by_cover_removal(g);
        lemma_filter_commute(f5, kc, k);
        lemma_filter_all(seq![comment_frame(v@)], kc);
        assert(of_kind(without_front_covers(f5), 1) == seq![comment_frame(v@)]);
    }
}

/// A run of digits holds no separator.
proof fn lemma_digits_no_separator(s: Seq<char>)
    requires
        all_digits(s),
    ensures
        first_separator(s) is None,
    decreases s.len(),
{
    if s.len() > 0 {
        assert(is_digit(s[s.len() - 1]));
        assert(all_digits(s.drop_last())) by {
            assert forall|i: int| 0 <= i < s.drop_last().len() implies is_digit(
                #[trigger] s.drop_last()[i],
            ) by {
                assert(s.drop_last()[i] == s[i]);
            }
        }
        lemma_digits_no_separator(s.drop_last());
    }
}

/// The first separator of a text with none, followed by a `/`, is that `/`.
proof fn lemma_separator_at(a: Seq<char>, b: Seq<char>)
    requires
        first_separator(a) is None,
        b.len() > 0,
        b[0] == '/',
    ensures
        first_separator(a + b) == Some(a.len() as int),
    decreases b.len(),
{
    let s = a + b;
    if b.len() == 1 {
        assert(s.drop_last() =~= a);
    } else {
        assert(s.drop_last() =~= a + b.drop_last());
        lemma_separator_at(a, b.drop_last());
    }
}

/// A number alone reads as that number with no total.
proof fn lemma_pair_single(n: u32)
    ensures
        text_pair(decimal(n as nat)) == Some((n, None::<u32>)),
{
    lemma_decimal_digits(n as nat);
    lemma_digits_no_separator(decimal(n as nat));
    lemma_parse_u32_decimal(n);
}

/// A number, a `/` and a total read as the number and the total.
proof fn lemma_pair_double(n: u32, m: u32)
    ensures
        text_pair(decimal(n as nat) + "/"@ + decimal(m as nat)) == Some((n, Some(m))),
{
    reveal_strlit("/");
    let d = decimal(n as nat);
    let e = decimal(m as nat);
    let s = d + "/"@ + e;
    lemma_decimal_digits(n as nat);
    lemma_digits_no_separator(d);
    assert(s =~= d + ("/"@ + e));
    lemma_separator_at(d, "/"@ + e);
    assert(s.take(d.len() as int) =~= d);
    assert(s.skip(d.len() as int + 1) =~= e);
    lemma_parse_u32_decimal(n);
    lemma_parse_u32_decimal(m);
}

/// What `set_track`/`set_disc` write reads back as the number, and what
/// `set_total_tracks`/`set_total_discs` write reads back as the total.
proof fn lemma_number_texts(fs: Seq<Id3Frame>, id: Seq<char>, n: u32)
    ensures
        text_pair(number_text(fs, id, n)) matches Some(p) && p.0 == n,
        text_pair(total_text(fs, id, n)) matches Some(p) && p.1 == Some(n),
        pair_of(fs, id) matches Some(p) ==> text_pair(total_text(fs, id, n)) == Some((p.0, Some(n))),
{
    reveal_strlit("1/");
    reveal_strlit("/");
    lemma_pair_single(n);
    match pair_of(fs, id) {
        Some(p) => {
            lemma_pair_double(p.0, n);
            if let Some(b) = p.1 {
                lemma_pair_double(n, b);
            }
        },
        None => {
            lemma_pair_double(1, n);
            assert(decimal(1) =~= seq!['1']);
            assert("1/"@ =~= decimal(1) + "/"@);
        },
    }
}

/// Setting a number and then a total on an id with at most one text frame:
/// the number and the total read back as set.
proof fn lemma_pair_steps(f0: Seq<Id3Frame>, y: Seq<char>, num: Option<u32>, tot: Option<u32>)
    requires
        single_text(f0, y),
    ensures
        ({
            let f2 = set_total_opt(set_number_opt(f0, y, num), y, tot);
            &&& single_text(f2, y)
            &&& num matches Some(n) ==> number_read(f2, y) == Some(n)
            &&& tot matches Some(m) ==> total_read(f2, y) == Some(m)
        }),
{
    let f1 = set_number_opt(f0, y, num);
    if let Some(n) = num {
        lemma_text_set_own(f0, y, number_text(f0, y, n));
        lemma_number_texts(f0, y, n);
        assert(text_of(f1, y) == Some(number_text(f0, y, n)));
    }
    let f2 = set_total_opt(f1, y, tot);
    if let Some(m) = tot {
        lemma_text_set_own(f1, y, total_text(f1, y, m));
        lemma_number_texts(f1, y, m);
        assert(text_of(f2, y) == Some(total_text(f1, y, m)));
    }
}

/// Reading back the editor's MP3 edits: each track, total tracks, disc and
/// total discs written reads back as written, where the tag held at most one
/// text frame with that field's id; a year from 1 to 9999 written reads back
/// likewise.
pub proof fn lemma_mp3_numbers_read_back(fs: Seq<Id3Frame>, t: &WriteTagData, cover: Option<Seq<u8>>)
    requires
        (t.track is Some || t.total_tracks is Some) ==> single_text(fs, "TRCK"@),
        (t.disc is Some || t.total_discs is Some) ==> single_text(fs, "TPOS"@),
        t.year is Some ==> single_text(fs, "TYER"@),
    ensures
        t.track matches Some(n) ==> number_read(mp3_edited(fs, t, cover), "TRCK"@) == Some(n),
        t.total_tracks matches Some(n) ==> total_read(mp3_edited(fs, t, cover), "TRCK"@) == Some(
            n,
        ),
        t.disc matches Some(n) ==> number_read(mp3_edited(fs, t, cover), "TPOS"@) == Some(n),
        t.total_discs matches Some(n) ==> total_read(mp3_edited(fs, t, cover), "TPOS"@) == Some(
            n,
        ),
        t.year matches Some(y) ==> (1 <= y <= 9999 ==> year_read(mp3_edited(fs, t, cover))
            == Some(y)),
{
    lemma_editor_ids();
    let f0 = names_edited(fs, t);
    let f1 = set_number_opt(f0, "TRCK"@, t.track);
    let f2 = set_total_opt(f1, "TRCK"@, t.total_tracks);
    let f3 = set_number_opt(f2, "TPOS"@, t.disc);
    let f4 = set_total_opt(f3, "TPOS"@, t.total_discs);
    let f5 = others_edited(f4, t);
    if t.track is Some || t.total_tracks is Some {
        let y = "TRCK"@;
        let init = with_id(fs, y);
        lemma_names_follow(fs, t, y, init, None);
        lemma_pair_steps(f0, y, t.track, t.total_tracks);
        if let Some(n) = t.disc {
            lemma_step_other(f2, "TPOS"@, number_text(f2, "TPOS"@, n), y);
        }
        if let Some(n) = t.total_discs {
            lemma_step_other(f3, "TPOS"@, total_text(f3, "TPOS"@, n), y);
        }
        lemma_others_follow(f4, t, y, with_id(f4, y), None);
        lemma_cover_other(f5, t.remove_cover, cover, y);
    }
    if t.disc is Some || t.total_discs is Some {
        let y = "TPOS"@;
        let init = with_id(fs, y);
        lemma_names_follow(fs, t, y, init, None);
        if let Some(n) = t.track {
            lemma_step_other(f0, "TRCK"@, number_text(f0, "TRCK"@, n), y);
        }
        if let Some(n) = t.total_tracks {
            lemma_step_other(f1, "TRCK"@, total_text(f1, "TRCK"@, n), y);
        }
        lemma_pair_steps(f2, y, t.disc, t.total_discs);
        lemma_others_follow(f4, t, y, with_id(f4, y), None);
        lemma_cover_other(f5, t.remove_cover, cover, y);
    }
    if let Some(yr) = t.year {
        if 1 <= yr <= 9999 {
            lemma_text_field_read_back(fs, t, cover, "TYER"@);
            lemma_year_text(yr);
        }
    }
}

/// The first digit of a positive number's decimal form is not zero.
proof fn lemma_decimal_leading(n: nat)
    requires
        n >= 1,
    ensures
        decimal(n)[0] != '0',
    decreases n,
{
    if n >= 10 {
        lemma_decimal_leading(n / 10);
        lemma_decimal_digits(n / 10);
        assert(decimal(n)[0] == decimal(n / 10)[0]);
    }
}

/// Zeros put in front come off again.
proof fn lemma_strip_pad(s: Seq<char>, w: nat)
    requires
        s.len() > 0,
        s[0] != '0',
    ensures
        strip_zeros(pad_zeros(s, w)) == s,
    decreases w,
{
    if s.len() < w {
        let p = pad_zeros(s, (w - 1) as nat);
        lemma_strip_pad(s, (w - 1) as nat);
        assert((seq!['0'] + p).drop_first() =~= p);
    }
}

/// A year from 1 to 9999, written with four digits, reads back.
proof fn lemma_year_text(y: i32)
    requires
        1 <= y <= 9999,
    ensures
        parse_i32_spec(strip_zeros(year_text(y))) == Some(y),
{
    lemma_decimal_digits(y as nat);
    lemma_decimal_leading(y as nat);
    lemma_strip_pad(decimal(y as nat), 4);
    lemma_parse_short_year(y);
}

/// Whether an edit writes the frame of an id.
pub open spec fn writes(t: &WriteTagData, y: Seq<char>) -> bool {
    ||| y == "TIT2"@ && t.title is Some
    ||| y == "TPE1"@ && t.artist is Some
    ||| y == "TALB"@ && t.album is Some
    ||| y == "TPE2"@ && t.album_artist is Some
    ||| y == "TYER"@ && t.year is Some
    ||| y == "TRCK"@ && (t.track is Some || t.total_tracks is Some)
    ||| y == "TPOS"@ && (t.disc is Some || t.total_discs is Some)
    ||| y == "TCON"@ && t.genre is Some
    ||| y == "TPUB"@ && t.label is Some
    ||| y == "COMM"@ && t.comment is Some
}

/// The edits leave the frames of an id they do not write alone.
proof fn lemma_keep_id(fs: Seq<Id3Frame>, t: &WriteTagData, cover: Option<Seq<u8>>, y: Seq<char>)
    requires
        !writes(t, y),
        y != "COMM"@,
        y != "APIC"@,
    ensures
        with_id(mp3_edited(fs, t, cover), y) == with_id(fs, y),
{
    let f1 = set_text_opt(fs, "TIT2"@, opt_view(t.title));
    if let Some(v) = t.title {
        lemma_step_other(fs, "TIT2"@, v@, y);
    }
    let f2 = set_text_opt(f1, "TPE1"@, opt_view(t.artist));
    if let Some(v) = t.artist {
        lemma_step_other(f1, "TPE1"@, v@, y);
    }
    let f3 = set_text_opt(f2, "TALB"@, opt_view(t.album));
    if let Some(v) = t.album {
        lemma_step_other(f2, "TALB"@, v@, y);
    }
    let f4 = set_text_opt(f3, "TPE2"@, opt_view(t.album_artist));
    if let Some(v) = t.album_artist {
        lemma_step_other(f3, "TPE2"@, v@, y);
    }
    let f5 = set_text_opt(f4, "TYER"@, year_frame_text(t.year));
    if let Some(yr) = t.year {
        lemma_step_other(f4, "TYER"@, year_text(yr), y);
    }
    let g1 = set_number_opt(f5, "TRCK"@, t.track);
    if let Some(n) = t.track {
        lemma_step_other(f5, "TRCK"@, number_text(f5, "TRCK"@, n), y);
    }
    let g2 = set_total_opt(g1, "TRCK"@, t.total_tracks);
    if let Some(n) = t.total_tracks {
        lemma_step_other(g1, "TRCK"@, total_text(g1, "TRCK"@, n), y);
    }
    let g3 = set_number_opt(g2, "TPOS"@, t.disc);
    if let Some(n) = t.disc {
        lemma_step_other(g2, "TPOS"@, number_text(g2, "TPOS"@, n), y);
    }
    let g4 = set_total_opt(g3, "TPOS"@, t.total_discs);
    if let Some(n) = t.total_discs {
        lemma_step_other(g3, "TPOS"@, total_text(g3, "TPOS"@, n), y);
    }
    let h1 = set_text_opt(g4, "TCON"@, opt_view(t.genre));
    if let Some(v) = t.genre {
        lemma_step_other(g4, "TCON"@, v@, y);
    }
    let h2 = match t.label {
        Some(v) => without_id(h1, "TPUB"@).push(text_frame("TPUB"@, v@)),
        None => h1,
    };
    if let Some(v) = t.label {
        lemma_replace_all_other(h1, "TPUB"@, text_frame("TPUB"@, v@), y);
    }
    let h3 = match t.comment {
        Some(v) => without_id(h2, "COMM"@).push(comment_frame(v@)),
        None => h2,
    };
    if let Some(v) = t.comment {
        lemma_replace_all_other(h2, "COMM"@, comment_frame(v@), y);
    }
    lemma_cover_other(h3, t.remove_cover, cover, y);
}

/// Every picture of the tag sits in an `APIC` frame.
pub open spec fn pictures_in_apic(fs: Seq<Id3Frame>) -> bool {
    forall|i: int| 0 <= i < fs.len() && (#[trigger] fs[i]).1 == 2 ==> fs[i].0 == "APIC"@
}

/// The items of a kind, all of them under one id, are kept by removing
/// every frame with another id.
proof fn lemma_kind_under_id(fs: Seq<Id3Frame>, kind: u8, id: Seq<char>, z: Seq<char>)
    requires
        forall|i: int| 0 <= i < fs.len() && (#[trigger] fs[i]).1 == kind ==> fs[i].0 == id,
        z != id,
    ensures
        of_kind(without_id(fs, z), kind) == of_kind(fs, kind),
{
    broadcast use vstd::seq_lib::group_filter_ensures;

    let k = |g: Id3Frame| is_kind(g, kind);
    let p = |g: Id3Frame| other_id(g, z);
    let c = of_kind(fs, kind);
    assert forall|i: int| 0 <= i < c.len() implies p(#[trigger] c[i]) by {
        assert(c.contains(c[i]));
        fs.lemma_filter_contains_rev(k, c[i]);
        let j = choose|j: int| 0 <= j < fs.len() && fs[j] == c[i];
        assert(fs[j].1 == kind);
    }
    lemma_filter_commute(fs, p, k);
    lemma_filter_all(c, p);
}

/// The name, number and genre edits leave the pictures as they were.
proof fn lemma_text_edits_keep_pictures(fs: Seq<Id3Frame>, t: &WriteTagData)
    ensures
        of_kind(set_text_opt(numbers_edited(names_edited(fs, t), t), "TCON"@, opt_view(t.genre)), 2)
            == of_kind(fs, 2),
{
    let q = |g: Id3Frame| is_kind(g, 2);
    let f1 = set_text_opt(fs, "TIT2"@, opt_view(t.title));
    if let Some(v) = t.title {
        lemma_text_set_filter(fs, "TIT2"@, v@, q);
    }
    let f2 = set_text_opt(f1, "TPE1"@, opt_view(t.artist));
    if let Some(v) = t.artist {
        lemma_text_set_filter(f1, "TPE1"@, v@, q);
    }
    let f3 = set_text_opt(f2, "TALB"@, opt_view(t.album));
    if let Some(v) = t.album {
        lemma_text_set_filter(f2, "TALB"@, v@, q);
    }
    let f4 = set_text_opt(f3, "TPE2"@, opt_view(t.album_artist));
    if let Some(v) = t.album_artist {
        lemma_text_set_filter(f3, "TPE2"@, v@, q);
    }
    let f5 = set_text_opt(f4, "TYER"@, year_frame_text(t.year));
    if let Some(y) = t.year {
        lemma_text_set_filter(f4, "TYER"@, year_text(y), q);
    }
    let g1 = set_number_opt(f5, "TRCK"@, t.track);
    if let Some(n) = t.track {
        lemma_text_set_filter(f5, "TRCK"@, number_text(f5, "TRCK"@, n), q);
    }
    let g2 = set_total_opt(g1, "TRCK"@, t.total_tracks);
    if let Some(n) = t.total_tracks {
        lemma_text_set_filter(g1, "TRCK"@, total_text(g1, "TRCK"@, n), q);
    }
    let g3 = set_number_opt(g2, "TPOS"@, t.disc);
    if let Some(n) = t.disc {
        lemma_text_set_filter(g2, "TPOS"@, number_text(g2, "TPOS"@, n), q);
    }
    let g4 = set_total_opt(g3, "TPOS"@, t.total_discs);
    if let Some(n) = t.total_discs {
        lemma_text_set_filter(g3, "TPOS"@, total_text(g3, "TPOS"@, n), q);
    }
    if let Some(v) = t.genre {
        lemma_text_set_filter(g4, "TCON"@, v@, q);
    }
}

/// The items of a kind in a tag whose items of that kind all sit under one
/// id, after the text edits, still all sit under it.
proof fn lemma_kind_stays_under(fs: Seq<Id3Frame>, f: Seq<Id3Frame>, kind: u8, id: Seq<char>)
    requires
        forall|i: int| 0 <= i < fs.len() && (#[trigger] fs[i]).1 == kind ==> fs[i].0 == id,
        of_kind(f, kind) == of_kind(fs, kind),
    ensures
        forall|i: int| 0 <= i < f.len() && (#[trigger] f[i]).1 == kind ==> f[i].0 == id,
{
    broadcast use vstd::seq_lib::group_filter_ensures;

    let k = |g: Id3Frame| is_kind(g, kind);
    assert forall|i: int| 0 <= i < f.len() && (#[trigger] f[i]).1 == kind implies f[i].0 == id by {
        assert(k(f[i]));
        assert(of_kind(f, kind).contains(f[i]));
        fs.lemma_filter_contains_rev(k, f[i]);
        let j = choose|j: int| 0 <= j < fs.len() && fs[j] == f[i];
        assert(fs[j].1 == kind);
    }
}

/// A fresh read after the editor's MP3 edits: every field the edits leave
/// alone reads as before; so do the comment and the front picture when they
/// are left alone, where every comment sat in a `COMM` frame and every
/// picture in an `APIC` frame.
pub proof fn lemma_mp3_unedited_read_back(fs: Seq<Id3Frame>, t: &WriteTagData, cover: Option<Seq<u8>>)
    ensures
        t.title is None ==> text_of(mp3_edited(fs, t, cover), "TIT2"@) == text_of(fs, "TIT2"@),
        t.artist is None ==> text_of(mp3_edited(fs, t, cover), "TPE1"@) == text_of(fs, "TPE1"@),
        t.album is None ==> text_of(mp3_edited(fs, t, cover), "TALB"@) == text_of(fs, "TALB"@),
        t.album_artist is None ==> text_of(mp3_edited(fs, t, cover), "TPE2"@) == text_of(
            fs,
            "TPE2"@,
        ),
        t.year is None ==> year_read(mp3_edited(fs, t, cover)) == year_read(fs),
        t.track is None && t.total_tracks is None ==> pair_of(mp3_edited(fs, t, cover), "TRCK"@)
            == pair_of(fs, "TRCK"@),
        t.disc is None && t.total_discs is None ==> pair_of(mp3_edited(fs, t, cover), "TPOS"@)
            == pair_of(fs, "TPOS"@),
        t.genre is None ==> text_of(mp3_edited(fs, t, cover), "TCON"@) == text_of(fs, "TCON"@),
        t.label is None ==> text_of(mp3_edited(fs, t, cover), "TPUB"@) == text_of(fs, "TPUB"@),
        t.comment is None && comments_in_comm(fs) ==> first_comment_text(mp3_edited(fs, t, cover))
            == first_comment_text(fs),
        !t.remove_cover && cover is None && pictures_in_apic(fs) ==> first_picture(
            mp3_edited(fs, t, cover),
        ) == first_picture(fs),
{
    broadcast use vstd::seq::Seq::lemma_filter_push;

    lemma_editor_ids();
    if t.title is None {
        lemma_keep_id(fs, t, cover, "TIT2"@);
    }
    if t.artist is None {
        lemma_keep_id(fs, t, cover, "TPE1"@);
    }
    if t.album is None {
        lemma_keep_id(fs, t, cover, "TALB"@);
    }
    if t.album_artist is None {
        lemma_keep_id(fs, t, cover, "TPE2"@);
    }
    if t.year is None {
        lemma_keep_id(fs, t, cover, "TYER"@);
    }
    if t.track is None && t.total_tracks is None {
        lemma_keep_id(fs, t, cover, "TRCK"@);
    }
    if t.disc is None && t.total_discs is None {
        lemma_keep_id(fs, t, cover, "TPOS"@);
    }
    if t.genre is None {
        lemma_keep_id(fs, t, cover, "TCON"@);
    }
    if t.label is None {
        lemma_keep_id(fs, t, cover, "TPUB"@);
    }
    let f3 = set_text_opt(numbers_edited(names_edited(fs, t), t), "TCON"@, opt_view(t.genre));
    let f4 = match t.label {
        Some(l) => without_id(f3, "TPUB"@).push(text_frame("TPUB"@, l@)),
        None => f3,
    };
    if t.comment is None && comments_in_comm(fs) {
        lemma_text_edits_keep_comments(fs, t);
        lemma_kind_stays_under(fs, f3, 1, "COMM"@);
        if t.label is Some {
            lemma_kind_under_id(f3, 1, "COMM"@, "TPUB"@);
        }
        assert(of_kind(f4, 1) == of_kind(fs, 1));
        lemma_kind_stays_under(fs, f4, 1, "COMM"@);
        let k = |g: Id3Frame| is_kind(g, 1);
        let kc = |g: Id3Frame| kept_by_cover_removal(g);
        if t.remove_cover || cover is Some {
            lemma_filter_commute(f4, kc, k);
            let c = of_kind(f4, 1);
            assert forall|i: int| 0 <= i < c.len() implies kc(#[trigger] c[i]) by {
                broadcast use vstd::seq_lib::group_filter_ensures;

                assert(c.contains(c[i]));
                f4.lemma_filter_contains_rev(k, c[i]);
                let j = choose|j: int| 0 <= j < f4.len() && f4[j] == c[i];
                assert(f4[j].1 == 1);
            }
            lemma_filter_all(c, kc);
        }
    }
    if !t.remove_cover && cover is None && pictures_in_apic(fs) {
        lemma_text_edits_keep_pictures(fs, t);
        lemma_kind_stays_under(fs, f3, 2, "APIC"@);
        if t.label is Some {
            lemma_kind_under_id(f3, 2, "APIC"@, "TPUB"@);
        }
        assert(of_kind(f4, 2) == of_kind(fs, 2));
        if t.comment is Some {
            lemma_kind_stays_under(fs, f4, 2, "APIC"@);
            lemma_kind_under_id(f4, 2, "APIC"@, "COMM"@);
        }
    }
}

// ---------------------------------------------------------------------------
// Reading back a download's tag
// ---------------------------------------------------------------------------

proof fn lemma_with_id_single(f: Id3Frame, y: Seq<char>)
    ensures
        with_id(seq![f], y) == (if f.0 == y {
            seq![f]
        } else {
            Seq::<Id3Frame>::empty()
        }),
{
    broadcast use vstd::seq::Seq::lemma_filter_push;

    let e = Seq::<Id3Frame>::empty();
    assert(e.filter(|g: Id3Frame| has_id(g, y)) =~= e) by {
        reveal(Seq::filter);
    }
    assert(seq![f] =~= e.push(f));
}

proof fn lemma_with_id_opt(id: Seq<char>, v: Option<Seq<char>>, y: Seq<char>)
    ensures
        with_id(opt_text_frame(id, v), y) == (if id == y && v is Some {
            seq![text_frame(id, v->0)]
        } else {
            Seq::<Id3Frame>::empty()
        }),
{
    match v {
        Some(t) => lemma_with_id_single(text_frame(id, t), y),
        None => {
            assert(Seq::<Id3Frame>::empty().filter(|g: Id3Frame| has_id(g, y)) =~= Seq::<
                Id3Frame,
            >::empty()) by {
                reveal(Seq::filter);
            }
        },
    }
}

/// The frames of a download's tag with one id: the frame the download
/// writes with that id, or none.
proof fn lemma_download_with_id(
    title: Seq<char>,
    artist: Seq<char>,
    album: Seq<char>,
    d: &TrackData,
    info: Option<AlbumTagInfo>,
    y: Seq<char>,
    v: Option<Seq<char>>,
)
    requires
        y == "TIT2"@ ==> v == Some(title),
        y == "TPE1"@ ==> v == Some(artist),
        y == "TALB"@ ==> v == Some(album),
        y == "TPE2"@ ==> v == opt_view(d.art_name),
        y == "TYER"@ ==> v == year_frame_text(tag_year_spec(d.physical_release_date)),
        y == "TRCK"@ ==> v == num_text(scalar_u32_spec(&d.track_number)),
        y == "TPOS"@ ==> v == num_text(scalar_u32_spec(&d.disk_number)),
        y == "TCON"@ ==> v == album_genre(info),
        y == "TPUB"@ ==> v == album_label(info),
        y == "TIT2"@ || y == "TPE1"@ || y == "TALB"@ || y == "TPE2"@ || y == "TYER"@ || y
            == "TRCK"@ || y == "TPOS"@ || y == "TCON"@ || y == "TPUB"@,
    ensures
        with_id(mp3_download_frames(title, artist, album, d, info), y) == opt_text_frame(y, v),
{
    broadcast use vstd::seq::Seq::filter_distributes_over_add;

    lemma_editor_ids();
    lemma_download_ranks();
    let head = seq![text_frame("TIT2"@, title), text_frame("TPE1"@, artist), text_frame("TALB"@, album)];
    let a = opt_text_frame("TPE2"@, opt_view(d.art_name));
    let b = opt_text_frame("TYER"@, year_frame_text(tag_year_spec(d.physical_release_date)));
    let c = opt_text_frame("TRCK"@, num_text(scalar_u32_spec(&d.track_number)));
    let e = opt_text_frame("TPOS"@, num_text(scalar_u32_spec(&d.disk_number)));
    let cv = opt_cover_frame(album_cover(info));
    let g = opt_text_frame("TCON"@, album_genre(info));
    let h = opt_text_frame("TPUB"@, album_label(info));
    assert(head =~= seq![text_frame("TIT2"@, title)] + seq![text_frame("TPE1"@, artist)] + seq![
        text_frame("TALB"@, album),
    ]);
    lemma_with_id_single(text_frame("TIT2"@, title), y);
    lemma_with_id_single(text_frame("TPE1"@, artist), y);
    lemma_with_id_single(text_frame("TALB"@, album), y);
    lemma_with_id_opt("TPE2"@, opt_view(d.art_name), y);
    lemma_with_id_opt("TYER"@, year_frame_text(tag_year_spec(d.physical_release_date)), y);
    lemma_with_id_opt("TRCK"@, num_text(scalar_u32_spec(&d.track_number)), y);
    lemma_with_id_opt("TPOS"@, num_text(scalar_u32_spec(&d.disk_number)), y);
    lemma_with_id_opt("TCON"@, album_genre(info), y);
    lemma_with_id_opt("TPUB"@, album_label(info), y);
    match album_cover(info) {
        Some(bytes) => lemma_with_id_single(cover_frame("image/jpeg"@, bytes), y),
        None => {
            assert(Seq::<Id3Frame>::empty().filter(|f: Id3Frame| has_id(f, y)) =~= Seq::<
                Id3Frame,
            >::empty()) by {
                reveal(Seq::filter);
            }
        },
    }
    let whole = head + a + b + c + e + cv + g + h;
    assert(with_id(whole, y) =~= with_id(head, y) + with_id(a, y) + with_id(b, y) + with_id(c, y)
        + with_id(e, y) + with_id(cv, y) + with_id(g, y) + with_id(h, y));
    assert(with_id(whole, y) =~= opt_text_frame(y, v));
}

/// What an MP3 download's tag reads back: the title, artist and album
/// given; the album artist of the track record; the track number of the
/// record's own track-number field and the disc number of its own
/// disc-number field, with no total; the first of the album's genres and
/// its label. A field the record or album does not give reads as missing.
pub proof fn lemma_mp3_download_read_back(
    title: Seq<char>,
    artist: Seq<char>,
    album: Seq<char>,
    d: &TrackData,
    info: Option<AlbumTagInfo>,
)
    ensures
        ({
            let fs = mp3_download_frames(title, artist, album, d, info);
            &&& text_of(fs, "TIT2"@) == Some(title)
            &&& text_of(fs, "TPE1"@) == Some(artist)
            &&& text_of(fs, "TALB"@) == Some(album)
            &&& text_of(fs, "TPE2"@) == opt_view(d.art_name)
            &&& number_read(fs, "TRCK"@) == scalar_u32_spec(&d.track_number)
            &&& total_read(fs, "TRCK"@) is None
            &&& number_read(fs, "TPOS"@) == scalar_u32_spec(&d.disk_number)
            &&& total_read(fs, "TPOS"@) is None
            &&& text_of(fs, "TCON"@) == (match info {
                Some(i) => if i.genres@.len() > 0 {
                    opt_view(i.genres@[0])
                } else {
                    None
                },
                None => None,
            })
            &&& text_of(fs, "TPUB"@) == (match info {
                Some(i) => opt_view(i.label),
                None => None,
            })
        }),
{
    lemma_editor_ids();
    lemma_download_with_id(title, artist, album, d, info, "TIT2"@, Some(title));
    lemma_download_with_id(title, artist, album, d, info, "TPE1"@, Some(artist));
    lemma_download_with_id(title, artist, album, d, info, "TALB"@, Some(album));
    lemma_download_with_id(title, artist, album, d, info, "TPE2"@, opt_view(d.art_name));
    lemma_download_with_id(
        title,
        artist,
        album,
        d,
        info,
        "TRCK"@,
        num_text(scalar_u32_spec(&d.track_number)),
    );
    lemma_download_with_id(
        title,
        artist,
        album,
        d,
        info,
        "TPOS"@,
        num_text(scalar_u32_spec(&d.disk_number)),
    );
    lemma_download_with_id(title, artist, album, d, info, "TCON"@, album_genre(info));
    lemma_download_with_id(title, artist, album, d, info, "TPUB"@, album_label(info));
    if let Some(n) = scalar_u32_spec(&d.track_number) {
        lemma_pair_single(n);
    }
    if let Some(n) = scalar_u32_spec(&d.disk_number) {
        lemma_pair_single(n);
    }
}

} // verus!
