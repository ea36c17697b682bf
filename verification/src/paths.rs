//! Where a downloaded track is stored: file-name cleaning, the folder layouts,
//! the custom folder template, and the names of temporary and numbered files.
use vstd::prelude::*;

use crate::settings::FolderStructure;
use crate::text::{
    byte_len, byte_len_capped, byte_prefix, char_boundary, chars_of, decimal, decimal2, decimal_chars, ends_with,
    extend_chars, has_prefix, has_suffix, is_char_boundary, starts_with, replace_all, replace_chars, strip, strip_chars,
    string_of, strip_back, strip_front, take_bytes, trim_ws, trimmed_char, two_digit_string, is_ws,
    all_digits, digit_char, is_digit, lemma_decimal_digits, lemma_digit_char, lemma_strip_back_at,
    lemma_strip_front_at,
};
use crate::track::{parse_u32_from_value, scalar_u32_spec, TrackData};

verus! {

// ---------------------------------------------------------------------------
// Cleaning names
// ---------------------------------------------------------------------------

/// Characters that are not allowed in a file or folder name on some platform.
pub open spec fn is_reserved(c: char) -> bool {
    c == '<' || c == '>' || c == ':' || c == '"' || c == '/' || c == '\\' || c == '|' || c == '?'
        || c == '*'
}

/// NUL characters dropped, reserved characters replaced by `_`.
pub open spec fn scrub(s: Seq<char>) -> Seq<char>
    decreases s.len(),
{
    if s.len() == 0 {
        Seq::empty()
    } else {
        let prev = scrub(s.drop_last());
        let c = s.last();
        if c == '\0' {
            prev
        } else if is_reserved(c) {
            prev.push('_')
        } else {
            prev.push(c)
        }
    }
}

/// A file name made safe: scrubbed, then trimmed of whitespace.
pub open spec fn clean_filename_spec(s: Seq<char>) -> Seq<char> {
    trim_ws(scrub(s))
}

/// A folder name made safe: scrubbed, trimmed of whitespace, then of full stops.
pub open spec fn sanitize_component_spec(s: Seq<char>) -> Seq<char> {
    strip(true, trim_ws(scrub(s)))
}

fn check_reserved(c: char) -> (r: bool)
    ensures
        r == is_reserved(c),
{
    c == '<' || c == '>' || c == ':' || c == '"' || c == '/' || c == '\\' || c == '|' || c == '?'
        || c == '*'
}

fn scrub_chars(s: &[char]) -> (r: Vec<char>)
    ensures
        r@ == scrub(s@),
{
    let mut r: Vec<char> = Vec::new();
    let mut i: usize = 0;
    while i < s.len()
        invariant
            i <= s.len(),
            r@ == scrub(s@.take(i as int)),
        decreases s.len() - i,
    {
        assert(s@.take(i + 1).drop_last() =~= s@.take(i as int));
        let c = s[i];
        if c == '\0' {
        } else if check_reserved(c) {
            r.push('_');
        } else {
            r.push(c);
        }
        i += 1;
    }
    assert(s@.take(s.len() as int) =~= s@);
    r
}

pub fn clean_chars(s: &[char]) -> (r: Vec<char>)
    ensures
        r@ == clean_filename_spec(s@),
{
    let a = scrub_chars(s);
    strip_chars(false, a.as_slice())
}

pub fn sanitize_chars(s: &[char]) -> (r: Vec<char>)
    ensures
        r@ == sanitize_component_spec(s@),
{
    let a = scrub_chars(s);
    let b = strip_chars(false, a.as_slice());
    strip_chars(true, b.as_slice())
}

/// Replaces characters that are invalid in file names and trims whitespace.
pub fn clean_filename(name: &str) -> (r: String)
    ensures
        r@ == clean_filename_spec(name@),
{
    let v = chars_of(name);
    let c = clean_chars(v.as_slice());
    string_of(c.as_slice())
}

/// Like `clean_filename`, and also trims leading and trailing full stops so
/// that a folder name is never `.` or `..`.
pub fn sanitize_path_component(name: &str) -> (r: String)
    ensures
        r@ == sanitize_component_spec(name@),
{
    let v = chars_of(name);
    let c = sanitize_chars(v.as_slice());
    string_of(c.as_slice())
}

// ---------------------------------------------------------------------------
// Splitting a rendered template into path parts
// ---------------------------------------------------------------------------

pub open spec fn is_path_sep(c: char) -> bool {
    c == '/' || c == '\\'
}

/// The pieces of `s` between separators (`str::split(['/', '\\'])`).
pub open spec fn split_seps(s: Seq<char>) -> Seq<Seq<char>>
    decreases s.len(),
{
    if s.len() == 0 {
        seq![Seq::empty()]
    } else {
        let prev = split_seps(s.drop_last());
        if is_path_sep(s.last()) {
            prev.push(Seq::empty())
        } else {
            prev.update(prev.len() - 1, prev.last().push(s.last()))
        }
    }
}

/// Each piece sanitized as a folder name; the pieces that end up empty dropped.
pub open spec fn kept_parts(pieces: Seq<Seq<char>>) -> Seq<Seq<char>>
    decreases pieces.len(),
{
    if pieces.len() == 0 {
        Seq::empty()
    } else {
        let prev = kept_parts(pieces.drop_last());
        let c = sanitize_component_spec(pieces.last());
        if c.len() > 0 {
            prev.push(c)
        } else {
            prev
        }
    }
}

/// The non-empty, sanitized path parts of a rendered template.
pub open spec fn path_parts(s: Seq<char>) -> Seq<Seq<char>> {
    kept_parts(split_seps(s))
}

proof fn lemma_split_nonempty(s: Seq<char>)
    ensures
        split_seps(s).len() >= 1,
    decreases s.len(),
{
    if s.len() > 0 {
        lemma_split_nonempty(s.drop_last());
    }
}

pub open spec fn string_views(v: Seq<String>) -> Seq<Seq<char>> {
    v.map_values(|x: String| x@)
}

pub open spec fn views_of(v: Seq<Vec<char>>) -> Seq<Seq<char>> {
    v.map_values(|x: Vec<char>| x@)
}

fn path_parts_chars(s: &[char]) -> (r: Vec<Vec<char>>)
    ensures
        views_of(r@) == path_parts(s@),
{
    let mut parts: Vec<Vec<char>> = Vec::new();
    let mut cur: Vec<char> = Vec::new();
    let mut i: usize = 0;
    proof {
        assert(s@.take(0) =~= Seq::<char>::empty());
        assert(split_seps(Seq::<char>::empty()).drop_last() =~= Seq::<Seq<char>>::empty());
        assert(views_of(parts@) =~= Seq::<Seq<char>>::empty());
    }
    while i < s.len()
        invariant
            i <= s.len(),
            split_seps(s@.take(i as int)).len() >= 1,
            views_of(parts@) == kept_parts(split_seps(s@.take(i as int)).drop_last()),
            cur@ == split_seps(s@.take(i as int)).last(),
        decreases s.len() - i,
    {
        let ghost old_split = split_seps(s@.take(i as int));
        let ghost old_parts = views_of(parts@);
        assert(s@.take(i + 1).drop_last() =~= s@.take(i as int));
        assert(s@.take(i + 1).last() == s@[i as int]);
        let c = s[i];
        if c == '/' || c == '\\' {
            let piece = sanitize_chars(cur.as_slice());
            let ghost new_split = old_split.push(Seq::<char>::empty());
            assert(new_split.drop_last() =~= old_split);
            assert(old_split.drop_last().push(old_split.last()) =~= old_split);
            if piece.len() > 0 {
                parts.push(piece);
                assert(views_of(parts@) =~= old_parts.push(piece@));
            }
            cur = Vec::new();
        } else {
            cur.push(c);
            let ghost new_split = old_split.update(old_split.len() - 1, old_split.last().push(c));
            assert(new_split.drop_last() =~= old_split.drop_last());
        }
        i += 1;
    }
    assert(s@.take(s.len() as int) =~= s@);
    let ghost all = split_seps(s@);
    assert(all.drop_last().push(all.last()) =~= all);
    let piece = sanitize_chars(cur.as_slice());
    let ghost before = views_of(parts@);
    if piece.len() > 0 {
        parts.push(piece);
        assert(views_of(parts@) =~= before.push(piece@));
    }
    parts
}

// ---------------------------------------------------------------------------
// Download locations
// ---------------------------------------------------------------------------

/// Where a download goes: folders below the output directory, then the file.
pub struct DownloadPath {
    pub output_dir: String,
    pub folders: Vec<String>,
    pub file_name: String,
}

impl DownloadPath {
    pub open spec fn folders_view(&self) -> Seq<Seq<char>> {
        string_views(self.folders@)
    }
}

pub open spec fn default_template() -> Seq<char> {
    "{artist}/{release_date} - {album}/{track_number} - {title}"@
}

/// The date a custom template calls `{release_date}`: the physical release
/// date when present and non-empty, else the digital one, else "Unknown Date".
pub open spec fn release_date_spec(d: &TrackData) -> Seq<char> {
    if d.physical_release_date is Some && d.physical_release_date->0@.len() > 0 {
        d.physical_release_date->0@
    } else if d.digital_release_date is Some {
        d.digital_release_date->0@
    } else {
        "Unknown Date"@
    }
}

/// `{release_year}`: the first four bytes of the date when it has at least
/// four, else the whole date.
pub open spec fn release_year_spec(date: Seq<char>) -> Seq<char> {
    if byte_len(date) >= 4 {
        byte_prefix(date, 4)
    } else {
        date
    }
}

/// `{track_number}`: two digits, "00" when the track number is unknown.
pub open spec fn track_number_text(d: &TrackData) -> Seq<char> {
    match scalar_u32_spec(&d.track_number) {
        Some(n) => decimal2(n as nat),
        None => "00"@,
    }
}

/// `{disc_number}`: the disc number, "1" when unknown.
pub open spec fn disc_number_text(d: &TrackData) -> Seq<char> {
    match scalar_u32_spec(&d.disk_number) {
        Some(n) => decimal(n as nat),
        None => "1"@,
    }
}

/// The template with every placeholder replaced, in the order that the
/// replacements are made.
pub open spec fn render_template(
    t: Seq<char>,
    artist: Seq<char>,
    album: Seq<char>,
    title: Seq<char>,
    track_no: Seq<char>,
    disc_no: Seq<char>,
    date: Seq<char>,
    year: Seq<char>,
) -> Seq<char> {
    let a = replace_all(t, "{artist}"@, artist);
    let b = replace_all(a, "{album}"@, album);
    let c = replace_all(b, "{title}"@, title);
    let d = replace_all(c, "{track_number}"@, track_no);
    let e = replace_all(d, "{track}"@, track_no);
    let f = replace_all(e, "{disc_number}"@, disc_no);
    let g = replace_all(f, "{disc}"@, disc_no);
    let h = replace_all(g, "{release_date}"@, date);
    let i = replace_all(h, "{release_year}"@, year);
    replace_all(i, "{year}"@, year)
}

/// The template in use: the trimmed custom template, or the default one when
/// that is empty.
pub open spec fn effective_template(custom: Seq<char>) -> Seq<char> {
    if trim_ws(custom).len() == 0 {
        default_template()
    } else {
        trim_ws(custom)
    }
}

/// The folders and file name that the custom template gives.
pub open spec fn custom_layout(
    custom: Seq<char>,
    artist: Seq<char>,
    album: Seq<char>,
    title: Seq<char>,
    d: &TrackData,
    ext: Seq<char>,
) -> (Seq<Seq<char>>, Seq<char>) {
    let date = release_date_spec(d);
    let rendered = render_template(
        effective_template(custom),
        artist,
        album,
        title,
        track_number_text(d),
        disc_number_text(d),
        date,
        release_year_spec(date),
    );
    let parts = path_parts(rendered);
    let parts = if parts.len() == 0 {
        seq![clean_filename_spec(artist + " - "@ + title)]
    } else {
        parts
    };
    let name = parts.last();
    let name = if has_suffix(name, ext) {
        name
    } else {
        name + ext
    };
    (parts.drop_last(), clean_filename_spec(name))
}

/// The folders and file name for a track under each folder structure.
pub open spec fn download_layout(
    fs: FolderStructure,
    custom: Seq<char>,
    artist: Seq<char>,
    album: Seq<char>,
    title: Seq<char>,
    d: &TrackData,
    ext: Seq<char>,
) -> (Seq<Seq<char>>, Seq<char>) {
    let file = clean_filename_spec(artist + " - "@ + title + ext);
    match fs {
        FolderStructure::Flat => (Seq::empty(), file),
        FolderStructure::ArtistTrack => (seq![sanitize_component_spec(artist)], file),
        FolderStructure::ArtistAlbumTrack => (
            seq![sanitize_component_spec(artist), sanitize_component_spec(album)],
            file,
        ),
        FolderStructure::AlbumTrack => (seq![sanitize_component_spec(album)], file),
        FolderStructure::Custom => custom_layout(custom, artist, album, title, d, ext),
    }
}

/// Slicing the release date at four bytes does not split a character, which
/// would panic.
pub open spec fn release_date_sliceable(d: &TrackData) -> bool {
    let date = release_date_spec(d);
    byte_len(date) < 4 || is_char_boundary(date, 4)
}

/// Whether the custom layout can read the track's release year.
pub fn layout_sliceable(track: &TrackData) -> (r: bool)
    ensures
        r == release_date_sliceable(track),
{
    let date: Vec<char> = match &track.physical_release_date {
        Some(p) if chars_of(p.as_str()).len() > 0 => chars_of(p.as_str()),
        _ => match &track.digital_release_date {
            Some(d) => chars_of(d.as_str()),
            None => chars_of("Unknown Date"),
        },
    };
    byte_len_capped(date.as_slice(), 4) < 4 || char_boundary(date.as_slice(), 4)
}

fn lit(s: &str) -> (v: Vec<char>)
    ensures
        v@ == s@,
{
    chars_of(s)
}

fn replaced(v: Vec<char>, pat: &str, rep: &[char]) -> (r: Vec<char>)
    requires
        pat@.len() > 0,
    ensures
        r@ == replace_all(v@, pat@, rep@),
{
    let p = chars_of(pat);
    replace_chars(v.as_slice(), p.as_slice(), rep)
}

fn strings_of(parts: &Vec<Vec<char>>) -> (r: Vec<String>)
    ensures
        string_views(r@) == views_of(parts@),
{
    let mut r: Vec<String> = Vec::new();
    let mut i: usize = 0;
    while i < parts.len()
        invariant
            i <= parts.len(),
            r@.len() == i,
            string_views(r@) == views_of(parts@).take(i as int),
        decreases parts.len() - i,
    {
        let s = string_of(parts[i].as_slice());
        let ghost before = r@;
        r.push(s);
        assert(views_of(parts@)[i as int] == parts@[i as int]@);
        assert(r@ == before.push(s));
        assert(string_views(r@) =~= views_of(parts@).take(i + 1)) by {
            assert forall|k: int| 0 <= k < i implies #[trigger] string_views(r@)[k] == views_of(parts@).take(i + 1)[k] by {
                assert(r@[k] == before[k]);
                assert(string_views(before)[k] == views_of(parts@).take(i as int)[k]);
            }
        }
        i += 1;
    }
    assert(views_of(parts@).take(parts.len() as int) =~= views_of(parts@));
    r
}

fn join3(a: &[char], mid: &str, b: &[char]) -> (r: Vec<char>)
    ensures
        r@ == a@ + mid@ + b@,
{
    let mut r: Vec<char> = Vec::new();
    extend_chars(&mut r, a);
    let m = chars_of(mid);
    extend_chars(&mut r, m.as_slice());
    extend_chars(&mut r, b);
    r
}

fn custom_path(
    custom_folder_template: &str,
    artist: &[char],
    album: &[char],
    title: &[char],
    track_data: &TrackData,
    ext: &[char],
) -> (r: (Vec<Vec<char>>, Vec<char>))
    requires
        release_date_sliceable(track_data),
    ensures
        (views_of(r.0@), r.1@) == custom_layout(
            custom_folder_template@,
            artist@,
            album@,
            title@,
            track_data,
            ext@,
        ),
{
    proof {
        reveal_strlit("{artist}");
        reveal_strlit("{album}");
        reveal_strlit("{title}");
        reveal_strlit("{track_number}");
        reveal_strlit("{track}");
        reveal_strlit("{disc_number}");
        reveal_strlit("{disc}");
        reveal_strlit("{release_date}");
        reveal_strlit("{release_year}");
        reveal_strlit("{year}");
    }
    let physical: Option<Vec<char>> = match &track_data.physical_release_date {
        Some(p) => Some(chars_of(p.as_str())),
        None => None,
    };
    let date: Vec<char> = match physical {
        Some(v) if v.len() > 0 => v,
        _ => match &track_data.digital_release_date {
            Some(dg) => chars_of(dg.as_str()),
            None => lit("Unknown Date"),
        },
    };
    let year: Vec<char> = if byte_len_capped(date.as_slice(), 4) >= 4 {
        take_bytes(date.as_slice(), 4)
    } else {
        date.clone()
    };
    let track_no: Vec<char> = match parse_u32_from_value(&track_data.track_number) {
        Some(n) => chars_of(two_digit_string(n).as_str()),
        None => lit("00"),
    };
    let disc_no: Vec<char> = match parse_u32_from_value(&track_data.disk_number) {
        Some(n) => decimal_chars(n as u64),
        None => lit("1"),
    };
    let tv = chars_of(custom_folder_template);
    let trimmed = strip_chars(false, tv.as_slice());
    let template = if trimmed.len() == 0 {
        lit("{artist}/{release_date} - {album}/{track_number} - {title}")
    } else {
        trimmed
    };
    let x = replaced(template, "{artist}", artist);
    let x = replaced(x, "{album}", album);
    let x = replaced(x, "{title}", title);
    let x = replaced(x, "{track_number}", track_no.as_slice());
    let x = replaced(x, "{track}", track_no.as_slice());
    let x = replaced(x, "{disc_number}", disc_no.as_slice());
    let x = replaced(x, "{disc}", disc_no.as_slice());
    let x = replaced(x, "{release_date}", date.as_slice());
    let x = replaced(x, "{release_year}", year.as_slice());
    let x = replaced(x, "{year}", year.as_slice());
    let mut parts = path_parts_chars(x.as_slice());
    if parts.len() == 0 {
        let fallback = join3(artist, " - ", title);
        let c = clean_chars(fallback.as_slice());
        parts.push(c);
    }
    let ghost all_parts = views_of(parts@);
    let name = parts.pop().unwrap();
    assert(views_of(parts@) =~= all_parts.drop_last());
    let full = if ends_with(name.as_slice(), ext) {
        name
    } else {
        let mut n = name;
        extend_chars(&mut n, ext);
        n
    };
    let file = clean_chars(full.as_slice());
    (parts, file)
}

} // verus!

verus! {

/// Chooses the folders and file name of a download from the folder structure
/// and, for a custom structure, the template.
pub fn build_download_path(
    output_dir: &str,
    folder_structure: &FolderStructure,
    custom_folder_template: &str,
    artist: &str,
    album_title: &str,
    full_title: &str,
    track_data: &TrackData,
    ext: &str,
) -> (r: DownloadPath)
    requires
        *folder_structure == FolderStructure::Custom ==> release_date_sliceable(track_data),
    ensures
        r.output_dir@ == output_dir@,
        (r.folders_view(), r.file_name@) == download_layout(
            *folder_structure,
            custom_folder_template@,
            artist@,
            album_title@,
            full_title@,
            track_data,
            ext@,
        ),
{
    let a = chars_of(artist);
    let al = chars_of(album_title);
    let t = chars_of(full_title);
    let e = chars_of(ext);
    let (folders, file): (Vec<Vec<char>>, Vec<char>) = match folder_structure {
        FolderStructure::Custom => custom_path(
            custom_folder_template,
            a.as_slice(),
            al.as_slice(),
            t.as_slice(),
            track_data,
            e.as_slice(),
        ),
        _ => {
            let mut name = join3(a.as_slice(), " - ", t.as_slice());
            extend_chars(&mut name, e.as_slice());
            let file = clean_chars(name.as_slice());
            let mut folders: Vec<Vec<char>> = Vec::new();
            match folder_structure {
                FolderStructure::ArtistTrack => {
                    folders.push(sanitize_chars(a.as_slice()));
                },
                FolderStructure::ArtistAlbumTrack => {
                    folders.push(sanitize_chars(a.as_slice()));
                    folders.push(sanitize_chars(al.as_slice()));
                },
                FolderStructure::AlbumTrack => {
                    folders.push(sanitize_chars(al.as_slice()));
                },
                _ => {},
            }
            assert(views_of(folders@) =~= download_layout(
                *folder_structure,
                custom_folder_template@,
                artist@,
                album_title@,
                full_title@,
                track_data,
                ext@,
            ).0);
            (folders, file)
        },
    };
    DownloadPath {
        output_dir: string_of(chars_of(output_dir).as_slice()),
        folders: strings_of(&folders),
        file_name: string_of(file.as_slice()),
    }
}

// ---------------------------------------------------------------------------
// Laws on names
// ---------------------------------------------------------------------------

/// A character that may stand in a file or folder name.
pub open spec fn safe_char(c: char) -> bool {
    !is_reserved(c) && c != '\0'
}

pub open spec fn all_safe(s: Seq<char>) -> bool {
    forall|i: int| 0 <= i < s.len() ==> safe_char(#[trigger] s[i])
}

/// A folder name that stays in the folder it is joined to: no separator, and
/// neither `.` nor `..`.
pub open spec fn confined_name(s: Seq<char>) -> bool {
    all_safe(s) && s != "."@ && s != ".."@
}

proof fn lemma_scrub_safe(s: Seq<char>)
    ensures
        all_safe(scrub(s)),
    decreases s.len(),
{
    if s.len() > 0 {
        lemma_scrub_safe(s.drop_last());
    }
}

proof fn lemma_strip_front_suffix(dots: bool, s: Seq<char>)
    ensures
        strip_front(dots, s).len() <= s.len(),
        strip_front(dots, s) == s.skip(s.len() - strip_front(dots, s).len()),
    decreases s.len(),
{
    if s.len() > 0 && trimmed_char(dots, s[0]) {
        lemma_strip_front_suffix(dots, s.drop_first());
        let r = strip_front(dots, s);
        assert(s.drop_first().skip(s.drop_first().len() - r.len()) =~= s.skip(s.len() - r.len()));
    } else {
        assert(s.skip(0) =~= s);
    }
}

proof fn lemma_strip_back_prefix(dots: bool, s: Seq<char>)
    ensures
        strip_back(dots, s).len() <= s.len(),
        strip_back(dots, s) == s.take(strip_back(dots, s).len() as int),
    decreases s.len(),
{
    if s.len() > 0 && trimmed_char(dots, s.last()) {
        lemma_strip_back_prefix(dots, s.drop_last());
        let r = strip_back(dots, s);
        assert(s.drop_last().take(r.len() as int) =~= s.take(r.len() as int));
    } else {
        assert(s.take(s.len() as int) =~= s);
    }
}

/// Trimming keeps only characters of its input.
proof fn lemma_strip_safe(dots: bool, s: Seq<char>)
    requires
        all_safe(s),
    ensures
        all_safe(strip(dots, s)),
{
    lemma_strip_front_suffix(dots, s);
    let f = strip_front(dots, s);
    assert forall|i: int| 0 <= i < f.len() implies safe_char(#[trigger] f[i]) by {
        assert(f[i] == s[i + (s.len() - f.len())]);
    }
    lemma_strip_back_prefix(dots, f);
    let b = strip_back(dots, f);
    assert forall|i: int| 0 <= i < b.len() implies safe_char(#[trigger] b[i]) by {
        assert(b[i] == f[i]);
    }
}

/// A non-empty result of stripping full stops does not start with one.
proof fn lemma_strip_dots_head(s: Seq<char>)
    requires
        strip(true, s).len() > 0,
    ensures
        strip(true, s)[0] != '.',
{
    lemma_strip_front_suffix(true, s);
    let f = strip_front(true, s);
    lemma_strip_back_prefix(true, f);
    let b = strip_back(true, f);
    assert(b[0] == f[0]);
    lemma_strip_front_head(s);
}

proof fn lemma_strip_front_head(s: Seq<char>)
    requires
        strip_front(true, s).len() > 0,
    ensures
        strip_front(true, s)[0] != '.',
    decreases s.len(),
{
    if s.len() > 0 && trimmed_char(true, s[0]) {
        lemma_strip_front_head(s.drop_first());
    }
}

/// Cleaned file names hold no reserved character and no NUL.
pub proof fn lemma_clean_filename_safe(s: Seq<char>)
    ensures
        all_safe(clean_filename_spec(s)),
{
    lemma_scrub_safe(s);
    lemma_strip_safe(false, scrub(s));
}

/// A sanitized folder name never leaves its parent folder: it holds no
/// separator or reserved character, and it is neither `.` nor `..`.
pub proof fn lemma_sanitized_component_confined(s: Seq<char>)
    ensures
        confined_name(sanitize_component_spec(s)),
{
    lemma_clean_filename_safe(s);
    let r = sanitize_component_spec(s);
    lemma_strip_safe(true, trim_ws(scrub(s)));
    if r.len() > 0 {
        lemma_strip_dots_head(trim_ws(scrub(s)));
    }
    reveal_strlit(".");
    reveal_strlit("..");
    if r == "."@ || r == ".."@ {
        assert(r[0] == '.');
    }
}

proof fn lemma_kept_parts_confined(pieces: Seq<Seq<char>>)
    ensures
        forall|i: int|
            0 <= i < kept_parts(pieces).len() ==> confined_name(#[trigger] kept_parts(pieces)[i]),
    decreases pieces.len(),
{
    if pieces.len() > 0 {
        lemma_kept_parts_confined(pieces.drop_last());
        lemma_sanitized_component_confined(pieces.last());
        let prev = kept_parts(pieces.drop_last());
        let k = kept_parts(pieces);
        assert forall|i: int| 0 <= i < k.len() implies confined_name(#[trigger] k[i]) by {
            if i < prev.len() {
                assert(k[i] == prev[i]);
            }
        }
    }
}

/// Whatever the track's metadata and the template, every folder of a
/// download's location stays inside the output directory and the file name
/// holds no separator: the file is always written below the output directory.
pub proof fn lemma_download_path_confined(
    fs: FolderStructure,
    custom: Seq<char>,
    artist: Seq<char>,
    album: Seq<char>,
    title: Seq<char>,
    d: &TrackData,
    ext: Seq<char>,
)
    ensures
        ({
            let (folders, file) = download_layout(fs, custom, artist, album, title, d, ext);
            &&& forall|i: int| 0 <= i < folders.len() ==> confined_name(#[trigger] folders[i])
            &&& all_safe(file)
        }),
{
    let (folders, file) = download_layout(fs, custom, artist, album, title, d, ext);
    lemma_sanitized_component_confined(artist);
    lemma_sanitized_component_confined(album);
    match fs {
        FolderStructure::Custom => {
            let date = release_date_spec(d);
            let rendered = render_template(
                effective_template(custom),
                artist,
                album,
                title,
                track_number_text(d),
                disc_number_text(d),
                date,
                release_year_spec(date),
            );
            let parts = path_parts(rendered);
            lemma_kept_parts_confined(split_seps(rendered));
            let parts2 = if parts.len() == 0 {
                seq![clean_filename_spec(artist + " - "@ + title)]
            } else {
                parts
            };
            if parts.len() > 0 {
                assert forall|i: int| 0 <= i < folders.len() implies confined_name(
                    #[trigger] folders[i],
                ) by {
                    assert(folders[i] == parts[i]);
                }
            }
            let name = parts2.last();
            let name = if has_suffix(name, ext) {
                name
            } else {
                name + ext
            };
            lemma_clean_filename_safe(name);
        },
        _ => {
            lemma_clean_filename_safe(artist + " - "@ + title + ext);
        },
    }
}

/// A custom template that is blank, or only whitespace, lays a download out
/// exactly as the default template does.
pub proof fn lemma_blank_template_is_default(
    custom: Seq<char>,
    artist: Seq<char>,
    album: Seq<char>,
    title: Seq<char>,
    d: &TrackData,
    ext: Seq<char>,
)
    requires
        trim_ws(custom).len() == 0,
    ensures
        download_layout(FolderStructure::Custom, custom, artist, album, title, d, ext)
            == download_layout(
            FolderStructure::Custom,
            default_template(),
            artist,
            album,
            title,
            d,
            ext,
        ),
{
    reveal_strlit("{artist}/{release_date} - {album}/{track_number} - {title}");
    let t = default_template();
    assert(!is_ws(t[0]));
    assert(strip_front(false, t) == t);
    assert(t.last() == '}');
    assert(strip_back(false, t) == t);
    assert(effective_template(t) == t);
}

// ---------------------------------------------------------------------------
// Placeholder aliases in custom templates
// ---------------------------------------------------------------------------

/// Text with no opening brace.
pub open spec fn no_open_brace(s: Seq<char>) -> bool {
    forall|i: int| 0 <= i < s.len() ==> #[trigger] s[i] != '{'
}

/// A placeholder's shape: an opening brace, then no brace, then a closing
/// brace.
pub open spec fn braced(q: Seq<char>) -> bool {
    &&& q.len() >= 2
    &&& q[0] == '{'
    &&& q[q.len() - 1] == '}'
    &&& forall|i: int| 0 < i < q.len() - 1 ==> #[trigger] q[i] != '{' && q[i] != '}'
}

/// A piece of a template: text with no opening brace, or a placeholder.
pub open spec fn piece_ok(s: Seq<char>) -> bool {
    no_open_brace(s) || braced(s)
}

/// A piece replaced when it is the pattern.
pub open spec fn swap_piece(s: Seq<char>, p: Seq<char>, r: Seq<char>) -> Seq<char> {
    if s == p {
        r
    } else {
        s
    }
}

/// The long placeholders written as their aliases.
pub open spec fn alias_piece(s: Seq<char>) -> Seq<char> {
    if s == "{track_number}"@ {
        "{track}"@
    } else if s == "{disc_number}"@ {
        "{disc}"@
    } else if s == "{release_year}"@ {
        "{year}"@
    } else {
        s
    }
}

/// Text with no opening brace is left alone by a replacement of a braced
/// pattern.
proof fn lemma_replace_skips_plain(c: Seq<char>, x: Seq<char>, p: Seq<char>, r: Seq<char>)
    requires
        no_open_brace(c),
        braced(p),
    ensures
        replace_all(c + x, p, r) == c + replace_all(x, p, r),
    decreases c.len(),
{
    let s = c + x;
    if c.len() == 0 {
        assert(s =~= x);
        assert(c + replace_all(x, p, r) =~= replace_all(x, p, r));
    } else if s.len() < p.len() {
        assert(replace_all(x, p, r) == x);
    } else {
        assert(s[0] == c[0]);
        assert(s.take(p.len() as int)[0] == s[0]);
        assert(s.take(p.len() as int) != p);
        assert(s.drop_first() =~= c.drop_first() + x);
        assert forall|i: int| 0 <= i < c.drop_first().len() implies #[trigger] c.drop_first()[i]
            != '{' by {
            assert(c.drop_first()[i] == c[i + 1]);
        }
        lemma_replace_skips_plain(c.drop_first(), x, p, r);
        assert(seq![c[0]] + (c.drop_first() + replace_all(x, p, r)) =~= c + replace_all(x, p, r));
    }
}

/// A replacement of a braced pattern turns a piece that is the pattern into
/// the replacement, and leaves any other piece alone.
proof fn lemma_replace_piece(q: Seq<char>, x: Seq<char>, p: Seq<char>, r: Seq<char>)
    requires
        piece_ok(q),
        braced(p),
    ensures
        replace_all(q + x, p, r) == swap_piece(q, p, r) + replace_all(x, p, r),
{
    let s = q + x;
    if q == p {
        assert(s.take(p.len() as int) =~= p);
        assert(s.skip(p.len() as int) =~= x);
    } else if no_open_brace(q) {
        lemma_replace_skips_plain(q, x, p, r);
    } else {
        if s.len() < p.len() {
            assert(replace_all(x, p, r) == x);
        } else {
            let t = s.take(p.len() as int);
            if p.len() < q.len() {
                assert(t[p.len() - 1] == q[p.len() - 1]);
                assert(t[p.len() - 1] != p[p.len() - 1]);
            } else if p.len() == q.len() {
                assert(t =~= q);
            } else {
                assert(t[q.len() - 1] == q[q.len() - 1]);
                assert(t[q.len() - 1] != p[q.len() - 1]);
            }
            assert(t != p);
            let d = q.drop_first();
            assert forall|i: int| 0 <= i < d.len() implies #[trigger] d[i] != '{' by {
                assert(d[i] == q[i + 1]);
            }
            assert(s.drop_first() =~= d + x);
            lemma_replace_skips_plain(d, x, p, r);
            assert(seq![q[0]] + (d + replace_all(x, p, r)) =~= q + replace_all(x, p, r));
        }
    }
}

/// No brace of either kind.
pub open spec fn no_brace_in(s: Seq<char>) -> bool
    decreases s.len(),
{
    s.len() == 0 || (s[0] != '{' && s[0] != '}' && no_brace_in(s.drop_first()))
}

proof fn lemma_no_brace_in(s: Seq<char>)
    requires
        no_brace_in(s),
    ensures
        forall|i: int| 0 <= i < s.len() ==> #[trigger] s[i] != '{' && s[i] != '}',
    decreases s.len(),
{
    if s.len() > 0 {
        lemma_no_brace_in(s.drop_first());
        assert forall|i: int| 0 <= i < s.len() implies #[trigger] s[i] != '{' && s[i] != '}' by {
            if i > 0 {
                assert(s[i] == s.drop_first()[i - 1]);
            }
        }
    }
}

/// A braced literal: the braces at both ends and none between.
proof fn lemma_braced(q: Seq<char>)
    requires
        q.len() >= 2,
        q[0] == '{',
        q[q.len() - 1] == '}',
        no_brace_in(q.subrange(1, q.len() - 1)),
    ensures
        braced(q),
{
    let m = q.subrange(1, q.len() - 1);
    lemma_no_brace_in(m);
    assert forall|i: int| 0 < i < q.len() - 1 implies #[trigger] q[i] != '{' && q[i] != '}' by {
        assert(q[i] == m[i - 1]);
    }
}

/// The placeholders of a custom template are braced, and the long ones and
/// their aliases differ from every placeholder replaced before them.
proof fn lemma_placeholders()
    ensures
        braced("{artist}"@),
        braced("{album}"@),
        braced("{title}"@),
        braced("{track_number}"@),
        braced("{track}"@),
        braced("{disc_number}"@),
        braced("{disc}"@),
        braced("{release_date}"@),
        braced("{release_year}"@),
        braced("{year}"@),
        "{track_number}"@ != "{artist}"@ && "{track_number}"@ != "{album}"@ && "{track_number}"@
            != "{title}"@,
        "{track}"@ != "{artist}"@ && "{track}"@ != "{album}"@ && "{track}"@ != "{title}"@
            && "{track}"@ != "{track_number}"@,
        "{disc_number}"@ != "{artist}"@ && "{disc_number}"@ != "{album}"@ && "{disc_number}"@
            != "{title}"@ && "{disc_number}"@ != "{track_number}"@ && "{disc_number}"@
            != "{track}"@,
        "{disc}"@ != "{artist}"@ && "{disc}"@ != "{album}"@ && "{disc}"@ != "{title}"@
            && "{disc}"@ != "{track_number}"@ && "{disc}"@ != "{track}"@ && "{disc}"@
            != "{disc_number}"@,
        "{release_year}"@ != "{artist}"@ && "{release_year}"@ != "{album}"@ && "{release_year}"@
            != "{title}"@ && "{release_year}"@ != "{track_number}"@ && "{release_year}"@
            != "{track}"@ && "{release_year}"@ != "{disc_number}"@ && "{release_year}"@
            != "{disc}"@ && "{release_year}"@ != "{release_date}"@,
        "{year}"@ != "{artist}"@ && "{year}"@ != "{album}"@ && "{year}"@ != "{title}"@
            && "{year}"@ != "{track_number}"@ && "{year}"@ != "{track}"@ && "{year}"@
            != "{disc_number}"@ && "{year}"@ != "{disc}"@ && "{year}"@ != "{release_date}"@
            && "{year}"@ != "{release_year}"@,
{
    reveal_strlit("{artist}");
    reveal_strlit("{album}");
    reveal_strlit("{title}");
    reveal_strlit("{track_number}");
    reveal_strlit("{track}");
    reveal_strlit("{disc_number}");
    reveal_strlit("{disc}");
    reveal_strlit("{release_date}");
    reveal_strlit("{release_year}");
    reveal_strlit("{year}");
    reveal_with_fuel(no_brace_in, 14);
    lemma_braced("{artist}"@);
    lemma_braced("{album}"@);
    lemma_braced("{title}"@);
    lemma_braced("{track_number}"@);
    lemma_braced("{track}"@);
    lemma_braced("{disc_number}"@);
    lemma_braced("{disc}"@);
    lemma_braced("{release_date}"@);
    lemma_braced("{release_year}"@);
    lemma_braced("{year}"@);
    assert("{track_number}"@[1] != "{artist}"@[1]);
    assert("{track_number}"@[1] != "{album}"@[1]);
    assert("{track_number}"@[2] != "{title}"@[2]);
    assert("{track}"@[1] != "{artist}"@[1]);
    assert("{track}"@[1] != "{album}"@[1]);
    assert("{track}"@[2] != "{title}"@[2]);
    assert("{track}"@.len() != "{track_number}"@.len());
    assert("{disc_number}"@[1] != "{artist}"@[1]);
    assert("{disc_number}"@[1] != "{album}"@[1]);
    assert("{disc_number}"@[1] != "{title}"@[1]);
    assert("{disc_number}"@[1] != "{track_number}"@[1]);
    assert("{disc_number}"@[1] != "{track}"@[1]);
    assert("{disc}"@[1] != "{artist}"@[1]);
    assert("{disc}"@[1] != "{album}"@[1]);
    assert("{disc}"@[1] != "{title}"@[1]);
    assert("{disc}"@[1] != "{track_number}"@[1]);
    assert("{disc}"@[1] != "{track}"@[1]);
    assert("{disc}"@.len() != "{disc_number}"@.len());
    assert("{release_year}"@[1] != "{artist}"@[1]);
    assert("{release_year}"@[1] != "{album}"@[1]);
    assert("{release_year}"@[1] != "{title}"@[1]);
    assert("{release_year}"@[1] != "{track_number}"@[1]);
    assert("{release_year}"@[1] != "{track}"@[1]);
    assert("{release_year}"@[1] != "{disc_number}"@[1]);
    assert("{release_year}"@[1] != "{disc}"@[1]);
    assert("{release_year}"@[9] != "{release_date}"@[9]);
    assert("{year}"@[1] != "{artist}"@[1]);
    assert("{year}"@[1] != "{album}"@[1]);
    assert("{year}"@[1] != "{title}"@[1]);
    assert("{year}"@[1] != "{track_number}"@[1]);
    assert("{year}"@[1] != "{track}"@[1]);
    assert("{year}"@[1] != "{disc_number}"@[1]);
    assert("{year}"@[1] != "{disc}"@[1]);
    assert("{year}"@[1] != "{release_date}"@[1]);
    assert("{year}"@[1] != "{release_year}"@[1]);
}

/// A piece after every replacement a custom template goes through, in their
/// order.
pub open spec fn render_piece(
    s: Seq<char>,
    artist: Seq<char>,
    album: Seq<char>,
    title: Seq<char>,
    track_no: Seq<char>,
    disc_no: Seq<char>,
    date: Seq<char>,
    year: Seq<char>,
) -> Seq<char> {
    let a = swap_piece(s, "{artist}"@, artist);
    let b = swap_piece(a, "{album}"@, album);
    let c = swap_piece(b, "{title}"@, title);
    let d = swap_piece(c, "{track_number}"@, track_no);
    let e = swap_piece(d, "{track}"@, track_no);
    let f = swap_piece(e, "{disc_number}"@, disc_no);
    let g = swap_piece(f, "{disc}"@, disc_no);
    let h = swap_piece(g, "{release_date}"@, date);
    let i = swap_piece(h, "{release_year}"@, year);
    swap_piece(i, "{year}"@, year)
}

/// Text with no opening brace is none of the placeholders.
proof fn lemma_plain_differs(v: Seq<char>)
    requires
        no_open_brace(v),
    ensures
        v != "{artist}"@ && v != "{album}"@ && v != "{title}"@ && v != "{track_number}"@ && v
            != "{track}"@ && v != "{disc_number}"@ && v != "{disc}"@ && v != "{release_date}"@
            && v != "{release_year}"@ && v != "{year}"@,
{
    lemma_placeholders();
    if v.len() > 0 {
        assert(v[0] != '{');
    }
}

/// A character that no placeholder holds after its opening brace: not a
/// brace, an underscore or a lowercase ASCII letter.
pub open spec fn outside_names(c: char) -> bool {
    c != '{' && c != '}' && c != '_' && !('a' <= c && c <= 'z')
}

/// A value that cannot take part in a placeholder: not empty, no opening
/// brace, and a first character outside every placeholder's name.
pub open spec fn inert(v: Seq<char>) -> bool {
    v.len() > 0 && outside_names(v[0]) && no_open_brace(v)
}

/// Every character after the first is a name character or a closing brace.
pub open spec fn names_after_brace(p: Seq<char>) -> bool {
    forall|j: int| 1 <= j < p.len() ==> !outside_names(#[trigger] p[j]) && p[j] != '{'
}

spec fn name_chars(s: Seq<char>) -> bool
    decreases s.len(),
{
    s.len() == 0 || ((s[0] == '}' || s[0] == '_' || ('a' <= s[0] && s[0] <= 'z')) && name_chars(
        s.drop_first(),
    ))
}

proof fn lemma_name_chars_index(s: Seq<char>)
    requires
        name_chars(s),
    ensures
        forall|i: int| 0 <= i < s.len() ==> !outside_names(#[trigger] s[i]) && s[i] != '{',
    decreases s.len(),
{
    if s.len() > 0 {
        lemma_name_chars_index(s.drop_first());
        assert forall|i: int| 0 <= i < s.len() implies !outside_names(#[trigger] s[i]) && s[i]
            != '{' by {
            if i > 0 {
                assert(s[i] == s.drop_first()[i - 1]);
            }
        }
    }
}

proof fn lemma_name_chars(p: Seq<char>)
    requires
        p.len() > 0,
        name_chars(p.drop_first()),
    ensures
        names_after_brace(p),
{
    lemma_name_chars_index(p.drop_first());
    assert forall|j: int| 1 <= j < p.len() implies !outside_names(#[trigger] p[j]) && p[j]
        != '{' by {
        assert(p[j] == p.drop_first()[j - 1]);
    }
}

/// The placeholders differ from one another, and after the opening brace
/// hold only name characters and the closing brace.
proof fn lemma_placeholder_names()
    ensures
        names_after_brace("{artist}"@),
        names_after_brace("{album}"@),
        names_after_brace("{title}"@),
        names_after_brace("{track_number}"@),
        names_after_brace("{track}"@),
        names_after_brace("{disc_number}"@),
        names_after_brace("{disc}"@),
        names_after_brace("{release_date}"@),
        names_after_brace("{release_year}"@),
        names_after_brace("{year}"@),
        "{artist}"@ != "{album}"@,
        "{artist}"@ != "{title}"@,
        "{artist}"@ != "{track_number}"@,
        "{artist}"@ != "{track}"@,
        "{artist}"@ != "{disc_number}"@,
        "{artist}"@ != "{disc}"@,
        "{artist}"@ != "{release_date}"@,
        "{artist}"@ != "{release_year}"@,
        "{artist}"@ != "{year}"@,
        "{album}"@ != "{title}"@,
        "{album}"@ != "{track_number}"@,
        "{album}"@ != "{track}"@,
        "{album}"@ != "{disc_number}"@,
        "{album}"@ != "{disc}"@,
        "{album}"@ != "{release_date}"@,
        "{album}"@ != "{release_year}"@,
        "{album}"@ != "{year}"@,
        "{title}"@ != "{track_number}"@,
        "{title}"@ != "{track}"@,
        "{title}"@ != "{disc_number}"@,
        "{title}"@ != "{disc}"@,
        "{title}"@ != "{release_date}"@,
        "{title}"@ != "{release_year}"@,
        "{title}"@ != "{year}"@,
        "{track_number}"@ != "{track}"@,
        "{track_number}"@ != "{disc_number}"@,
        "{track_number}"@ != "{disc}"@,
        "{track_number}"@ != "{release_date}"@,
        "{track_number}"@ != "{release_year}"@,
        "{track_number}"@ != "{year}"@,
        "{track}"@ != "{disc_number}"@,
        "{track}"@ != "{disc}"@,
        "{track}"@ != "{release_date}"@,
        "{track}"@ != "{release_year}"@,
        "{track}"@ != "{year}"@,
        "{disc_number}"@ != "{disc}"@,
        "{disc_number}"@ != "{release_date}"@,
        "{disc_number}"@ != "{release_year}"@,
        "{disc_number}"@ != "{year}"@,
        "{disc}"@ != "{release_date}"@,
        "{disc}"@ != "{release_year}"@,
        "{disc}"@ != "{year}"@,
        "{release_date}"@ != "{release_year}"@,
        "{release_date}"@ != "{year}"@,
        "{release_year}"@ != "{year}"@,
{
    reveal_strlit("{artist}");
    reveal_strlit("{album}");
    reveal_strlit("{title}");
    reveal_strlit("{track_number}");
    reveal_strlit("{track}");
    reveal_strlit("{disc_number}");
    reveal_strlit("{disc}");
    reveal_strlit("{release_date}");
    reveal_strlit("{release_year}");
    reveal_strlit("{year}");
    reveal_with_fuel(name_chars, 14);
    lemma_name_chars("{artist}"@);
    lemma_name_chars("{album}"@);
    lemma_name_chars("{title}"@);
    lemma_name_chars("{track_number}"@);
    lemma_name_chars("{track}"@);
    lemma_name_chars("{disc_number}"@);
    lemma_name_chars("{disc}"@);
    lemma_name_chars("{release_date}"@);
    lemma_name_chars("{release_year}"@);
    lemma_name_chars("{year}"@);
    assert("{artist}"@.len() != "{album}"@.len());
    assert("{artist}"@.len() != "{title}"@.len());
    assert("{artist}"@.len() != "{track_number}"@.len());
    assert("{artist}"@.len() != "{track}"@.len());
    assert("{artist}"@.len() != "{disc_number}"@.len());
    assert("{artist}"@.len() != "{disc}"@.len());
    assert("{artist}"@.len() != "{release_date}"@.len());
    assert("{artist}"@.len() != "{release_year}"@.len());
    assert("{artist}"@.len() != "{year}"@.len());
    assert("{album}"@[1] != "{title}"@[1]);
    assert("{album}"@.len() != "{track_number}"@.len());
    assert("{album}"@[1] != "{track}"@[1]);
    assert("{album}"@.len() != "{disc_number}"@.len());
    assert("{album}"@.len() != "{disc}"@.len());
    assert("{album}"@.len() != "{release_date}"@.len());
    assert("{album}"@.len() != "{release_year}"@.len());
    assert("{album}"@.len() != "{year}"@.len());
    assert("{title}"@.len() != "{track_number}"@.len());
    assert("{title}"@[2] != "{track}"@[2]);
    assert("{title}"@.len() != "{disc_number}"@.len());
    assert("{title}"@.len() != "{disc}"@.len());
    assert("{title}"@.len() != "{release_date}"@.len());
    assert("{title}"@.len() != "{release_year}"@.len());
    assert("{title}"@.len() != "{year}"@.len());
    assert("{track_number}"@.len() != "{track}"@.len());
    assert("{track_number}"@.len() != "{disc_number}"@.len());
    assert("{track_number}"@.len() != "{disc}"@.len());
    assert("{track_number}"@[1] != "{release_date}"@[1]);
    assert("{track_number}"@[1] != "{release_year}"@[1]);
    assert("{track_number}"@.len() != "{year}"@.len());
    assert("{track}"@.len() != "{disc_number}"@.len());
    assert("{track}"@.len() != "{disc}"@.len());
    assert("{track}"@.len() != "{release_date}"@.len());
    assert("{track}"@.len() != "{release_year}"@.len());
    assert("{track}"@.len() != "{year}"@.len());
    assert("{disc_number}"@.len() != "{disc}"@.len());
    assert("{disc_number}"@.len() != "{release_date}"@.len());
    assert("{disc_number}"@.len() != "{release_year}"@.len());
    assert("{disc_number}"@.len() != "{year}"@.len());
    assert("{disc}"@.len() != "{release_date}"@.len());
    assert("{disc}"@.len() != "{release_year}"@.len());
    assert("{disc}"@[1] != "{year}"@[1]);
    assert("{release_date}"@[9] != "{release_year}"@[9]);
    assert("{release_date}"@.len() != "{year}"@.len());
    assert("{release_year}"@.len() != "{year}"@.len());
}

/// A replacement whose pattern cannot continue into the first character of
/// `z` treats `x` and `z` apart.
proof fn lemma_replace_barrier(x: Seq<char>, z: Seq<char>, p: Seq<char>, r: Seq<char>)
    requires
        z.len() > 0,
        p.len() > 0,
        forall|j: int| 1 <= j < p.len() ==> #[trigger] p[j] != z[0],
    ensures
        replace_all(x + z, p, r) == replace_all(x, p, r) + replace_all(z, p, r),
    decreases x.len(),
{
    let s = x + z;
    if x.len() == 0 {
        assert(s =~= z);
        assert(replace_all(x, p, r) == x);
        assert(x + replace_all(z, p, r) =~= replace_all(z, p, r));
    } else if s.len() < p.len() {
        assert(replace_all(x, p, r) == x);
        assert(replace_all(z, p, r) == z);
    } else {
        let w = s.take(p.len() as int);
        if w == p {
            if p.len() > x.len() {
                assert(w[x.len() as int] == z[0]);
                assert(false);
            }
            assert(x.take(p.len() as int) =~= w);
            assert(s.skip(p.len() as int) =~= x.skip(p.len() as int) + z);
            lemma_replace_barrier(x.skip(p.len() as int), z, p, r);
            assert(r + (replace_all(x.skip(p.len() as int), p, r) + replace_all(z, p, r))
                =~= (r + replace_all(x.skip(p.len() as int), p, r)) + replace_all(z, p, r));
        } else {
            assert(s.drop_first() =~= x.drop_first() + z);
            lemma_replace_barrier(x.drop_first(), z, p, r);
            if x.len() >= p.len() {
                assert(x.take(p.len() as int) =~= w);
            } else {
                assert(replace_all(x.drop_first(), p, r) == x.drop_first());
                assert(replace_all(x, p, r) == x);
                assert(seq![x[0]] + x.drop_first() =~= x);
            }
            assert(seq![s[0]] + (replace_all(x.drop_first(), p, r) + replace_all(z, p, r))
                =~= (seq![x[0]] + replace_all(x.drop_first(), p, r)) + replace_all(z, p, r));
        }
    }
}

/// A piece that is a placeholder, or a value that cannot take part in one,
/// splits a replacement in three: before it, the piece itself, after it.
proof fn lemma_step_split(x: Seq<char>, m: Seq<char>, y: Seq<char>, p: Seq<char>, r: Seq<char>)
    requires
        braced(p),
        names_after_brace(p),
        braced(m) || inert(m),
    ensures
        replace_all(x + m + y, p, r) == replace_all(x, p, r) + swap_piece(m, p, r) + replace_all(
            y,
            p,
            r,
        ),
{
    let z = m + y;
    assert(x + m + y =~= x + z);
    assert(z[0] == m[0]);
    assert forall|j: int| 1 <= j < p.len() implies #[trigger] p[j] != z[0] by {
        if braced(m) {
            assert(m[0] == '{');
        }
    }
    lemma_replace_barrier(x, z, p, r);
    if braced(m) {
        lemma_replace_piece(m, y, p, r);
    } else {
        assert(m != p) by {
            assert(m[0] != p[0]);
        }
        lemma_replace_skips_plain(m, y, p, r);
    }
    assert(replace_all(x, p, r) + (swap_piece(m, p, r) + replace_all(y, p, r)) =~= replace_all(
        x,
        p,
        r,
    ) + swap_piece(m, p, r) + replace_all(y, p, r));
}

/// Whether a piece is a long placeholder or one of their aliases.
pub open spec fn number_token(m: Seq<char>) -> bool {
    ||| m == "{track_number}"@
    ||| m == "{track}"@
    ||| m == "{disc_number}"@
    ||| m == "{disc}"@
    ||| m == "{release_year}"@
    ||| m == "{year}"@
}

/// Rendering a template splits around a long placeholder or an alias, when
/// the numbers and the year cannot take part in a placeholder.
proof fn lemma_render_split(
    x: Seq<char>,
    m: Seq<char>,
    y: Seq<char>,
    artist: Seq<char>,
    album: Seq<char>,
    title: Seq<char>,
    track_no: Seq<char>,
    disc_no: Seq<char>,
    date: Seq<char>,
    year: Seq<char>,
)
    requires
        number_token(m),
        inert(track_no),
        inert(disc_no),
        inert(year),
    ensures
        render_template(x + m + y, artist, album, title, track_no, disc_no, date, year)
            == render_template(x, artist, album, title, track_no, disc_no, date, year) + render_piece(
            m,
            artist,
            album,
            title,
            track_no,
            disc_no,
            date,
            year,
        ) + render_template(y, artist, album, title, track_no, disc_no, date, year),
{
    lemma_placeholders();
    lemma_placeholder_names();
    lemma_plain_differs(track_no);
    lemma_plain_differs(disc_no);
    lemma_plain_differs(year);
    let m1 = swap_piece(m, "{artist}"@, artist);
    lemma_step_split(x, m, y, "{artist}"@, artist);
    let x1 = replace_all(x, "{artist}"@, artist);
    let y1 = replace_all(y, "{artist}"@, artist);
    let m2 = swap_piece(m1, "{album}"@, album);
    lemma_step_split(x1, m1, y1, "{album}"@, album);
    let x2 = replace_all(x1, "{album}"@, album);
    let y2 = replace_all(y1, "{album}"@, album);
    let m3 = swap_piece(m2, "{title}"@, title);
    lemma_step_split(x2, m2, y2, "{title}"@, title);
    let x3 = replace_all(x2, "{title}"@, title);
    let y3 = replace_all(y2, "{title}"@, title);
    let m4 = swap_piece(m3, "{track_number}"@, track_no);
    lemma_step_split(x3, m3, y3, "{track_number}"@, track_no);
    let x4 = replace_all(x3, "{track_number}"@, track_no);
    let y4 = replace_all(y3, "{track_number}"@, track_no);
    let m5 = swap_piece(m4, "{track}"@, track_no);
    lemma_step_split(x4, m4, y4, "{track}"@, track_no);
    let x5 = replace_all(x4, "{track}"@, track_no);
    let y5 = replace_all(y4, "{track}"@, track_no);
    let m6 = swap_piece(m5, "{disc_number}"@, disc_no);
    lemma_step_split(x5, m5, y5, "{disc_number}"@, disc_no);
    let x6 = replace_all(x5, "{disc_number}"@, disc_no);
    let y6 = replace_all(y5, "{disc_number}"@, disc_no);
    let m7 = swap_piece(m6, "{disc}"@, disc_no);
    lemma_step_split(x6, m6, y6, "{disc}"@, disc_no);
    let x7 = replace_all(x6, "{disc}"@, disc_no);
    let y7 = replace_all(y6, "{disc}"@, disc_no);
    let m8 = swap_piece(m7, "{release_date}"@, date);
    lemma_step_split(x7, m7, y7, "{release_date}"@, date);
    let x8 = replace_all(x7, "{release_date}"@, date);
    let y8 = replace_all(y7, "{release_date}"@, date);
    let m9 = swap_piece(m8, "{release_year}"@, year);
    lemma_step_split(x8, m8, y8, "{release_year}"@, year);
    let x9 = replace_all(x8, "{release_year}"@, year);
    let y9 = replace_all(y8, "{release_year}"@, year);
    lemma_step_split(x9, m9, y9, "{year}"@, year);
}

/// The template with the long placeholders written as their aliases.
pub open spec fn alias_text(t: Seq<char>) -> Seq<char> {
    replace_all(
        replace_all(replace_all(t, "{track_number}"@, "{track}"@), "{disc_number}"@, "{disc}"@),
        "{release_year}"@,
        "{year}"@,
    )
}

/// The long placeholder that starts at `i`, if one does.
pub open spec fn long_at(t: Seq<char>, i: int) -> Option<Seq<char>> {
    if 0 <= i && i + 14 <= t.len() && t.subrange(i, i + 14) == "{track_number}"@ {
        Some("{track_number}"@)
    } else if 0 <= i && i + 13 <= t.len() && t.subrange(i, i + 13) == "{disc_number}"@ {
        Some("{disc_number}"@)
    } else if 0 <= i && i + 14 <= t.len() && t.subrange(i, i + 14) == "{release_year}"@ {
        Some("{release_year}"@)
    } else {
        None
    }
}

/// Where the first long placeholder at or after `i` starts.
pub open spec fn first_long(t: Seq<char>, i: nat) -> Option<nat>
    decreases t.len() - i,
{
    if i >= t.len() {
        None
    } else if long_at(t, i as int) is Some {
        Some(i)
    } else {
        first_long(t, i + 1)
    }
}

proof fn lemma_first_long(t: Seq<char>, i: nat)
    ensures
        first_long(t, i) matches Some(o) ==> i <= o < t.len() && long_at(t, o as int) is Some
            && forall|k: int| i <= k < o ==> #[trigger] long_at(t, k) is None,
        first_long(t, i) is None ==> forall|k: int| i <= k < t.len() ==> #[trigger] long_at(t, k)
            is None,
    decreases t.len() - i,
{
    if i < t.len() && long_at(t, i as int) is None {
        lemma_first_long(t, i + 1);
    }
}

/// A pattern that occurs nowhere leaves the text as it is.
proof fn lemma_replace_absent(x: Seq<char>, p: Seq<char>, r: Seq<char>)
    requires
        p.len() > 0,
        forall|i: int| 0 <= i && i + p.len() <= x.len() ==> #[trigger] x.subrange(i, i + p.len()) != p,
    ensures
        replace_all(x, p, r) == x,
    decreases x.len(),
{
    if x.len() >= p.len() {
        assert(x.subrange(0int, 0int + p.len()) != p);
        assert(x.take(p.len() as int) =~= x.subrange(0int, 0int + p.len()));
        let d = x.drop_first();
        assert forall|i: int| 0 <= i && i + p.len() <= d.len() implies #[trigger] d.subrange(
            i,
            i + p.len(),
        ) != p by {
            assert(d.subrange(i, i + p.len()) =~= x.subrange(i + 1, i + 1 + p.len()));
        }
        lemma_replace_absent(d, p, r);
        assert(seq![x[0]] + d =~= x);
    }
}

/// Text with no long placeholder in it is left alone by the aliasing.
proof fn lemma_alias_absent(x: Seq<char>)
    requires
        forall|k: int| 0 <= k < x.len() ==> #[trigger] long_at(x, k) is None,
    ensures
        alias_text(x) == x,
{
    lemma_placeholder_names();
    reveal_strlit("{track_number}");
    reveal_strlit("{disc_number}");
    reveal_strlit("{release_year}");
    assert forall|i: int| 0 <= i && i + 14 <= x.len() implies #[trigger] x.subrange(i, i + 14)
        != "{track_number}"@ by {
        assert(long_at(x, i) is None);
    }
    lemma_replace_absent(x, "{track_number}"@, "{track}"@);
    assert forall|i: int| 0 <= i && i + 13 <= x.len() implies #[trigger] x.subrange(i, i + 13)
        != "{disc_number}"@ by {
        assert(long_at(x, i) is None);
    }
    lemma_replace_absent(x, "{disc_number}"@, "{disc}"@);
    assert forall|i: int| 0 <= i && i + 14 <= x.len() implies #[trigger] x.subrange(i, i + 14)
        != "{release_year}"@ by {
        assert(long_at(x, i) is None);
    }
    lemma_replace_absent(x, "{release_year}"@, "{year}"@);
}

/// Aliasing splits around the first long placeholder.
proof fn lemma_alias_split(x: Seq<char>, m: Seq<char>, y: Seq<char>)
    requires
        forall|k: int| 0 <= k < x.len() ==> #[trigger] long_at(x, k) is None,
        m == "{track_number}"@ || m == "{disc_number}"@ || m == "{release_year}"@,
    ensures
        alias_text(x + m + y) == x + alias_piece(m) + alias_text(y),
{
    lemma_placeholders();
    lemma_placeholder_names();
    lemma_alias_absent(x);
    let p1 = "{track_number}"@;
    let p2 = "{disc_number}"@;
    let p3 = "{release_year}"@;
    let x1 = replace_all(x, p1, "{track}"@);
    let x2 = replace_all(x1, p2, "{disc}"@);
    let m1 = swap_piece(m, p1, "{track}"@);
    let m2 = swap_piece(m1, p2, "{disc}"@);
    let y1 = replace_all(y, p1, "{track}"@);
    let y2 = replace_all(y1, p2, "{disc}"@);
    lemma_step_split(x, m, y, p1, "{track}"@);
    lemma_step_split(x1, m1, y1, p2, "{disc}"@);
    lemma_step_split(x2, m2, y2, p3, "{year}"@);
}

/// The aliases `{track}`, `{disc}` and `{year}` stand for `{track_number}`,
/// `{disc_number}` and `{release_year}`: for any template, writing the long
/// placeholders as their aliases renders the same, given a track number, a
/// disc number and a year that cannot take part in a placeholder (not
/// empty, no opening brace, and not starting with a brace, an underscore or
/// a lowercase letter).
pub proof fn lemma_template_aliases(
    t: Seq<char>,
    artist: Seq<char>,
    album: Seq<char>,
    title: Seq<char>,
    track_no: Seq<char>,
    disc_no: Seq<char>,
    date: Seq<char>,
    year: Seq<char>,
)
    requires
        inert(track_no),
        inert(disc_no),
        inert(year),
    ensures
        render_template(alias_text(t), artist, album, title, track_no, disc_no, date, year)
            == render_template(t, artist, album, title, track_no, disc_no, date, year),
    decreases t.len(),
{
    lemma_first_long(t, 0);
    match first_long(t, 0) {
        None => {
            lemma_alias_absent(t);
        },
        Some(o) => {
            let m = long_at(t, o as int)->0;
            lemma_placeholders();
            reveal_strlit("{track_number}");
            reveal_strlit("{disc_number}");
            reveal_strlit("{release_year}");
            let x = t.take(o as int);
            let y = t.skip(o as int + m.len());
            assert(t.subrange(o as int, o as int + m.len()) == m);
            assert(t =~= x + m + y);
            assert forall|k: int| 0 <= k < x.len() implies #[trigger] long_at(x, k) is None by {
                assert(long_at(t, k) is None);
                if k + 13 <= x.len() {
                    assert(x.subrange(k, k + 13) =~= t.subrange(k, k + 13));
                }
                if k + 14 <= x.len() {
                    assert(x.subrange(k, k + 14) =~= t.subrange(k, k + 14));
                }
            }
            lemma_alias_split(x, m, y);
            lemma_template_aliases(y, artist, album, title, track_no, disc_no, date, year);
            lemma_render_split(x, m, y, artist, album, title, track_no, disc_no, date, year);
            lemma_render_split(
                x,
                alias_piece(m),
                alias_text(y),
                artist,
                album,
                title,
                track_no,
                disc_no,
                date,
                year,
            );
            lemma_plain_differs(track_no);
            lemma_plain_differs(disc_no);
            lemma_plain_differs(year);
            lemma_placeholder_names();
        },
    }
}

/// Aliasing leaves text with no opening brace in front alone.
proof fn lemma_alias_plain_prefix(w: Seq<char>, z: Seq<char>)
    requires
        no_open_brace(w),
    ensures
        alias_text(w + z) == w + alias_text(z),
{
    lemma_placeholders();
    let z1 = replace_all(z, "{track_number}"@, "{track}"@);
    let z2 = replace_all(z1, "{disc_number}"@, "{disc}"@);
    lemma_replace_skips_plain(w, z, "{track_number}"@, "{track}"@);
    lemma_replace_skips_plain(w, z1, "{disc_number}"@, "{disc}"@);
    lemma_replace_skips_plain(w, z2, "{release_year}"@, "{year}"@);
}

/// The whitespace characters are outside every placeholder's name.
proof fn lemma_ws_outside(w: Seq<char>)
    requires
        forall|k: int| 0 <= k < w.len() ==> is_ws(#[trigger] w[k]),
    ensures
        forall|k: int| 0 <= k < w.len() ==> outside_names(#[trigger] w[k]),
        no_open_brace(w),
{
}

/// Aliasing leaves whitespace at the end alone.
proof fn lemma_alias_ws_suffix(z: Seq<char>, w: Seq<char>)
    requires
        w.len() > 0,
        forall|k: int| 0 <= k < w.len() ==> is_ws(#[trigger] w[k]),
    ensures
        alias_text(z + w) == alias_text(z) + w,
{
    lemma_placeholders();
    lemma_placeholder_names();
    lemma_ws_outside(w);
    assert(is_ws(w[0]));
    let e = Seq::<char>::empty();
    assert(w + e =~= w);
    let p1 = "{track_number}"@;
    let p2 = "{disc_number}"@;
    let p3 = "{release_year}"@;
    assert forall|j: int| 1 <= j < p1.len() implies #[trigger] p1[j] != w[0] by {
        assert(!outside_names(p1[j]));
    }
    assert forall|j: int| 1 <= j < p2.len() implies #[trigger] p2[j] != w[0] by {
        assert(!outside_names(p2[j]));
    }
    assert forall|j: int| 1 <= j < p3.len() implies #[trigger] p3[j] != w[0] by {
        assert(!outside_names(p3[j]));
    }
    let z1 = replace_all(z, p1, "{track}"@);
    let z2 = replace_all(z1, p2, "{disc}"@);
    lemma_replace_barrier(z, w, p1, "{track}"@);
    lemma_replace_skips_plain(w, e, p1, "{track}"@);
    lemma_replace_barrier(z1, w, p2, "{disc}"@);
    lemma_replace_skips_plain(w, e, p2, "{disc}"@);
    lemma_replace_barrier(z2, w, p3, "{year}"@);
    lemma_replace_skips_plain(w, e, p3, "{year}"@);
}

/// Aliasing keeps a text's ends: its first character, or an opening brace;
/// its last character, or a closing brace.
proof fn lemma_alias_ends(c: Seq<char>)
    requires
        c.len() > 0,
    ensures
        alias_text(c).len() > 0,
        alias_text(c)[0] == c[0] || alias_text(c)[0] == '{',
        alias_text(c).last() == c.last() || alias_text(c).last() == '}',
    decreases c.len(),
{
    lemma_first_long(c, 0);
    match first_long(c, 0) {
        None => {
            lemma_alias_absent(c);
        },
        Some(o) => {
            let m = long_at(c, o as int)->0;
            lemma_placeholders();
            reveal_strlit("{track_number}");
            reveal_strlit("{disc_number}");
            reveal_strlit("{release_year}");
            reveal_strlit("{track}");
            reveal_strlit("{disc}");
            reveal_strlit("{year}");
            let x = c.take(o as int);
            let y = c.skip(o as int + m.len());
            assert(c.subrange(o as int, o as int + m.len()) == m);
            assert(c =~= x + m + y);
            assert forall|k: int| 0 <= k < x.len() implies #[trigger] long_at(x, k) is None by {
                assert(long_at(c, k) is None);
                if k + 13 <= x.len() {
                    assert(x.subrange(k, k + 13) =~= c.subrange(k, k + 13));
                }
                if k + 14 <= x.len() {
                    assert(x.subrange(k, k + 14) =~= c.subrange(k, k + 14));
                }
            }
            lemma_alias_split(x, m, y);
            let a = alias_piece(m);
            let r = x + a + alias_text(y);
            assert(a.len() > 0 && a[0] == '{' && a.last() == '}');
            if x.len() > 0 {
                assert(r[0] == x[0]);
                assert(c[0] == x[0]);
            } else {
                assert(r[0] == a[0]);
            }
            if y.len() > 0 {
                lemma_alias_ends(y);
                assert(r.last() == alias_text(y).last());
                assert(c.last() == y.last());
            } else {
                assert(alias_text(y) =~= y) by {
                    lemma_alias_absent(y);
                }
                assert(r.last() == a.last());
            }
        },
    }
}

spec fn lead_ws(s: Seq<char>) -> nat
    decreases s.len(),
{
    if s.len() > 0 && is_ws(s[0]) {
        1 + lead_ws(s.drop_first())
    } else {
        0
    }
}

proof fn lemma_lead_ws(s: Seq<char>)
    ensures
        lead_ws(s) <= s.len(),
        forall|k: int| 0 <= k < lead_ws(s) ==> is_ws(#[trigger] s[k]),
        lead_ws(s) < s.len() ==> !is_ws(s[lead_ws(s) as int]),
    decreases s.len(),
{
    if s.len() > 0 && is_ws(s[0]) {
        let t = s.drop_first();
        lemma_lead_ws(t);
        assert forall|k: int| 0 <= k < lead_ws(s) implies is_ws(#[trigger] s[k]) by {
            if k > 0 {
                assert(s[k] == t[k - 1]);
            }
        }
        if lead_ws(s) < s.len() {
            assert(s[lead_ws(s) as int] == t[lead_ws(t) as int]);
        }
    }
}

spec fn trail_ws(s: Seq<char>) -> nat
    decreases s.len(),
{
    if s.len() > 0 && is_ws(s.last()) {
        1 + trail_ws(s.drop_last())
    } else {
        0
    }
}

proof fn lemma_trail_ws(s: Seq<char>)
    ensures
        trail_ws(s) <= s.len(),
        forall|k: int| s.len() - trail_ws(s) <= k < s.len() ==> is_ws(#[trigger] s[k]),
        trail_ws(s) < s.len() ==> !is_ws(s[s.len() - trail_ws(s) - 1]),
    decreases s.len(),
{
    if s.len() > 0 && is_ws(s.last()) {
        let t = s.drop_last();
        lemma_trail_ws(t);
        assert forall|k: int| s.len() - trail_ws(s) <= k < s.len() implies is_ws(#[trigger] s[k]) by {
            if k < s.len() - 1 {
                assert(s[k] == t[k]);
            }
        }
        if trail_ws(s) < s.len() {
            assert(s[s.len() - trail_ws(s) - 1] == t[t.len() - trail_ws(t) - 1]);
        }
    }
}

/// Trimming and aliasing can be done in either order, and a template is
/// blank after the aliasing exactly when it was before.
proof fn lemma_alias_trim(s: Seq<char>)
    ensures
        trim_ws(alias_text(s)) == alias_text(trim_ws(s)),
        trim_ws(alias_text(s)).len() == 0 <==> trim_ws(s).len() == 0,
{
    lemma_placeholders();
    lemma_lead_ws(s);
    let i = lead_ws(s) as int;
    let u = s.skip(i);
    lemma_trail_ws(u);
    let j = u.len() - trail_ws(u);
    let l = s.take(i);
    let c = u.take(j);
    let r = u.skip(j);
    assert(s =~= l + (c + r));
    assert forall|k: int| 0 <= k < l.len() implies is_ws(#[trigger] l[k]) by {
        assert(l[k] == s[k]);
    }
    assert forall|k: int| 0 <= k < r.len() implies is_ws(#[trigger] r[k]) by {
        assert(r[k] == u[k + j]);
    }
    lemma_ws_outside(l);
    lemma_ws_outside(r);
    lemma_strip_front_at(false, s, i);
    assert forall|k: int| j <= k < u.len() implies trimmed_char(false, #[trigger] u[k]) by {}
    if j > 0 {
        assert(u[j - 1] == s[i + j - 1]);
    }
    lemma_strip_back_at(false, u, j);
    assert(trim_ws(s) == c);
    lemma_alias_plain_prefix(l, c + r);
    if r.len() > 0 {
        lemma_alias_ws_suffix(c, r);
    } else {
        assert(c + r =~= c);
        assert(alias_text(c) + r =~= alias_text(c));
    }
    let a = alias_text(c);
    let t = l + a + r;
    assert(alias_text(s) == t) by {
        assert(l + (a + r) =~= t);
    }
    if c.len() == 0 {
        assert(a == c) by {
            lemma_alias_absent(c);
        }
        assert(t =~= l + r);
        lemma_strip_front_at(false, t, t.len() as int);
        assert(t.skip(t.len() as int) =~= Seq::<char>::empty());
        lemma_strip_back_at(false, Seq::<char>::empty(), 0);
    } else {
        assert(!is_ws(c[0])) by {
            assert(c[0] == s[i]);
        }
        assert(!is_ws(c.last())) by {
            assert(c.last() == u[j - 1]);
        }
        lemma_alias_ends(c);
        assert forall|k: int| 0 <= k < l.len() implies trimmed_char(false, #[trigger] t[k]) by {
            assert(t[k] == l[k]);
        }
        assert(t[l.len() as int] == a[0]);
        lemma_strip_front_at(false, t, l.len() as int);
        let v = t.skip(l.len() as int);
        assert(v =~= a + r);
        assert forall|k: int| a.len() <= k < v.len() implies trimmed_char(false, #[trigger] v[k]) by {
            assert(v[k] == r[k - a.len()]);
        }
        assert(v[a.len() - 1] == a.last());
        lemma_strip_back_at(false, v, a.len() as int);
        assert(v.take(a.len() as int) =~= a);
    }
}

/// The track number and the disc number of a custom template are digits,
/// which cannot take part in a placeholder.
proof fn lemma_number_texts_inert(d: &TrackData)
    ensures
        inert(track_number_text(d)),
        inert(disc_number_text(d)),
{
    reveal_strlit("00");
    reveal_strlit("1");
    match scalar_u32_spec(&d.track_number) {
        Some(n) => {
            lemma_decimal_digits(n as nat);
            let s = decimal2(n as nat);
            if n < 10 {
                lemma_digit_char(n as nat);
            }
            assert forall|i: int| 0 <= i < s.len() implies #[trigger] s[i] != '{' by {
                if n >= 10 {
                    assert(is_digit(s[i]));
                }
            }
        },
        None => {},
    }
    match scalar_u32_spec(&d.disk_number) {
        Some(n) => {
            lemma_decimal_digits(n as nat);
            let s = decimal(n as nat);
            assert(is_digit(s[0]));
            assert forall|i: int| 0 <= i < s.len() implies #[trigger] s[i] != '{' by {
                assert(is_digit(s[i]));
            }
        },
        None => {},
    }
}

/// The aliases in a custom folder template: writing `{track_number}`,
/// `{disc_number}` and `{release_year}` as `{track}`, `{disc}` and `{year}`
/// lays a download out the same, whatever else the template holds, when the
/// release year cannot take part in a placeholder (it is not empty, holds no
/// opening brace and does not start with a brace, an underscore or a
/// lowercase letter).
pub proof fn lemma_download_aliases(
    custom: Seq<char>,
    artist: Seq<char>,
    album: Seq<char>,
    title: Seq<char>,
    d: &TrackData,
    ext: Seq<char>,
)
    requires
        inert(release_year_spec(release_date_spec(d))),
    ensures
        download_layout(FolderStructure::Custom, alias_text(custom), artist, album, title, d, ext)
            == download_layout(FolderStructure::Custom, custom, artist, album, title, d, ext),
{
    lemma_alias_trim(custom);
    lemma_number_texts_inert(d);
    let date = release_date_spec(d);
    if trim_ws(custom).len() > 0 {
        lemma_template_aliases(
            trim_ws(custom),
            artist,
            album,
            title,
            track_number_text(d),
            disc_number_text(d),
            date,
            release_year_spec(date),
        );
    }
}

/// The date of a custom template: the physical release date whenever it is
/// present and not empty; else the digital one when present; else "Unknown
/// Date".
pub proof fn lemma_release_date_choice(d: &TrackData)
    ensures
        (d.physical_release_date matches Some(p) && p@.len() > 0) ==> release_date_spec(d)
            == d.physical_release_date->0@,
        !(d.physical_release_date matches Some(p) && p@.len() > 0) ==> release_date_spec(d) == (
        match d.digital_release_date {
            Some(g) => g@,
            None => "Unknown Date"@,
        }),
{
}

/// With a physical release date, the digital one plays no part in where a
/// download goes: two tracks that differ only in their digital release date
/// are laid out alike.
pub proof fn lemma_digital_date_unused(
    fs: FolderStructure,
    custom: Seq<char>,
    artist: Seq<char>,
    album: Seq<char>,
    title: Seq<char>,
    d1: &TrackData,
    d2: &TrackData,
    ext: Seq<char>,
)
    requires
        d1.physical_release_date matches Some(p) && p@.len() > 0,
        d2.physical_release_date == d1.physical_release_date,
        d2.track_number == d1.track_number,
        d2.disk_number == d1.disk_number,
    ensures
        download_layout(fs, custom, artist, album, title, d1, ext) == download_layout(
            fs,
            custom,
            artist,
            album,
            title,
            d2,
            ext,
        ),
{
    lemma_release_date_choice(d1);
    lemma_release_date_choice(d2);
}

// ---------------------------------------------------------------------------
// Showing a folder in Explorer
// ---------------------------------------------------------------------------

/// A folder's path as Explorer is given it: forward slashes turned into
/// backslashes, and the verbatim prefix `\\?\` removed.
pub open spec fn explorer_path_spec(dir: Seq<char>) -> Seq<char> {
    let r = replace_all(dir, seq!['/'], seq!['\\']);
    if has_prefix(r, seq!['\\', '\\', '?', '\\']) {
        r.skip(4)
    } else {
        r
    }
}

/// The path handed to Explorer to open a folder.
pub fn explorer_path(dir: &str) -> (r: String)
    ensures
        r@ == explorer_path_spec(dir@),
{
    let v = chars_of(dir);
    let slash = vec!['/'];
    let backslash = vec!['\\'];
    let r = replace_chars(v.as_slice(), slash.as_slice(), backslash.as_slice());
    let verbatim = vec!['\\', '\\', '?', '\\'];
    assert(slash@ =~= seq!['/']);
    assert(backslash@ =~= seq!['\\']);
    assert(verbatim@ =~= seq!['\\', '\\', '?', '\\']);
    if starts_with(r.as_slice(), verbatim.as_slice()) {
        let mut out: Vec<char> = Vec::new();
        let mut i: usize = 4;
        while i < r.len()
            invariant
                4 <= i <= r.len(),
                out@ == r@.subrange(4, i as int),
            decreases r.len() - i,
        {
            out.push(r[i]);
            i += 1;
        }
        assert(out@ =~= r@.skip(4));
        string_of(out.as_slice())
    } else {
        string_of(r.as_slice())
    }
}

} // verus!
