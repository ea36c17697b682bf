use deezy::mp3::{apply_mp3_edits, mp3_fields, tag_mp3_download};
use deezy::tags::{
    apply_flac_edits, audio_format, flac_file_tags, mp3_file_tags, tag_flac_download,
    AlbumTagInfo, AudioFormat, Mp3Fields, WriteTagData,
};
use deezy::track::{FieldValue, TrackData};
use id3::TagLike;

const PNG: [u8; 6] = [0x89, 0x50, 0x4E, 0x47, 0x0D, 0x0A];
const JPEG: [u8; 4] = [0xFF, 0xD8, 0xFF, 0xE0];

fn edits() -> WriteTagData {
    WriteTagData {
        title: Some("Title".to_string()),
        artist: Some("Artist".to_string()),
        album: Some("Album".to_string()),
        album_artist: Some("Album Artist".to_string()),
        year: Some(2001),
        track: Some(3),
        total_tracks: Some(12),
        disc: Some(1),
        total_discs: None,
        genre: Some("House".to_string()),
        label: Some("Virgin".to_string()),
        comment: Some("Nice".to_string()),
        new_cover_path: None,
        remove_cover: false,
    }
}

fn first(tag: &metaflac::Tag, key: &str) -> Option<String> {
    tag.get_vorbis(key).and_then(|mut v| v.next()).map(|s| s.to_string())
}

#[test]
fn audio_formats_by_extension() {
    assert_eq!(audio_format("mp3"), Ok(AudioFormat::Mp3));
    assert_eq!(audio_format("MP3"), Ok(AudioFormat::Mp3));
    assert_eq!(audio_format("FlAc"), Ok(AudioFormat::Flac));
    assert_eq!(audio_format("WAV"), Err("Unsupported file format: wav".to_string()));
    assert_eq!(audio_format(""), Err("Unsupported file format: ".to_string()));
}

#[test]
fn flac_edits_set_comments_and_cover() {
    let mut tag = metaflac::Tag::new();
    tag.set_vorbis("TITLE", vec!["Old"]);
    tag.set_vorbis("MOOD", vec!["calm"]);
    apply_flac_edits(&mut tag, &edits(), Some(PNG.to_vec()));
    assert_eq!(first(&tag, "TITLE").as_deref(), Some("Title"));
    assert_eq!(first(&tag, "ALBUMARTIST").as_deref(), Some("Album Artist"));
    assert_eq!(first(&tag, "DATE").as_deref(), Some("2001"));
    assert_eq!(first(&tag, "TRACKNUMBER").as_deref(), Some("3"));
    assert_eq!(first(&tag, "TOTALTRACKS").as_deref(), Some("12"));
    assert_eq!(first(&tag, "TOTALDISCS"), None);
    assert_eq!(first(&tag, "LABEL").as_deref(), Some("Virgin"));
    assert_eq!(first(&tag, "COMMENT").as_deref(), Some("Nice"));
    assert_eq!(first(&tag, "MOOD").as_deref(), Some("calm"));
    let pics: Vec<_> = tag.pictures().collect();
    assert_eq!(pics.len(), 1);
    assert_eq!(pics[0].mime_type, "image/png");
    assert_eq!(pics[0].picture_type, metaflac::block::PictureType::CoverFront);
    assert_eq!(pics[0].data, PNG.to_vec());

    apply_flac_edits(&mut tag, &edits(), Some(JPEG.to_vec()));
    let pics: Vec<_> = tag.pictures().collect();
    assert_eq!(pics.len(), 1);
    assert_eq!(pics[0].mime_type, "image/jpeg");

    let mut remove = edits();
    remove.remove_cover = true;
    apply_flac_edits(&mut tag, &remove, Some(PNG.to_vec()));
    assert_eq!(tag.pictures().count(), 0);
}

#[test]
fn flac_tags_as_the_editor_shows_them() {
    let mut tag = metaflac::Tag::new();
    tag.set_vorbis("TITLE", vec!["Title", "Second"]);
    tag.set_vorbis("DATE", vec!["2001-03-12"]);
    tag.set_vorbis("TRACKNUMBER", vec!["4"]);
    tag.set_vorbis("TRACKTOTAL", vec!["14"]);
    tag.set_vorbis("DISCNUMBER", vec!["x"]);
    tag.add_picture("image/png", metaflac::block::PictureType::Other, PNG.to_vec());
    let d = flac_file_tags("/m/a.flac".to_string(), &tag).unwrap();
    assert_eq!(d.file_path, "/m/a.flac");
    assert_eq!(d.format, "flac");
    assert_eq!(d.title.as_deref(), Some("Title"));
    assert_eq!(d.artist, None);
    assert_eq!(d.year, Some(2001));
    assert_eq!(d.track, Some(4));
    assert_eq!(d.total_tracks, Some(14));
    assert_eq!(d.disc, None);
    assert_eq!(d.total_discs, None);
    assert_eq!(d.cover_data.as_deref(), Some("iVBORw0K"));
    assert_eq!(d.cover_mime.as_deref(), Some("image/png"));

    tag.set_vorbis("TOTALTRACKS", vec!["oops"]);
    assert_eq!(flac_file_tags(String::new(), &tag).unwrap().total_tracks, None);
    tag.set_vorbis("DATE", vec!["99"]);
    assert_eq!(flac_file_tags(String::new(), &tag).unwrap().year, Some(99));
    tag.set_vorbis("DATE", vec!["222\u{e9}"]);
    assert!(flac_file_tags(String::new(), &tag).is_none());
}

#[test]
fn mp3_edits_replace_the_edited_frames() {
    let mut tag = id3::Tag::new();
    tag.set_title("Old");
    tag.set_text("TBPM", "120");
    tag.add_frame(id3::Frame::with_content("TPUB", id3::Content::Text("Old label".to_string())));
    apply_mp3_edits(&mut tag, &edits(), Some(JPEG.to_vec()));
    assert_eq!(tag.title(), Some("Title"));
    assert_eq!(tag.artist(), Some("Artist"));
    assert_eq!(tag.album(), Some("Album"));
    assert_eq!(tag.album_artist(), Some("Album Artist"));
    assert_eq!(tag.year(), Some(2001));
    assert_eq!(tag.track(), Some(3));
    assert_eq!(tag.total_tracks(), Some(12));
    assert_eq!(tag.disc(), Some(1));
    assert_eq!(tag.genre(), Some("House"));
    assert_eq!(tag.get("TBPM").and_then(|f| f.content().text()), Some("120"));
    let labels: Vec<_> = tag.frames().filter(|f| f.id() == "TPUB").collect();
    assert_eq!(labels.len(), 1);
    assert_eq!(labels[0].content().text(), Some("Virgin"));
    assert_eq!(tag.comments().next().map(|c| c.text.clone()).as_deref(), Some("Nice"));
    let pics: Vec<_> = tag.pictures().collect();
    assert_eq!(pics.len(), 1);
    assert_eq!(pics[0].mime_type, "image/jpeg");
    assert_eq!(pics[0].picture_type, id3::frame::PictureType::CoverFront);

    let mut remove = edits();
    remove.remove_cover = true;
    apply_mp3_edits(&mut tag, &remove, None);
    assert_eq!(tag.pictures().count(), 0);
}

#[test]
fn mp3_tags_as_the_editor_shows_them() {
    let fields = Mp3Fields {
        title: Some("T".to_string()),
        artist: None,
        album: None,
        album_artist: None,
        year: Some(1997),
        track: Some(2),
        total_tracks: None,
        disc: None,
        total_discs: None,
        genre: None,
        label: Some("L".to_string()),
        comment: None,
        picture: Some(("image/jpeg".to_string(), b"foobar".to_vec())),
    };
    let d = mp3_file_tags("/m/a.mp3".to_string(), fields);
    assert_eq!(d.format, "mp3");
    assert_eq!(d.title.as_deref(), Some("T"));
    assert_eq!(d.year, Some(1997));
    assert_eq!(d.label.as_deref(), Some("L"));
    assert_eq!(d.cover_data.as_deref(), Some("Zm9vYmFy"));
    assert_eq!(d.cover_mime.as_deref(), Some("image/jpeg"));
}

fn track() -> TrackData {
    TrackData {
        sng_id: FieldValue::Unsigned(3135556),
        sng_title: Some("One More Time".to_string()),
        art_name: Some("Daft Punk".to_string()),
        alb_title: Some("Discovery".to_string()),
        alb_id: FieldValue::Text("302127".to_string()),
        version: None,
        physical_release_date: Some("2001-03-12".to_string()),
        digital_release_date: None,
        track_number: FieldValue::Text("1".to_string()),
        disk_number: FieldValue::Unsigned(1),
        track_token: None,
        md5_origin: None,
        media_version: None,
    }
}

#[test]
fn downloaded_mp3_tags() {
    let info = Some(AlbumTagInfo {
        cover: Some(JPEG.to_vec()),
        genres: vec![Some("Dance".to_string()), Some("Electro".to_string())],
        label: Some("Virgin".to_string()),
    });
    let tag = tag_mp3_download("One More Time (Radio Edit)", "Daft Punk", "Discovery", &track(), &info);
    assert_eq!(tag.title(), Some("One More Time (Radio Edit)"));
    assert_eq!(tag.artist(), Some("Daft Punk"));
    assert_eq!(tag.album(), Some("Discovery"));
    assert_eq!(tag.album_artist(), Some("Daft Punk"));
    assert_eq!(tag.year(), Some(2001));
    assert_eq!(tag.track(), Some(1));
    assert_eq!(tag.disc(), Some(1));
    assert_eq!(tag.genre(), Some("Dance"));
    assert_eq!(tag.get("TPUB").and_then(|f| f.content().text()), Some("Virgin"));
    let pics: Vec<_> = tag.pictures().collect();
    assert_eq!(pics.len(), 1);
    assert_eq!(pics[0].mime_type, "image/jpeg");
    assert_eq!(pics[0].data, JPEG.to_vec());

    let bare = tag_mp3_download("T", "A", "B", &track(), &None);
    assert_eq!(bare.genre(), None);
    assert_eq!(bare.pictures().count(), 0);
    assert_eq!(bare.get("TPUB").map(|f| f.id().to_string()), None);
    assert_eq!(bare.frames().count(), 7);
    let unnamed = Some(AlbumTagInfo { cover: None, genres: vec![None, Some("Pop".to_string())], label: None });
    assert_eq!(tag_mp3_download("T", "A", "B", &track(), &unnamed).genre(), None);

    let ids: Vec<String> = tag.frames().map(|f| f.id().to_string()).collect();
    assert_eq!(ids, vec!["TIT2", "TPE1", "TALB", "TPE2", "TYER", "TRCK", "TPOS", "APIC", "TCON", "TPUB"]);
    assert_eq!(tag.get("TRCK").and_then(|f| f.content().text()), Some("1"));
}

#[test]
fn mp3_edits_keep_frame_order_and_replace_in_place() {
    let mut tag = id3::Tag::new();
    tag.set_title("Old");
    tag.set_text("TBPM", "120");
    tag.set_text("TRCK", "4/9");
    tag.add_frame(id3::Frame::with_content("TPUB", id3::Content::Text("A".to_string())));
    tag.add_frame(id3::Frame::with_content("TPUB", id3::Content::Text("B".to_string())));
    let only_title = WriteTagData {
        title: Some("New".to_string()),
        artist: None,
        album: None,
        album_artist: None,
        year: None,
        track: Some(5),
        total_tracks: None,
        disc: None,
        total_discs: None,
        genre: None,
        label: Some("C".to_string()),
        comment: None,
        new_cover_path: None,
        remove_cover: false,
    };
    apply_mp3_edits(&mut tag, &only_title, None);
    let ids: Vec<String> = tag.frames().map(|f| f.id().to_string()).collect();
    assert_eq!(ids, vec!["TBPM", "TIT2", "TRCK", "TPUB"]);
    assert_eq!(tag.get("TRCK").and_then(|f| f.content().text()), Some("5/9"));
    assert_eq!(tag.get("TPUB").and_then(|f| f.content().text()), Some("C"));
    assert_eq!(tag.title(), Some("New"));
}

#[test]
fn mp3_fields_read_the_first_frames() {
    let mut tag = id3::Tag::new();
    tag.set_title("T");
    tag.set_text("TYER", "0042");
    tag.set_text("TRCK", "7/12");
    tag.set_text("TPOS", "x/2");
    tag.add_frame(id3::Frame::with_content("TPUB", id3::Content::Text("First".to_string())));
    tag.add_frame(id3::Frame::with_content(
        "COMM",
        id3::Content::Comment(id3::frame::Comment {
            lang: "eng".to_string(),
            description: "a".to_string(),
            text: "one".to_string(),
        }),
    ));
    tag.add_frame(id3::Frame::with_content(
        "COMM",
        id3::Content::Comment(id3::frame::Comment {
            lang: "eng".to_string(),
            description: "b".to_string(),
            text: "two".to_string(),
        }),
    ));
    let f = mp3_fields(&tag);
    assert_eq!(f.title.as_deref(), Some("T"));
    assert_eq!(f.artist, None);
    assert_eq!(f.year, Some(42));
    assert_eq!(f.track, Some(7));
    assert_eq!(f.total_tracks, Some(12));
    assert_eq!(f.disc, None);
    assert_eq!(f.total_discs, None);
    assert_eq!(f.label.as_deref(), Some("First"));
    assert_eq!(f.comment.as_deref(), Some("one"));
    assert_eq!(f.picture, None);

    let empty = mp3_fields(&id3::Tag::new());
    assert_eq!(empty.title, None);
    assert_eq!(empty.year, None);
    assert_eq!(empty.comment, None);
}

#[test]
fn downloaded_flac_tags() {
    let mut tag = metaflac::Tag::new();
    tag.add_picture("image/png", metaflac::block::PictureType::CoverFront, PNG.to_vec());
    let info = Some(AlbumTagInfo {
        cover: Some(JPEG.to_vec()),
        genres: vec![Some("Dance".to_string())],
        label: Some("Virgin".to_string()),
    });
    tag_flac_download(&mut tag, "One More Time", "Daft Punk", "Discovery", &track(), &info);
    assert_eq!(first(&tag, "TITLE").as_deref(), Some("One More Time"));
    assert_eq!(first(&tag, "ALBUMARTIST").as_deref(), Some("Daft Punk"));
    assert_eq!(first(&tag, "DATE").as_deref(), Some("2001"));
    assert_eq!(first(&tag, "TRACKNUMBER").as_deref(), Some("1"));
    assert_eq!(first(&tag, "DISCNUMBER").as_deref(), Some("1"));
    assert_eq!(first(&tag, "GENRE").as_deref(), Some("Dance"));
    assert_eq!(first(&tag, "LABEL").as_deref(), Some("Virgin"));
    let pics: Vec<_> = tag.pictures().collect();
    assert_eq!(pics.len(), 1);
    assert_eq!(pics[0].mime_type, "image/jpeg");
}

#[test]
fn flac_edits_read_back_as_written() {
    let mut tag = metaflac::Tag::new();
    tag.set_vorbis("TRACKTOTAL", vec!["99"]);
    let e = edits();
    apply_flac_edits(&mut tag, &e, None);
    let d = flac_file_tags("/m/x.flac".to_string(), &tag).unwrap();
    assert_eq!(d.title, e.title);
    assert_eq!(d.artist, e.artist);
    assert_eq!(d.album, e.album);
    assert_eq!(d.album_artist, e.album_artist);
    assert_eq!(d.genre, e.genre);
    assert_eq!(d.label, e.label);
    assert_eq!(d.comment, e.comment);
    assert_eq!(d.year, e.year);
    assert_eq!(d.track, e.track);
    assert_eq!(d.total_tracks, e.total_tracks);
    assert_eq!(d.disc, e.disc);

    let mut long_year = edits();
    long_year.year = Some(12345);
    apply_flac_edits(&mut tag, &long_year, None);
    assert_eq!(flac_file_tags(String::new(), &tag).unwrap().year, Some(1234));
    let mut negative = edits();
    negative.year = Some(-44);
    apply_flac_edits(&mut tag, &negative, None);
    assert_eq!(flac_file_tags(String::new(), &tag).unwrap().year, Some(-44));
}

#[test]
fn mp3_year_zero_does_not_read_back() {
    let mut tag = id3::Tag::new();
    let mut e = edits();
    e.year = Some(0);
    apply_mp3_edits(&mut tag, &e, None);
    assert_eq!(tag.get("TYER").and_then(|f| f.content().text()), Some("0000"));
    assert_eq!(mp3_fields(&tag).year, None);
    e.year = Some(7);
    apply_mp3_edits(&mut tag, &e, None);
    assert_eq!(mp3_fields(&tag).year, Some(7));
    assert_eq!(mp3_fields(&tag).comment.as_deref(), Some("Nice"));
    assert_eq!(mp3_fields(&tag).total_discs, e.total_discs);
}

#[test]
fn mp3_title_with_two_frames_reads_the_older_one() {
    let mut tag = id3::Tag::new();
    tag.extend(vec![id3::Frame::text("TIT2", "A"), id3::Frame::text("TIT2", "B")]);
    let mut e = edits();
    e.title = Some("C".to_string());
    apply_mp3_edits(&mut tag, &e, None);
    assert_eq!(mp3_fields(&tag).title.as_deref(), Some("B"));
    assert_eq!(tag.frames().filter(|f| f.id() == "TIT2").count(), 2);
}
