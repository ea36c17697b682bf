use deezy::paths::{build_download_path, clean_filename, explorer_path, sanitize_path_component};
use deezy::settings::FolderStructure;
use deezy::track::{FieldValue, TrackData};

fn track(physical: Option<&str>, digital: Option<&str>, number: FieldValue, disk: FieldValue) -> TrackData {
    TrackData {
        sng_id: FieldValue::Unsigned(3135556),
        sng_title: Some("One More Time".to_string()),
        art_name: Some("Daft Punk".to_string()),
        alb_title: Some("Discovery".to_string()),
        alb_id: FieldValue::Text("302127".to_string()),
        version: None,
        physical_release_date: physical.map(|s| s.to_string()),
        digital_release_date: digital.map(|s| s.to_string()),
        track_number: number,
        disk_number: disk,
        track_token: None,
        md5_origin: None,
        media_version: None,
    }
}

fn layout(fs: FolderStructure, template: &str, album: &str, d: &TrackData) -> (Vec<String>, String) {
    let p = build_download_path("/music", &fs, template, "Daft Punk", album, "One More Time", d, ".mp3");
    assert_eq!(p.output_dir, "/music");
    (p.folders, p.file_name)
}

#[test]
fn clean_filename_replaces_reserved_characters() {
    assert_eq!(clean_filename("a<b>:c\"d/e\\f|g?h*"), "a_b__c_d_e_f_g_h_");
    assert_eq!(clean_filename("  spaced  "), "spaced");
    assert_eq!(clean_filename("nul\0byte"), "nulbyte");
    assert_eq!(clean_filename("..dots.."), "..dots..");
}

#[test]
fn sanitized_components_lose_dots_at_both_ends() {
    assert_eq!(sanitize_path_component(" ..name.. "), "name");
    assert_eq!(sanitize_path_component("..."), "");
    assert_eq!(sanitize_path_component("AC/DC: Live"), "AC_DC_ Live");
    assert_eq!(sanitize_path_component(".."), "");
}

#[test]
fn cleaned_names_hold_no_reserved_character() {
    for input in ["a/b", "..\\..\\etc", "x:y*z?", "<>|\"", "\0/\0"] {
        for out in [clean_filename(input), sanitize_path_component(input)] {
            assert!(!out.chars().any(|c| matches!(c, '<' | '>' | ':' | '"' | '/' | '\\' | '|' | '?' | '*' | '\0')));
        }
        assert!(sanitize_path_component(input) != "..");
    }
}

#[test]
fn fixed_folder_structures() {
    let d = track(None, None, FieldValue::Other, FieldValue::Other);
    assert_eq!(
        layout(FolderStructure::Flat, "", "Discovery", &d),
        (vec![], "Daft Punk - One More Time.mp3".to_string())
    );
    assert_eq!(
        layout(FolderStructure::ArtistTrack, "", "Discovery", &d),
        (vec!["Daft Punk".to_string()], "Daft Punk - One More Time.mp3".to_string())
    );
    assert_eq!(
        layout(FolderStructure::ArtistAlbumTrack, "", "Discovery", &d),
        (
            vec!["Daft Punk".to_string(), "Discovery".to_string()],
            "Daft Punk - One More Time.mp3".to_string()
        )
    );
    assert_eq!(
        layout(FolderStructure::AlbumTrack, "", "AC/DC: Live", &d),
        (vec!["AC_DC_ Live".to_string()], "Daft Punk - One More Time.mp3".to_string())
    );
}

#[test]
fn blank_custom_template_uses_the_default_layout() {
    let d = track(Some("2001-03-12"), None, FieldValue::Text("1".to_string()), FieldValue::Unsigned(1));
    assert_eq!(
        layout(FolderStructure::Custom, "   ", "Discovery", &d),
        (
            vec!["Daft Punk".to_string(), "2001-03-12 - Discovery".to_string()],
            "01 - One More Time.mp3".to_string()
        )
    );
}

#[test]
fn custom_template_placeholders() {
    let d = track(Some(""), Some("1999-05-01"), FieldValue::Other, FieldValue::Unsigned(2));
    assert_eq!(
        layout(FolderStructure::Custom, "{year}/{disc}-{track}", "Discovery", &d),
        (vec!["1999".to_string()], "2-00.mp3".to_string())
    );
    let d = track(None, None, FieldValue::Unsigned(12), FieldValue::Other);
    assert_eq!(
        layout(FolderStructure::Custom, "{release_date}\\{disc_number}/{track_number} {title}", "Discovery", &d),
        (
            vec!["Unknown Date".to_string(), "1".to_string()],
            "12 One More Time.mp3".to_string()
        )
    );
}

#[test]
fn custom_template_keeps_a_given_extension_and_falls_back_when_empty() {
    let d = track(Some("2001"), None, FieldValue::Other, FieldValue::Other);
    assert_eq!(
        layout(FolderStructure::Custom, "{artist}/{title}.mp3", "Discovery", &d),
        (vec!["Daft Punk".to_string()], "One More Time.mp3".to_string())
    );
    assert_eq!(
        layout(FolderStructure::Custom, "/ /..", "Discovery", &d),
        (vec![], "Daft Punk - One More Time.mp3".to_string())
    );
    assert_eq!(
        layout(FolderStructure::Custom, "../../{album}", "Discovery", &d),
        (vec![], "Discovery.mp3".to_string())
    );
}

#[test]
fn explorer_paths_use_backslashes_without_the_verbatim_prefix() {
    assert_eq!(explorer_path("C:/Music/Artist"), "C:\\Music\\Artist");
    assert_eq!(explorer_path("\\\\?\\C:\\Music"), "C:\\Music");
    assert_eq!(explorer_path("//?/C:/Music"), "C:\\Music");
    assert_eq!(explorer_path("D:\\x"), "D:\\x");
}

#[test]
fn blank_template_lays_out_as_the_default() {
    let d = track(Some("2001-03-12"), None, FieldValue::Text("1".to_string()), FieldValue::Unsigned(1));
    let default = layout(FolderStructure::Custom, "{artist}/{release_date} - {album}/{track_number} - {title}", "Discovery", &d);
    assert_eq!(layout(FolderStructure::Custom, "", "Discovery", &d), default);
    assert_eq!(layout(FolderStructure::Custom, " \t\n ", "Discovery", &d), default);
    assert_eq!(default.0, vec!["Daft Punk".to_string(), "2001-03-12 - Discovery".to_string()]);
    assert_eq!(default.1, "01 - One More Time.mp3");
}

#[test]
fn aliases_render_as_the_long_placeholders() {
    let d = track(Some("2001-03-12"), None, FieldValue::Text("7".to_string()), FieldValue::Unsigned(2));
    let long = layout(FolderStructure::Custom, "{release_year}/{disc_number}-{track_number} {title}", "Discovery", &d);
    let short = layout(FolderStructure::Custom, "{year}/{disc}-{track} {title}", "Discovery", &d);
    assert_eq!(long, short);
    assert_eq!(long.0, vec!["2001".to_string()]);
    assert_eq!(long.1, "2-07 One More Time.mp3");
}

#[test]
fn aliases_in_templates_of_any_shape() {
    let d = track(Some("2001-03-12"), None, FieldValue::Text("7".to_string()), FieldValue::Unsigned(2));
    for (long, short) in [
        ("{tr{track_number}}x{year", "{tr{track}}x{year"),
        ("a{{release_year}}/{disc_number}{", "a{{year}}/{disc}{"),
        ("{{track_number}rack}/{title}", "{{track}rack}/{title}"),
    ] {
        assert_eq!(
            layout(FolderStructure::Custom, long, "Discovery", &d),
            layout(FolderStructure::Custom, short, "Discovery", &d)
        );
    }
}

#[test]
fn an_empty_year_can_spell_an_alias() {
    let d = track(None, Some(""), FieldValue::Text("7".to_string()), FieldValue::Unsigned(2));
    assert_ne!(
        layout(FolderStructure::Custom, "{ye{release_year}ar}", "Discovery", &d),
        layout(FolderStructure::Custom, "{ye{year}ar}", "Discovery", &d)
    );
}
