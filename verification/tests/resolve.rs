use deezy::resolve::{legacy_track, media_url_from, MediaItem, UrlAction, UrlResolver};
use deezy::track::{FieldValue, TrackData};

fn track(md5: Option<&str>, id: FieldValue, mv: Option<&str>) -> TrackData {
    TrackData {
        sng_id: id,
        sng_title: None,
        art_name: None,
        alb_title: None,
        alb_id: FieldValue::Other,
        version: None,
        physical_release_date: None,
        digital_release_date: None,
        track_number: FieldValue::Other,
        disk_number: FieldValue::Other,
        track_token: Some("tt".to_string()),
        md5_origin: md5.map(|s| s.to_string()),
        media_version: mv.map(|s| s.to_string()),
    }
}

fn media_quality(a: &UrlAction) -> String {
    match a {
        UrlAction::RequestMedia { quality } => quality.clone(),
        _ => panic!("expected a media request"),
    }
}

fn probe(a: &UrlAction) -> (String, u32) {
    match a {
        UrlAction::ProbeLegacy { quality, quality_code, md5_origin, sng_id, media_version } => {
            assert_eq!(md5_origin, "abc");
            assert_eq!(sng_id, "42");
            assert_eq!(media_version, "3");
            (quality.clone(), *quality_code)
        }
        _ => panic!("expected a probe"),
    }
}

fn finish(a: UrlAction) -> Result<(String, String), String> {
    match a {
        UrlAction::Finish(r) => r,
        _ => panic!("expected the end"),
    }
}

#[test]
fn legacy_fields() {
    let l = legacy_track(&track(Some("abc"), FieldValue::Unsigned(42), Some("3"))).ok().unwrap();
    assert_eq!(l.sng_id, "42");
    assert_eq!(legacy_track(&track(None, FieldValue::Unsigned(42), Some("3"))).err().unwrap(), "Track unavailable (no MD5_ORIGIN)");
    assert_eq!(legacy_track(&track(Some("a"), FieldValue::Other, Some("3"))).err().unwrap(), "Track unavailable (no SNG_ID)");
    assert_eq!(legacy_track(&track(Some("a"), FieldValue::Signed(-2), None)).err().unwrap(), "Track unavailable (no MEDIA_VERSION)");
}

#[test]
fn media_first_then_fallbacks() {
    let t = track(Some("abc"), FieldValue::Unsigned(42), Some("3"));
    let mut r = UrlResolver::new("FLAC", true, true, &t);
    assert_eq!(media_quality(&r.first_action()), "FLAC");
    assert_eq!(media_quality(&r.on_media(None)), "MP3_320");
    let done = finish(r.on_media(Some(("https://cdn/x".to_string(), "MP3_320".to_string()))));
    assert_eq!(done, Ok(("https://cdn/x".to_string(), "MP3_320".to_string())));
}

#[test]
fn legacy_probes_after_the_media_service() {
    let t = track(Some("abc"), FieldValue::Text("42".to_string()), Some("3"));
    let mut r = UrlResolver::new("FLAC", true, true, &t);
    r.first_action();
    r.on_media(None);
    r.on_media(None);
    assert_eq!(probe(&r.on_media(None)), ("FLAC".to_string(), 9));
    assert_eq!(probe(&r.on_probe(Ok(("u1".to_string(), false)))), ("MP3_320".to_string(), 3));
    assert_eq!(finish(r.on_probe(Ok(("u2".to_string(), true)))), Ok(("u2".to_string(), "MP3_320".to_string())));
}

#[test]
fn resolution_failures() {
    let t = track(Some("abc"), FieldValue::Unsigned(42), Some("3"));
    let mut r = UrlResolver::new("MP3_320", false, false, &t);
    assert_eq!(probe(&r.first_action()), ("MP3_320".to_string(), 3));
    assert_eq!(finish(r.on_probe(Ok(("u".to_string(), false)))), Err("Track not available in requested quality".to_string()));

    let mut r = UrlResolver::new("MP3_320", true, false, &t);
    r.first_action();
    assert_eq!(probe(&r.on_probe(Ok(("u".to_string(), false)))), ("MP3_128".to_string(), 1));
    assert_eq!(finish(r.on_probe(Ok(("u".to_string(), false)))), Err("No working download URL found".to_string()));

    let mut r = UrlResolver::new("MP3_128", true, false, &t);
    r.first_action();
    assert_eq!(finish(r.on_probe(Err("connection reset".to_string()))), Err("connection reset".to_string()));

    let missing = track(None, FieldValue::Unsigned(42), Some("3"));
    let mut r = UrlResolver::new("MP3_128", true, true, &missing);
    r.first_action();
    assert_eq!(finish(r.on_media(None)), Err("Track unavailable (no MD5_ORIGIN)".to_string()));
}

fn item(format: Option<&str>, sources: Option<Vec<Option<&str>>>) -> MediaItem {
    MediaItem {
        format: format.map(|s| s.to_string()),
        sources: sources.map(|v| v.into_iter().map(|s| s.map(|x| x.to_string())).collect()),
    }
}

#[test]
fn media_answers() {
    let ok = Some(vec![Some(vec![item(Some("FLAC"), Some(vec![Some("https://a"), Some("https://b")]))])]);
    assert_eq!(media_url_from(&ok, "MP3_320"), Some(("https://a".to_string(), "FLAC".to_string())));
    let no_format = Some(vec![Some(vec![item(None, Some(vec![Some("https://a")]))])]);
    assert_eq!(media_url_from(&no_format, "MP3_320"), Some(("https://a".to_string(), "MP3_320".to_string())));
    assert_eq!(media_url_from(&None, "FLAC"), None);
    assert_eq!(media_url_from(&Some(vec![]), "FLAC"), None);
    assert_eq!(media_url_from(&Some(vec![None]), "FLAC"), None);
    assert_eq!(media_url_from(&Some(vec![Some(vec![])]), "FLAC"), None);
    assert_eq!(media_url_from(&Some(vec![Some(vec![item(None, None)])]), "FLAC"), None);
    assert_eq!(media_url_from(&Some(vec![Some(vec![item(None, Some(vec![]))])]), "FLAC"), None);
    assert_eq!(media_url_from(&Some(vec![Some(vec![item(None, Some(vec![None]))])]), "FLAC"), None);
}
