use deezy::track::{describe_track, extract_val, parse_u32_from_value, tag_date, tag_year, FieldValue, TrackData};

fn data(version: Option<&str>) -> TrackData {
    TrackData {
        sng_id: FieldValue::Unsigned(3135556),
        sng_title: Some("Harder".to_string()),
        art_name: None,
        alb_title: Some("Discovery".to_string()),
        alb_id: FieldValue::Signed(-4),
        version: version.map(|s| s.to_string()),
        physical_release_date: None,
        digital_release_date: None,
        track_number: FieldValue::Other,
        disk_number: FieldValue::Other,
        track_token: None,
        md5_origin: None,
        media_version: None,
    }
}

#[test]
fn field_values_as_text_and_numbers() {
    assert_eq!(extract_val(&FieldValue::Text("12".to_string())), "12");
    assert_eq!(extract_val(&FieldValue::Unsigned(42)), "42");
    assert_eq!(extract_val(&FieldValue::Signed(-7)), "-7");
    assert_eq!(extract_val(&FieldValue::Other), "");
    assert_eq!(parse_u32_from_value(&FieldValue::Text("07".to_string())), Some(7));
    assert_eq!(parse_u32_from_value(&FieldValue::Text("+3".to_string())), Some(3));
    assert_eq!(parse_u32_from_value(&FieldValue::Text("x".to_string())), None);
    assert_eq!(parse_u32_from_value(&FieldValue::Unsigned(5)), Some(5));
    assert_eq!(parse_u32_from_value(&FieldValue::Unsigned(4294967297)), Some(1));
    assert_eq!(parse_u32_from_value(&FieldValue::Signed(-1)), None);
    assert_eq!(parse_u32_from_value(&FieldValue::Other), None);
}

#[test]
fn track_labels() {
    let l = describe_track(&data(Some("(Live)")));
    assert_eq!(l.title, "Harder");
    assert_eq!(l.full_title, "Harder (Live)");
    assert_eq!(l.artist, "Unknown");
    assert_eq!(l.album_title, "Discovery");
    assert_eq!(l.album_id, "-4");
    assert_eq!(l.sng_id, "3135556");
    assert_eq!(describe_track(&data(Some(""))).full_title, "Harder");
    assert_eq!(describe_track(&data(None)).full_title, "Harder");
}

#[test]
fn tag_dates_and_years() {
    assert_eq!(tag_date(&Some("2001-03-12".to_string())).as_deref(), Some("2001"));
    assert_eq!(tag_date(&Some("99".to_string())), None);
    assert_eq!(tag_date(&None), None);
    assert_eq!(tag_year(&Some("2001-03-12".to_string())), Some(2001));
    assert_eq!(tag_year(&Some("abcd".to_string())), None);
    assert_eq!(tag_year(&Some("-999".to_string())), Some(-999));
}
