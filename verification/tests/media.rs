use deezy::media::{
    album_cover_url, album_id_usable, cover_id_from, cover_size_ok, detect_image_mime,
    encode_base64, image_data_url, MAX_COVER_BYTES,
};

#[test]
fn base64_of_bytes() {
    assert_eq!(encode_base64(b""), "");
    assert_eq!(encode_base64(b"f"), "Zg==");
    assert_eq!(encode_base64(b"foobar"), "Zm9vYmFy");
    assert_eq!(encode_base64(&[0xFF, 0xFE, 0xFD]), "//79");
}

#[test]
fn image_types_from_magic_bytes() {
    assert_eq!(detect_image_mime(&[0xFF, 0xD8, 0xFF, 0xE0]), "image/jpeg");
    assert_eq!(detect_image_mime(&[0x89, 0x50, 0x4E, 0x47, 0x0D]), "image/png");
    assert_eq!(detect_image_mime(b"GIF89a"), "image/jpeg");
    assert_eq!(detect_image_mime(&[0x89, 0x50]), "image/jpeg");
    assert_eq!(detect_image_mime(&[]), "image/jpeg");
}

#[test]
fn data_urls() {
    assert_eq!(image_data_url(&[0x89, 0x50, 0x4E, 0x47]), "data:image/png;base64,iVBORw==");
    assert_eq!(image_data_url(b"abc"), "data:image/jpeg;base64,YWJj");
}

#[test]
fn cover_ids_and_urls() {
    assert_eq!(
        cover_id_from("https://e-cdns-images.dzcdn.net/images/cover/2e018122cb56986277102d2041a592c8/56x56-000000-80-0-0.jpg"),
        "2e018122cb56986277102d2041a592c8"
    );
    assert_eq!(cover_id_from("https://example.com/no-marker.jpg"), "");
    assert_eq!(cover_id_from("cover/abc"), "abc");
    assert_eq!(cover_id_from("x/cover/a/cover/b"), "a");
    assert_eq!(
        album_cover_url("2e01", 1000),
        "https://e-cdns-images.dzcdn.net/images/cover/2e01/1000x1000.jpg"
    );
}

#[test]
fn cover_limits_and_album_ids() {
    assert!(cover_size_ok(MAX_COVER_BYTES));
    assert!(!cover_size_ok(MAX_COVER_BYTES + 1));
    assert!(album_id_usable("302127"));
    assert!(!album_id_usable("0"));
    assert!(!album_id_usable(""));
}
