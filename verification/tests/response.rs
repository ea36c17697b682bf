use deezy::response::{declared_length_ok, too_large_message, BodyReader, MAX_JSON_RESPONSE_BYTES};

#[test]
fn bodies_stay_under_the_cap() {
    assert!(declared_length_ok(None, 10));
    assert!(declared_length_ok(Some(10), 10));
    assert!(!declared_length_ok(Some(11), 10));
    let mut b = BodyReader::new(10);
    assert!(b.push(b"hello"));
    assert!(b.push(b"world"));
    assert!(!b.push(b"!"));
    assert!(b.push(b""));
    assert_eq!(b.into_body(), b"helloworld".to_vec());
    assert_eq!(too_large_message("Deezer response"), "Deezer response is too large");
    assert_eq!(MAX_JSON_RESPONSE_BYTES, 16 * 1024 * 1024);
}
