use deezy::download::{
    check_content_length, end_transfer, numbered_name, temp_file_name, StreamError, StripeDecoder,
    TransferEvent, TransferOutcome, CHUNK_SIZE, MAX_TRACK_DOWNLOAD_BYTES,
};

#[test]
fn announced_lengths() {
    assert_eq!(check_content_length(None), Ok(0));
    assert_eq!(check_content_length(Some(0)), Err(StreamError::EmptyResponse));
    assert_eq!(check_content_length(Some(4096)), Ok(4096));
    assert_eq!(check_content_length(Some(MAX_TRACK_DOWNLOAD_BYTES)), Ok(MAX_TRACK_DOWNLOAD_BYTES));
    assert_eq!(
        check_content_length(Some(MAX_TRACK_DOWNLOAD_BYTES + 1)),
        Err(StreamError::ResponseTooLarge(1073741825))
    );
}

#[test]
fn stream_error_messages() {
    assert_eq!(StreamError::EmptyResponse.message(), "Download failed: empty response");
    assert_eq!(
        StreamError::ResponseTooLarge(1073741825).message(),
        "Download aborted: response too large (1073741825 bytes)"
    );
    assert_eq!(
        StreamError::ExceedsLimit.message(),
        "Download aborted: file exceeds allowed size limit"
    );
}

#[test]
fn every_third_stripe_is_encrypted_and_the_stream_reassembles() {
    let input: Vec<u8> = (0..(CHUNK_SIZE * 4 + 100)).map(|i| (i % 251) as u8).collect();
    let mut d = StripeDecoder::new();
    let mut out: Vec<u8> = Vec::new();
    let mut flags = Vec::new();
    for piece in input.chunks(1000) {
        d.push(piece);
        while let Some(next) = d.next_chunk() {
            let stripe = next.unwrap();
            assert_eq!(stripe.data.len(), CHUNK_SIZE);
            flags.push(stripe.encrypted);
            out.extend_from_slice(&stripe.data);
        }
    }
    assert_eq!(flags, vec![true, false, false, true]);
    assert_eq!(d.downloaded(), (CHUNK_SIZE * 4) as u64);
    assert_eq!(d.pending_len(), 100);
    let tail = d.finish().unwrap();
    out.extend_from_slice(&tail);
    assert_eq!(out, input);
}

#[test]
fn a_short_stream_is_one_unencrypted_tail() {
    let mut d = StripeDecoder::new();
    d.push(&[1, 2, 3]);
    assert!(d.next_chunk().is_none());
    assert_eq!(d.finish().unwrap(), vec![1, 2, 3]);
    let mut e = StripeDecoder::new();
    assert!(e.next_chunk().is_none());
    assert_eq!(e.finish().unwrap(), Vec::<u8>::new());
}

#[test]
fn temporary_and_numbered_names() {
    assert_eq!(temp_file_name("track.mp3", "123", 0), "track.mp3.123.0.deezy.part");
    assert_eq!(temp_file_name("a.flac", "../x", 7), "a.flac._x.7.deezy.part");
    assert_eq!(numbered_name("Artist - Track.mp3", "Artist - Track", 0, ".mp3"), "Artist - Track.mp3");
    assert_eq!(numbered_name("Artist - Track.mp3", "Artist - Track", 1, ".mp3"), "Artist - Track (1).mp3");
    assert_eq!(numbered_name("x.flac", "x", 12, ".flac"), "x (12).flac");
}

#[test]
fn a_cancel_or_an_error_removes_the_temporary_file() {
    let e = end_transfer(TransferEvent::Canceled);
    assert!(e.remove_temp);
    assert!(matches!(e.outcome, TransferOutcome::Canceled));
    let e = end_transfer(TransferEvent::StreamFailed("reset".to_string()));
    assert!(e.remove_temp);
    assert!(matches!(e.outcome, TransferOutcome::Failed(ref m) if m == "Stream error: reset"));
    let e = end_transfer(TransferEvent::DecryptFailed("bad key".to_string()));
    assert!(e.remove_temp);
    assert!(matches!(e.outcome, TransferOutcome::Failed(ref m) if m == "Decryption failed: bad key"));
    let e = end_transfer(TransferEvent::Failed("disk full".to_string()));
    assert!(e.remove_temp);
    assert!(matches!(e.outcome, TransferOutcome::Failed(ref m) if m == "disk full"));
    let e = end_transfer(TransferEvent::Finalized("/m/a.mp3".to_string()));
    assert!(!e.remove_temp);
    assert!(matches!(e.outcome, TransferOutcome::Complete(ref p) if p == "/m/a.mp3"));
}
