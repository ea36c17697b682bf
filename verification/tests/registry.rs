use deezy::registry::DownloadRegistry;

#[test]
fn a_track_downloads_once_at_a_time() {
    let mut r: DownloadRegistry<u32> = DownloadRegistry::new();
    assert_eq!(r.begin("1", 10), Ok(()));
    assert_eq!(r.begin("2", 20), Ok(()));
    assert_eq!(r.begin("1", 11), Err("This track is already downloading".to_string()));
    assert_eq!(r.handle("1"), Some(&10));
    assert_eq!(r.handle("2"), Some(&20));
    assert_eq!(r.handle("3"), None);
    r.end("1");
    assert_eq!(r.handle("1"), None);
    assert_eq!(r.handle("2"), Some(&20));
    r.end("1");
    assert_eq!(r.begin("1", 12), Ok(()));
    assert_eq!(r.handle("1"), Some(&12));
}
