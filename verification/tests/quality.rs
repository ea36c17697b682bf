use deezy::quality::{effective_quality, fallback_qualities, get_quality_code, get_quality_ext, quality_attempts};

#[test]
fn quality_codes() {
    assert_eq!(get_quality_code("FLAC"), 9);
    assert_eq!(get_quality_code("MP3_128"), 1);
    assert_eq!(get_quality_code("MP3_256"), 5);
    assert_eq!(get_quality_code("MP3_320"), 3);
    assert_eq!(get_quality_code("MP4_RA1"), 13);
    assert_eq!(get_quality_code("MP4_RA2"), 14);
    assert_eq!(get_quality_code("MP4_RA3"), 15);
    assert_eq!(get_quality_code("flac"), 3);
}

#[test]
fn quality_extensions() {
    assert_eq!(get_quality_ext("FLAC"), ".flac");
    assert_eq!(get_quality_ext("MP3_128"), ".mp3");
    assert_eq!(get_quality_ext("MP3_256"), ".mp3");
    assert_eq!(get_quality_ext("MP3_320"), ".mp3");
    assert_eq!(get_quality_ext("MP4_RA2"), ".mp4");
    assert_eq!(get_quality_ext("unknown"), ".mp3");
}

#[test]
fn fallbacks_only_go_down() {
    assert_eq!(fallback_qualities("FLAC"), vec!["MP3_320", "MP3_128"]);
    assert_eq!(fallback_qualities("MP3_320"), vec!["MP3_128"]);
    assert!(fallback_qualities("MP3_128").is_empty());
    assert!(fallback_qualities("MP4_RA1").is_empty());
    assert_eq!(quality_attempts("FLAC", true), vec!["FLAC", "MP3_320", "MP3_128"]);
    assert_eq!(quality_attempts("FLAC", false), vec!["FLAC"]);
    let rank = |q: &str| match q { "FLAC" => 3, "MP3_320" => 2, "MP3_128" => 1, _ => 0 };
    for q in ["FLAC", "MP3_320", "MP3_128", "MP4_RA1"] {
        let a = quality_attempts(q, true);
        assert!(a.len() <= 3);
        assert_eq!(a[0], q);
        for w in a.windows(2) {
            assert!(rank(&w[1]) < rank(&w[0]));
        }
    }
}

#[test]
fn free_accounts_get_mp3_128() {
    assert_eq!(effective_quality("FLAC", true), "MP3_128");
    assert_eq!(effective_quality("MP3_128", true), "MP3_128");
    assert_eq!(effective_quality("FLAC", false), "FLAC");
}
