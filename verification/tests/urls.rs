use deezy::urls::{
    deezer_link_from_parts, is_allowed_deezer_url, is_locale_segment, is_supported_deezer_kind,
    parse_deezer_url, parse_url, LinkError, UrlParts,
};

#[test]
fn only_allows_https_deezer_hosts() {
    for allowed in [
        "https://www.deezer.com/ajax/gw-light.php",
        "https://api.deezer.com/search",
        "https://e-cdns-proxy-a.dzcdn.net/mobile/1",
    ] {
        assert!(is_allowed_deezer_url(&parse_url(allowed).unwrap()));
    }

    for rejected in [
        "http://www.deezer.com/",
        "https://deezer.com.evil.example/",
        "https://dzcdn.net.evil.example/",
        "https://127.0.0.1/",
    ] {
        assert!(!is_allowed_deezer_url(&parse_url(rejected).unwrap()));
    }
}

#[test]
fn allowed_hosts_are_compared_in_lower_case() {
    assert!(is_allowed_deezer_url(&parse_url("https://WWW.Deezer.COM/x").unwrap()));
    assert!(is_allowed_deezer_url(&parse_url("https://deezer.com/").unwrap()));
    assert!(is_allowed_deezer_url(&parse_url("https://dzcdn.net/").unwrap()));
    assert!(!is_allowed_deezer_url(&parse_url("https://notdeezer.com/").unwrap()));
}

#[test]
fn parse_url_reads_scheme_host_and_segments() {
    let p = parse_url("https://www.deezer.com/en/track/123").unwrap();
    assert_eq!(p.scheme, "https");
    assert_eq!(p.host.as_deref(), Some("www.deezer.com"));
    assert_eq!(
        p.segments,
        Some(vec!["en".to_string(), "track".to_string(), "123".to_string()])
    );
    assert!(parse_url("not a url").is_none());
    let m = parse_url("mailto:someone@example.com").unwrap();
    assert_eq!(m.scheme, "mailto");
    assert_eq!(m.segments, None);
}

#[test]
fn deezer_links_name_a_kind_and_a_numeric_id() {
    let l = parse_deezer_url("https://www.deezer.com/track/3135556").unwrap();
    assert_eq!(l.kind, "track");
    assert_eq!(l.id, "3135556");
    let l = parse_deezer_url("  https://deezer.com/fr/album/302127  ").unwrap();
    assert_eq!(l.kind, "album");
    assert_eq!(l.id, "302127");
    let l = parse_deezer_url("http://www.deezer.com/artist/27/").unwrap();
    assert_eq!(l.kind, "artist");
    assert_eq!(l.id, "27");
    let l = parse_deezer_url("https://WWW.DEEZER.COM/playlist/908622995").unwrap();
    assert_eq!(l.kind, "playlist");
}

#[test]
fn deezer_link_errors() {
    assert!(matches!(parse_deezer_url("nonsense"), Err(LinkError::InvalidUrl)));
    assert!(matches!(
        parse_deezer_url("ftp://www.deezer.com/track/1"),
        Err(LinkError::UnsupportedScheme)
    ));
    assert!(matches!(
        parse_deezer_url("https://evil.example/track/1"),
        Err(LinkError::WrongHost)
    ));
    assert!(matches!(
        parse_deezer_url("https://www.deezer.com/show/1"),
        Err(LinkError::UnsupportedFormat)
    ));
    assert!(matches!(
        parse_deezer_url("https://www.deezer.com/track/12a"),
        Err(LinkError::NonNumericId)
    ));
    assert!(matches!(
        parse_deezer_url("https://www.deezer.com/eng/track/1"),
        Err(LinkError::UnsupportedFormat)
    ));
}

#[test]
fn link_segments() {
    assert!(is_supported_deezer_kind("track"));
    assert!(is_supported_deezer_kind("playlist"));
    assert!(!is_supported_deezer_kind("Track"));
    assert!(is_locale_segment("en"));
    assert!(!is_locale_segment("e1"));
    assert!(!is_locale_segment("eng"));
}

#[test]
fn link_error_messages() {
    assert_eq!(LinkError::InvalidUrl.message(), "Invalid URL");
    assert_eq!(
        LinkError::UnsupportedScheme.message(),
        "Invalid Deezer URL: only http/https are supported"
    );
    assert_eq!(LinkError::MissingHost.message(), "Invalid Deezer URL host");
    assert_eq!(LinkError::WrongHost.message(), "Invalid Deezer URL: host must be deezer.com");
    assert_eq!(LinkError::MissingPath.message(), "Invalid Deezer URL path");
    assert_eq!(LinkError::UnsupportedFormat.message(), "Invalid Deezer URL format");
    assert_eq!(
        LinkError::NonNumericId.message(),
        "Invalid Deezer URL: expected numeric identifier"
    );
}

fn parts(scheme: &str, host: Option<&str>, segments: Option<Vec<&str>>) -> UrlParts {
    UrlParts {
        scheme: scheme.to_string(),
        host: host.map(|h| h.to_string()),
        segments: segments.map(|v| v.into_iter().map(|x| x.to_string()).collect()),
    }
}

#[test]
fn links_from_parsed_parts() {
    let link = deezer_link_from_parts(&parts("https", Some("WWW.Deezer.com"), Some(vec!["fr", "album", "302127", ""])))
        .ok()
        .unwrap();
    assert_eq!(link.kind, "album");
    assert_eq!(link.id, "302127");
    let link = deezer_link_from_parts(&parts("http", Some("deezer.com"), Some(vec!["track", "", "3135556"])))
        .ok()
        .unwrap();
    assert_eq!(link.kind, "track");
    assert_eq!(link.id, "3135556");
    assert!(matches!(deezer_link_from_parts(&parts("ftp", Some("deezer.com"), Some(vec![]))), Err(LinkError::UnsupportedScheme)));
    assert!(matches!(deezer_link_from_parts(&parts("https", None, None)), Err(LinkError::MissingHost)));
    assert!(matches!(deezer_link_from_parts(&parts("https", Some("deezer.co"), None)), Err(LinkError::WrongHost)));
    assert!(matches!(deezer_link_from_parts(&parts("https", Some("deezer.com"), None)), Err(LinkError::MissingPath)));
    assert!(matches!(
        deezer_link_from_parts(&parts("https", Some("deezer.com"), Some(vec!["show", "1"]))),
        Err(LinkError::UnsupportedFormat)
    ));
    assert!(matches!(
        deezer_link_from_parts(&parts("https", Some("deezer.com"), Some(vec!["artist", "12a"]))),
        Err(LinkError::NonNumericId)
    ));
}
