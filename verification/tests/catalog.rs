use deezy::catalog::{
    api_error_message, get_album_tracks, get_artist_albums, get_playlist_tracks, get_track_by_id,
    search_albums, search_artists, search_playlists, search_tracks, RawAlbum, RawArtist,
    RawPlaylist, RawTrack,
};

fn raw_track(id: Option<u64>, title: Option<&str>, artist: Option<&str>) -> RawTrack {
    RawTrack {
        id,
        title: title.map(|s| s.to_string()),
        artist_name: artist.map(|s| s.to_string()),
        artist_id: Some(27),
        album_title: None,
        duration: Some(320),
        album_cover_small: None,
        album_cover_medium: Some("medium.jpg".to_string()),
        preview: Some("preview.mp3".to_string()),
    }
}

#[test]
fn search_keeps_complete_tracks_with_defaults() {
    let items = vec![
        raw_track(Some(1), Some("One More Time"), Some("Daft Punk")),
        raw_track(None, Some("No id"), Some("X")),
        raw_track(Some(2), None, Some("X")),
        raw_track(Some(3), Some("No artist"), None),
    ];
    let r = search_tracks(&Some(items)).unwrap();
    assert_eq!(r.len(), 1);
    assert_eq!(r[0].id, 1);
    assert_eq!(r[0].title, "One More Time");
    assert_eq!(r[0].artist, "Daft Punk");
    assert_eq!(r[0].artist_id, 27);
    assert_eq!(r[0].album, "Unknown");
    assert_eq!(r[0].duration, 320);
    assert_eq!(r[0].cover_small, "");
    assert_eq!(r[0].cover_medium, "medium.jpg");
    assert_eq!(r[0].preview.as_deref(), Some("preview.mp3"));
    assert_eq!(search_tracks(&None).err().unwrap(), "No results found");
}

#[test]
fn album_tracks_take_the_album_title_and_covers() {
    let items = vec![raw_track(Some(1), Some("Aerodynamic"), Some("Daft Punk"))];
    let r = get_album_tracks(&Some(items), &Some("Discovery".to_string()), &Some("s.jpg".to_string()), &None).unwrap();
    assert_eq!(r[0].album, "Discovery");
    assert_eq!(r[0].cover_small, "s.jpg");
    assert_eq!(r[0].cover_medium, "");
    let r = get_album_tracks(&Some(vec![raw_track(Some(1), Some("A"), Some("B"))]), &None, &None, &None).unwrap();
    assert_eq!(r[0].album, "Unknown");
    assert_eq!(get_album_tracks(&None, &None, &None, &None).err().unwrap(), "No tracks found in album");
}

#[test]
fn playlist_tracks_fall_back_to_the_playlist_pictures() {
    let items = vec![raw_track(Some(5), Some("T"), Some("A"))];
    let r = get_playlist_tracks(&Some(items), &Some("p_small.jpg".to_string()), &Some("p_medium.jpg".to_string())).unwrap();
    assert_eq!(r[0].cover_small, "p_small.jpg");
    assert_eq!(r[0].cover_medium, "medium.jpg");
    assert_eq!(get_playlist_tracks(&None, &None, &None).err().unwrap(), "No tracks found in playlist");
}

#[test]
fn track_lookup() {
    let t = raw_track(None, Some("Digital Love"), None);
    let r = get_track_by_id(&t, &None, "3135553").unwrap();
    assert_eq!(r.id, 3135553);
    assert_eq!(r.artist, "Unknown");
    assert_eq!(get_track_by_id(&t, &Some("no data".to_string()), "1").err().unwrap(), "API error: no data");
    assert_eq!(get_track_by_id(&t, &None, "abc").err().unwrap(), "Track not found");
    let untitled = raw_track(Some(9), Some(""), Some("A"));
    assert_eq!(get_track_by_id(&untitled, &None, "9").err().unwrap(), "Track not found");
}

fn raw_album(id: Option<u64>, title: Option<&str>, artist: Option<&str>) -> RawAlbum {
    RawAlbum {
        id,
        title: title.map(|s| s.to_string()),
        artist_name: artist.map(|s| s.to_string()),
        artist_id: None,
        cover_small: None,
        cover_medium: Some("m.jpg".to_string()),
        nb_tracks: Some(14),
    }
}

#[test]
fn albums_from_search_need_an_artist_but_discographies_do_not() {
    let items = vec![raw_album(Some(1), Some("Discovery"), Some("Daft Punk")), raw_album(Some(2), Some("Homework"), None)];
    let found = search_albums(&Some(vec![raw_album(Some(1), Some("Discovery"), Some("Daft Punk")), raw_album(Some(2), Some("Homework"), None)])).unwrap();
    assert_eq!(found.len(), 1);
    assert_eq!(found[0].title, "Discovery");
    assert_eq!(found[0].nb_tracks, 14);
    assert_eq!(found[0].artist_id, 0);
    let listed = get_artist_albums(&Some(items)).unwrap();
    assert_eq!(listed.len(), 2);
    assert_eq!(listed[1].artist, "");
    assert!(search_albums(&None).is_err());
    assert!(get_artist_albums(&None).is_err());
}

#[test]
fn artists_and_playlists() {
    let artists = vec![
        RawArtist { id: Some(27), name: Some("Daft Punk".to_string()), picture_small: None, picture_medium: None, nb_album: Some(30), nb_fan: Some(1000) },
        RawArtist { id: Some(28), name: None, picture_small: None, picture_medium: None, nb_album: None, nb_fan: None },
    ];
    let a = search_artists(&Some(artists)).unwrap();
    assert_eq!(a.len(), 1);
    assert_eq!(a[0].name, "Daft Punk");
    assert_eq!(a[0].nb_fan, 1000);
    let playlists = vec![RawPlaylist { id: Some(9), title: Some("Chill".to_string()), user_name: None, picture_small: Some("s".to_string()), picture_medium: None, nb_tracks: None }];
    let p = search_playlists(&Some(playlists)).unwrap();
    assert_eq!(p[0].creator, "");
    assert_eq!(p[0].cover_small, "s");
    assert_eq!(p[0].nb_tracks, 0);
    assert!(search_artists(&None).is_err());
    assert!(search_playlists(&None).is_err());
}

#[test]
fn api_errors_take_the_first_value() {
    assert_eq!(api_error_message("Deezer error: ", &Some(vec![Some("Invalid CSRF token".to_string())])).as_deref(), Some("Deezer error: Invalid CSRF token"));
    assert_eq!(api_error_message("Deezer error: ", &Some(vec![None, Some("x".to_string())])).as_deref(), Some("Deezer error: Unknown error"));
    assert_eq!(api_error_message("Deezer error: ", &Some(vec![])), None);
    assert_eq!(api_error_message("Deezer error: ", &None), None);
}
