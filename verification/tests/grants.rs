use deezy::grants::{path_starts_with, FileGrants, GrantError};

fn parts(p: &[&str]) -> Vec<String> {
    p.iter().map(|s| s.to_string()).collect()
}

#[test]
fn picked_paths_are_approved() {
    let mut g = FileGrants::new();
    assert_eq!(g.require_image_file("/a.png"), Err(GrantError::ImageNotApproved));
    assert_eq!(g.require_granted_folder("/music"), Err(GrantError::FolderNotApproved));
    g.grant_image("/a.png".to_string());
    g.grant_folder("/music".to_string());
    g.grant_audio("/x/song.mp3".to_string());
    g.grant_audio("/x/song.mp3".to_string());
    assert_eq!(g.require_image_file("/a.png"), Ok(()));
    assert_eq!(g.require_granted_folder("/music"), Ok(()));
    assert_eq!(g.require_image_file("/music"), Err(GrantError::ImageNotApproved));
    assert_eq!(g.require_audio_file("/x/song.mp3", &parts(&["/", "x", "song.mp3"]), &None), Ok(()));
    g.grant_image("/b.png".to_string());
    assert_eq!(g.require_image_file("/a.png"), Ok(()));
}

#[test]
fn audio_in_the_output_folder_is_approved() {
    let g = FileGrants::new();
    let file = parts(&["/", "home", "u", "Music", "a.mp3"]);
    let out = Some(parts(&["/", "home", "u", "Music"]));
    assert_eq!(g.require_audio_file("/home/u/Music/a.mp3", &file, &out), Ok(()));
    let other = Some(parts(&["/", "home", "u", "Mus"]));
    assert_eq!(g.require_audio_file("/home/u/Music/a.mp3", &file, &other), Err(GrantError::AudioNotApproved));
    assert_eq!(g.require_audio_file("/home/u/Music/a.mp3", &file, &None), Err(GrantError::AudioNotApproved));
}

#[test]
fn component_prefixes() {
    assert!(path_starts_with(&parts(&["/", "a", "b"]), &parts(&["/", "a"])));
    assert!(path_starts_with(&parts(&["/", "a"]), &parts(&["/", "a"])));
    assert!(!path_starts_with(&parts(&["/", "ab"]), &parts(&["/", "a"])));
    assert!(!path_starts_with(&parts(&["/"]), &parts(&["/", "a"])));
    assert!(path_starts_with(&parts(&["x"]), &parts(&[])));
}

#[test]
fn grant_error_messages() {
    assert_eq!(GrantError::AudioNotApproved.message(), "Audio file has not been approved by Deezy");
    assert_eq!(GrantError::ImageNotApproved.message(), "Cover image has not been approved by Deezy");
    assert_eq!(GrantError::FolderNotApproved.message(), "Download folder has not been approved by Deezy");
}
