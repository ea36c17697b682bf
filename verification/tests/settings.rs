use deezy::settings::{
    arl_storage_status, default_custom_folder_template, default_locale, default_true,
    keyring_enabled, merge_for_save, needs_keyring_lookup, owner_only, setting_key,
    settings_temp_name, unknown_setting_message, ArlStorage, FolderStructure, OutputDirState,
    SettingKey, SettingUpdate, Settings, SettingsError, MAX_SEARCH_HISTORY,
};

fn valid() -> Settings {
    let mut s = Settings::default_with_output_dir("/home/u/Music/Deezy".to_string());
    s.arl = "a".repeat(192);
    s
}

#[test]
fn defaults() {
    let s = Settings::default_with_output_dir("/m".to_string());
    assert_eq!(s.arl, "");
    assert_eq!(s.output_dir, "/m");
    assert_eq!(s.quality, "MP3_320");
    assert_eq!(s.folder_structure, FolderStructure::Flat);
    assert_eq!(s.custom_folder_template, "{artist}/{release_date} - {album}/{track_number} - {title}");
    assert_eq!(s.theme.as_deref(), Some("system"));
    assert!(s.custom_theme.is_none());
    assert!(s.search_history.is_empty());
    assert!(s.enable_search_history && s.notifications_enabled && s.close_to_tray);
    assert_eq!(s.locale, "en");
    assert!(default_true());
    assert_eq!(default_locale(), "en");
    assert_eq!(default_custom_folder_template(), s.custom_folder_template);
}

#[test]
fn validation_in_order() {
    assert!(valid().validate(&OutputDirState::Ready).is_ok());
    let mut s = valid();
    s.arl = "   ".to_string();
    assert!(matches!(s.validate(&OutputDirState::Ready), Err(SettingsError::ArlRequired)));
    s.arl = "short".to_string();
    assert!(matches!(s.validate(&OutputDirState::Ready), Err(SettingsError::ArlTooShort)));
    s.arl = format!("  {}  ", "b".repeat(100));
    assert!(s.precheck().is_ok());
    s.output_dir = " ".to_string();
    assert!(matches!(s.validate(&OutputDirState::Ready), Err(SettingsError::OutputDirRequired)));
    let s = valid();
    assert!(matches!(s.validate(&OutputDirState::NotADirectory), Err(SettingsError::NotADirectory)));
    match s.validate(&OutputDirState::CreateFailed("denied".to_string())) {
        Err(SettingsError::CannotCreateOutputDir(e)) => assert_eq!(e, "denied"),
        _ => panic!("expected a creation error"),
    }
    let mut s = valid();
    s.quality = "MP3_256".to_string();
    match s.validate(&OutputDirState::Ready) {
        Err(SettingsError::InvalidQuality(q)) => assert_eq!(q, "MP3_256"),
        _ => panic!("expected a quality error"),
    }
    let mut s = valid();
    s.folder_structure = FolderStructure::Custom;
    s.custom_folder_template = "  ".to_string();
    assert!(matches!(s.validate(&OutputDirState::Ready), Err(SettingsError::TemplateRequired)));
}

#[test]
fn settings_error_messages() {
    assert_eq!(SettingsError::ArlRequired.message(), "ARL token is required");
    assert_eq!(SettingsError::ArlTooShort.message(), "ARL token appears to be invalid (too short)");
    assert_eq!(SettingsError::OutputDirRequired.message(), "Output directory is required");
    assert_eq!(SettingsError::CannotCreateOutputDir("x".to_string()).message(), "Cannot create output directory: x");
    assert_eq!(SettingsError::NotADirectory.message(), "Output path is not a directory");
    assert_eq!(
        SettingsError::InvalidQuality("HQ".to_string()).message(),
        "Invalid quality 'HQ'. Must be one of: MP3_128, MP3_320, FLAC"
    );
    assert_eq!(SettingsError::TemplateRequired.message(), "Custom folder template is required");
}

#[test]
fn search_history_keeps_recent_distinct_queries() {
    let mut s = valid();
    assert!(s.add_search_history("  daft punk "));
    assert!(s.add_search_history("justice"));
    assert!(s.add_search_history("daft punk"));
    assert_eq!(s.search_history, vec!["daft punk".to_string(), "justice".to_string()]);
    assert!(!s.add_search_history("   "));
    assert!(!s.add_search_history(&"x".repeat(501)));
    assert!(s.add_search_history(&"x".repeat(500)));
    for i in 0..30 {
        assert!(s.add_search_history(&format!("q{}", i)));
    }
    assert_eq!(s.search_history.len(), MAX_SEARCH_HISTORY);
    assert_eq!(s.search_history[0], "q29");
    let before = s.search_history.clone();
    assert!(s.add_search_history("q29"));
    assert_eq!(s.search_history, before);
    s.enable_search_history = false;
    assert!(!s.add_search_history("new"));
    assert_eq!(s.search_history, before);
    s.clear_search_history();
    assert!(s.search_history.is_empty());
    assert_eq!(s.arl, valid().arl);
}

#[test]
fn saving_merges_the_arl_and_history() {
    let mut current = valid();
    current.search_history = vec!["kept".to_string()];
    let mut incoming = valid();
    incoming.arl = " ".to_string();
    incoming.quality = "FLAC".to_string();
    incoming.search_history = vec!["ignored".to_string()];
    let merged = merge_for_save(incoming, &current).ok().unwrap();
    assert_eq!(merged.arl, current.arl);
    assert_eq!(merged.quality, "FLAC");
    assert_eq!(merged.search_history, vec!["kept".to_string()]);
    let mut empty = valid();
    empty.arl = String::new();
    let mut none = valid();
    none.arl = String::new();
    assert!(matches!(merge_for_save(none, &empty), Err(SettingsError::ArlRequired)));
    let shown = valid().without_arl();
    assert_eq!(shown.arl, "");
    assert_eq!(shown.output_dir, valid().output_dir);
    let mut s = valid().without_arl();
    s.apply_keyring_arl(Some("from-keyring".to_string()));
    assert_eq!(s.arl, "from-keyring");
    s.apply_keyring_arl(Some(String::new()));
    assert_eq!(s.arl, "from-keyring");
    s.apply_keyring_arl(None);
    assert_eq!(s.arl, "from-keyring");
}

#[test]
fn single_setting_updates() {
    assert_eq!(setting_key("quality"), Some(SettingKey::Quality));
    assert_eq!(setting_key("close_to_tray"), Some(SettingKey::CloseToTray));
    assert_eq!(setting_key("arl"), None);
    assert_eq!(setting_key("search_history"), None);
    assert_eq!(unknown_setting_message("arl"), "Setting 'arl' cannot be updated individually");
    let mut s = valid();
    s.apply_update(SettingUpdate::Quality("FLAC".to_string()));
    s.apply_update(SettingUpdate::FolderStructure(FolderStructure::ArtistAlbumTrack));
    s.apply_update(SettingUpdate::Theme(None));
    s.apply_update(SettingUpdate::CloseToTray(false));
    assert_eq!(s.quality, "FLAC");
    assert_eq!(s.folder_structure, FolderStructure::ArtistAlbumTrack);
    assert!(s.theme.is_none());
    assert!(!s.close_to_tray);
    assert_eq!(s.arl, valid().arl);
}

#[test]
fn keyring_switch_and_status() {
    assert!(keyring_enabled(None));
    assert!(!keyring_enabled(Some("1")));
    assert!(!keyring_enabled(Some("true")));
    assert!(!keyring_enabled(Some("yes")));
    assert!(keyring_enabled(Some("no")));

    let plain: Result<Option<String>, String> = Ok(Some("arl".to_string()));
    let none: Result<Option<String>, String> = Ok(None);
    let broken: Result<Option<String>, String> = Err("bad perms".to_string());
    assert!(needs_keyring_lookup(&none, true));
    assert!(!needs_keyring_lookup(&none, false));
    assert!(!needs_keyring_lookup(&broken, true));

    let s = arl_storage_status(&broken, true, &None);
    assert_eq!(s.storage, None);
    assert_eq!(s.reason.as_deref(), Some("Cannot safely read settings.json: bad perms"));
    let s = arl_storage_status(&plain, false, &None);
    assert_eq!(s.storage, Some(ArlStorage::PlainFile));
    assert_eq!(s.reason.as_deref(), Some("Disabled by DEEZY_NO_KEYRING"));
    let s = arl_storage_status(&plain, true, &Some(Err("locked".to_string())));
    assert_eq!(s.storage, Some(ArlStorage::PlainFile));
    assert_eq!(s.reason.as_deref(), Some("locked"));
    let s = arl_storage_status(&none, false, &None);
    assert_eq!(s.storage, None);
    assert_eq!(s.reason.as_deref(), Some("Disabled by DEEZY_NO_KEYRING"));
    let s = arl_storage_status(&none, true, &Some(Ok(Some("k".to_string()))));
    assert_eq!(s.storage, Some(ArlStorage::Keyring));
    assert_eq!(s.reason, None);
    let s = arl_storage_status(&none, true, &Some(Ok(Some(" ".to_string()))));
    assert_eq!(s.storage, None);
    assert_eq!(s.reason, None);
}

#[test]
fn settings_file_helpers() {
    assert_eq!(settings_temp_name(4242, 7), ".settings.json.4242.7.tmp");
    assert!(owner_only(0o600));
    assert!(owner_only(0o100700));
    assert!(!owner_only(0o644));
    assert!(!owner_only(0o601));
}

#[test]
fn redacted_settings_come_back_whole() {
    let mut saved = valid();
    saved.search_history = vec!["a".to_string()];
    saved.quality = "FLAC".to_string();
    let arl = saved.arl.clone();
    let mut loaded = valid();
    loaded.search_history = vec!["a".to_string()];
    loaded.quality = "FLAC".to_string();
    let mut loaded = loaded.without_arl();
    assert_eq!(loaded.arl, "");
    loaded.apply_keyring_arl(Some(arl.clone()));
    assert_eq!(loaded.arl, saved.arl);
    assert_eq!(loaded.quality, saved.quality);
    assert_eq!(loaded.search_history, saved.search_history);
    assert_eq!(loaded.output_dir, saved.output_dir);
}
