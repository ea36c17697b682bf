use deezy::session::{
    api_token_for, download_run_step, interpret_user_data, needs_session_refresh,
    should_retry_download, DownloadRun, LoginError, RunAction, RunEvent, SessionError, UserData,
};
use deezy::track::FieldValue;

fn user(check_form: Option<&str>, id: FieldValue) -> UserData {
    UserData {
        check_form: check_form.map(|s| s.to_string()),
        license_token: Some("lic".to_string()),
        user_id: id,
        blog_name: Some("Thomas".to_string()),
        user_picture: Some("0a1b".to_string()),
        offer_name: None,
        user_offer_name: None,
        options_offer_name: None,
        ads_audio: None,
        ads_display: None,
    }
}

#[test]
fn a_signed_in_session() {
    let s = interpret_user_data(&user(Some("tok"), FieldValue::Unsigned(42))).unwrap();
    assert_eq!(s.token, "tok");
    assert_eq!(s.license_token.as_deref(), Some("lic"));
    assert_eq!(s.user.id, 42);
    assert_eq!(s.user.name, "Thomas");
    assert_eq!(
        s.user.image.as_deref(),
        Some("https://e-cdns-images.dzcdn.net/images/user/0a1b/250x250-000000-80-0-0.jpg")
    );
    assert!(!s.user.is_free_account);
    let s = interpret_user_data(&user(Some("tok"), FieldValue::Text("17".to_string()))).unwrap();
    assert_eq!(s.user.id, 17);
}

#[test]
fn sign_in_errors() {
    assert!(matches!(interpret_user_data(&user(None, FieldValue::Unsigned(42))), Err(LoginError::MissingToken)));
    assert!(matches!(interpret_user_data(&user(Some("t"), FieldValue::Unsigned(0))), Err(LoginError::InvalidArl)));
    assert!(matches!(interpret_user_data(&user(Some("t"), FieldValue::Text("abc".to_string()))), Err(LoginError::InvalidArl)));
    assert!(matches!(interpret_user_data(&user(Some("t"), FieldValue::Other)), Err(LoginError::InvalidArl)));
    assert_eq!(LoginError::MissingToken.message(), "Failed to get auth token from Deezer");
    assert_eq!(LoginError::InvalidArl.message(), "Invalid ARL token");
}

#[test]
fn avatars_and_names() {
    let mut d = user(Some("t"), FieldValue::Unsigned(1));
    d.user_picture = Some("00000000000000000000000000000000".to_string());
    d.blog_name = None;
    let s = interpret_user_data(&d).unwrap();
    assert_eq!(s.user.image, None);
    assert_eq!(s.user.name, "Unknown");
    d.user_picture = Some(String::new());
    assert_eq!(interpret_user_data(&d).unwrap().user.image, None);
}

#[test]
fn free_accounts() {
    let mut d = user(Some("t"), FieldValue::Unsigned(1));
    d.offer_name = Some("Deezer FREE".to_string());
    assert!(interpret_user_data(&d).unwrap().user.is_free_account);
    d.offer_name = None;
    d.user_offer_name = Some("Offre Gratuite".to_string());
    assert!(interpret_user_data(&d).unwrap().user.is_free_account);
    d.user_offer_name = None;
    d.options_offer_name = Some("Kostenlos".to_string());
    assert!(interpret_user_data(&d).unwrap().user.is_free_account);
    d.options_offer_name = None;
    d.ads_display = Some(true);
    assert!(interpret_user_data(&d).unwrap().user.is_free_account);
    d.offer_name = Some("Premium".to_string());
    assert!(!interpret_user_data(&d).unwrap().user.is_free_account);
}

#[test]
fn gateway_tokens_and_retries() {
    assert_eq!(api_token_for("deezer.getUserData", "abc"), "null");
    assert_eq!(api_token_for("song.getData", "abc"), "abc");
    assert!(needs_session_refresh("", "arl"));
    assert!(!needs_session_refresh("tok", "arl"));
    assert!(!needs_session_refresh("", ""));
    assert!(should_retry_download("Deezer error: Invalid CSRF token", false));
    assert!(should_retry_download("bad token", false));
    assert!(!should_retry_download("bad token", true));
    assert!(!should_retry_download("Track not found", false));
}

#[test]
fn session_error_messages() {
    assert_eq!(SessionError::NotLoggedIn.message(), "Not logged in. Please set your ARL token in Settings.");
    assert_eq!(SessionError::RefreshFailed("Invalid ARL token".to_string()).message(), "Failed to refresh session: Invalid ARL token");
    assert_eq!(
        SessionError::SessionExpired("Deezer error: CSRF".to_string()).message(),
        "Session expired. Please go to Settings and log in again. Error: Deezer error: CSRF"
    );
}

fn attempted(error: Option<&str>, canceled: bool) -> RunEvent {
    RunEvent::Attempted { error: error.map(|e| e.to_string()), canceled }
}

#[test]
fn a_rejected_download_is_retried_once() {
    let (run, action) = download_run_step(DownloadRun::First, attempted(Some("Invalid CSRF token"), false));
    assert!(matches!(action, RunAction::Refresh));
    assert!(matches!(run, DownloadRun::Refreshing(ref e) if e == "Invalid CSRF token"));
    let (run, action) = download_run_step(run, RunEvent::Refreshed);
    assert!(matches!(run, DownloadRun::Retried));
    assert!(matches!(action, RunAction::Attempt));
    let (run, action) = download_run_step(run, attempted(Some("Invalid CSRF token"), false));
    assert!(matches!(run, DownloadRun::Finished));
    assert!(matches!(action, RunAction::ReturnResult));
}

#[test]
fn a_failed_renewal_ends_the_download() {
    let (run, _) = download_run_step(DownloadRun::First, attempted(Some("bad token"), false));
    let (run, action) = download_run_step(run, RunEvent::RefreshFailed);
    assert!(matches!(run, DownloadRun::Finished));
    match action {
        RunAction::Fail(e) => assert_eq!(
            e.message(),
            "Session expired. Please go to Settings and log in again. Error: bad token"
        ),
        _ => panic!("expected a failure"),
    }
}

#[test]
fn other_outcomes_are_returned_at_once() {
    for event in [attempted(None, false), attempted(Some("Track not found"), false), attempted(Some("token"), true)] {
        let (run, action) = download_run_step(DownloadRun::First, event);
        assert!(matches!(run, DownloadRun::Finished));
        assert!(matches!(action, RunAction::ReturnResult));
    }
}
