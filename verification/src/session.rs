//! Signing in with an ARL: what the account data says about the user, and
//! when a session is refreshed or a download retried.
use vstd::prelude::*;

use crate::text::{chars_of, contains_chars, lowercase, to_lowercase, contains_seq, extend_chars, parse_u64, parse_u64_spec, str_eq, string_of};
use crate::track::FieldValue;

verus! {

/// The account data of `deezer.getUserData` that signing in reads; a field
/// is `None` when it is missing or of another JSON type.
pub struct UserData {
    /// `results.checkForm`, the session's API token.
    pub check_form: Option<String>,
    /// `results.USER.OPTIONS.license_token`.
    pub license_token: Option<String>,
    /// `results.USER.USER_ID`.
    pub user_id: FieldValue,
    /// `results.USER.BLOG_NAME`.
    pub blog_name: Option<String>,
    /// `results.USER.USER_PICTURE`.
    pub user_picture: Option<String>,
    /// `results.OFFER_NAME`.
    pub offer_name: Option<String>,
    /// `results.USER.OFFER_NAME`.
    pub user_offer_name: Option<String>,
    /// `results.USER.OPTIONS.offer_name`.
    pub options_offer_name: Option<String>,
    /// `results.USER.OPTIONS.ads_audio`.
    pub ads_audio: Option<bool>,
    /// `results.USER.OPTIONS.ads_display`.
    pub ads_display: Option<bool>,
}

/// The signed-in user.
pub struct UserInfo {
    pub id: u64,
    pub name: String,
    pub image: Option<String>,
    pub is_free_account: bool,
}

/// What signing in yields.
pub struct Session {
    pub token: String,
    pub license_token: Option<String>,
    pub user: UserInfo,
}

/// Why signing in fails.
#[derive(Debug, Clone, Copy, PartialEq, Eq, Structural)]
pub enum LoginError {
    MissingToken,
    InvalidArl,
}

impl LoginError {
    pub open spec fn message_spec(&self) -> Seq<char> {
        match *self {
            LoginError::MissingToken => "Failed to get auth token from Deezer"@,
            LoginError::InvalidArl => "Invalid ARL token"@,
        }
    }

    /// The error's text, as the user sees it.
    pub fn message(&self) -> (r: String)
        ensures
            r@ == self.message_spec(),
    {
        match *self {
            LoginError::MissingToken => String::from_str("Failed to get auth token from Deezer"),
            LoginError::InvalidArl => String::from_str("Invalid ARL token"),
        }
    }
}

pub open spec fn opt_text(o: Option<String>) -> Option<Seq<char>> {
    match o {
        Some(s) => Some(s@),
        None => None,
    }
}

/// The user id: a number, or a string of digits.
pub open spec fn user_id_spec(v: &FieldValue) -> Option<u64> {
    match v {
        FieldValue::Unsigned(n) => Some(*n),
        FieldValue::Text(s) => parse_u64_spec(s@),
        _ => None,
    }
}

/// The user's picture hash names no picture when it is empty or all zeros.
pub open spec fn is_blank_picture(p: Seq<char>) -> bool {
    forall|i: int| 0 <= i < p.len() ==> #[trigger] p[i] == '0'
}

/// The avatar's address for a picture hash.
pub open spec fn avatar_url(p: Seq<char>) -> Seq<char> {
    "https://e-cdns-images.dzcdn.net/images/user/"@ + p + "/250x250-000000-80-0-0.jpg"@
}

/// The offer name that is read: the first one present of `OFFER_NAME`,
/// `USER.OFFER_NAME` and `USER.OPTIONS.offer_name`, or "".
pub open spec fn offer_name_spec(d: &UserData) -> Seq<char> {
    if d.offer_name is Some {
        d.offer_name->0@
    } else if d.user_offer_name is Some {
        d.user_offer_name->0@
    } else if d.options_offer_name is Some {
        d.options_offer_name->0@
    } else {
        Seq::empty()
    }
}

/// A free account: its lower-cased offer name says so in English, French or
/// German, or it has no offer name and is shown ads.
pub open spec fn is_free_spec(d: &UserData) -> bool {
    let offer = lowercase(offer_name_spec(d));
    ||| contains_seq(offer, "free"@)
    ||| contains_seq(offer, "gratuit"@)
    ||| contains_seq(offer, "kostenlos"@)
    ||| (offer.len() == 0 && (d.ads_audio == Some(true) || d.ads_display == Some(true)))
}

/// The result of signing in, from the account data.
pub open spec fn login_spec(d: &UserData) -> Result<(Seq<char>, u64), LoginError> {
    if d.check_form is None {
        Err(LoginError::MissingToken)
    } else {
        match user_id_spec(&d.user_id) {
            None => Err(LoginError::InvalidArl),
            Some(id) => if id == 0 {
                Err(LoginError::InvalidArl)
            } else {
                Ok((d.check_form->0@, id))
            },
        }
    }
}

fn first_offer_name(d: &UserData) -> (r: String)
    ensures
        r@ == offer_name_spec(d),
{
    match &d.offer_name {
        Some(s) => s.clone(),
        None => match &d.user_offer_name {
            Some(s) => s.clone(),
            None => match &d.options_offer_name {
                Some(s) => s.clone(),
                None => String::new(),
            },
        },
    }
}

fn contains_lit(s: &[char], lit: &str) -> (r: bool)
    ensures
        r == contains_seq(s@, lit@),
{
    let l = chars_of(lit);
    contains_chars(s, l.as_slice())
}

fn blank_picture(p: &[char]) -> (r: bool)
    ensures
        r == is_blank_picture(p@),
{
    let mut i: usize = 0;
    while i < p.len()
        invariant
            i <= p.len(),
            forall|k: int| 0 <= k < i ==> #[trigger] p@[k] == '0',
        decreases p.len() - i,
    {
        if p[i] != '0' {
            return false;
        }
        i += 1;
    }
    true
}

/// Interprets the account data of a sign-in: the API token (required), the
/// media license token, and the user, whose id must be a positive number.
pub fn interpret_user_data(data: &UserData) -> (r: Result<Session, LoginError>)
    ensures
        match r {
            Err(e) => login_spec(data) == Err::<(Seq<char>, u64), LoginError>(e),
            Ok(s) => {
                &&& login_spec(data) == Ok::<(Seq<char>, u64), LoginError>((s.token@, s.user.id))
                &&& opt_text(s.license_token) == opt_text(data.license_token)
                &&& s.user.name@ == (match data.blog_name {
                    Some(n) => n@,
                    None => "Unknown"@,
                })
                &&& opt_text(s.user.image) == (match data.user_picture {
                    Some(p) => if is_blank_picture(p@) {
                        None
                    } else {
                        Some(avatar_url(p@))
                    },
                    None => None,
                })
                &&& s.user.is_free_account == is_free_spec(data)
            },
        },
{
    let token = match &data.check_form {
        Some(t) => t.clone(),
        None => {
            return Err(LoginError::MissingToken);
        },
    };
    let license_token = match &data.license_token {
        Some(t) => Some(t.clone()),
        None => None,
    };
    let user_id = match &data.user_id {
        FieldValue::Unsigned(n) => Some(*n),
        FieldValue::Text(s) => parse_u64(s.as_str()),
        _ => None,
    };
    let user_id = match user_id {
        Some(n) => n,
        None => {
            return Err(LoginError::InvalidArl);
        },
    };
    if user_id == 0 {
        return Err(LoginError::InvalidArl);
    }
    let name = match &data.blog_name {
        Some(n) => n.clone(),
        None => String::from_str("Unknown"),
    };
    let image = match &data.user_picture {
        Some(p) => {
            let pv = chars_of(p.as_str());
            if blank_picture(pv.as_slice()) {
                None
            } else {
                let mut v = chars_of("https://e-cdns-images.dzcdn.net/images/user/");
                extend_chars(&mut v, pv.as_slice());
                let tail = chars_of("/250x250-000000-80-0-0.jpg");
                extend_chars(&mut v, tail.as_slice());
                Some(string_of(v.as_slice()))
            }
        },
        None => None,
    };
    let offer = to_lowercase(first_offer_name(data).as_str());
    let ov = chars_of(offer.as_str());
    let has_ads = match data.ads_audio {
        Some(true) => true,
        _ => false,
    } || match data.ads_display {
        Some(true) => true,
        _ => false,
    };
    let is_free_account = contains_lit(ov.as_slice(), "free") || contains_lit(
        ov.as_slice(),
        "gratuit",
    ) || contains_lit(ov.as_slice(), "kostenlos") || (ov.len() == 0 && has_ads);
    Ok(
        Session {
            token,
            license_token,
            user: UserInfo { id: user_id, name, image, is_free_account },
        },
    )
}

// ---------------------------------------------------------------------------
// Gateway requests
// ---------------------------------------------------------------------------

/// The API token sent with a gateway call: "null" for the call that signs
/// in, the session's token otherwise.
pub fn api_token_for(method: &str, token: &str) -> (r: String)
    ensures
        r@ == (if method@ == "deezer.getUserData"@ {
            "null"@
        } else {
            token@
        }),
{
    if str_eq(method, "deezer.getUserData") {
        String::from_str("null")
    } else {
        String::from_str(token)
    }
}

// ---------------------------------------------------------------------------
// Refreshing and retrying
// ---------------------------------------------------------------------------

/// A stored session without a token is renewed before a download, when an
/// ARL is known.
pub fn needs_session_refresh(token: &str, arl: &str) -> (r: bool)
    ensures
        r == (token@.len() == 0 && arl@.len() > 0),
{
    chars_of(token).len() == 0 && chars_of(arl).len() > 0
}

/// A failed download is retried once with a fresh session when it was not
/// canceled and its error mentions the CSRF check or the token.
pub fn should_retry_download(error: &str, canceled: bool) -> (r: bool)
    ensures
        r == (!canceled && (contains_seq(error@, "CSRF"@) || contains_seq(error@, "token"@))),
{
    if canceled {
        return false;
    }
    let e = chars_of(error);
    contains_lit(e.as_slice(), "CSRF") || contains_lit(e.as_slice(), "token")
}

/// Why a download cannot start or go on with the session it has.
pub enum SessionError {
    /// No client is signed in.
    NotLoggedIn,
    /// Renewing a session without a token failed, with the sign-in error.
    RefreshFailed(String),
    /// Renewing the session after a rejected download failed; holds the
    /// download's error.
    SessionExpired(String),
}

impl SessionError {
    pub open spec fn message_spec(&self) -> Seq<char> {
        match self {
            SessionError::NotLoggedIn => "Not logged in. Please set your ARL token in Settings."@,
            SessionError::RefreshFailed(e) => "Failed to refresh session: "@ + e@,
            SessionError::SessionExpired(e) => "Session expired. Please go to Settings and log in again. Error: "@
                + e@,
        }
    }

    /// The error's text, as the user sees it.
    pub fn message(&self) -> (r: String)
        ensures
            r@ == self.message_spec(),
    {
        match self {
            SessionError::NotLoggedIn => String::from_str(
                "Not logged in. Please set your ARL token in Settings.",
            ),
            SessionError::RefreshFailed(e) => {
                let mut v = chars_of("Failed to refresh session: ");
                extend_chars(&mut v, chars_of(e.as_str()).as_slice());
                string_of(v.as_slice())
            },
            SessionError::SessionExpired(e) => {
                let mut v = chars_of("Session expired. Please go to Settings and log in again. Error: ");
                extend_chars(&mut v, chars_of(e.as_str()).as_slice());
                string_of(v.as_slice())
            },
        }
    }
}

// ---------------------------------------------------------------------------
// A download and its one retry
// ---------------------------------------------------------------------------

/// Where a download stands: its first attempt, renewing the session after
/// a rejected first attempt (with that attempt's error), its retry, or done.
pub enum DownloadRun {
    First,
    Refreshing(String),
    Retried,
    Finished,
}

/// What happens to a download: an attempt ends (with its error, if any, and
/// whether it was canceled), or renewing the session succeeds or fails.
pub enum RunEvent {
    Attempted { error: Option<String>, canceled: bool },
    Refreshed,
    RefreshFailed,
}

/// What the caller does next: renew the session, make the retry, return the
/// last attempt's result, or fail with an error.
pub enum RunAction {
    Refresh,
    Attempt,
    ReturnResult,
    Fail(SessionError),
}

/// Whether an attempt's error calls for a retry with a fresh session.
pub open spec fn retry_wanted(error: Option<String>, canceled: bool) -> bool {
    match error {
        Some(e) => !canceled && (contains_seq(e@, "CSRF"@) || contains_seq(e@, "token"@)),
        None => false,
    }
}

/// Whether an event can come in a state: attempts end in the first and
/// the retried state, renewals end while refreshing, and nothing comes once
/// the run is done.
pub open spec fn run_expects(s: DownloadRun, e: RunEvent) -> bool {
    match s {
        DownloadRun::First | DownloadRun::Retried => e is Attempted,
        DownloadRun::Refreshing(_) => e is Refreshed || e is RefreshFailed,
        DownloadRun::Finished => false,
    }
}

/// The state a download moves to and what is done: a first attempt rejected
/// for its session is retried once after the session is renewed; a retry's
/// result is returned whatever it is; a failed renewal ends the download
/// with the session-expired message holding the first attempt's error.
/// An event that does not fit ends the run.
pub open spec fn run_step_spec(s: DownloadRun, e: RunEvent) -> (DownloadRun, RunAction) {
    match (s, e) {
        (DownloadRun::First, RunEvent::Attempted { error, canceled }) => if retry_wanted(
            error,
            canceled,
        ) {
            (DownloadRun::Refreshing(error->0), RunAction::Refresh)
        } else {
            (DownloadRun::Finished, RunAction::ReturnResult)
        },
        (DownloadRun::Refreshing(_), RunEvent::Refreshed) => (DownloadRun::Retried, RunAction::Attempt),
        (DownloadRun::Refreshing(err), RunEvent::RefreshFailed) => (
            DownloadRun::Finished,
            RunAction::Fail(SessionError::SessionExpired(err)),
        ),
        (_, _) => (DownloadRun::Finished, RunAction::ReturnResult),
    }
}

/// Moves a download on by one event.
pub fn download_run_step(s: DownloadRun, e: RunEvent) -> (r: (DownloadRun, RunAction))
    requires
        run_expects(s, e),
    ensures
        r == run_step_spec(s, e),
{
    match s {
        DownloadRun::First => match e {
            RunEvent::Attempted { error, canceled } => {
                let retry = match &error {
                    Some(msg) => should_retry_download(msg.as_str(), canceled),
                    None => false,
                };
                if retry {
                    match error {
                        Some(msg) => (DownloadRun::Refreshing(msg), RunAction::Refresh),
                        None => (DownloadRun::Finished, RunAction::ReturnResult),
                    }
                } else {
                    (DownloadRun::Finished, RunAction::ReturnResult)
                }
            },
            _ => (DownloadRun::Finished, RunAction::ReturnResult),
        },
        DownloadRun::Refreshing(err) => match e {
            RunEvent::Refreshed => (DownloadRun::Retried, RunAction::Attempt),
            RunEvent::RefreshFailed => (
                DownloadRun::Finished,
                RunAction::Fail(SessionError::SessionExpired(err)),
            ),
            _ => (DownloadRun::Finished, RunAction::ReturnResult),
        },
        _ => (DownloadRun::Finished, RunAction::ReturnResult),
    }
}

/// How many retries a download has left.
pub open spec fn retries_left(s: DownloadRun) -> nat {
    match s {
        DownloadRun::First => 1,
        _ => 0,
    }
}

/// The actions of a run from a state, event by event.
pub open spec fn run_actions(s: DownloadRun, events: Seq<RunEvent>) -> Seq<RunAction>
    decreases events.len(),
{
    if events.len() == 0 {
        Seq::empty()
    } else {
        let (next, a) = run_step_spec(s, events[0]);
        seq![a] + run_actions(next, events.drop_first())
    }
}

/// How many times a run renews the session.
pub open spec fn refresh_count(actions: Seq<RunAction>) -> nat
    decreases actions.len(),
{
    if actions.len() == 0 {
        0
    } else {
        (if actions[0] is Refresh { 1nat } else { 0nat }) + refresh_count(actions.drop_first())
    }
}

/// How many attempts a run makes after the first.
pub open spec fn retry_count(actions: Seq<RunAction>) -> nat
    decreases actions.len(),
{
    if actions.len() == 0 {
        0
    } else {
        (if actions[0] is Attempt { 1nat } else { 0nat }) + retry_count(actions.drop_first())
    }
}

proof fn lemma_run_counts(s: DownloadRun, events: Seq<RunEvent>)
    ensures
        refresh_count(run_actions(s, events)) <= retries_left(s),
        retry_count(run_actions(s, events)) <= retries_left(s) + (if s is Refreshing {
            1nat
        } else {
            0nat
        }),
    decreases events.len(),
{
    if events.len() > 0 {
        let (next, a) = run_step_spec(s, events[0]);
        lemma_run_counts(next, events.drop_first());
        let acts = run_actions(s, events);
        assert(acts[0] == a);
        assert(acts.drop_first() =~= run_actions(next, events.drop_first()));
    }
}

/// A download is retried at most once: whatever happens, a run from the
/// first attempt renews the session at most once and makes at most one
/// attempt after the first.
pub proof fn lemma_retry_at_most_once(events: Seq<RunEvent>)
    ensures
        refresh_count(run_actions(DownloadRun::First, events)) <= 1,
        retry_count(run_actions(DownloadRun::First, events)) <= 1,
{
    lemma_run_counts(DownloadRun::First, events);
}

} // verus!
