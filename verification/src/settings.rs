//! User settings: their fields and defaults, validation, the search history,
//! and where the ARL credential is kept.
use vstd::prelude::*;

use crate::text::{
    byte_len, byte_len_capped, chars_eq, chars_of, decimal, extend_chars, str_eq, string_of,
    strip_chars, trim_ws, u64_to_string,
};

verus! {

/// How downloads are arranged in folders below the output directory.
#[derive(Debug, Clone, Copy, PartialEq, Eq, Structural, Default)]
pub enum FolderStructure {
    #[default]
    Flat,
    ArtistTrack,
    ArtistAlbumTrack,
    AlbumTrack,
    Custom,
}

/// The user's settings.
pub struct Settings {
    pub arl: String,
    pub output_dir: String,
    pub quality: String,
    pub folder_structure: FolderStructure,
    pub custom_folder_template: String,
    pub theme: Option<String>,
    pub custom_theme: Option<String>,
    pub search_history: Vec<String>,
    pub enable_search_history: bool,
    pub notifications_enabled: bool,
    pub locale: String,
    pub close_to_tray: bool,
}

pub open spec fn default_template_spec() -> Seq<char> {
    "{artist}/{release_date} - {album}/{track_number} - {title}"@
}

/// The value of a boolean setting missing from the settings file.
pub fn default_true() -> (r: bool)
    ensures
        r,
{
    true
}

/// The language used when the settings file names none.
pub fn default_locale() -> (r: String)
    ensures
        r@ == "en"@,
{
    String::from_str("en")
}

/// The custom folder template used when the settings file names none.
pub fn default_custom_folder_template() -> (r: String)
    ensures
        r@ == default_template_spec(),
{
    String::from_str("{artist}/{release_date} - {album}/{track_number} - {title}")
}

pub open spec fn string_views(v: Seq<String>) -> Seq<Seq<char>> {
    v.map_values(|s: String| s@)
}

impl Settings {
    /// The settings of a first start, with downloads going to `output_dir`
    /// (`~/Music/Deezy` on the user's machine).
    pub fn default_with_output_dir(output_dir: String) -> (r: Settings)
        ensures
            r.arl@ == Seq::<char>::empty(),
            r.output_dir == output_dir,
            r.quality@ == "MP3_320"@,
            r.folder_structure == FolderStructure::Flat,
            r.custom_folder_template@ == default_template_spec(),
            r.theme matches Some(t) && t@ == "system"@,
            r.custom_theme is None,
            r.search_history@.len() == 0,
            r.enable_search_history,
            r.notifications_enabled,
            r.locale@ == "en"@,
            r.close_to_tray,
    {
        Settings {
            arl: String::new(),
            output_dir,
            quality: String::from_str("MP3_320"),
            folder_structure: FolderStructure::Flat,
            custom_folder_template: default_custom_folder_template(),
            theme: Some(String::from_str("system")),
            custom_theme: None,
            search_history: Vec::new(),
            enable_search_history: true,
            notifications_enabled: true,
            locale: String::from_str("en"),
            close_to_tray: true,
        }
    }
}

// ---------------------------------------------------------------------------
// Validation
// ---------------------------------------------------------------------------

/// What became of the output directory when validation made sure it exists.
pub enum OutputDirState {
    /// It exists and is a directory.
    Ready,
    /// It exists and is not a directory.
    NotADirectory,
    /// It did not exist and could not be created (the error's text).
    CreateFailed(String),
}

/// Why settings are refused.
pub enum SettingsError {
    ArlRequired,
    ArlTooShort,
    OutputDirRequired,
    CannotCreateOutputDir(String),
    NotADirectory,
    InvalidQuality(String),
    TemplateRequired,
}

impl SettingsError {
    pub open spec fn message_spec(&self) -> Seq<char> {
        match self {
            SettingsError::ArlRequired => "ARL token is required"@,
            SettingsError::ArlTooShort => "ARL token appears to be invalid (too short)"@,
            SettingsError::OutputDirRequired => "Output directory is required"@,
            SettingsError::CannotCreateOutputDir(e) => "Cannot create output directory: "@ + e@,
            SettingsError::NotADirectory => "Output path is not a directory"@,
            SettingsError::InvalidQuality(q) => "Invalid quality '"@ + q@
                + "'. Must be one of: MP3_128, MP3_320, FLAC"@,
            SettingsError::TemplateRequired => "Custom folder template is required"@,
        }
    }

    /// The error's text, as the user sees it.
    pub fn message(&self) -> (r: String)
        ensures
            r@ == self.message_spec(),
    {
        match self {
            SettingsError::ArlRequired => String::from_str("ARL token is required"),
            SettingsError::ArlTooShort => String::from_str(
                "ARL token appears to be invalid (too short)",
            ),
            SettingsError::OutputDirRequired => String::from_str("Output directory is required"),
            SettingsError::CannotCreateOutputDir(e) => {
                let mut v = chars_of("Cannot create output directory: ");
                let c = chars_of(e.as_str());
                extend_chars(&mut v, c.as_slice());
                string_of(v.as_slice())
            },
            SettingsError::NotADirectory => String::from_str("Output path is not a directory"),
            SettingsError::InvalidQuality(q) => {
                let mut v = chars_of("Invalid quality '");
                let c = chars_of(q.as_str());
                extend_chars(&mut v, c.as_slice());
                let t = chars_of("'. Must be one of: MP3_128, MP3_320, FLAC");
                extend_chars(&mut v, t.as_slice());
                string_of(v.as_slice())
            },
            SettingsError::TemplateRequired => String::from_str(
                "Custom folder template is required",
            ),
        }
    }
}

/// The qualities that may be chosen in the settings.
pub open spec fn is_valid_quality(q: Seq<char>) -> bool {
    q == "MP3_128"@ || q == "MP3_320"@ || q == "FLAC"@
}

/// The checks made before the output directory is touched, in order.
pub open spec fn precheck_spec(s: &Settings) -> Option<SettingsError> {
    if trim_ws(s.arl@).len() == 0 {
        Some(SettingsError::ArlRequired)
    } else if byte_len(trim_ws(s.arl@)) < 100 {
        Some(SettingsError::ArlTooShort)
    } else if trim_ws(s.output_dir@).len() == 0 {
        Some(SettingsError::OutputDirRequired)
    } else {
        None
    }
}

/// The checks made after the output directory was prepared, in order.
pub open spec fn postcheck_spec(s: &Settings) -> Option<SettingsError> {
    if !is_valid_quality(s.quality@) {
        Some(SettingsError::InvalidQuality(s.quality))
    } else if s.folder_structure == FolderStructure::Custom && trim_ws(
        s.custom_folder_template@,
    ).len() == 0 {
        Some(SettingsError::TemplateRequired)
    } else {
        None
    }
}

fn trimmed_len(s: &String) -> (r: usize)
    ensures
        r == trim_ws(s@).len(),
{
    let v = chars_of(s.as_str());
    strip_chars(false, v.as_slice()).len()
}

fn check_quality(q: &String) -> (r: bool)
    ensures
        r == is_valid_quality(q@),
{
    str_eq(q.as_str(), "MP3_128") || str_eq(q.as_str(), "MP3_320") || str_eq(q.as_str(), "FLAC")
}

impl Settings {
    /// The checks that come before the output directory is created: an ARL
    /// of at least 100 bytes once trimmed, and a non-blank output directory.
    pub fn precheck(&self) -> (r: Result<(), SettingsError>)
        ensures
            match precheck_spec(self) {
                None => r is Ok,
                Some(e) => r == Err::<(), SettingsError>(e),
            },
    {
        let arl = chars_of(self.arl.as_str());
        let trimmed = strip_chars(false, arl.as_slice());
        if trimmed.len() == 0 {
            return Err(SettingsError::ArlRequired);
        }
        if byte_len_capped(trimmed.as_slice(), 100) < 100 {
            return Err(SettingsError::ArlTooShort);
        }
        if trimmed_len(&self.output_dir) == 0 {
            return Err(SettingsError::OutputDirRequired);
        }
        Ok(())
    }

    /// Validates the settings before they are saved; `dir` is what became of
    /// the output directory once `precheck` passed and it was created if
    /// missing.
    pub fn validate(&self, dir: &OutputDirState) -> (r: Result<(), SettingsError>)
        ensures
            match precheck_spec(self) {
                Some(e) => r == Err::<(), SettingsError>(e),
                None => match dir {
                    OutputDirState::CreateFailed(msg) => r == Err::<(), SettingsError>(
                        SettingsError::CannotCreateOutputDir(*msg),
                    ),
                    OutputDirState::NotADirectory => r == Err::<(), SettingsError>(
                        SettingsError::NotADirectory,
                    ),
                    OutputDirState::Ready => match postcheck_spec(self) {
                        Some(e) => r == Err::<(), SettingsError>(e),
                        None => r is Ok,
                    },
                },
            },
    {
        match self.precheck() {
            Err(e) => {
                return Err(e);
            },
            Ok(()) => {},
        }
        match dir {
            OutputDirState::CreateFailed(msg) => {
                return Err(SettingsError::CannotCreateOutputDir(msg.clone()));
            },
            OutputDirState::NotADirectory => {
                return Err(SettingsError::NotADirectory);
            },
            OutputDirState::Ready => {},
        }
        if !check_quality(&self.quality) {
            return Err(SettingsError::InvalidQuality(self.quality.clone()));
        }
        match self.folder_structure {
            FolderStructure::Custom => {
                if trimmed_len(&self.custom_folder_template) == 0 {
                    return Err(SettingsError::TemplateRequired);
                }
            },
            _ => {},
        }
        Ok(())
    }
}

/// The quality check accepts exactly the qualities its error message names,
/// MP3_128, MP3_320 and FLAC: settings that pass the other checks are
/// refused for their quality exactly when it is none of these.
pub proof fn lemma_quality_check(s: &Settings)
    ensures
        (s.quality@ == "MP3_128"@ || s.quality@ == "MP3_320"@ || s.quality@ == "FLAC"@) ==> !(
        postcheck_spec(s) matches Some(SettingsError::InvalidQuality(_))),
        !(s.quality@ == "MP3_128"@ || s.quality@ == "MP3_320"@ || s.quality@ == "FLAC"@)
            ==> postcheck_spec(s) == Some(SettingsError::InvalidQuality(s.quality)),
        (SettingsError::InvalidQuality(s.quality)).message_spec() == "Invalid quality '"@
            + s.quality@ + "'. Must be one of: MP3_128, MP3_320, FLAC"@,
{
}

/// Settings with an ARL and an output directory that pass, a ready output
/// directory and a folder structure that needs no template are accepted
/// with each of the three qualities.
pub proof fn lemma_each_quality_accepted(s: &Settings)
    requires
        precheck_spec(s) is None,
        s.folder_structure != FolderStructure::Custom,
        s.quality@ == "MP3_128"@ || s.quality@ == "MP3_320"@ || s.quality@ == "FLAC"@,
    ensures
        postcheck_spec(s) is None,
{
}

// ---------------------------------------------------------------------------
// Search history
// ---------------------------------------------------------------------------

/// The most searches that the history keeps.
pub const MAX_SEARCH_HISTORY: usize = 20;

/// The longest query, in bytes, that is recorded.
pub const MAX_QUERY_BYTES: usize = 500;

/// `h` without the entries equal to `q`, in order.
pub open spec fn without(h: Seq<Seq<char>>, q: Seq<char>) -> Seq<Seq<char>>
    decreases h.len(),
{
    if h.len() == 0 {
        Seq::empty()
    } else {
        let prev = without(h.drop_last(), q);
        if h.last() == q {
            prev
        } else {
            prev.push(h.last())
        }
    }
}

/// The history after a search for `q`: `q` first, then the earlier entries
/// other than `q`, keeping at most `MAX_SEARCH_HISTORY`.
pub open spec fn recorded_history(h: Seq<Seq<char>>, q: Seq<char>) -> Seq<Seq<char>> {
    let r = seq![q] + without(h, q);
    if r.len() > MAX_SEARCH_HISTORY {
        r.take(MAX_SEARCH_HISTORY as int)
    } else {
        r
    }
}

/// Whether a search for `query` is recorded at all.
pub open spec fn records_search(enabled: bool, query: Seq<char>) -> bool {
    enabled && trim_ws(query).len() > 0 && byte_len(trim_ws(query)) <= MAX_QUERY_BYTES
}

/// Every field but the search history is the same.
pub open spec fn same_but_history(a: &Settings, b: &Settings) -> bool {
    &&& a.arl == b.arl
    &&& a.output_dir == b.output_dir
    &&& a.quality == b.quality
    &&& a.folder_structure == b.folder_structure
    &&& a.custom_folder_template == b.custom_folder_template
    &&& a.theme == b.theme
    &&& a.custom_theme == b.custom_theme
    &&& a.enable_search_history == b.enable_search_history
    &&& a.notifications_enabled == b.notifications_enabled
    &&& a.locale == b.locale
    &&& a.close_to_tray == b.close_to_tray
}

impl Settings {
    /// Records a search in the history (most recent first, no repeats, at
    /// most 20), unless the history is disabled or the trimmed query is empty
    /// or longer than 500 bytes. Returns whether the history changed and the
    /// settings must be saved.
    pub fn add_search_history(&mut self, query: &str) -> (changed: bool)
        ensures
            changed == records_search(old(self).enable_search_history, query@),
            same_but_history(final(self), old(self)),
            changed ==> string_views(final(self).search_history@) == recorded_history(
                string_views(old(self).search_history@),
                trim_ws(query@),
            ),
            !changed ==> final(self).search_history == old(self).search_history,
    {
        if !self.enable_search_history {
            return false;
        }
        let qv = chars_of(query);
        let trimmed = strip_chars(false, qv.as_slice());
        if trimmed.len() == 0 {
            return false;
        }
        if byte_len_capped(trimmed.as_slice(), MAX_QUERY_BYTES + 1) > MAX_QUERY_BYTES {
            return false;
        }
        let q = string_of(trimmed.as_slice());
        let mut kept: Vec<String> = Vec::new();
        let mut i: usize = 0;
        let ghost h = string_views(self.search_history@);
        while i < self.search_history.len()
            invariant
                i <= self.search_history.len(),
                h == string_views(self.search_history@),
                q@ == trimmed@,
                string_views(kept@) == without(h.take(i as int), q@),
            decreases self.search_history.len() - i,
        {
            assert(h.take(i + 1).drop_last() =~= h.take(i as int));
            assert(h.take(i + 1).last() == self.search_history@[i as int]@);
            let ghost before = string_views(kept@);
            let e = chars_of(self.search_history[i].as_str());
            if !chars_eq(e.as_slice(), trimmed.as_slice()) {
                kept.push(self.search_history[i].clone());
                assert(string_views(kept@) =~= before.push(self.search_history@[i as int]@));
            }
            i += 1;
        }
        assert(h.take(h.len() as int) =~= h);
        let mut next: Vec<String> = Vec::new();
        next.push(q);
        let mut j: usize = 0;
        let ghost full = seq![trimmed@] + without(h, trimmed@);
        while j < kept.len() && next.len() < MAX_SEARCH_HISTORY
            invariant
                j <= kept.len(),
                next@.len() == j + 1,
                next@.len() <= MAX_SEARCH_HISTORY,
                string_views(kept@) == without(h, trimmed@),
                full == seq![trimmed@] + string_views(kept@),
                string_views(next@) == full.take(j + 1),
            decreases kept.len() - j,
        {
            let ghost before = string_views(next@);
            next.push(kept[j].clone());
            assert(string_views(next@) =~= full.take(j + 2)) by {
                assert(string_views(next@) =~= before.push(kept@[j as int]@));
                assert(full[j + 1] == string_views(kept@)[j as int]);
            }
            j += 1;
        }
        proof {
            if j == kept.len() {
                assert(full.take(j + 1) =~= full);
            }
        }
        self.search_history = next;
        true
    }

    /// Forgets every recorded search.
    pub fn clear_search_history(&mut self)
        ensures
            final(self).search_history@.len() == 0,
            same_but_history(final(self), old(self)),
    {
        self.search_history = Vec::new();
    }
}

// ---------------------------------------------------------------------------
// Saving, updating and redacting
// ---------------------------------------------------------------------------

/// The settings as written to disk when the ARL lives in the credential
/// store, and as shown to the user interface: the ARL left out.
pub open spec fn redacted_spec(a: &Settings, b: &Settings) -> bool {
    &&& b.arl@ == Seq::<char>::empty()
    &&& b.output_dir == a.output_dir
    &&& b.quality == a.quality
    &&& b.folder_structure == a.folder_structure
    &&& b.custom_folder_template == a.custom_folder_template
    &&& b.theme == a.theme
    &&& b.custom_theme == a.custom_theme
    &&& b.search_history == a.search_history
    &&& b.enable_search_history == a.enable_search_history
    &&& b.notifications_enabled == a.notifications_enabled
    &&& b.locale == a.locale
    &&& b.close_to_tray == a.close_to_tray
}

impl Settings {
    /// The same settings with the ARL left out.
    pub fn without_arl(self) -> (r: Settings)
        ensures
            redacted_spec(&self, &r),
    {
        let mut r = self;
        r.arl = String::new();
        r
    }

    /// Puts the ARL read from the credential store in place, when one was
    /// found and is not empty.
    pub fn apply_keyring_arl(&mut self, stored: Option<String>)
        ensures
            match stored {
                Some(a) if a@.len() > 0 => final(self).arl == a,
                _ => final(self).arl == old(self).arl,
            },
            same_but_arl(final(self), old(self)),
    {
        match stored {
            Some(a) => {
                if chars_of(a.as_str()).len() > 0 {
                    self.arl = a;
                }
            },
            None => {},
        }
    }
}

/// Every field but the ARL is the same.
pub open spec fn same_but_arl(a: &Settings, b: &Settings) -> bool {
    &&& a.output_dir == b.output_dir
    &&& a.quality == b.quality
    &&& a.folder_structure == b.folder_structure
    &&& a.custom_folder_template == b.custom_folder_template
    &&& a.theme == b.theme
    &&& a.custom_theme == b.custom_theme
    &&& a.search_history == b.search_history
    &&& a.enable_search_history == b.enable_search_history
    &&& a.notifications_enabled == b.notifications_enabled
    &&& a.locale == b.locale
    &&& a.close_to_tray == b.close_to_tray
}

/// The settings come back whole from their redacted copy: putting the ARL
/// read from the credential store back into the settings as written without
/// it gives the settings that were saved.
pub proof fn lemma_redaction_round_trip(saved: Settings, on_disk: Settings, loaded: Settings)
    requires
        redacted_spec(&saved, &on_disk),
        same_but_arl(&loaded, &on_disk),
        loaded.arl == saved.arl,
    ensures
        loaded == saved,
{
}

/// The settings that the user interface sends to be saved, merged with those
/// in force: a blank ARL keeps the current one, and the search history is
/// always the current one. Fails when no ARL is left.
pub fn merge_for_save(new_settings: Settings, current: &Settings) -> (r: Result<Settings, SettingsError>)
    ensures
        ({
            let arl = if trim_ws(new_settings.arl@).len() == 0 {
                current.arl
            } else {
                new_settings.arl
            };
            if trim_ws(arl@).len() == 0 {
                r matches Err(SettingsError::ArlRequired)
            } else {
                &&& r matches Ok(m)
                &&& m.arl == arl
                &&& m.search_history@ == current.search_history@
                &&& m.output_dir == new_settings.output_dir
                &&& m.quality == new_settings.quality
                &&& m.folder_structure == new_settings.folder_structure
                &&& m.custom_folder_template == new_settings.custom_folder_template
                &&& m.theme == new_settings.theme
                &&& m.custom_theme == new_settings.custom_theme
                &&& m.enable_search_history == new_settings.enable_search_history
                &&& m.notifications_enabled == new_settings.notifications_enabled
                &&& m.locale == new_settings.locale
                &&& m.close_to_tray == new_settings.close_to_tray
            }
        }),
{
    let mut merged = new_settings;
    if trimmed_len(&merged.arl) == 0 {
        merged.arl = current.arl.clone();
    }
    merged.search_history = current.search_history.clone();
    if trimmed_len(&merged.arl) == 0 {
        return Err(SettingsError::ArlRequired);
    }
    Ok(merged)
}

/// The settings that may be changed one at a time.
#[derive(Debug, Clone, Copy, PartialEq, Eq, Structural)]
pub enum SettingKey {
    OutputDir,
    Quality,
    FolderStructure,
    CustomFolderTemplate,
    Theme,
    CustomTheme,
    NotificationsEnabled,
    EnableSearchHistory,
    CloseToTray,
    Locale,
}

pub open spec fn setting_key_spec(key: Seq<char>) -> Option<SettingKey> {
    if key == "output_dir"@ {
        Some(SettingKey::OutputDir)
    } else if key == "quality"@ {
        Some(SettingKey::Quality)
    } else if key == "folder_structure"@ {
        Some(SettingKey::FolderStructure)
    } else if key == "custom_folder_template"@ {
        Some(SettingKey::CustomFolderTemplate)
    } else if key == "theme"@ {
        Some(SettingKey::Theme)
    } else if key == "custom_theme"@ {
        Some(SettingKey::CustomTheme)
    } else if key == "notifications_enabled"@ {
        Some(SettingKey::NotificationsEnabled)
    } else if key == "enable_search_history"@ {
        Some(SettingKey::EnableSearchHistory)
    } else if key == "close_to_tray"@ {
        Some(SettingKey::CloseToTray)
    } else if key == "locale"@ {
        Some(SettingKey::Locale)
    } else {
        None
    }
}

/// Which setting a key of an update names; `None` for a key that cannot be
/// changed on its own (the ARL and the search history among them).
pub fn setting_key(key: &str) -> (r: Option<SettingKey>)
    ensures
        r == setting_key_spec(key@),
{
    if str_eq(key, "output_dir") {
        Some(SettingKey::OutputDir)
    } else if str_eq(key, "quality") {
        Some(SettingKey::Quality)
    } else if str_eq(key, "folder_structure") {
        Some(SettingKey::FolderStructure)
    } else if str_eq(key, "custom_folder_template") {
        Some(SettingKey::CustomFolderTemplate)
    } else if str_eq(key, "theme") {
        Some(SettingKey::Theme)
    } else if str_eq(key, "custom_theme") {
        Some(SettingKey::CustomTheme)
    } else if str_eq(key, "notifications_enabled") {
        Some(SettingKey::NotificationsEnabled)
    } else if str_eq(key, "enable_search_history") {
        Some(SettingKey::EnableSearchHistory)
    } else if str_eq(key, "close_to_tray") {
        Some(SettingKey::CloseToTray)
    } else if str_eq(key, "locale") {
        Some(SettingKey::Locale)
    } else {
        None
    }
}

/// The refusal of a key that cannot be changed on its own.
pub fn unknown_setting_message(key: &str) -> (r: String)
    ensures
        r@ == "Setting '"@ + key@ + "' cannot be updated individually"@,
{
    let mut v = chars_of("Setting '");
    let k = chars_of(key);
    extend_chars(&mut v, k.as_slice());
    let t = chars_of("' cannot be updated individually");
    extend_chars(&mut v, t.as_slice());
    string_of(v.as_slice())
}

/// A new value for one setting.
pub enum SettingUpdate {
    OutputDir(String),
    Quality(String),
    FolderStructure(FolderStructure),
    CustomFolderTemplate(String),
    Theme(Option<String>),
    CustomTheme(Option<String>),
    NotificationsEnabled(bool),
    EnableSearchHistory(bool),
    CloseToTray(bool),
    Locale(String),
}

/// The settings after one update: the named field takes the new value and
/// every other field is unchanged.
pub open spec fn updated_spec(a: &Settings, u: &SettingUpdate, b: &Settings) -> bool {
    &&& b.arl == a.arl
    &&& b.search_history == a.search_history
    &&& b.output_dir == (match u {
        SettingUpdate::OutputDir(v) => *v,
        _ => a.output_dir,
    })
    &&& b.quality == (match u {
        SettingUpdate::Quality(v) => *v,
        _ => a.quality,
    })
    &&& b.folder_structure == (match u {
        SettingUpdate::FolderStructure(v) => *v,
        _ => a.folder_structure,
    })
    &&& b.custom_folder_template == (match u {
        SettingUpdate::CustomFolderTemplate(v) => *v,
        _ => a.custom_folder_template,
    })
    &&& b.theme == (match u {
        SettingUpdate::Theme(v) => *v,
        _ => a.theme,
    })
    &&& b.custom_theme == (match u {
        SettingUpdate::CustomTheme(v) => *v,
        _ => a.custom_theme,
    })
    &&& b.notifications_enabled == (match u {
        SettingUpdate::NotificationsEnabled(v) => *v,
        _ => a.notifications_enabled,
    })
    &&& b.enable_search_history == (match u {
        SettingUpdate::EnableSearchHistory(v) => *v,
        _ => a.enable_search_history,
    })
    &&& b.close_to_tray == (match u {
        SettingUpdate::CloseToTray(v) => *v,
        _ => a.close_to_tray,
    })
    &&& b.locale == (match u {
        SettingUpdate::Locale(v) => *v,
        _ => a.locale,
    })
}

impl Settings {
    /// Changes one setting.
    pub fn apply_update(&mut self, update: SettingUpdate)
        ensures
            updated_spec(old(self), &update, final(self)),
    {
        match update {
            SettingUpdate::OutputDir(v) => self.output_dir = v,
            SettingUpdate::Quality(v) => self.quality = v,
            SettingUpdate::FolderStructure(v) => self.folder_structure = v,
            SettingUpdate::CustomFolderTemplate(v) => self.custom_folder_template = v,
            SettingUpdate::Theme(v) => self.theme = v,
            SettingUpdate::CustomTheme(v) => self.custom_theme = v,
            SettingUpdate::NotificationsEnabled(v) => self.notifications_enabled = v,
            SettingUpdate::EnableSearchHistory(v) => self.enable_search_history = v,
            SettingUpdate::CloseToTray(v) => self.close_to_tray = v,
            SettingUpdate::Locale(v) => self.locale = v,
        }
    }
}

// ---------------------------------------------------------------------------
// Where the ARL is kept
// ---------------------------------------------------------------------------

/// Whether the OS credential store is used: it is unless `DEEZY_NO_KEYRING`
/// is `1`, `true` or `yes` (`value` is the variable's value, if it is set).
pub fn keyring_enabled(value: Option<&str>) -> (r: bool)
    ensures
        r == !(value matches Some(v) && (v@ == "1"@ || v@ == "true"@ || v@ == "yes"@)),
{
    match value {
        Some(v) => !(str_eq(v, "1") || str_eq(v, "true") || str_eq(v, "yes")),
        None => true,
    }
}

/// Where the ARL is kept.
#[derive(Debug, Clone, Copy, PartialEq, Eq, Structural)]
pub enum ArlStorage {
    Keyring,
    PlainFile,
}

/// Where the ARL is kept, and why it is not in the credential store.
pub struct ArlStorageStatus {
    pub storage: Option<ArlStorage>,
    pub reason: Option<String>,
}

impl ArlStorageStatus {
    /// The ARL is in the credential store.
    pub fn secure() -> (r: Self)
        ensures
            r.storage == Some(ArlStorage::Keyring),
            r.reason is None,
    {
        ArlStorageStatus { storage: Some(ArlStorage::Keyring), reason: None }
    }

    /// No ARL is stored, for the given reason.
    pub fn none(reason: Option<String>) -> (r: Self)
        ensures
            r.storage is None,
            r.reason == reason,
    {
        ArlStorageStatus { storage: None, reason }
    }
}

pub open spec fn disabled_reason() -> Seq<char> {
    "Disabled by DEEZY_NO_KEYRING"@
}

/// Whether the status needs what the credential store holds: when the store
/// is enabled and the settings file could be read.
pub open spec fn needs_keyring_spec(disk: &Result<Option<String>, String>, enabled: bool) -> bool {
    enabled && disk is Ok
}

pub fn needs_keyring_lookup(disk: &Result<Option<String>, String>, enabled: bool) -> (r: bool)
    ensures
        r == needs_keyring_spec(disk, enabled),
{
    enabled && disk.is_ok()
}

pub open spec fn opt_str(o: Option<String>) -> Option<Seq<char>> {
    match o {
        Some(s) => Some(s@),
        None => None,
    }
}

/// Where the ARL is kept, from the ARL in the settings file (`disk`), whether
/// the credential store is enabled, and what the store holds (`keyring`).
pub open spec fn storage_status_spec(
    disk: &Result<Option<String>, String>,
    enabled: bool,
    keyring: &Result<Option<String>, String>,
) -> (Option<ArlStorage>, Option<Seq<char>>) {
    match disk {
        Err(e) => (None, Some("Cannot safely read settings.json: "@ + e@)),
        Ok(d) => if d is Some && trim_ws(d->0@).len() > 0 {
            (
                Some(ArlStorage::PlainFile),
                if enabled {
                    match keyring {
                        Err(e) => Some(e@),
                        Ok(_) => None,
                    }
                } else {
                    Some(disabled_reason())
                },
            )
        } else if !enabled {
            (None, Some(disabled_reason()))
        } else {
            match keyring {
                Err(e) => (None, Some(e@)),
                Ok(k) => if k is Some && trim_ws(k->0@).len() > 0 {
                    (Some(ArlStorage::Keyring), None)
                } else {
                    (None, None)
                },
            }
        },
    }
}

fn concat_lit(lit: &str, tail: &String) -> (r: String)
    ensures
        r@ == lit@ + tail@,
{
    let mut v = chars_of(lit);
    let t = chars_of(tail.as_str());
    extend_chars(&mut v, t.as_slice());
    string_of(v.as_slice())
}

/// Where the ARL is kept. `keyring` is what the credential store holds; it
/// is only read when `needs_keyring_lookup` says so.
pub fn arl_storage_status(
    disk: &Result<Option<String>, String>,
    keyring_enabled: bool,
    keyring: &Option<Result<Option<String>, String>>,
) -> (r: ArlStorageStatus)
    requires
        needs_keyring_spec(disk, keyring_enabled) ==> keyring is Some,
    ensures
        needs_keyring_spec(disk, keyring_enabled) ==> (r.storage, opt_str(r.reason))
            == storage_status_spec(disk, keyring_enabled, &keyring->0),
        !needs_keyring_spec(disk, keyring_enabled) ==> forall|k: Result<Option<String>, String>|
            (r.storage, opt_str(r.reason)) == #[trigger] storage_status_spec(
                disk,
                keyring_enabled,
                &k,
            ),
{
    match disk {
        Err(e) => {
            return ArlStorageStatus::none(Some(concat_lit("Cannot safely read settings.json: ", e)));
        },
        Ok(Some(arl)) if trimmed_len(arl) > 0 => {
            let reason = if keyring_enabled {
                match keyring {
                    Some(Err(e)) => Some(e.clone()),
                    _ => None,
                }
            } else {
                Some(String::from_str("Disabled by DEEZY_NO_KEYRING"))
            };
            return ArlStorageStatus { storage: Some(ArlStorage::PlainFile), reason };
        },
        _ => {},
    }
    if !keyring_enabled {
        return ArlStorageStatus::none(Some(String::from_str("Disabled by DEEZY_NO_KEYRING")));
    }
    match keyring {
        Some(Ok(Some(arl))) if trimmed_len(arl) > 0 => ArlStorageStatus::secure(),
        Some(Ok(_)) => ArlStorageStatus::none(None),
        Some(Err(e)) => ArlStorageStatus::none(Some(e.clone())),
        None => ArlStorageStatus::none(None),
    }
}

// ---------------------------------------------------------------------------
// Laws of the search history
// ---------------------------------------------------------------------------

pub open spec fn no_duplicates(h: Seq<Seq<char>>) -> bool {
    forall|i: int, j: int| 0 <= i < j < h.len() ==> h[i] != h[j]
}

proof fn lemma_without_excludes(h: Seq<Seq<char>>, q: Seq<char>)
    ensures
        !without(h, q).contains(q),
        forall|x: Seq<char>| without(h, q).contains(x) ==> h.contains(x),
        without(h, q).len() <= h.len(),
    decreases h.len(),
{
    if h.len() > 0 {
        lemma_without_excludes(h.drop_last(), q);
        let prev = without(h.drop_last(), q);
        let w = without(h, q);
        assert forall|x: Seq<char>| w.contains(x) implies h.contains(x) by {
            let i = choose|i: int| 0 <= i < w.len() && w[i] == x;
            if i < prev.len() {
                assert(prev[i] == x);
                assert(prev.contains(x));
                let d = h.drop_last();
                assert(d.contains(x));
                let k = choose|k: int| 0 <= k < d.len() && d[k] == x;
                assert(d[k] == h[k]);
                assert(h[k] == x);
            } else {
                assert(h[h.len() - 1] == x);
            }
        }
        if w.contains(q) {
            let i = choose|i: int| 0 <= i < w.len() && w[i] == q;
            if i < prev.len() {
                assert(prev[i] == q);
            }
        }
    }
}

proof fn lemma_without_no_duplicates(h: Seq<Seq<char>>, q: Seq<char>)
    requires
        no_duplicates(h),
    ensures
        no_duplicates(without(h, q)),
    decreases h.len(),
{
    if h.len() > 0 {
        let d = h.drop_last();
        assert(no_duplicates(d)) by {
            assert forall|i: int, j: int| 0 <= i < j < d.len() implies d[i] != d[j] by {
                assert(d[i] == h[i] && d[j] == h[j]);
            }
        }
        lemma_without_no_duplicates(d, q);
        lemma_without_excludes(d, q);
        let prev = without(d, q);
        if h.last() != q {
            assert(!prev.contains(h.last())) by {
                if prev.contains(h.last()) {
                    assert(d.contains(h.last()));
                    let k = choose|k: int| 0 <= k < d.len() && d[k] == h.last();
                    assert(h[k] == h[h.len() - 1]);
                }
            }
            let w = prev.push(h.last());
            assert forall|i: int, j: int| 0 <= i < j < w.len() implies w[i] != w[j] by {
                if j == w.len() - 1 {
                    assert(w[i] == prev[i]);
                    assert(prev.contains(prev[i]));
                } else {
                    assert(w[i] == prev[i] && w[j] == prev[j]);
                }
            }
        }
    }
}

proof fn lemma_without_absent(h: Seq<Seq<char>>, q: Seq<char>)
    requires
        !h.contains(q),
    ensures
        without(h, q) == h,
    decreases h.len(),
{
    if h.len() > 0 {
        assert(!h.drop_last().contains(q)) by {
            if h.drop_last().contains(q) {
                let k = choose|k: int| 0 <= k < h.drop_last().len() && h.drop_last()[k] == q;
                assert(h[k] == q);
            }
        }
        lemma_without_absent(h.drop_last(), q);
        assert(h[h.len() - 1] != q);
        assert(h.drop_last().push(h.last()) =~= h);
    }
}

/// Recording a search puts it first, keeps at most 20 entries, never lists
/// a search twice when the history did not, and recording the same search
/// again changes nothing.
pub proof fn lemma_search_history_laws(h: Seq<Seq<char>>, q: Seq<char>)
    ensures
        recorded_history(h, q).len() >= 1,
        recorded_history(h, q)[0] == q,
        recorded_history(h, q).len() <= MAX_SEARCH_HISTORY,
        !recorded_history(h, q).drop_first().contains(q),
        no_duplicates(h) ==> no_duplicates(recorded_history(h, q)),
        recorded_history(recorded_history(h, q), q) == recorded_history(h, q),
{
    lemma_without_excludes(h, q);
    let w = without(h, q);
    let full = seq![q] + w;
    let r = recorded_history(h, q);
    assert(r[0] == q);
    let rest = r.drop_first();
    assert(!rest.contains(q)) by {
        if rest.contains(q) {
            let k = choose|k: int| 0 <= k < rest.len() && rest[k] == q;
            assert(w[k] == q);
        }
    }
    if no_duplicates(h) {
        lemma_without_no_duplicates(h, q);
        assert forall|i: int, j: int| 0 <= i < j < r.len() implies r[i] != r[j] by {
            if i == 0 {
                assert(r[j] == w[j - 1]);
            } else {
                assert(r[i] == w[i - 1] && r[j] == w[j - 1]);
            }
        }
    }
    // Recording again: the entries after the first lack `q`, so nothing is
    // removed and the same list comes back.
    lemma_without_split(r, q);
    lemma_without_absent(rest, q);
    assert(seq![q] + rest =~= r);
}

proof fn lemma_without_split(r: Seq<Seq<char>>, q: Seq<char>)
    requires
        r.len() >= 1,
        r[0] == q,
    ensures
        without(r, q) == without(r.drop_first(), q),
    decreases r.len(),
{
    if r.len() == 1 {
        assert(r.drop_first() =~= Seq::<Seq<char>>::empty());
        assert(r.drop_last() =~= Seq::<Seq<char>>::empty());
    } else {
        lemma_without_split(r.drop_last(), q);
        assert(r.drop_last().drop_first() =~= r.drop_first().drop_last());
        assert(r.drop_first().last() == r.last());
    }
}

// ---------------------------------------------------------------------------
// The settings file
// ---------------------------------------------------------------------------

/// The temporary file the settings are written to before it replaces
/// `settings.json`: `.settings.json.{pid}.{counter}.tmp`.
pub open spec fn settings_temp_name_spec(pid: u32, counter: u64) -> Seq<char> {
    ".settings.json."@ + decimal(pid as nat) + "."@ + decimal(counter as nat) + ".tmp"@
}

pub fn settings_temp_name(pid: u32, counter: u64) -> (r: String)
    ensures
        r@ == settings_temp_name_spec(pid, counter),
{
    let mut v = chars_of(".settings.json.");
    extend_chars(&mut v, chars_of(u64_to_string(pid as u64).as_str()).as_slice());
    extend_chars(&mut v, chars_of(".").as_slice());
    extend_chars(&mut v, chars_of(u64_to_string(counter).as_str()).as_slice());
    extend_chars(&mut v, chars_of(".tmp").as_slice());
    string_of(v.as_slice())
}

/// How many times writing the settings tries a fresh temporary name.
pub const SETTINGS_WRITE_ATTEMPTS: u32 = 10;

/// Whether a file's permission bits give no access to group or others.
pub fn owner_only(mode: u32) -> (r: bool)
    ensures
        r == (mode & 63u32 == 0u32),
{
    mode & 63u32 == 0u32
}

} // verus!
