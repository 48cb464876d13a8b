//! User settings, their validation, and the searchable settings catalog.
use crate::history::HistoryConfig;
use crate::text::{
    split_chars, split_on,
    ascii_lower, chars_of, contains, contains_text, join, owned, push_char, push_str,
    starts_with, starts_with_text, text_eq, to_ascii_lowercase, to_lowercase, trim, trim_bounds,
    is_white_space, is_whitespace, string_from_chars, unicode_lowercase,
};
use crate::types::{copy_string, copy_strings, texts};
use vstd::prelude::*;

verus! {

#[derive(Debug, Clone, Copy, PartialEq, Eq, Structural)]
pub enum AppearanceMode {
    System,
    Light,
    Dark,
}

#[derive(Debug, Clone, PartialEq, Eq)]
pub struct ShortcutSettings {
    pub open_history: String,
    pub paste_selected: String,
    pub paste_without_formatting: String,
    pub delete_selected: String,
    pub pin_selected: String,
    pub clear_unpinned: String,
    pub clear_all: String,
    pub open_preferences: String,
}

#[derive(Debug, Clone, PartialEq, Eq)]
pub struct ClippoSettings {
    pub history_limit: usize,
    pub max_item_bytes: usize,
    pub clipboard_check_interval_ms: u64,
    pub paste_automatically: bool,
    pub launch_at_login: bool,
    pub show_footer: bool,
    pub show_tray_or_menu_icon: bool,
    pub appearance: AppearanceMode,
    pub shortcuts: ShortcutSettings,
    pub ignored_clipboard_types: Vec<String>,
    pub ignored_applications: Vec<String>,
    pub ignored_content_patterns: Vec<String>,
}

#[derive(Debug, Clone, PartialEq, Eq)]
pub struct ValidatedSettings {
    settings: ClippoSettings,
}

#[derive(Debug, Clone, PartialEq, Eq)]
pub enum SettingsImportError {
    Json(String),
    Validation(SettingsError),
}

#[derive(Debug, Clone, PartialEq, Eq)]
pub enum SettingsError {
    HistoryLimitMustBePositive,
    MaxItemBytesMustBePositive,
    ClipboardCheckIntervalTooLow { minimum_ms: u64, actual_ms: u64 },
    EmptyShortcut { action: &'static str },
    ReservedShortcut { action: &'static str, shortcut: String },
    DuplicateShortcut(ShortcutConflict),
}

#[derive(Debug, Clone, PartialEq, Eq)]
pub struct ShortcutConflict {
    pub shortcut: String,
    pub first_action: &'static str,
    pub second_action: &'static str,
}

// ---------------------------------------------------------------------------
// Model
// ---------------------------------------------------------------------------

/// The view of a settings error, with texts as character sequences.
pub enum SettingsErrorView {
    HistoryLimitMustBePositive,
    MaxItemBytesMustBePositive,
    ClipboardCheckIntervalTooLow { minimum_ms: u64, actual_ms: u64 },
    EmptyShortcut { action: Seq<char> },
    ReservedShortcut { action: Seq<char>, shortcut: Seq<char> },
    DuplicateShortcut { shortcut: Seq<char>, first_action: Seq<char>, second_action: Seq<char> },
}

impl View for SettingsError {
    type V = SettingsErrorView;

    open spec fn view(&self) -> SettingsErrorView {
        match self {
            SettingsError::HistoryLimitMustBePositive => SettingsErrorView::HistoryLimitMustBePositive,
            SettingsError::MaxItemBytesMustBePositive => SettingsErrorView::MaxItemBytesMustBePositive,
            SettingsError::ClipboardCheckIntervalTooLow { minimum_ms, actual_ms } =>
                SettingsErrorView::ClipboardCheckIntervalTooLow {
                minimum_ms: *minimum_ms,
                actual_ms: *actual_ms,
            },
            SettingsError::EmptyShortcut { action } => SettingsErrorView::EmptyShortcut {
                action: action@,
            },
            SettingsError::ReservedShortcut { action, shortcut } =>
                SettingsErrorView::ReservedShortcut { action: action@, shortcut: shortcut@ },
            SettingsError::DuplicateShortcut(c) => SettingsErrorView::DuplicateShortcut {
                shortcut: c.shortcut@,
                first_action: c.first_action@,
                second_action: c.second_action@,
            },
        }
    }
}

/// The trimmed, non-empty pieces of a shortcut, lower-cased.
pub open spec fn shortcut_parts(pieces: Seq<Seq<char>>) -> Seq<Seq<char>>
    decreases pieces.len(),
{
    if pieces.len() == 0 {
        Seq::empty()
    } else {
        let p = shortcut_parts(pieces.drop_last());
        let t = trim(pieces.last());
        if t.len() > 0 {
            p.push(unicode_lowercase(t))
        } else {
            p
        }
    }
}

/// The canonical form of a shortcut: its '+'-separated parts trimmed, empty parts
/// dropped, lower-cased, joined with '+'.
pub open spec fn normalized_shortcut(s: Seq<char>) -> Seq<char> {
    join(shortcut_parts(split_on(s, '+')), seq!['+'])
}

/// Shortcuts that the operating systems keep for themselves.
pub open spec fn is_reserved(n: Seq<char>) -> bool {
    n == "alt+f4"@ || n == "meta+q"@ || n == "ctrl+alt+delete"@
}

/// The actions of the shortcut settings, in the order they are checked.
pub open spec fn shortcut_actions() -> Seq<Seq<char>> {
    seq![
        "open_history"@,
        "paste_selected"@,
        "paste_without_formatting"@,
        "delete_selected"@,
        "pin_selected"@,
        "clear_unpinned"@,
        "clear_all"@,
        "open_preferences"@,
    ]
}

impl ShortcutSettings {
    /// The shortcuts in the order of `shortcut_actions`.
    pub open spec fn values(&self) -> Seq<Seq<char>> {
        seq![
            self.open_history@,
            self.paste_selected@,
            self.paste_without_formatting@,
            self.delete_selected@,
            self.pin_selected@,
            self.clear_unpinned@,
            self.clear_all@,
            self.open_preferences@,
        ]
    }
}

/// The shortcut at position `k` is empty, reserved, or repeats an earlier one.
pub open spec fn shortcut_problem(values: Seq<Seq<char>>, k: int) -> bool {
    let n = normalized_shortcut(values[k]);
    ||| n.len() == 0
    ||| is_reserved(n)
    ||| exists|j: int| 0 <= j < k && normalized_shortcut(values[j]) == n
}

/// The error reported for the first problem, at position `k`.
pub open spec fn shortcut_error(values: Seq<Seq<char>>, k: int, e: SettingsErrorView) -> bool {
    let n = normalized_shortcut(values[k]);
    let action = shortcut_actions()[k];
    if n.len() == 0 {
        e == SettingsErrorView::EmptyShortcut { action }
    } else if is_reserved(n) {
        e == SettingsErrorView::ReservedShortcut { action, shortcut: values[k] }
    } else {
        exists|j: int|
            0 <= j < k && normalized_shortcut(values[j]) == n && e
                == SettingsErrorView::DuplicateShortcut {
                shortcut: n,
                first_action: shortcut_actions()[j],
                second_action: action,
            }
    }
}

/// Every shortcut is usable.
pub open spec fn shortcuts_valid(values: Seq<Seq<char>>) -> bool {
    forall|k: int| 0 <= k < 8 ==> !shortcut_problem(values, k)
}

/// The error of the first unusable shortcut.
pub open spec fn first_shortcut_error(values: Seq<Seq<char>>, e: SettingsErrorView) -> bool {
    exists|k: int|
        0 <= k < 8 && shortcut_problem(values, k) && (forall|j: int|
            0 <= j < k ==> !shortcut_problem(values, j)) && shortcut_error(values, k, e)
}

/// The default shortcuts.
pub open spec fn default_shortcut_values() -> Seq<Seq<char>> {
    seq![
        "Shift+Meta+C"@,
        "Alt+Enter"@,
        "Alt+Shift+Enter"@,
        "Alt+Delete"@,
        "Alt+P"@,
        "Alt+Meta+Delete"@,
        "Shift+Alt+Meta+Delete"@,
        "Meta+Comma"@,
    ]
}

impl ClippoSettings {
    /// The value of each setting, as compared by `==`.
    pub open spec fn same_as(&self, other: &Self) -> bool {
        &&& self.history_limit == other.history_limit
        &&& self.max_item_bytes == other.max_item_bytes
        &&& self.clipboard_check_interval_ms == other.clipboard_check_interval_ms
        &&& self.paste_automatically == other.paste_automatically
        &&& self.launch_at_login == other.launch_at_login
        &&& self.show_footer == other.show_footer
        &&& self.show_tray_or_menu_icon == other.show_tray_or_menu_icon
        &&& self.appearance == other.appearance
        &&& self.shortcuts.values() == other.shortcuts.values()
        &&& texts(self.ignored_clipboard_types@) == texts(other.ignored_clipboard_types@)
        &&& texts(self.ignored_applications@) == texts(other.ignored_applications@)
        &&& texts(self.ignored_content_patterns@) == texts(other.ignored_content_patterns@)
    }

    /// The default settings.
    pub open spec fn is_default(&self) -> bool {
        &&& self.history_limit == 200
        &&& self.max_item_bytes == 5242880
        &&& self.clipboard_check_interval_ms == 500
        &&& self.paste_automatically
        &&& !self.launch_at_login
        &&& self.show_footer
        &&& self.show_tray_or_menu_icon
        &&& self.appearance == AppearanceMode::System
        &&& self.shortcuts.values() == default_shortcut_values()
        &&& self.ignored_clipboard_types@.len() == 0
        &&& self.ignored_applications@.len() == 0
        &&& self.ignored_content_patterns@.len() == 0
    }

    /// The settings are accepted: positive limits, a polling interval of at least
    /// 100 ms and usable shortcuts.
    pub open spec fn valid(&self) -> bool {
        &&& self.history_limit > 0
        &&& self.max_item_bytes > 0
        &&& self.clipboard_check_interval_ms >= 100
        &&& shortcuts_valid(self.shortcuts.values())
    }

    /// The error that validation reports.
    pub open spec fn validation_error(&self, e: SettingsErrorView) -> bool {
        if self.history_limit == 0 {
            e == SettingsErrorView::HistoryLimitMustBePositive
        } else if self.max_item_bytes == 0 {
            e == SettingsErrorView::MaxItemBytesMustBePositive
        } else if self.clipboard_check_interval_ms < 100 {
            e == SettingsErrorView::ClipboardCheckIntervalTooLow {
                minimum_ms: 100,
                actual_ms: self.clipboard_check_interval_ms,
            }
        } else {
            first_shortcut_error(self.shortcuts.values(), e)
        }
    }
}

impl ValidatedSettings {
    pub closed spec fn inner(&self) -> ClippoSettings {
        self.settings
    }
}

// ---------------------------------------------------------------------------
// Defaults and copies
// ---------------------------------------------------------------------------

impl Default for ShortcutSettings {
    fn default() -> (r: Self)
        ensures
            r.values() == default_shortcut_values(),
    {
        let r = ShortcutSettings {
            open_history: owned("Shift+Meta+C"),
            paste_selected: owned("Alt+Enter"),
            paste_without_formatting: owned("Alt+Shift+Enter"),
            delete_selected: owned("Alt+Delete"),
            pin_selected: owned("Alt+P"),
            clear_unpinned: owned("Alt+Meta+Delete"),
            clear_all: owned("Shift+Alt+Meta+Delete"),
            open_preferences: owned("Meta+Comma"),
        };
        assert(r.values() =~= default_shortcut_values());
        r
    }
}

impl Default for ClippoSettings {
    fn default() -> (r: Self)
        ensures
            r.is_default(),
    {
        ClippoSettings {
            history_limit: 200,
            max_item_bytes: 5 * 1024 * 1024,
            clipboard_check_interval_ms: 500,
            paste_automatically: true,
            launch_at_login: false,
            show_footer: true,
            show_tray_or_menu_icon: true,
            appearance: AppearanceMode::System,
            shortcuts: ShortcutSettings::default(),
            ignored_clipboard_types: Vec::new(),
            ignored_applications: Vec::new(),
            ignored_content_patterns: Vec::new(),
        }
    }
}

impl ShortcutSettings {
    /// A copy with the same shortcuts.
    pub fn duplicate(&self) -> (r: Self)
        ensures
            r.values() == self.values(),
    {
        let r = ShortcutSettings {
            open_history: copy_string(&self.open_history),
            paste_selected: copy_string(&self.paste_selected),
            paste_without_formatting: copy_string(&self.paste_without_formatting),
            delete_selected: copy_string(&self.delete_selected),
            pin_selected: copy_string(&self.pin_selected),
            clear_unpinned: copy_string(&self.clear_unpinned),
            clear_all: copy_string(&self.clear_all),
            open_preferences: copy_string(&self.open_preferences),
        };
        assert(r.values() =~= self.values());
        r
    }
}

impl ClippoSettings {
    /// A copy with the same settings.
    pub fn duplicate(&self) -> (r: Self)
        ensures
            r.same_as(self),
    {
        ClippoSettings {
            history_limit: self.history_limit,
            max_item_bytes: self.max_item_bytes,
            clipboard_check_interval_ms: self.clipboard_check_interval_ms,
            paste_automatically: self.paste_automatically,
            launch_at_login: self.launch_at_login,
            show_footer: self.show_footer,
            show_tray_or_menu_icon: self.show_tray_or_menu_icon,
            appearance: self.appearance,
            shortcuts: self.shortcuts.duplicate(),
            ignored_clipboard_types: copy_strings(&self.ignored_clipboard_types),
            ignored_applications: copy_strings(&self.ignored_applications),
            ignored_content_patterns: copy_strings(&self.ignored_content_patterns),
        }
    }

    /// Checks the settings; on success they are handed back as validated.
    pub fn validate(&self) -> (r: Result<ValidatedSettings, SettingsError>)
        ensures
            match r {
                Ok(v) => self.valid() && v.inner().same_as(self),
                Err(e) => !self.valid() && self.validation_error(e@),
            },
    {
        if self.history_limit == 0 {
            return Err(SettingsError::HistoryLimitMustBePositive);
        }
        if self.max_item_bytes == 0 {
            return Err(SettingsError::MaxItemBytesMustBePositive);
        }
        if self.clipboard_check_interval_ms < 100 {
            return Err(
                SettingsError::ClipboardCheckIntervalTooLow {
                    minimum_ms: 100,
                    actual_ms: self.clipboard_check_interval_ms,
                },
            );
        }
        match self.shortcuts.validate() {
            Ok(()) => {},
            Err(e) => {
                return Err(e);
            },
        }
        Ok(ValidatedSettings { settings: self.duplicate() })
    }

    /// Settings read from an import are kept only when they are valid.
    pub fn accept_import(settings: ClippoSettings) -> (r: Result<ClippoSettings, SettingsImportError>)
        ensures
            match r {
                Ok(s) => settings.valid() && s == settings,
                Err(SettingsImportError::Validation(e)) => !settings.valid()
                    && settings.validation_error(e@),
                Err(SettingsImportError::Json(_)) => false,
            },
    {
        match settings.validate() {
            Ok(_) => Ok(settings),
            Err(e) => Err(SettingsImportError::Validation(e)),
        }
    }

    /// Puts every setting back to its default.
    pub fn reset_to_defaults(&mut self)
        ensures
            final(self).is_default(),
    {
        *self = Self::default();
    }

    /// The history limits these settings ask for.
    pub fn history_config(&self) -> (r: HistoryConfig)
        ensures
            r == (HistoryConfig {
                max_items: self.history_limit,
                max_item_bytes: self.max_item_bytes,
            }),
    {
        HistoryConfig { max_items: self.history_limit, max_item_bytes: self.max_item_bytes }
    }
}

impl ValidatedSettings {
    /// The settings that were validated.
    pub fn into_inner(self) -> (r: ClippoSettings)
        ensures
            r == self.inner(),
    {
        self.settings
    }
}

// ---------------------------------------------------------------------------
// Shortcut validation
// ---------------------------------------------------------------------------

/// The canonical form of a shortcut.
fn normalize_shortcut(value: &str) -> (r: String)
    ensures
        r@ == normalized_shortcut(value@),
{
    let cs = chars_of(value);
    let pieces = split_chars(&cs, '+');
    let ghost pv = pieces@.map_values(|p: Vec<char>| p@);
    let mut out = String::new();
    let mut count: usize = 0;
    let mut i: usize = 0;
    while i < pieces.len()
        invariant
            i <= pieces.len(),
            pv == pieces@.map_values(|p: Vec<char>| p@),
            count <= i,
            count == shortcut_parts(pv.take(i as int)).len(),
            out@ == join(shortcut_parts(pv.take(i as int)), seq!['+']),
        decreases pieces.len() - i,
    {
        assert(pv.take(i + 1).drop_last() =~= pv.take(i as int));
        assert(pv.take(i + 1).last() == pieces@[i as int]@);
        let (a, b) = trim_bounds(&pieces[i]);
        if a < b {
            let trimmed = string_from_chars(&pieces[i], a, b);
            let lowered = to_lowercase(trimmed.as_str());
            let ghost prev = shortcut_parts(pv.take(i as int));
            if count > 0 {
                push_char(&mut out, '+');
            }
            push_str(&mut out, lowered.as_str());
            count = count + 1;
            proof {
                let now = shortcut_parts(pv.take(i + 1));
                assert(now == prev.push(lowered@));
                assert(now.drop_last() =~= prev);
                if prev.len() == 0 {
                    assert(out@ =~= join(now, seq!['+']));
                } else {
                    assert(out@ =~= join(now, seq!['+']));
                }
            }
        }
        i = i + 1;
    }
    assert(pv.take(pieces.len() as int) =~= split_on(cs@, '+'));
    out
}

/// The shortcuts that the operating systems keep for themselves: quitting a window
/// on Windows and Linux, quitting an application on macOS, and the Windows
/// security screen.
pub open spec fn os_reserved_shortcuts() -> Set<Seq<char>> {
    set!["alt+f4"@, "meta+q"@, "ctrl+alt+delete"@]
}

/// Settings with a shortcut whose canonical form is one of the operating systems'
/// reserved shortcuts are never valid, and that shortcut is a problem that
/// validation reports; a shortcut of any other canonical form is not reserved.
pub proof fn lemma_os_reserved_shortcuts_rejected(settings: ClippoSettings, k: int)
    requires
        0 <= k < 8,
    ensures
        os_reserved_shortcuts().contains(normalized_shortcut(settings.shortcuts.values()[k]))
            ==> shortcut_problem(settings.shortcuts.values(), k) && !settings.valid(),
        is_reserved(normalized_shortcut(settings.shortcuts.values()[k]))
            <==> os_reserved_shortcuts().contains(normalized_shortcut(settings.shortcuts.values()[k])),
{
    let values = settings.shortcuts.values();
    if os_reserved_shortcuts().contains(normalized_shortcut(values[k])) {
        assert(shortcut_problem(values, k));
        assert(!shortcuts_valid(values));
    }
}

/// Whether a canonical shortcut is reserved.
fn reserved_shortcut(n: &str) -> (r: bool)
    ensures
        r == is_reserved(n@),
{
    text_eq(n, "alt+f4") || text_eq(n, "meta+q") || text_eq(n, "ctrl+alt+delete")
}

impl ShortcutSettings {
    /// Checks that every shortcut is non-empty, not reserved, and different from the
    /// others once written canonically.
    #[verifier::loop_isolation(false)]
    pub fn validate(&self) -> (r: Result<(), SettingsError>)
        ensures
            match r {
                Ok(()) => shortcuts_valid(self.values()),
                Err(e) => !shortcuts_valid(self.values()) && first_shortcut_error(self.values(), e@),
            },
    {
        let ghost values = self.values();
        let actions: [&'static str; 8] = [
            "open_history",
            "paste_selected",
            "paste_without_formatting",
            "delete_selected",
            "pin_selected",
            "clear_unpinned",
            "clear_all",
            "open_preferences",
        ];
        let shortcuts: [&str; 8] = [
            self.open_history.as_str(),
            self.paste_selected.as_str(),
            self.paste_without_formatting.as_str(),
            self.delete_selected.as_str(),
            self.pin_selected.as_str(),
            self.clear_unpinned.as_str(),
            self.clear_all.as_str(),
            self.open_preferences.as_str(),
        ];
        assert(forall|k: int| 0 <= k < 8 ==> #[trigger] actions@[k]@ == shortcut_actions()[k]);
        assert(forall|k: int| 0 <= k < 8 ==> #[trigger] shortcuts@[k]@ == values[k]);
        let mut seen: Vec<String> = Vec::new();
        let mut k: usize = 0;
        while k < 8
            invariant
                k <= 8,
                seen.len() == k,
                forall|m: int| 0 <= m < 8 ==> #[trigger] actions@[m]@ == shortcut_actions()[m],
                forall|m: int| 0 <= m < 8 ==> #[trigger] shortcuts@[m]@ == values[m],
                forall|m: int| 0 <= m < k ==> #[trigger] seen@[m]@ == normalized_shortcut(values[m]),
                forall|m: int| 0 <= m < k ==> !shortcut_problem(values, m),
            decreases 8 - k,
        {
            let action = actions[k];
            let shortcut = shortcuts[k];
            let normalized = normalize_shortcut(shortcut);
            assert(action@ == shortcut_actions()[k as int]);
            assert(shortcut@ == values[k as int]);
            if normalized.as_str().is_empty() {
                let e = SettingsError::EmptyShortcut { action };
                assert(shortcut_problem(values, k as int));
                assert(shortcut_error(values, k as int, e@));
                assert(first_shortcut_error(values, e@));
                return Err(e);
            }
            if reserved_shortcut(normalized.as_str()) {
                let e = SettingsError::ReservedShortcut { action, shortcut: owned(shortcut) };
                assert(shortcut_problem(values, k as int));
                assert(shortcut_error(values, k as int, e@));
                assert(first_shortcut_error(values, e@));
                return Err(e);
            }
            let mut j: usize = 0;
            while j < k
                invariant
                    j <= k,
                    seen.len() == k,
                    normalized@ == normalized_shortcut(values[k as int]),
                    forall|m: int| 0 <= m < k ==> #[trigger] seen@[m]@ == normalized_shortcut(values[m]),
                    forall|m: int| 0 <= m < j ==> normalized_shortcut(values[m]) != normalized@,
                decreases k - j,
            {
                if text_eq(seen[j].as_str(), normalized.as_str()) {
                    assert(normalized_shortcut(values[j as int]) == normalized@);
                    assert(shortcut_problem(values, k as int));
                    let first_action = actions[j];
                    assert(first_action@ == shortcut_actions()[j as int]);
                    let e = SettingsError::DuplicateShortcut(
                        ShortcutConflict { shortcut: normalized, first_action, second_action: action },
                    );
                    assert(shortcut_error(values, k as int, e@));
                    assert(first_shortcut_error(values, e@));
                    return Err(e);
                }
                j = j + 1;
            }
            seen.push(normalized);
            k = k + 1;
        }
        Ok(())
    }
}

} // verus!
