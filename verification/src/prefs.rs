//! Preferences model: per-destination synchronization settings, the
//! application's window and behaviour settings, and their validation rules.

use vstd::prelude::*;

use crate::text::{trimmed, trimmed_is_empty};

verus! {

/// Screen corner watched by the hot-corner detector.
#[derive(Debug, Clone, Copy, PartialEq, Eq, Structural)]
pub enum Corner {
    TopLeft,
    TopRight,
    BottomLeft,
    BottomRight,
}

impl Default for Corner {
    fn default() -> (r: Self)
        ensures
            r == Corner::TopRight,
    {
        Corner::TopRight
    }
}

/// Per-destination synchronization settings. At most one destination may be
/// enabled at a time; that rule is enforced by validation, not by the
/// orchestrator, which supports any combination.
#[derive(Debug, Clone)]
pub struct SyncPreferences {
    pub markdown_enabled: bool,
    pub markdown_path: Option<String>,
    pub include_metadata: bool,
    pub apple_notes_enabled: bool,
    pub apple_notes_title: String,
    pub apple_notes_folder: String,
}

impl SyncPreferences {
    /// The error validation reports for these settings, when it rejects them.
    pub open spec fn spec_validation_error(&self) -> Option<Seq<char>> {
        if self.markdown_enabled && self.apple_notes_enabled {
            Some("Only one sync target can be enabled at a time"@)
        } else if self.apple_notes_enabled && trimmed(self.apple_notes_title@).len() == 0 {
            Some("Apple Notes title cannot be empty"@)
        } else if self.apple_notes_enabled && trimmed(self.apple_notes_folder@).len() == 0 {
            Some("Apple Notes folder cannot be empty"@)
        } else {
            None
        }
    }

    /// Accepts the settings exactly when at most one destination is enabled
    /// and, with the scripted destination enabled, title and folder are
    /// non-empty after trimming.
    pub fn validate(&self) -> (r: Result<(), String>)
        ensures
            r is Ok <==> self.spec_validation_error() is None,
            r matches Err(m) ==> self.spec_validation_error() == Some(m@),
    {
        if self.markdown_enabled && self.apple_notes_enabled {
            return Err(String::from_str("Only one sync target can be enabled at a time"));
        }
        if self.apple_notes_enabled && trimmed_is_empty(self.apple_notes_title.as_str()) {
            return Err(String::from_str("Apple Notes title cannot be empty"));
        }
        if self.apple_notes_enabled && trimmed_is_empty(self.apple_notes_folder.as_str()) {
            return Err(String::from_str("Apple Notes folder cannot be empty"));
        }
        Ok(())
    }

    /// Whether any destination is enabled.
    pub fn is_any_enabled(&self) -> (r: bool)
        ensures
            r == (self.markdown_enabled || self.apple_notes_enabled),
    {
        self.markdown_enabled || self.apple_notes_enabled
    }
}

impl Default for SyncPreferences {
    fn default() -> (r: Self)
        ensures
            !r.markdown_enabled,
            r.markdown_path is None,
            r.include_metadata,
            !r.apple_notes_enabled,
            r.apple_notes_title@ == "What The Note"@,
            r.apple_notes_folder@ == "Notes"@,
    {
        SyncPreferences {
            markdown_enabled: false,
            markdown_path: None,
            include_metadata: true,
            apple_notes_enabled: false,
            apple_notes_title: String::from_str("What The Note"),
            apple_notes_folder: String::from_str("Notes"),
        }
    }
}

/// All user preferences, the synchronization settings among them.
#[derive(Debug, Clone)]
pub struct Preferences {
    pub show_on_launch: bool,
    pub launch_on_startup: bool,
    pub hotcorner_enabled: bool,
    pub hotcorner_corner: Corner,
    pub hotcorner_size: u32,
    pub shortcut_enabled: bool,
    pub keyboard_shortcut: String,
    pub auto_focus: bool,
    pub auto_hide_enabled: bool,
    pub auto_hide_delay_ms: u32,
    pub hide_on_blur: bool,
    pub fade_duration_ms: u32,
    pub text_size: u32,
    pub window_x: Option<i32>,
    pub window_y: Option<i32>,
    pub window_width: Option<u32>,
    pub window_height: Option<u32>,
    pub sync: SyncPreferences,
}

impl Preferences {
    /// The error validation reports, when it rejects the preferences: the
    /// checks run in a fixed order and the first failure wins.
    pub open spec fn spec_validation_error(&self) -> Option<Seq<char>> {
        if self.hotcorner_size == 0 || self.hotcorner_size > 100 {
            Some("Hot corner size must be between 1 and 100 pixels"@)
        } else if self.auto_hide_delay_ms < 250 || self.auto_hide_delay_ms > 300000 {
            Some("Auto-hide delay must be between 250ms and 300000ms"@)
        } else if self.fade_duration_ms > 2000 {
            Some("Fade duration must be 2000ms or less"@)
        } else if self.keyboard_shortcut@.len() == 0 {
            Some("Keyboard shortcut cannot be empty"@)
        } else if self.text_size < 8 || self.text_size > 32 {
            Some("Text size must be between 8px and 32px"@)
        } else {
            self.sync.spec_validation_error()
        }
    }

    /// Accepts the preferences exactly when every range check passes and the
    /// synchronization settings validate.
    pub fn validate(&self) -> (r: Result<(), String>)
        ensures
            r is Ok <==> self.spec_validation_error() is None,
            r matches Err(m) ==> self.spec_validation_error() == Some(m@),
    {
        if self.hotcorner_size == 0 || self.hotcorner_size > 100 {
            return Err(String::from_str("Hot corner size must be between 1 and 100 pixels"));
        }
        if self.auto_hide_delay_ms < 250 || self.auto_hide_delay_ms > 300000 {
            return Err(String::from_str("Auto-hide delay must be between 250ms and 300000ms"));
        }
        if self.fade_duration_ms > 2000 {
            return Err(String::from_str("Fade duration must be 2000ms or less"));
        }
        if self.keyboard_shortcut.as_str().is_empty() {
            return Err(String::from_str("Keyboard shortcut cannot be empty"));
        }
        if self.text_size < 8 || self.text_size > 32 {
            return Err(String::from_str("Text size must be between 8px and 32px"));
        }
        self.sync.validate()
    }
}

impl Default for Preferences {
    fn default() -> (r: Self)
        ensures
            !r.show_on_launch,
            r.launch_on_startup,
            r.hotcorner_enabled,
            r.hotcorner_corner == Corner::TopRight,
            r.hotcorner_size == 10,
            r.shortcut_enabled,
            r.keyboard_shortcut@ == "Alt+Command+N"@,
            r.auto_focus,
            !r.auto_hide_enabled,
            r.auto_hide_delay_ms == 5000,
            r.hide_on_blur,
            r.fade_duration_ms == 200,
            r.text_size == 14,
            r.window_x is None,
            r.window_y is None,
            r.window_width is None,
            r.window_height is None,
            !r.sync.markdown_enabled,
            r.sync.markdown_path is None,
            r.sync.include_metadata,
            !r.sync.apple_notes_enabled,
            r.sync.apple_notes_title@ == "What The Note"@,
            r.sync.apple_notes_folder@ == "Notes"@,
    {
        Preferences {
            show_on_launch: false,
            launch_on_startup: true,
            hotcorner_enabled: true,
            hotcorner_corner: Corner::TopRight,
            hotcorner_size: 10,
            shortcut_enabled: true,
            keyboard_shortcut: String::from_str("Alt+Command+N"),
            auto_focus: true,
            auto_hide_enabled: false,
            auto_hide_delay_ms: 5000,
            hide_on_blur: true,
            fade_duration_ms: 200,
            text_size: 14,
            window_x: None,
            window_y: None,
            window_width: None,
            window_height: None,
            sync: SyncPreferences::default(),
        }
    }
}

} // verus!
