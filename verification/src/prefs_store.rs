//! In-memory preferences holder: reads hand out a copy, writes validate
//! first and leave the stored value untouched on rejection. Loading from and
//! saving to the backing file is the caller's concern.

use vstd::prelude::*;

use crate::prefs::Preferences;

verus! {

pub struct PreferencesService {
    pub preferences: Preferences,
}

impl PreferencesService {
    /// A service holding the given preferences, typically those loaded from
    /// the backing file or the defaults.
    pub fn with_initial(initial: Preferences) -> (r: Self)
        ensures
            r.preferences == initial,
    {
        PreferencesService { preferences: initial }
    }

    /// A copy of the current preferences.
    pub fn get(&self) -> (r: Preferences)
        ensures
            r == self.preferences,
    {
        let p = &self.preferences;
        Preferences {
            show_on_launch: p.show_on_launch,
            launch_on_startup: p.launch_on_startup,
            hotcorner_enabled: p.hotcorner_enabled,
            hotcorner_corner: p.hotcorner_corner,
            hotcorner_size: p.hotcorner_size,
            shortcut_enabled: p.shortcut_enabled,
            keyboard_shortcut: p.keyboard_shortcut.clone(),
            auto_focus: p.auto_focus,
            auto_hide_enabled: p.auto_hide_enabled,
            auto_hide_delay_ms: p.auto_hide_delay_ms,
            hide_on_blur: p.hide_on_blur,
            fade_duration_ms: p.fade_duration_ms,
            text_size: p.text_size,
            window_x: p.window_x,
            window_y: p.window_y,
            window_width: p.window_width,
            window_height: p.window_height,
            sync: crate::prefs::SyncPreferences {
                markdown_enabled: p.sync.markdown_enabled,
                markdown_path: match &p.sync.markdown_path {
                    Some(path) => Some(path.clone()),
                    None => None,
                },
                include_metadata: p.sync.include_metadata,
                apple_notes_enabled: p.sync.apple_notes_enabled,
                apple_notes_title: p.sync.apple_notes_title.clone(),
                apple_notes_folder: p.sync.apple_notes_folder.clone(),
            },
        }
    }

    /// Replaces the stored preferences when the new value validates; rejects
    /// it with the validation error, leaving the stored value unchanged,
    /// otherwise.
    pub fn update(&mut self, new_prefs: Preferences) -> (r: Result<(), String>)
        ensures
            r is Ok <==> new_prefs.spec_validation_error() is None,
            r is Ok ==> final(self).preferences == new_prefs,
            r matches Err(m) ==> *final(self) == *old(self) && new_prefs.spec_validation_error()
                == Some(m@),
    {
        match new_prefs.validate() {
            Err(m) => Err(m),
            Ok(()) => {
                self.preferences = new_prefs;
                Ok(())
            },
        }
    }
}

} // verus!
