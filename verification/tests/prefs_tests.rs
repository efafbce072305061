use what_the_note::hotcorner::HotCornerService;
use what_the_note::markdown::{markdown_document, markdown_target_path};
use what_the_note::prefs::{Corner, Preferences, SyncPreferences};
use what_the_note::prefs_store::PreferencesService;
use what_the_note::storage::StorageService;
use what_the_note::sync::SyncError;

#[test]
fn defaults_match_the_documented_values() {
    let p = Preferences::default();
    assert!(!p.show_on_launch);
    assert!(p.launch_on_startup);
    assert_eq!(p.hotcorner_corner, Corner::TopRight);
    assert_eq!(p.hotcorner_size, 10);
    assert_eq!(p.keyboard_shortcut, "Alt+Command+N");
    assert_eq!(p.auto_hide_delay_ms, 5000);
    assert_eq!(p.fade_duration_ms, 200);
    assert_eq!(p.text_size, 14);
    assert!(!p.sync.markdown_enabled);
    assert!(!p.sync.apple_notes_enabled);
    assert_eq!(p.sync.apple_notes_title, "What The Note");
    assert_eq!(p.sync.apple_notes_folder, "Notes");
    assert!(p.validate().is_ok());
}

fn valid_prefs() -> Preferences {
    Preferences::default()
}

#[test]
fn each_range_check_reports_its_own_error() {
    let mut p = valid_prefs();
    p.hotcorner_size = 0;
    assert_eq!(p.validate().unwrap_err(), "Hot corner size must be between 1 and 100 pixels");

    let mut p = valid_prefs();
    p.auto_hide_delay_ms = 100;
    assert_eq!(p.validate().unwrap_err(), "Auto-hide delay must be between 250ms and 300000ms");

    let mut p = valid_prefs();
    p.fade_duration_ms = 3000;
    assert_eq!(p.validate().unwrap_err(), "Fade duration must be 2000ms or less");

    let mut p = valid_prefs();
    p.keyboard_shortcut = String::new();
    assert_eq!(p.validate().unwrap_err(), "Keyboard shortcut cannot be empty");

    let mut p = valid_prefs();
    p.text_size = 40;
    assert_eq!(p.validate().unwrap_err(), "Text size must be between 8px and 32px");
}

#[test]
fn at_most_one_destination_may_be_enabled() {
    let mut p = valid_prefs();
    p.sync.markdown_enabled = true;
    p.sync.apple_notes_enabled = true;
    assert_eq!(p.validate().unwrap_err(), "Only one sync target can be enabled at a time");
}

#[test]
fn scripted_destination_needs_title_and_folder() {
    let mut p = valid_prefs();
    p.sync.apple_notes_enabled = true;
    p.sync.apple_notes_title = "   ".to_string();
    assert_eq!(p.validate().unwrap_err(), "Apple Notes title cannot be empty");

    let mut p = valid_prefs();
    p.sync.apple_notes_enabled = true;
    p.sync.apple_notes_folder = "".to_string();
    assert_eq!(p.validate().unwrap_err(), "Apple Notes folder cannot be empty");
}

#[test]
fn is_any_enabled_reflects_the_flags() {
    let mut s = SyncPreferences::default();
    assert!(!s.is_any_enabled());
    s.markdown_enabled = true;
    assert!(s.is_any_enabled());
    s.markdown_enabled = false;
    s.apple_notes_enabled = true;
    assert!(s.is_any_enabled());
}

#[test]
fn service_hands_out_copies_and_guards_updates() {
    let mut service = PreferencesService::with_initial(Preferences::default());
    let copy = service.get();
    assert_eq!(copy.keyboard_shortcut, "Alt+Command+N");

    let mut bad = service.get();
    bad.text_size = 200;
    let err = service.update(bad).unwrap_err();
    assert_eq!(err, "Text size must be between 8px and 32px");
    assert_eq!(service.get().text_size, 14);

    let mut good = service.get();
    good.text_size = 20;
    assert!(service.update(good).is_ok());
    assert_eq!(service.get().text_size, 20);
}

#[test]
fn hot_corner_config_is_replaceable() {
    let mut h = HotCornerService::new();
    assert_eq!(h.corner, Corner::TopRight);
    assert_eq!(h.size, 10);
    assert!(h.enabled);
    h.update_config(Corner::BottomLeft, 25, false);
    assert_eq!(h.corner, Corner::BottomLeft);
    assert_eq!(h.size, 25);
    assert!(!h.enabled);
}

#[test]
fn markdown_document_appends_footer_only_when_configured() {
    let plain = markdown_document("body text", false, "2024-06-01T10:00:00+00:00");
    assert_eq!(plain, "body text");
    let stamped = markdown_document("body text", true, "2024-06-01T10:00:00+00:00");
    assert!(stamped.starts_with("body text"));
    assert!(stamped.contains("Synced from What The Note • 2024-06-01T10:00:00+00:00"));
}

#[test]
fn markdown_path_is_owed_exactly_when_set_and_non_empty() {
    let mut s = SyncPreferences::default();
    s.markdown_path = Some("/tmp/note.md".to_string());
    assert_eq!(markdown_target_path(&s).unwrap(), "/tmp/note.md");

    s.markdown_path = Some("   ".to_string());
    assert!(matches!(
        markdown_target_path(&s),
        Err(SyncError::NotConfigured(m)) if m == "Markdown output path must be specified"
    ));

    s.markdown_path = None;
    assert!(matches!(markdown_target_path(&s), Err(SyncError::NotConfigured(_))));
}

#[test]
fn default_note_greets_and_carries_task_markup() {
    let note = StorageService::default_note();
    assert!(note.contains("Welcome to What The Note!"));
    assert!(note.contains("data-type=\"taskList\""));
}
