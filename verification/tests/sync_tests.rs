use what_the_note::prefs::SyncPreferences;
use what_the_note::sync::{SyncError, SyncOutcome, SyncService, SyncTarget, SyncTestResponse};

fn prefs(markdown: bool, apple: bool) -> SyncPreferences {
    SyncPreferences {
        markdown_enabled: markdown,
        markdown_path: Some("/tmp/note.md".to_string()),
        include_metadata: true,
        apple_notes_enabled: apple,
        apple_notes_title: "What The Note".to_string(),
        apple_notes_folder: "Notes".to_string(),
    }
}

#[test]
fn first_failure_recorded_second_still_reported() {
    let p = prefs(true, true);
    let outcomes = SyncService::sync_outcomes(
        &p,
        Err(SyncError::Io("disk full".to_string())),
        Ok(()),
    );
    assert_eq!(outcomes.len(), 2);
    assert!(matches!(outcomes[0].target, SyncTarget::Markdown));
    assert!(matches!(&outcomes[0].result, Err(SyncError::Io(m)) if m == "disk full"));
    assert!(matches!(outcomes[1].target, SyncTarget::AppleNotes));
    assert!(outcomes[1].result.is_ok());
}

#[test]
fn sync_all_returns_first_failure_and_masks_the_rest() {
    let p = prefs(true, true);
    let r = SyncService::sync_all(&p, Err(SyncError::Io("disk full".to_string())), Ok(()));
    assert!(matches!(r, Err(SyncError::Io(m)) if m == "disk full"));
}

#[test]
fn no_destination_enabled_yields_empty_outcomes_and_success() {
    let p = prefs(false, false);
    let outcomes = SyncService::sync_outcomes(&p, Ok(()), Ok(()));
    assert!(outcomes.is_empty());
    assert!(SyncService::sync_all(&p, Ok(()), Ok(())).is_ok());
}

#[test]
fn single_enabled_destination_is_the_only_outcome() {
    let p = prefs(false, true);
    let outcomes = SyncService::sync_outcomes(&p, Ok(()), Ok(()));
    assert_eq!(outcomes.len(), 1);
    assert!(matches!(outcomes[0].target, SyncTarget::AppleNotes));
}

#[test]
fn sync_all_succeeds_when_every_enabled_destination_succeeds() {
    let p = prefs(true, true);
    assert!(SyncService::sync_all(&p, Ok(()), Ok(())).is_ok());
}

#[test]
fn sync_all_reports_second_destination_failure_when_first_succeeds() {
    let p = prefs(true, true);
    let r = SyncService::sync_all(
        &p,
        Ok(()),
        Err(SyncError::AppleScript("boom".to_string())),
    );
    assert!(matches!(r, Err(SyncError::AppleScript(m)) if m == "boom"));
}

#[test]
fn target_labels_are_human_readable() {
    assert_eq!(SyncTarget::Markdown.label(), "Markdown");
    assert_eq!(SyncTarget::AppleNotes.label(), "Apple Notes");
}

#[test]
fn error_messages_are_one_liners_for_display() {
    assert_eq!(
        SyncError::Io("disk full".to_string()).message(),
        "IO error: disk full"
    );
    assert_eq!(
        SyncError::NotConfigured("Apple Notes folder must be specified").message(),
        "Sync not configured: Apple Notes folder must be specified"
    );
    assert_eq!(
        SyncError::NotImplemented("Apple Notes sync is only available on macOS").message(),
        "Sync not implemented: Apple Notes sync is only available on macOS"
    );
    assert_eq!(
        SyncError::PermissionDenied("blocked".to_string()).message(),
        "Permission denied while running sync: blocked"
    );
    assert_eq!(
        SyncError::AppleScript("oops".to_string()).message(),
        "AppleScript failed: oops"
    );
}

#[test]
fn test_response_without_targets() {
    let r = SyncTestResponse::from_outcomes(Vec::new());
    assert!(!r.success);
    assert!(r.target.is_none());
    assert_eq!(r.message, "No sync targets are enabled");
}

#[test]
fn test_response_reports_first_outcome_success() {
    let outcomes = vec![SyncOutcome { target: SyncTarget::Markdown, result: Ok(()) }];
    let r = SyncTestResponse::from_outcomes(outcomes);
    assert!(r.success);
    assert_eq!(r.target.as_deref(), Some("Markdown"));
    assert_eq!(r.message, "Sync completed successfully");
}

#[test]
fn test_response_reports_first_outcome_failure() {
    let outcomes = vec![
        SyncOutcome {
            target: SyncTarget::AppleNotes,
            result: Err(SyncError::PermissionDenied("blocked".to_string())),
        },
        SyncOutcome { target: SyncTarget::Markdown, result: Ok(()) },
    ];
    let r = SyncTestResponse::from_outcomes(outcomes);
    assert!(!r.success);
    assert_eq!(r.target.as_deref(), Some("Apple Notes"));
    assert_eq!(r.message, "Permission denied while running sync: blocked");
}
