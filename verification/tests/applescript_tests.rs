use what_the_note::applescript::{
    applescript_string_literal, build_update_script, check_permission, ensure_notes_running,
    export_outcome, export_script, export_script_now, launch_notes_script, list_folders,
    list_folders_script, parse_applescript_list, permission_probe_script, script_run_result,
    ScriptRun,
};
use what_the_note::prefs::SyncPreferences;
use what_the_note::sync::SyncError;

fn finished(success: bool, stdout: &str, stderr: &str) -> ScriptRun {
    ScriptRun::Finished {
        success,
        stdout: stdout.to_string(),
        stderr: stderr.to_string(),
    }
}

#[test]
fn listing_output_parses_to_names() {
    let parsed = parse_applescript_list("{\"Notes\", \"Work\", \"Personal\"}");
    assert_eq!(parsed, vec!["Notes", "Work", "Personal"]);
}

#[test]
fn empty_listing_output_parses_to_empty_list() {
    assert!(parse_applescript_list("{}").is_empty());
    assert!(parse_applescript_list("").is_empty());
    assert!(parse_applescript_list("   \n").is_empty());
}

#[test]
fn listing_discards_empty_elements() {
    let parsed = parse_applescript_list("{\"Notes\", , \"Work\"}");
    assert_eq!(parsed, vec!["Notes", "Work"]);
}

#[test]
fn literal_escapes_quotes_and_backslashes() {
    assert_eq!(applescript_string_literal("plain"), "\"plain\"");
    assert_eq!(applescript_string_literal("a\"b"), "\"a\\\"b\"");
    assert_eq!(applescript_string_literal("a\\b"), "\"a\\\\b\"");
}

#[test]
fn literal_encodes_newlines_as_joined_segments() {
    assert_eq!(
        applescript_string_literal("line one\nline two"),
        "\"line one\" & return & \"line two\""
    );
    assert_eq!(
        applescript_string_literal("a\r\nb\rc"),
        "\"a\" & return & \"b\" & return & \"c\""
    );
}

#[test]
fn update_script_embeds_escaped_literals() {
    let script = build_update_script("My \"Note\"", "Folder", "<h1>Body</h1>");
    assert!(script.contains("set noteName to \"My \\\"Note\\\"\""));
    assert!(script.contains("set targetFolderName to \"Folder\""));
    assert!(script.contains("set noteHTML to \"<h1>Body</h1>\""));
    assert!(script.contains("error \"Apple Notes folder not found\""));
    assert!(script.contains("make new note at end of notes of targetFolder"));
}

#[test]
fn spawn_failure_classifies_as_io() {
    let r = script_run_result(ScriptRun::SpawnFailed("no such file".to_string()));
    assert!(matches!(r, Err(SyncError::Io(m)) if m == "no such file"));
}

#[test]
fn successful_run_yields_stdout() {
    let r = script_run_result(finished(true, "output text", ""));
    assert_eq!(r.unwrap(), "output text");
}

#[test]
fn permission_denial_code_classifies_as_permission_denied() {
    let r = check_permission(finished(false, "", "execution error: not allowed (-1743)"));
    assert!(matches!(r, Err(SyncError::PermissionDenied(_))));
}

#[test]
fn not_authorised_substring_any_case_classifies_as_permission_denied() {
    let r = check_permission(finished(
        false,
        "",
        "Some prefix text; NOT AUTHORISED to send Apple events; more text",
    ));
    assert!(matches!(r, Err(SyncError::PermissionDenied(_))));
    let r2 = ensure_notes_running(finished(false, "", "wrapper: Not Authorised, sorry"));
    assert!(matches!(r2, Err(SyncError::PermissionDenied(_))));
}

#[test]
fn other_failures_classify_as_scripting_failure_with_trimmed_stderr() {
    let r = check_permission(finished(false, "", "  some AppleScript error \n"));
    assert!(matches!(r, Err(SyncError::AppleScript(m)) if m == "some AppleScript error"));
}

#[test]
fn missing_folder_marker_maps_to_not_configured() {
    let r = export_outcome(finished(false, "", "error: Apple Notes folder not found (-2700)"));
    assert!(
        matches!(r, Err(SyncError::NotConfigured(m)) if m == "Apple Notes folder does not exist")
    );
}

#[test]
fn export_outcome_passes_other_errors_through() {
    let ok = export_outcome(finished(true, "", ""));
    assert!(ok.is_ok());
    let io = export_outcome(ScriptRun::SpawnFailed("gone".to_string()));
    assert!(matches!(io, Err(SyncError::Io(_))));
}

#[test]
fn list_folders_parses_successful_run() {
    let r = list_folders(finished(true, "{\"Notes\", \"Personal\"}", ""));
    assert_eq!(r.unwrap(), vec!["Notes", "Personal"]);
}

#[test]
fn export_script_requires_folder() {
    let prefs = SyncPreferences {
        markdown_enabled: false,
        markdown_path: None,
        include_metadata: false,
        apple_notes_enabled: true,
        apple_notes_title: "T".to_string(),
        apple_notes_folder: "   ".to_string(),
    };
    let r = export_script("<p>x</p>", &prefs, "2024-01-01T00:00:00+00:00");
    assert!(
        matches!(r, Err(SyncError::NotConfigured(m)) if m == "Apple Notes folder must be specified")
    );
}

#[test]
fn export_script_builds_titled_body_with_metadata() {
    let prefs = SyncPreferences {
        markdown_enabled: false,
        markdown_path: None,
        include_metadata: true,
        apple_notes_enabled: true,
        apple_notes_title: "  My Note  ".to_string(),
        apple_notes_folder: "Notes".to_string(),
    };
    let script = export_script("<h1>My Note</h1><p>Body</p>", &prefs, "2024-06-01T10:00:00+00:00")
        .unwrap();
    assert!(script.contains("<h1>My Note</h1>"));
    assert!(script.contains("Synced from What The Note • 2024-06-01T10:00:00+00:00"));
    assert!(script.contains("<p>Body</p>"));
    assert!(script.contains("set targetFolderName to \"Notes\""));
}

#[test]
fn export_script_requires_title() {
    let prefs = SyncPreferences {
        markdown_enabled: false,
        markdown_path: None,
        include_metadata: false,
        apple_notes_enabled: true,
        apple_notes_title: " ".to_string(),
        apple_notes_folder: "Notes".to_string(),
    };
    let r = export_script("<p>x</p>", &prefs, "");
    assert!(
        matches!(r, Err(SyncError::NotConfigured(m)) if m == "Apple Notes title must be specified")
    );
}

#[test]
fn export_script_defaults_empty_body() {
    let prefs = SyncPreferences {
        markdown_enabled: false,
        markdown_path: None,
        include_metadata: false,
        apple_notes_enabled: true,
        apple_notes_title: "My Note".to_string(),
        apple_notes_folder: "Notes".to_string(),
    };
    let script = export_script("", &prefs, "").unwrap();
    assert!(script.contains("<h1>My Note</h1>"));
    assert!(script.contains("<div></div>"));
    assert!(!script.contains("Synced from"));
}

#[test]
fn export_script_now_stamps_a_timestamp() {
    let prefs = SyncPreferences {
        markdown_enabled: false,
        markdown_path: None,
        include_metadata: true,
        apple_notes_enabled: true,
        apple_notes_title: "T".to_string(),
        apple_notes_folder: "Notes".to_string(),
    };
    let script = export_script_now("<p>x</p>", &prefs).unwrap();
    assert!(script.contains("Synced from What The Note • 20"));
}

#[test]
fn fixed_scripts_speak_to_the_notes_application() {
    assert!(permission_probe_script().contains("tell application \"Notes\" to return true"));
    assert!(launch_notes_script().contains("if it is not running then"));
    assert!(list_folders_script().contains("name of folders of default account"));
}
