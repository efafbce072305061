//! Sync orchestrator: the closed error taxonomy, the destination
//! enumeration, per-destination outcomes, and the two caller-facing
//! aggregation modes. The orchestrator is a pure function of the settings
//! and each enabled backend's run result; performing the actual writes is
//! the caller's concern, so one destination's failure never blocks another.

use vstd::prelude::*;

use crate::prefs::SyncPreferences;
use crate::text::{push_str_chars, string_from_chars};

verus! {

/// Closed error taxonomy. Every value is meant for direct display to the
/// user as a one-line message.
#[derive(Debug)]
pub enum SyncError {
    /// The automation process could not be spawned, or a file write failed.
    Io(String),
    /// A required destination setting is missing or invalid, or the target
    /// collection does not exist.
    NotConfigured(&'static str),
    /// The destination is unavailable on the current operating system.
    NotImplemented(&'static str),
    /// The operating system denied the automation bridge access.
    PermissionDenied(String),
    /// The external application reported an error not otherwise classified.
    AppleScript(String),
}

pub type SyncResult<T> = Result<T, SyncError>;

impl SyncError {
    /// The one-line description shown to the user.
    pub open spec fn spec_message(&self) -> Seq<char> {
        match self {
            SyncError::Io(m) => "IO error: "@ + m@,
            SyncError::NotConfigured(m) => "Sync not configured: "@ + m@,
            SyncError::NotImplemented(m) => "Sync not implemented: "@ + m@,
            SyncError::PermissionDenied(m) => "Permission denied while running sync: "@ + m@,
            SyncError::AppleScript(m) => "AppleScript failed: "@ + m@,
        }
    }

    pub fn message(&self) -> (r: String)
        ensures
            r@ == self.spec_message(),
    {
        let mut out: Vec<char> = Vec::new();
        match self {
            SyncError::Io(m) => {
                push_str_chars(&mut out, "IO error: ");
                push_str_chars(&mut out, m.as_str());
            },
            SyncError::NotConfigured(m) => {
                push_str_chars(&mut out, "Sync not configured: ");
                push_str_chars(&mut out, m);
            },
            SyncError::NotImplemented(m) => {
                push_str_chars(&mut out, "Sync not implemented: ");
                push_str_chars(&mut out, m);
            },
            SyncError::PermissionDenied(m) => {
                push_str_chars(&mut out, "Permission denied while running sync: ");
                push_str_chars(&mut out, m.as_str());
            },
            SyncError::AppleScript(m) => {
                push_str_chars(&mut out, "AppleScript failed: ");
                push_str_chars(&mut out, m.as_str());
            },
        }
        string_from_chars(&out)
    }
}

/// The destinations content can be exported to, in the orchestrator's fixed
/// order.
#[derive(Debug, Clone, Copy, PartialEq, Eq, Structural)]
pub enum SyncTarget {
    Markdown,
    AppleNotes,
}

impl SyncTarget {
    /// Human-readable label used in user-facing reporting.
    pub open spec fn spec_label(&self) -> Seq<char> {
        match self {
            SyncTarget::Markdown => "Markdown"@,
            SyncTarget::AppleNotes => "Apple Notes"@,
        }
    }

    pub fn label(&self) -> (r: &'static str)
        ensures
            r@ == self.spec_label(),
    {
        match self {
            SyncTarget::Markdown => "Markdown",
            SyncTarget::AppleNotes => "Apple Notes",
        }
    }
}

/// Result of one synchronization attempt against one destination. Produced
/// fresh on every orchestration call and never persisted.
pub struct SyncOutcome {
    pub target: SyncTarget,
    pub result: SyncResult<()>,
}

pub struct SyncService;

impl SyncService {
    /// Records one outcome per enabled destination, Markdown before the
    /// scripted application, taking each backend's run result as given; a
    /// failure in one destination does not suppress the other's outcome.
    /// A backend's result is ignored when its destination is disabled, and
    /// with no destination enabled the list is empty.
    pub fn sync_outcomes(
        prefs: &SyncPreferences,
        markdown_run: SyncResult<()>,
        apple_notes_run: SyncResult<()>,
    ) -> (outcomes: Vec<SyncOutcome>)
        ensures
            outcomes@.len() == (if prefs.markdown_enabled {
                1int
            } else {
                0int
            }) + (if prefs.apple_notes_enabled {
                1int
            } else {
                0int
            }),
            prefs.markdown_enabled ==> outcomes@[0].target == SyncTarget::Markdown
                && outcomes@[0].result == markdown_run,
            prefs.apple_notes_enabled ==> outcomes@.last().target == SyncTarget::AppleNotes
                && outcomes@.last().result == apple_notes_run,
    {
        let mut results: Vec<SyncOutcome> = Vec::new();
        if prefs.markdown_enabled {
            results.push(SyncOutcome { target: SyncTarget::Markdown, result: markdown_run });
        }
        if prefs.apple_notes_enabled {
            results.push(SyncOutcome { target: SyncTarget::AppleNotes, result: apple_notes_run });
        }
        results
    }

    /// Blocking aggregate: a no-op success with no destination enabled, else
    /// the first failure in destination order, masking later outcomes.
    pub fn sync_all(
        prefs: &SyncPreferences,
        markdown_run: SyncResult<()>,
        apple_notes_run: SyncResult<()>,
    ) -> (r: SyncResult<()>)
        ensures
            !(prefs.markdown_enabled || prefs.apple_notes_enabled) ==> r is Ok,
            prefs.markdown_enabled && markdown_run is Err ==> r == markdown_run,
            prefs.apple_notes_enabled && apple_notes_run is Err && (prefs.markdown_enabled
                ==> markdown_run is Ok) ==> r == apple_notes_run,
            (prefs.markdown_enabled ==> markdown_run is Ok) && (prefs.apple_notes_enabled
                ==> apple_notes_run is Ok) ==> r is Ok,
    {
        if !prefs.is_any_enabled() {
            return Ok(());
        }
        if prefs.markdown_enabled {
            match markdown_run {
                Err(e) => {
                    return Err(e);
                },
                Ok(()) => {},
            }
        }
        if prefs.apple_notes_enabled {
            match apple_notes_run {
                Err(e) => {
                    return Err(e);
                },
                Ok(()) => {},
            }
        }
        Ok(())
    }
}

/// What a single-destination test run reports: success or failure, the
/// destination's label, and a one-line message.
pub struct SyncTestResponse {
    pub success: bool,
    pub target: Option<String>,
    pub message: String,
}

impl SyncTestResponse {
    /// Reports the first outcome of a test run, or that no destination is
    /// enabled when there is none.
    pub fn from_outcomes(outcomes: Vec<SyncOutcome>) -> (r: SyncTestResponse)
        ensures
            outcomes@.len() == 0 ==> !r.success && r.target is None && r.message@
                == "No sync targets are enabled"@,
            outcomes@.len() > 0 ==> r.success == (outcomes@[0].result is Ok) && (r.target matches
            Some(l) && l@ == outcomes@[0].target.spec_label()),
            outcomes@.len() > 0 && outcomes@[0].result is Ok ==> r.message@
                == "Sync completed successfully"@,
            outcomes@.len() > 0 && outcomes@[0].result is Err ==> (outcomes@[0].result matches Err(
                e,
            ) && r.message@ == e.spec_message()),
    {
        if outcomes.len() == 0 {
            return SyncTestResponse {
                success: false,
                target: None,
                message: String::from_str("No sync targets are enabled"),
            };
        }
        let mut rest = outcomes;
        let first = rest.remove(0);
        let target_label = Some(String::from_str(first.target.label()));
        match first.result {
            Ok(()) => SyncTestResponse {
                success: true,
                target: target_label,
                message: String::from_str("Sync completed successfully"),
            },
            Err(err) => SyncTestResponse {
                success: false,
                target: target_label,
                message: err.message(),
            },
        }
    }
}

} // verus!
