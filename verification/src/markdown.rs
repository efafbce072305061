//! Markdown-file backend, compute half: the document written to the output
//! file and the validation of the configured path. Writing the file is the
//! caller's concern; a failed write surfaces as an I/O error through the
//! orchestrator.

use vstd::prelude::*;

use crate::prefs::SyncPreferences;
use crate::sync::{SyncError, SyncResult};
use crate::text::{push_str_chars, string_from_chars, trimmed, trimmed_is_empty};

verus! {

/// The document the Markdown backend writes: the sanitized content, with a
/// metadata footer carrying the timestamp when configured.
pub open spec fn spec_markdown_document(
    content: Seq<char>,
    include_metadata: bool,
    ts: Seq<char>,
) -> Seq<char> {
    if include_metadata {
        content + "\n\n---\nSynced from What The Note \u{2022} "@ + ts + "\n"@
    } else {
        content
    }
}

pub fn markdown_document(content: &str, include_metadata: bool, timestamp: &str) -> (r: String)
    ensures
        r@ == spec_markdown_document(content@, include_metadata, timestamp@),
{
    let mut out: Vec<char> = Vec::new();
    push_str_chars(&mut out, content);
    if include_metadata {
        push_str_chars(&mut out, "\n\n---\nSynced from What The Note \u{2022} ");
        push_str_chars(&mut out, timestamp);
        push_str_chars(&mut out, "\n");
    }
    proof {
        assert(out@ =~= spec_markdown_document(content@, include_metadata, timestamp@));
    }
    string_from_chars(&out)
}

/// The configured output path, owed exactly when one is set and non-empty
/// after trimming; otherwise the destination counts as not configured.
pub fn markdown_target_path(prefs: &SyncPreferences) -> (r: SyncResult<String>)
    ensures
        r is Ok <==> (prefs.markdown_path matches Some(p) && trimmed(p@).len() != 0),
        r matches Ok(path) ==> (prefs.markdown_path matches Some(p) && path == p),
        r matches Err(e) ==> (e matches SyncError::NotConfigured(m) && m@
            == "Markdown output path must be specified"@),
{
    match &prefs.markdown_path {
        Some(p) => {
            if trimmed_is_empty(p.as_str()) {
                Err(SyncError::NotConfigured("Markdown output path must be specified"))
            } else {
                Ok(p.clone())
            }
        },
        None => Err(SyncError::NotConfigured("Markdown output path must be specified")),
    }
}

} // verus!
