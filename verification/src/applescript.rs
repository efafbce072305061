//! Scripted-application backend, compute half: generation of the automation
//! scripts, escaping of string literals for the scripting language,
//! classification of a script run's outcome, and parsing of the
//! collection-listing output. Spawning the interpreter is the caller's
//! concern; every function here takes or returns plain values.

use vstd::prelude::*;

use crate::prefs::SyncPreferences;
use crate::sanitize::{sanitize_html_for_notes, spec_sanitize, spec_strip_heading,
    strip_leading_matching_heading};
use crate::sync::{SyncError, SyncResult};
use crate::text::{
    chars_vec, contains_exec, find_ch, find_ch_exec, lemma_find_ch, occurs, push_all,
    push_str_chars, replace_all, replace_seq, string_from_chars, subrange_vec, trim_str,
    trim_ch_vec, trim_vec, trimmed, ltrim_ch, rtrim_ch,
};

verus! {

/// Probe script: asks the destination application to answer at all, which
/// fails when automation access is denied.
pub open spec fn spec_permission_probe_script() -> Seq<char> {
    "\ntry\n    tell application \"Notes\" to return true\non error errMsg number errNum\n    error errMsg number errNum\nend try\n"@
}

pub fn permission_probe_script() -> (r: &'static str)
    ensures
        r@ == spec_permission_probe_script(),
{
    "\ntry\n    tell application \"Notes\" to return true\non error errMsg number errNum\n    error errMsg number errNum\nend try\n"
}

/// Script that launches the destination application when it is not running;
/// idempotent by construction.
pub open spec fn spec_launch_notes_script() -> Seq<char> {
    "\ntell application \"Notes\"\n    if it is not running then\n        launch\n    end if\nend tell\n"@
}

pub fn launch_notes_script() -> (r: &'static str)
    ensures
        r@ == spec_launch_notes_script(),
{
    "\ntell application \"Notes\"\n    if it is not running then\n        launch\n    end if\nend tell\n"
}

/// Script that lists the collection names of the default account.
pub open spec fn spec_list_folders_script() -> Seq<char> {
    "\ntry\n    tell application \"Notes\"\n        set folderNames to name of folders of default account\n        return folderNames\n    end tell\non error errMsg number errNum\n    error errMsg number errNum\nend try\n"@
}

pub fn list_folders_script() -> (r: &'static str)
    ensures
        r@ == spec_list_folders_script(),
{
    "\ntry\n    tell application \"Notes\"\n        set folderNames to name of folders of default account\n        return folderNames\n    end tell\non error errMsg number errNum\n    error errMsg number errNum\nend try\n"
}

/// The parts of `s` at or after `i` separated by the character `c`; a
/// separator at the very end contributes a final empty part.
pub open spec fn split_ch_from(s: Seq<char>, c: char, i: int) -> Seq<Seq<char>>
    decreases s.len() - i,
    when 0 <= i <= s.len()
{
    match find_ch(s, c, i) {
        Some(j) => if i <= j < s.len() {
            seq![s.subrange(i, j)] + split_ch_from(s, c, j + 1)
        } else {
            seq![s.subrange(i, s.len() as int)]
        },
        None => seq![s.subrange(i, s.len() as int)],
    }
}

fn split_ch_vec(s: &Vec<char>, c: char) -> (r: Vec<Vec<char>>)
    ensures
        r.deep_view() == split_ch_from(s@, c, 0),
{
    let mut out: Vec<Vec<char>> = Vec::new();
    let mut i: usize = 0;
    let slen = s.len();
    loop
        invariant_except_break
            0 <= i <= s@.len(),
            slen == s@.len(),
            split_ch_from(s@, c, 0) == out.deep_view() + split_ch_from(s@, c, i as int),
        ensures
            out.deep_view() == split_ch_from(s@, c, 0),
        decreases s@.len() - i,
    {
        let ghost prev = out.deep_view();
        match find_ch_exec(s, c, i) {
            Some(j) => {
                proof {
                    lemma_find_ch(s@, c, i as int);
                }
                let part = subrange_vec(s, i, j);
                out.push(part);
                proof {
                    assert(out.deep_view() =~~= prev + seq![s@.subrange(i as int, j as int)]);
                    assert(prev + (seq![s@.subrange(i as int, j as int)] + split_ch_from(
                        s@,
                        c,
                        j as int + 1,
                    )) =~= out.deep_view() + split_ch_from(s@, c, j as int + 1));
                }
                i = j + 1;
            },
            None => {
                let part = subrange_vec(s, i, s.len());
                out.push(part);
                proof {
                    assert(out.deep_view() =~~= prev + seq![
                        s@.subrange(i as int, s@.len() as int),
                    ]);
                    assert(prev + seq![s@.subrange(i as int, s@.len() as int)] =~= out.deep_view());
                }
                break ;
            },
        }
    }
    out
}

/// The split parts each wrapped in double quotes and joined with the script
/// language's line-continuation operator.
pub open spec fn join_quoted(parts: Seq<Seq<char>>) -> Seq<char>
    decreases parts.len(),
{
    if parts.len() == 0 {
        Seq::empty()
    } else if parts.len() == 1 {
        "\""@ + parts[0] + "\""@
    } else {
        "\""@ + parts[0] + "\""@ + " & return & "@ + join_quoted(parts.drop_first())
    }
}

/// A string rendered as a literal for the scripting language: line endings
/// normalized, backslashes and quotes escaped, and embedded newlines encoded
/// as quoted segments joined by the line-continuation operator, since the
/// scripting engine takes no literal spanning lines.
pub open spec fn spec_applescript_literal(input: Seq<char>) -> Seq<char> {
    let n = replace_seq(replace_seq(input, "\r\n"@, "\n"@), "\r"@, "\n"@);
    let e = replace_seq(replace_seq(n, "\\"@, "\\\\"@), "\""@, "\\\""@);
    if find_ch(e, '\n', 0) is None {
        "\""@ + e + "\""@
    } else {
        join_quoted(split_ch_from(e, '\n', 0))
    }
}

pub fn applescript_string_literal(input: &str) -> (r: String)
    ensures
        r@ == spec_applescript_literal(input@),
{
    let v = chars_vec(input);
    let crlf = chars_vec("\r\n");
    let lf = chars_vec("\n");
    let cr = chars_vec("\r");
    let bs = chars_vec("\\");
    let bs2 = chars_vec("\\\\");
    let quo = chars_vec("\"");
    let escq = chars_vec("\\\"");
    proof {
        reveal_strlit("\r\n");
        reveal_strlit("\n");
        reveal_strlit("\r");
        reveal_strlit("\\");
        reveal_strlit("\\\\");
        reveal_strlit("\"");
        reveal_strlit("\\\"");
    }
    let n1 = replace_all(&v, &crlf, &lf);
    let n2 = replace_all(&n1, &cr, &lf);
    let e1 = replace_all(&n2, &bs, &bs2);
    let e2 = replace_all(&e1, &quo, &escq);
    match find_ch_exec(&e2, '\n', 0) {
        None => {
            let mut out: Vec<char> = Vec::new();
            push_str_chars(&mut out, "\"");
            push_all(&mut out, &e2);
            push_str_chars(&mut out, "\"");
            proof {
                assert(out@ =~= "\""@ + e2@ + "\""@);
            }
            string_from_chars(&out)
        },
        Some(_) => {
            let parts = split_ch_vec(&e2, '\n');
            let ghost parts_spec = split_ch_from(e2@, '\n', 0);
            let mut out: Vec<char> = Vec::new();
            let mut t: usize = 0;
            proof {
                assert(parts_spec.skip(0) =~= parts_spec);
            }
            while t < parts.len()
                invariant
                    0 <= t <= parts@.len(),
                    parts.deep_view() == parts_spec,
                    parts@.len() == parts_spec.len(),
                    join_quoted(parts_spec) == out@ + join_quoted(parts_spec.skip(t as int)),
                decreases parts@.len() - t,
            {
                let ghost prev = out@;
                proof {
                    assert(parts_spec.skip(t as int)[0] == parts_spec[t as int]);
                    assert(parts.deep_view()[t as int] =~= parts@[t as int]@);
                }
                push_str_chars(&mut out, "\"");
                push_all(&mut out, &parts[t]);
                push_str_chars(&mut out, "\"");
                if t + 1 < parts.len() {
                    push_str_chars(&mut out, " & return & ");
                    proof {
                        let tail = parts_spec.skip(t as int);
                        assert(tail.drop_first() =~= parts_spec.skip(t as int + 1));
                        assert(join_quoted(tail) == "\""@ + tail[0] + "\""@ + " & return & "@
                            + join_quoted(parts_spec.skip(t as int + 1)));
                        assert(out@ =~= prev + ("\""@ + parts_spec[t as int] + "\""@
                            + " & return & "@));
                        assert(prev + ("\""@ + tail[0] + "\""@ + " & return & "@ + join_quoted(
                            parts_spec.skip(t as int + 1),
                        )) =~= out@ + join_quoted(parts_spec.skip(t as int + 1)));
                    }
                } else {
                    proof {
                        let tail = parts_spec.skip(t as int);
                        assert(tail.len() == 1);
                        assert(join_quoted(tail) == "\""@ + tail[0] + "\""@);
                        assert(out@ =~= prev + ("\""@ + parts_spec[t as int] + "\""@));
                        assert(parts_spec.skip(t as int + 1) =~= Seq::<Seq<char>>::empty());
                        assert(join_quoted(parts_spec.skip(t as int + 1)) == Seq::<char>::empty());
                        assert(prev + ("\""@ + tail[0] + "\""@) + Seq::<char>::empty() =~= out@);
                    }
                }
                t += 1;
            }
            proof {
                assert(parts_spec.skip(t as int) =~= Seq::<Seq<char>>::empty());
                assert(out@ + join_quoted(parts_spec.skip(t as int)) =~= out@);
            }
            string_from_chars(&out)
        },
    }
}

/// One listing item, cleaned: trimmed, stripped of surrounding quotes,
/// trimmed again.
pub open spec fn spec_clean_item(part: Seq<char>) -> Seq<char> {
    trimmed(rtrim_ch(ltrim_ch(trimmed(part), '"'), '"'))
}

/// Cleaned, non-empty items of the comma-separated tail of `inner` starting
/// at `i`.
pub open spec fn parse_items(inner: Seq<char>, i: int) -> Seq<Seq<char>>
    decreases inner.len() - i,
    when 0 <= i <= inner.len()
{
    match find_ch(inner, ',', i) {
        Some(j) => if i <= j < inner.len() {
            spec_maybe_item(inner.subrange(i, j)) + parse_items(inner, j + 1)
        } else {
            spec_maybe_item(inner.subrange(i, inner.len() as int))
        },
        None => spec_maybe_item(inner.subrange(i, inner.len() as int)),
    }
}

pub open spec fn spec_maybe_item(part: Seq<char>) -> Seq<Seq<char>> {
    let c = spec_clean_item(part);
    if c.len() > 0 {
        seq![c]
    } else {
        Seq::empty()
    }
}

/// The collection names parsed from the listing script's output: the outer
/// braces are stripped, the inside is split on commas, and each element is
/// trimmed and unquoted; empty elements are discarded.
pub open spec fn spec_parse_applescript_list(out: Seq<char>) -> Seq<Seq<char>> {
    let t = trimmed(out);
    if t.len() == 0 {
        Seq::empty()
    } else {
        let inner = trimmed(rtrim_ch(ltrim_ch(t, '{'), '}'));
        if inner.len() == 0 {
            Seq::empty()
        } else {
            parse_items(inner, 0)
        }
    }
}

/// Parses the single-line bracketed, comma-separated, quoted listing output
/// into the collection names it holds.
pub fn parse_applescript_list(output: &str) -> (r: Vec<String>)
    ensures
        r.deep_view() == spec_parse_applescript_list(output@),
{
    let v = chars_vec(output);
    let t = trim_vec(&v);
    let mut result: Vec<String> = Vec::new();
    if t.len() == 0 {
        proof {
            assert(result.deep_view() =~= spec_parse_applescript_list(output@));
        }
        return result;
    }
    let unbraced = trim_ch_vec(&t, '{', '}');
    let inner = trim_vec(&unbraced);
    if inner.len() == 0 {
        proof {
            assert(result.deep_view() =~= spec_parse_applescript_list(output@));
        }
        return result;
    }
    let mut i: usize = 0;
    let inner_len = inner.len();
    loop
        invariant_except_break
            0 <= i <= inner@.len(),
            inner_len == inner@.len(),
            parse_items(inner@, 0) == result.deep_view() + parse_items(inner@, i as int),
        ensures
            result.deep_view() == parse_items(inner@, 0),
        decreases inner@.len() - i,
    {
        let ghost prev = result.deep_view();
        match find_ch_exec(&inner, ',', i) {
            Some(j) => {
                proof {
                    lemma_find_ch(inner@, ',', i as int);
                }
                let part = subrange_vec(&inner, i, j);
                push_clean_item(&mut result, &part);
                proof {
                    assert(result.deep_view() =~~= prev + spec_maybe_item(
                        inner@.subrange(i as int, j as int),
                    ));
                    assert(prev + (spec_maybe_item(inner@.subrange(i as int, j as int))
                        + parse_items(inner@, j as int + 1)) =~= result.deep_view() + parse_items(
                        inner@,
                        j as int + 1,
                    ));
                    assert(j < inner@.len());
                }
                i = j + 1;
            },
            None => {
                let part = subrange_vec(&inner, i, inner.len());
                push_clean_item(&mut result, &part);
                proof {
                    assert(result.deep_view() =~~= prev + spec_maybe_item(
                        inner@.subrange(i as int, inner@.len() as int),
                    ));
                }
                break ;
            },
        }
    }
    proof {
        assert(result.deep_view() =~= spec_parse_applescript_list(output@));
    }
    result
}

/// Cleans one listing element and keeps it when anything remains.
fn push_clean_item(result: &mut Vec<String>, part: &Vec<char>)
    ensures
        final(result).deep_view() == old(result).deep_view() + spec_maybe_item(part@),
{
    let t1 = trim_vec(part);
    let unquoted = trim_ch_vec(&t1, '"', '"');
    let cleaned = trim_vec(&unquoted);
    if cleaned.len() > 0 {
        let s = string_from_chars(&cleaned);
        result.push(s);
        proof {
            assert(result.deep_view() =~~= old(result).deep_view() + spec_maybe_item(part@));
        }
    } else {
        proof {
            assert(result.deep_view() =~~= old(result).deep_view() + spec_maybe_item(part@));
        }
    }
}

/// Outcome of one execution of the automation interpreter, as the caller
/// observed it: either the process could not be spawned, or it ran to
/// completion with an exit status and its two output streams.
#[derive(Debug)]
pub enum ScriptRun {
    SpawnFailed(String),
    Finished { success: bool, stdout: String, stderr: String },
}

/// The interpreter's error stream indicates an automation-permission denial:
/// the known error code, or the denial phrase in any case.
pub open spec fn spec_is_permission_denial(stderr: Seq<char>) -> bool {
    occurs(stderr, "-1743"@, false) || occurs(stderr, "not authorised"@, true)
}

fn is_permission_denial(stderr: &str) -> (r: bool)
    ensures
        r == spec_is_permission_denial(stderr@),
{
    let v = chars_vec(stderr);
    let code = chars_vec("-1743");
    let phrase = chars_vec("not authorised");
    contains_exec(&v, &code, false) || contains_exec(&v, &phrase, true)
}

/// A run of a script failed, and `e` is its classification: a spawn failure
/// is an I/O error; a failing exit is a permission denial when the error
/// stream indicates one, else a generic scripting failure carrying the
/// trimmed error stream.
pub open spec fn spec_run_error(run: ScriptRun, e: SyncError) -> bool {
    match run {
        ScriptRun::SpawnFailed(m) => e matches SyncError::Io(d) && d == m,
        ScriptRun::Finished { success, stdout, stderr } => !success && if spec_is_permission_denial(
            stderr@,
        ) {
            e matches SyncError::PermissionDenied(d) && d@
                == "macOS blocked automation access to Notes"@
        } else {
            e matches SyncError::AppleScript(d) && d@ == trimmed(stderr@)
        },
    }
}

/// Whether a run failed: the process could not be spawned or exited
/// non-zero.
pub open spec fn spec_run_failed(run: ScriptRun) -> bool {
    match run {
        ScriptRun::SpawnFailed(m) => true,
        ScriptRun::Finished { success, stdout, stderr } => !success,
    }
}

/// Classifies one script run: a spawn failure is an I/O error; a successful
/// exit yields the standard output; a failing exit is a permission denial
/// when the error stream indicates one, else a generic scripting failure
/// carrying the trimmed error stream.
pub fn script_run_result(run: ScriptRun) -> (r: SyncResult<String>)
    ensures
        r is Err <==> spec_run_failed(run),
        r matches Err(e) ==> spec_run_error(run, e),
        run matches ScriptRun::Finished { success: true, stdout, .. } ==> r == Ok::<
            String,
            SyncError,
        >(stdout),
{
    match run {
        ScriptRun::SpawnFailed(m) => Err(SyncError::Io(m)),
        ScriptRun::Finished { success, stdout, stderr } => {
            if success {
                Ok(stdout)
            } else if is_permission_denial(stderr.as_str()) {
                Err(
                    SyncError::PermissionDenied(
                        String::from_str("macOS blocked automation access to Notes"),
                    ),
                )
            } else {
                Err(SyncError::AppleScript(trim_str(stderr.as_str())))
            }
        },
    }
}

/// Availability probe: interprets a run of the permission probe script.
pub fn check_permission(run: ScriptRun) -> (r: SyncResult<()>)
    ensures
        r is Ok <==> !spec_run_failed(run),
        r matches Err(e) ==> spec_run_error(run, e),
{
    match script_run_result(run) {
        Ok(_) => Ok(()),
        Err(e) => Err(e),
    }
}

/// Interprets a run of the launch script that ensures the destination
/// application is running before any other scripted call.
pub fn ensure_notes_running(run: ScriptRun) -> (r: SyncResult<()>)
    ensures
        r is Ok <==> !spec_run_failed(run),
        r matches Err(e) ==> spec_run_error(run, e),
{
    match script_run_result(run) {
        Ok(_) => Ok(()),
        Err(e) => Err(e),
    }
}

/// Interprets a run of the listing script: on success, the collection names
/// parsed from its output.
pub fn list_folders(run: ScriptRun) -> (r: SyncResult<Vec<String>>)
    ensures
        r is Ok <==> !spec_run_failed(run),
        r matches Err(e) ==> spec_run_error(run, e),
        run matches ScriptRun::Finished { success: true, stdout, .. } ==> (r matches Ok(v)
            && v.deep_view() == spec_parse_applescript_list(stdout@)),
{
    match script_run_result(run) {
        Ok(output) => Ok(parse_applescript_list(output.as_str())),
        Err(e) => Err(e),
    }
}

/// The upsert script around its three escaped literals: it locates the
/// collection by exact name in the default account, raises the
/// distinguishable missing-collection error when there is none, then
/// overwrites the document of that name or creates it.
pub open spec fn spec_build_update_script(
    title: Seq<char>,
    folder: Seq<char>,
    body: Seq<char>,
) -> Seq<char> {
    "\ntry\n    set noteName to "@ + spec_applescript_literal(title)
        + "\n    set noteHTML to "@ + spec_applescript_literal(body)
        + "\n    set targetFolderName to "@ + spec_applescript_literal(folder)
        + "\n\n    tell application \"Notes\"\n        if it is not running then launch\n        set targetAccount to default account\n        set targetFolders to every folder of targetAccount whose name is targetFolderName\n        if targetFolders is {} then\n            error \"Apple Notes folder not found\"\n        end if\n\n        set targetFolder to item 1 of targetFolders\n        set notesByName to every note of targetFolder whose name is noteName\n\n        if notesByName is {} then\n            make new note at end of notes of targetFolder with properties {name:noteName, body:noteHTML}\n        else\n            set theNote to item 1 of notesByName\n            set body of theNote to noteHTML\n        end if\n    end tell\non error errMsg number errNum\n    error errMsg number errNum\nend try\n"@
}

/// Generates the upsert script for the given title, collection name and
/// document body.
pub fn build_update_script(title: &str, folder: &str, body_html: &str) -> (r: String)
    ensures
        r@ == spec_build_update_script(title@, folder@, body_html@),
{
    let title_literal = applescript_string_literal(title);
    let folder_literal = applescript_string_literal(folder);
    let body_literal = applescript_string_literal(body_html);
    let mut out: Vec<char> = Vec::new();
    push_str_chars(&mut out, "\ntry\n    set noteName to ");
    push_str_chars(&mut out, title_literal.as_str());
    push_str_chars(&mut out, "\n    set noteHTML to ");
    push_str_chars(&mut out, body_literal.as_str());
    push_str_chars(&mut out, "\n    set targetFolderName to ");
    push_str_chars(&mut out, folder_literal.as_str());
    push_str_chars(
        &mut out,
        "\n\n    tell application \"Notes\"\n        if it is not running then launch\n        set targetAccount to default account\n        set targetFolders to every folder of targetAccount whose name is targetFolderName\n        if targetFolders is {} then\n            error \"Apple Notes folder not found\"\n        end if\n\n        set targetFolder to item 1 of targetFolders\n        set notesByName to every note of targetFolder whose name is noteName\n\n        if notesByName is {} then\n            make new note at end of notes of targetFolder with properties {name:noteName, body:noteHTML}\n        else\n            set theNote to item 1 of notesByName\n            set body of theNote to noteHTML\n        end if\n    end tell\non error errMsg number errNum\n    error errMsg number errNum\nend try\n",
    );
    proof {
        assert(out@ =~= spec_build_update_script(title@, folder@, body_html@));
    }
    string_from_chars(&out)
}

/// The metadata footer: a fixed-format line carrying the timestamp.
pub open spec fn spec_metadata_html(ts: Seq<char>) -> Seq<char> {
    "<p style=\"font-size:11px;color:#6e6e73;margin:8px 0;\"><em>Synced from What The Note \u{2022} "@
        + ts + "</em></p>"@
}

/// The full document body written on export: the title as a heading, the
/// optional metadata footer, and the sanitized body with the duplicate
/// leading heading removed; an empty body becomes an empty container so the
/// destination never receives an empty string.
pub open spec fn spec_export_body(
    content: Seq<char>,
    prefs: SyncPreferences,
    ts: Seq<char>,
) -> Seq<char> {
    let title = trimmed(prefs.apple_notes_title@);
    let without = spec_strip_heading(spec_sanitize(content), title);
    let body_only = if trimmed(without).len() == 0 {
        "<div></div>"@
    } else {
        trimmed(without)
    };
    let meta = if prefs.include_metadata {
        spec_metadata_html(ts)
    } else {
        Seq::<char>::empty()
    };
    "<h1>"@ + title + "</h1>"@ + meta + body_only
}

/// The whole upsert script the export runs, given the timestamp to stamp the
/// metadata footer with.
pub open spec fn spec_export_script(
    content: Seq<char>,
    prefs: SyncPreferences,
    ts: Seq<char>,
) -> Seq<char> {
    spec_build_update_script(
        trimmed(prefs.apple_notes_title@),
        trimmed(prefs.apple_notes_folder@),
        spec_export_body(content, prefs, ts),
    )
}

/// Builds the upsert script for one export: sanitizes the content, assembles
/// the document body, and wraps everything in the update script. Rejected
/// exactly when the configured collection name or title is empty after
/// trimming; configuration validation enforces the same rule upstream, and
/// the backend re-checks it defensively.
pub fn export_script(content: &str, prefs: &SyncPreferences, timestamp: &str) -> (r: SyncResult<
    String,
>)
    ensures
        r is Ok <==> trimmed(prefs.apple_notes_folder@).len() != 0 && trimmed(
            prefs.apple_notes_title@,
        ).len() != 0,
        r matches Err(e) ==> (e matches SyncError::NotConfigured(m) && if trimmed(
            prefs.apple_notes_folder@,
        ).len() == 0 {
            m@ == "Apple Notes folder must be specified"@
        } else {
            m@ == "Apple Notes title must be specified"@
        }),
        r matches Ok(script) ==> script@ == spec_export_script(content@, *prefs, timestamp@),
{
    let folder = trim_str(prefs.apple_notes_folder.as_str());
    if folder.as_str().is_empty() {
        return Err(SyncError::NotConfigured("Apple Notes folder must be specified"));
    }
    let title = trim_str(prefs.apple_notes_title.as_str());
    if title.as_str().is_empty() {
        return Err(SyncError::NotConfigured("Apple Notes title must be specified"));
    }
    let sanitized = sanitize_html_for_notes(content);
    let without_heading = strip_leading_matching_heading(sanitized.as_str(), title.as_str());
    let body_trimmed = trim_str(without_heading.as_str());
    let mut body: Vec<char> = Vec::new();
    push_str_chars(&mut body, "<h1>");
    push_str_chars(&mut body, title.as_str());
    push_str_chars(&mut body, "</h1>");
    if prefs.include_metadata {
        push_str_chars(
            &mut body,
            "<p style=\"font-size:11px;color:#6e6e73;margin:8px 0;\"><em>Synced from What The Note \u{2022} ",
        );
        push_str_chars(&mut body, timestamp);
        push_str_chars(&mut body, "</em></p>");
    }
    if body_trimmed.as_str().is_empty() {
        push_str_chars(&mut body, "<div></div>");
    } else {
        push_str_chars(&mut body, body_trimmed.as_str());
    }
    proof {
        assert(body@ =~= spec_export_body(content@, *prefs, timestamp@));
    }
    let body_string = string_from_chars(&body);
    Ok(build_update_script(title.as_str(), folder.as_str(), body_string.as_str()))
}

/// Characters that neither the script-literal escaping nor the surrounding
/// markup treats specially: a sequence of them passes into the generated
/// script and document verbatim.
pub open spec fn spec_plain_chars(ts: Seq<char>) -> bool {
    forall|k: int|
        0 <= k < ts.len() ==> ts[k] != '"' && ts[k] != '\\' && ts[k] != '\n' && ts[k] != '\r'
            && ts[k] != '<' && ts[k] != '>'
}

/// Relies on chrono's `Utc::now` and `DateTime::to_rfc3339` for the current
/// instant rendered as an RFC 3339 date-and-time string: never empty, and
/// built of digits, `-`, `+`, `T`, `:` and `.` only, so it carries no quote,
/// backslash, line ending or angle bracket. The value depends on the clock,
/// so nothing more is assumed of it.
#[verifier::external_body]
fn now_rfc3339() -> (r: String)
    ensures
        r@.len() > 0,
        spec_plain_chars(r@),
{
    chrono::Utc::now().to_rfc3339()
}

/// Builds the upsert script for one export, stamping the metadata footer
/// with the current time.
pub fn export_script_now(content: &str, prefs: &SyncPreferences) -> (r: SyncResult<String>)
    ensures
        r is Ok <==> trimmed(prefs.apple_notes_folder@).len() != 0 && trimmed(
            prefs.apple_notes_title@,
        ).len() != 0,
        r matches Err(e) ==> (e matches SyncError::NotConfigured(m) && if trimmed(
            prefs.apple_notes_folder@,
        ).len() == 0 {
            m@ == "Apple Notes folder must be specified"@
        } else {
            m@ == "Apple Notes title must be specified"@
        }),
        r matches Ok(script) ==> exists|ts: Seq<char>|
            ts.len() > 0 && spec_plain_chars(ts) && script@ == #[trigger] spec_export_script(
                content@,
                *prefs,
                ts,
            ),
{
    let ts = now_rfc3339();
    let r = export_script(content, prefs, ts.as_str());
    proof {
        if r is Ok {
            assert(r->Ok_0@ == spec_export_script(content@, *prefs, ts@));
        }
    }
    r
}

/// Final interpretation of the upsert script's run: the distinguishable
/// missing-collection error becomes a configuration error; everything else
/// classifies as a plain script run does.
pub open spec fn spec_export_error(run: ScriptRun, e: SyncError) -> bool {
    match run {
        ScriptRun::SpawnFailed(m) => e matches SyncError::Io(d) && d == m,
        ScriptRun::Finished { success, stdout, stderr } => !success && if spec_is_permission_denial(
            stderr@,
        ) {
            e matches SyncError::PermissionDenied(d) && d@
                == "macOS blocked automation access to Notes"@
        } else if occurs(trimmed(stderr@), "Apple Notes folder not found"@, false) {
            e matches SyncError::NotConfigured(m) && m@ == "Apple Notes folder does not exist"@
        } else {
            e matches SyncError::AppleScript(d) && d@ == trimmed(stderr@)
        },
    }
}

pub fn export_outcome(run: ScriptRun) -> (r: SyncResult<()>)
    ensures
        r is Ok <==> !spec_run_failed(run),
        r matches Err(e) ==> spec_export_error(run, e),
{
    match script_run_result(run) {
        Ok(_) => Ok(()),
        Err(e) => {
            match e {
                SyncError::AppleScript(message) => {
                    let mv = chars_vec(message.as_str());
                    let marker = chars_vec("Apple Notes folder not found");
                    if contains_exec(&mv, &marker, false) {
                        Err(SyncError::NotConfigured("Apple Notes folder does not exist"))
                    } else {
                        Err(SyncError::AppleScript(message))
                    }
                },
                other => Err(other),
            }
        },
    }
}

} // verus!
