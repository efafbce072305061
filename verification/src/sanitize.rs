//! Transform engine: rewrites the editor's rich markup into display-safe
//! markup for a destination that renders static text only. Editor-only
//! attributes are stripped, interactive controls and their labels are
//! removed, the wrapper artifact they leave behind is collapsed, lists are
//! flattened to bulleted or numbered lines, and a leading heading that
//! duplicates the destination title is dropped.

use vstd::prelude::*;

use crate::text::{
    char_eq, chars_vec, dec_digits, find_ch, find_ch_exec, find_exec, find_from, is_wspace,
    is_wspace_char, lemma_char_codes, lemma_find_ch, lemma_find_ch_exact, lemma_find_from,
    lemma_find_from_exact, lemma_ltrim_shift, lemma_replace_id, lemma_rtrim_prefix,
    lemma_trimmed_idem, lower, ltrim, match_at, match_at_exec, occurs, occurs_in, occurs_in_exec,
    push_all, push_decimal, push_str_chars, replace_all, replace_seq, rtrim, string_from_chars,
    subrange_vec, trim_vec, trimmed,
};

verus! {

/// Whether a flattened list renders bullet markers or 1-based numbers.
#[derive(Clone, Copy)]
pub enum ListKind {
    Unordered,
    Ordered,
}

/// Result of removing the editor-only structural attributes by literal
/// substring replacement, in a fixed order.
pub open spec fn spec_strip_attrs(s: Seq<char>) -> Seq<char> {
    let e = Seq::<char>::empty();
    replace_seq(
        replace_seq(
            replace_seq(
                replace_seq(
                    replace_seq(s, " data-type=\"taskItem\""@, e),
                    " data-type=\"taskList\""@,
                    e,
                ),
                " data-checked=\"true\""@,
                e,
            ),
            " data-checked=\"false\""@,
            e,
        ),
        " data-text-style=\"\""@,
        e,
    )
}

fn strip_attrs(s: &Vec<char>) -> (r: Vec<char>)
    ensures
        r@ == spec_strip_attrs(s@),
{
    let empty: Vec<char> = Vec::new();
    let p1 = chars_vec(" data-type=\"taskItem\"");
    let p2 = chars_vec(" data-type=\"taskList\"");
    let p3 = chars_vec(" data-checked=\"true\"");
    let p4 = chars_vec(" data-checked=\"false\"");
    let p5 = chars_vec(" data-text-style=\"\"");
    proof {
        reveal_strlit(" data-type=\"taskItem\"");
        reveal_strlit(" data-type=\"taskList\"");
        reveal_strlit(" data-checked=\"true\"");
        reveal_strlit(" data-checked=\"false\"");
        reveal_strlit(" data-text-style=\"\"");
    }
    let r1 = replace_all(s, &p1, &empty);
    let r2 = replace_all(&r1, &p2, &empty);
    let r3 = replace_all(&r2, &p3, &empty);
    let r4 = replace_all(&r3, &p4, &empty);
    replace_all(&r4, &p5, &empty)
}

/// End (exclusive) of the label element beginning at `i`: the first `>`
/// closes the opening tag and the first `</label>` after it closes the
/// element.
pub open spec fn label_end(s: Seq<char>, i: int) -> Option<int> {
    match find_ch(s, '>', i + 6) {
        Some(j) => match find_from(s, "</label>"@, j + 1, true) {
            Some(k) => Some(k + 8),
            None => None,
        },
        None => None,
    }
}

/// Result of removing every label element, opening tag to closing tag, from
/// `s` at or after position `i`.
pub open spec fn strip_labels_from(s: Seq<char>, i: int) -> Seq<char>
    decreases s.len() - i,
    when 0 <= i <= s.len()
{
    if i >= s.len() {
        Seq::empty()
    } else if match_at(s, "<label"@, i, true) {
        match label_end(s, i) {
            Some(e) => if i < e <= s.len() {
                strip_labels_from(s, e)
            } else {
                seq![s[i]] + strip_labels_from(s, i + 1)
            },
            None => seq![s[i]] + strip_labels_from(s, i + 1),
        }
    } else {
        seq![s[i]] + strip_labels_from(s, i + 1)
    }
}

fn strip_labels(s: &Vec<char>) -> (r: Vec<char>)
    ensures
        r@ == strip_labels_from(s@, 0),
{
    let open = chars_vec("<label");
    let close = chars_vec("</label>");
    proof {
        reveal_strlit("<label");
        reveal_strlit("</label>");
    }
    let mut out: Vec<char> = Vec::new();
    let mut i: usize = 0;
    while i < s.len()
        invariant
            0 <= i <= s@.len(),
            open@ == "<label"@ && close@ == "</label>"@,
            open@.len() == 6 && close@.len() == 8,
            strip_labels_from(s@, 0) == out@ + strip_labels_from(s@, i as int),
        decreases s@.len() - i,
    {
        let ghost prev = out@;
        let mut step_end: Option<usize> = None;
        if match_at_exec(s, &open, i, true) {
            match find_ch_exec(s, '>', i + 6) {
                Some(j) => {
                    proof {
                        lemma_find_ch(s@, '>', i as int + 6);
                    }
                    match find_exec(s, &close, j + 1, true) {
                        Some(k) => {
                            proof {
                                lemma_find_from(s@, close@, j as int + 1, true);
                            }
                            step_end = Some(k + 8);
                        },
                        None => {},
                    }
                },
                None => {},
            }
        }
        match step_end {
            Some(e) => {
                proof {
                    assert(strip_labels_from(s@, i as int) == strip_labels_from(s@, e as int));
                }
                i = e;
            },
            None => {
                out.push(s[i]);
                proof {
                    assert(strip_labels_from(s@, i as int) == seq![s@[i as int]]
                        + strip_labels_from(s@, i as int + 1));
                    assert(prev + (seq![s@[i as int]] + strip_labels_from(s@, i as int + 1)) =~= out@
                        + strip_labels_from(s@, i as int + 1));
                }
                i += 1;
            },
        }
    }
    proof {
        assert(out@ + strip_labels_from(s@, i as int) =~= out@);
    }
    out
}

/// End (exclusive) of the checkbox control beginning at `i`: the first `>`
/// closes the tag, which must declare the checkbox type among its
/// attributes.
pub open spec fn checkbox_end(s: Seq<char>, i: int) -> Option<int> {
    match find_ch(s, '>', i + 6) {
        Some(j) => if occurs_in(s, "type=\"checkbox\""@, i + 6, j, true) {
            Some(j + 1)
        } else {
            None
        },
        None => None,
    }
}

/// Result of removing every checkbox control from `s` at or after `i`.
pub open spec fn strip_checkbox_from(s: Seq<char>, i: int) -> Seq<char>
    decreases s.len() - i,
    when 0 <= i <= s.len()
{
    if i >= s.len() {
        Seq::empty()
    } else if match_at(s, "<input"@, i, true) {
        match checkbox_end(s, i) {
            Some(e) => if i < e <= s.len() {
                strip_checkbox_from(s, e)
            } else {
                seq![s[i]] + strip_checkbox_from(s, i + 1)
            },
            None => seq![s[i]] + strip_checkbox_from(s, i + 1),
        }
    } else {
        seq![s[i]] + strip_checkbox_from(s, i + 1)
    }
}

fn strip_checkbox_inputs(s: &Vec<char>) -> (r: Vec<char>)
    ensures
        r@ == strip_checkbox_from(s@, 0),
{
    let open = chars_vec("<input");
    let ty = chars_vec("type=\"checkbox\"");
    proof {
        reveal_strlit("<input");
        reveal_strlit("type=\"checkbox\"");
    }
    let mut out: Vec<char> = Vec::new();
    let mut i: usize = 0;
    while i < s.len()
        invariant
            0 <= i <= s@.len(),
            open@ == "<input"@ && ty@ == "type=\"checkbox\""@,
            open@.len() == 6,
            strip_checkbox_from(s@, 0) == out@ + strip_checkbox_from(s@, i as int),
        decreases s@.len() - i,
    {
        let ghost prev = out@;
        let mut step_end: Option<usize> = None;
        if match_at_exec(s, &open, i, true) {
            match find_ch_exec(s, '>', i + 6) {
                Some(j) => {
                    proof {
                        lemma_find_ch(s@, '>', i as int + 6);
                    }
                    if occurs_in_exec(s, &ty, i + 6, j, true) {
                        step_end = Some(j + 1);
                    }
                },
                None => {},
            }
        }
        match step_end {
            Some(e) => {
                proof {
                    assert(strip_checkbox_from(s@, i as int) == strip_checkbox_from(
                        s@,
                        e as int,
                    ));
                }
                i = e;
            },
            None => {
                out.push(s[i]);
                proof {
                    assert(strip_checkbox_from(s@, i as int) == seq![s@[i as int]]
                        + strip_checkbox_from(s@, i as int + 1));
                    assert(prev + (seq![s@[i as int]] + strip_checkbox_from(s@, i as int + 1))
                        =~= out@ + strip_checkbox_from(s@, i as int + 1));
                }
                i += 1;
            },
        }
    }
    proof {
        assert(out@ + strip_checkbox_from(s@, i as int) =~= out@);
    }
    out
}

/// Capture range and end of the wrapper artifact beginning at `i`: a content
/// container whose text is followed by a nested list shell. Yields
/// `(capture start, capture end, match end)`.
pub open spec fn content_parts(s: Seq<char>, i: int) -> Option<(int, int, int)> {
    match find_ch(s, '>', i + 4) {
        Some(j) => if occurs_in(s, "class=\"content\""@, i + 4, j, true) {
            match find_from(s, "<ul"@, j + 1, true) {
                Some(m) => match find_ch(s, '>', m + 3) {
                    Some(n) => match find_from(s, "</ul></div>"@, n + 1, true) {
                        Some(p) => Some((j + 1, m, p + 11)),
                        None => None,
                    },
                    None => None,
                },
                None => None,
            }
        } else {
            None
        },
        None => None,
    }
}

/// Result of collapsing, at or after `i`, every content container followed by
/// a nested list shell back to a plain container holding only the leading
/// text, trimmed.
pub open spec fn collapse_content_from(s: Seq<char>, i: int) -> Seq<char>
    decreases s.len() - i,
    when 0 <= i <= s.len()
{
    if i >= s.len() {
        Seq::empty()
    } else if match_at(s, "<div"@, i, true) {
        match content_parts(s, i) {
            Some((lo, hi, e)) => if i < e <= s.len() && 0 <= lo <= hi <= s.len() {
                "<div class=\"content\">"@ + trimmed(s.subrange(lo, hi)) + "</div>"@
                    + collapse_content_from(s, e)
            } else {
                seq![s[i]] + collapse_content_from(s, i + 1)
            },
            None => seq![s[i]] + collapse_content_from(s, i + 1),
        }
    } else {
        seq![s[i]] + collapse_content_from(s, i + 1)
    }
}

fn collapse_content_divs(s: &Vec<char>) -> (r: Vec<char>)
    ensures
        r@ == collapse_content_from(s@, 0),
{
    let open = chars_vec("<div");
    let cls = chars_vec("class=\"content\"");
    let ul = chars_vec("<ul");
    let close = chars_vec("</ul></div>");
    proof {
        reveal_strlit("<div");
        reveal_strlit("class=\"content\"");
        reveal_strlit("<ul");
        reveal_strlit("</ul></div>");
    }
    let mut out: Vec<char> = Vec::new();
    let mut i: usize = 0;
    while i < s.len()
        invariant
            0 <= i <= s@.len(),
            open@ == "<div"@ && cls@ == "class=\"content\""@ && ul@ == "<ul"@ && close@
                == "</ul></div>"@,
            open@.len() == 4 && ul@.len() == 3 && close@.len() == 11,
            collapse_content_from(s@, 0) == out@ + collapse_content_from(s@, i as int),
        decreases s@.len() - i,
    {
        let ghost prev = out@;
        let mut step: Option<(usize, usize, usize)> = None;
        if match_at_exec(s, &open, i, true) {
            match find_ch_exec(s, '>', i + 4) {
                Some(j) => {
                    proof {
                        lemma_find_ch(s@, '>', i as int + 4);
                    }
                    if occurs_in_exec(s, &cls, i + 4, j, true) {
                        match find_exec(s, &ul, j + 1, true) {
                            Some(m) => {
                                proof {
                                    lemma_find_from(s@, ul@, j as int + 1, true);
                                }
                                match find_ch_exec(s, '>', m + 3) {
                                    Some(n) => {
                                        proof {
                                            lemma_find_ch(s@, '>', m as int + 3);
                                        }
                                        match find_exec(s, &close, n + 1, true) {
                                            Some(p) => {
                                                proof {
                                                    lemma_find_from(
                                                        s@,
                                                        close@,
                                                        n as int + 1,
                                                        true,
                                                    );
                                                }
                                                step = Some((j + 1, m, p + 11));
                                            },
                                            None => {},
                                        }
                                    },
                                    None => {},
                                }
                            },
                            None => {},
                        }
                    }
                },
                None => {},
            }
        }
        match step {
            Some((lo, hi, e)) => {
                let cap = subrange_vec(s, lo, hi);
                let cap_trimmed = trim_vec(&cap);
                push_str_chars(&mut out, "<div class=\"content\">");
                push_all(&mut out, &cap_trimmed);
                push_str_chars(&mut out, "</div>");
                proof {
                    assert(collapse_content_from(s@, i as int) == "<div class=\"content\">"@
                        + trimmed(s@.subrange(lo as int, hi as int)) + "</div>"@
                        + collapse_content_from(s@, e as int));
                    assert(prev + ("<div class=\"content\">"@ + trimmed(
                        s@.subrange(lo as int, hi as int),
                    ) + "</div>"@ + collapse_content_from(s@, e as int)) =~= out@
                        + collapse_content_from(s@, e as int));
                }
                i = e;
            },
            None => {
                out.push(s[i]);
                proof {
                    assert(collapse_content_from(s@, i as int) == seq![s@[i as int]]
                        + collapse_content_from(s@, i as int + 1));
                    assert(prev + (seq![s@[i as int]] + collapse_content_from(s@, i as int + 1))
                        =~= out@ + collapse_content_from(s@, i as int + 1));
                }
                i += 1;
            },
        }
    }
    proof {
        assert(out@ + collapse_content_from(s@, i as int) =~= out@);
    }
    out
}

/// Result of removing every balanced tag, `<` through the first following
/// `>` with at least one character between, from `s` at or after `i`.
pub open spec fn strip_tags_from(s: Seq<char>, i: int) -> Seq<char>
    decreases s.len() - i,
    when 0 <= i <= s.len()
{
    if i >= s.len() {
        Seq::empty()
    } else if s[i] == '<' {
        match find_ch(s, '>', i + 1) {
            Some(j) => if i + 1 < j < s.len() {
                strip_tags_from(s, j + 1)
            } else {
                seq![s[i]] + strip_tags_from(s, i + 1)
            },
            None => seq![s[i]] + strip_tags_from(s, i + 1),
        }
    } else {
        seq![s[i]] + strip_tags_from(s, i + 1)
    }
}

fn strip_tags(s: &Vec<char>) -> (r: Vec<char>)
    ensures
        r@ == strip_tags_from(s@, 0),
{
    let mut out: Vec<char> = Vec::new();
    let mut i: usize = 0;
    while i < s.len()
        invariant
            0 <= i <= s@.len(),
            strip_tags_from(s@, 0) == out@ + strip_tags_from(s@, i as int),
        decreases s@.len() - i,
    {
        let ghost prev = out@;
        let mut step_end: Option<usize> = None;
        if s[i] == '<' {
            match find_ch_exec(s, '>', i + 1) {
                Some(j) => {
                    proof {
                        lemma_find_ch(s@, '>', i as int + 1);
                    }
                    if j > i + 1 {
                        step_end = Some(j + 1);
                    }
                },
                None => {},
            }
        }
        match step_end {
            Some(e) => {
                proof {
                    assert(strip_tags_from(s@, i as int) == strip_tags_from(s@, e as int));
                }
                i = e;
            },
            None => {
                out.push(s[i]);
                proof {
                    assert(strip_tags_from(s@, i as int) == seq![s@[i as int]] + strip_tags_from(
                        s@,
                        i as int + 1,
                    ));
                    assert(prev + (seq![s@[i as int]] + strip_tags_from(s@, i as int + 1)) =~= out@
                        + strip_tags_from(s@, i as int + 1));
                }
                i += 1;
            },
        }
    }
    proof {
        assert(out@ + strip_tags_from(s@, i as int) =~= out@);
    }
    out
}

/// Every newline replaced by a single space.
pub open spec fn newlines_to_spaces(s: Seq<char>) -> Seq<char> {
    s.map_values(|c: char| if c == '\n' { ' ' } else { c })
}

fn newlines_to_spaces_vec(s: &Vec<char>) -> (r: Vec<char>)
    ensures
        r@ == newlines_to_spaces(s@),
{
    let mut out: Vec<char> = Vec::new();
    let mut k: usize = 0;
    while k < s.len()
        invariant
            0 <= k <= s@.len(),
            out@ == newlines_to_spaces(s@.take(k as int)),
        decreases s@.len() - k,
    {
        let c = s[k];
        if c == '\n' {
            out.push(' ');
        } else {
            out.push(c);
        }
        proof {
            assert(out@ =~= newlines_to_spaces(s@.take(k as int + 1)));
        }
        k += 1;
    }
    proof {
        assert(s@.take(s@.len() as int) =~= s@);
    }
    out
}

/// Text a list item contributes: the fragment truncated at its first nested
/// list, tags stripped, trimmed, with inner newlines turned into spaces.
pub open spec fn item_text(frag: Seq<char>) -> Seq<char> {
    let cut = match find_from(frag, "<ul"@, 0, false) {
        Some(m) => m,
        None => frag.len() as int,
    };
    trimmed(newlines_to_spaces(trimmed(strip_tags_from(frag.take(cut), 0))))
}

/// Line rendered for one list item: nothing when its text is empty, else the
/// text behind a bullet marker or a 1-based number.
pub open spec fn spec_rendered_line(frag: Seq<char>, kind: ListKind, num: int) -> Seq<char> {
    let t = item_text(frag);
    if t.len() == 0 {
        Seq::empty()
    } else {
        match kind {
            ListKind::Unordered => "<div>\u{2022} "@ + t + "</div>"@,
            ListKind::Ordered => "<div>"@ + dec_digits(num) + ". "@ + t + "</div>"@,
        }
    }
}

/// Flattens one list item's fragment to its output line. The item keeps only
/// its own text: content from the first nested list on is dropped.
pub fn render_list_item(raw: &str, kind: ListKind, index: usize) -> (r: String)
    ensures
        r@ == spec_rendered_line(raw@, kind, index as int),
{
    let frag = chars_vec(raw);
    let line = rendered_line_vec(&frag, kind, index);
    string_from_chars(&line)
}

fn rendered_line_vec(frag: &Vec<char>, kind: ListKind, num: usize) -> (r: Vec<char>)
    ensures
        r@ == spec_rendered_line(frag@, kind, num as int),
{
    let ul = chars_vec("<ul");
    proof {
        reveal_strlit("<ul");
    }
    let cut: usize = match find_exec(frag, &ul, 0, false) {
        Some(m) => {
            proof {
                lemma_find_from(frag@, ul@, 0, false);
            }
            m
        },
        None => frag.len(),
    };
    let head = subrange_vec(frag, 0, cut);
    proof {
        assert(head@ =~= frag@.take(cut as int));
    }
    let t1 = strip_tags(&head);
    let t2 = trim_vec(&t1);
    let t3 = newlines_to_spaces_vec(&t2);
    let text = trim_vec(&t3);
    let mut out: Vec<char> = Vec::new();
    if text.len() == 0 {
        return out;
    }
    match kind {
        ListKind::Unordered => {
            push_str_chars(&mut out, "<div>\u{2022} ");
            push_all(&mut out, &text);
            push_str_chars(&mut out, "</div>");
            proof {
                assert(out@ =~= "<div>\u{2022} "@ + text@ + "</div>"@);
            }
        },
        ListKind::Ordered => {
            push_str_chars(&mut out, "<div>");
            push_decimal(&mut out, num);
            push_str_chars(&mut out, ". ");
            push_all(&mut out, &text);
            push_str_chars(&mut out, "</div>");
            proof {
                assert(out@ =~= "<div>"@ + dec_digits(num as int) + ". "@ + text@ + "</div>"@);
            }
        },
    }
    out
}

/// Fragment range and end of the list item beginning at `i` within a list's
/// inner markup: `(fragment start, fragment end, match end)`.
pub open spec fn item_parts(inner: Seq<char>, i: int) -> Option<(int, int, int)> {
    match find_ch(inner, '>', i + 3) {
        Some(j) => match find_from(inner, "</li>"@, j + 1, true) {
            Some(k) => Some((j + 1, k, k + 5)),
            None => None,
        },
        None => None,
    }
}

/// Lines rendered for the items of a list's inner markup at or after `i`,
/// where `n` items have already been rendered. Every matched item advances
/// the 1-based number, whether or not it contributes a line; markup between
/// items contributes nothing.
pub open spec fn render_items_from(inner: Seq<char>, kind: ListKind, n: int, i: int) -> Seq<char>
    decreases inner.len() - i,
    when 0 <= i <= inner.len()
{
    if i >= inner.len() {
        Seq::empty()
    } else if match_at(inner, "<li"@, i, true) {
        match item_parts(inner, i) {
            Some((lo, hi, e)) => if i < e <= inner.len() && 0 <= lo <= hi <= inner.len() {
                spec_rendered_line(inner.subrange(lo, hi), kind, n + 1) + render_items_from(
                    inner,
                    kind,
                    n + 1,
                    e,
                )
            } else {
                render_items_from(inner, kind, n, i + 1)
            },
            None => render_items_from(inner, kind, n, i + 1),
        }
    } else {
        render_items_from(inner, kind, n, i + 1)
    }
}

fn render_list(inner: &Vec<char>, kind: ListKind) -> (r: Vec<char>)
    ensures
        r@ == render_items_from(inner@, kind, 0, 0),
{
    let li = chars_vec("<li");
    let close = chars_vec("</li>");
    proof {
        reveal_strlit("<li");
        reveal_strlit("</li>");
    }
    let mut out: Vec<char> = Vec::new();
    let mut i: usize = 0;
    let mut n: usize = 0;
    while i < inner.len()
        invariant
            0 <= i <= inner@.len(),
            n <= i,
            li@ == "<li"@ && close@ == "</li>"@,
            li@.len() == 3 && close@.len() == 5,
            render_items_from(inner@, kind, 0, 0) == out@ + render_items_from(
                inner@,
                kind,
                n as int,
                i as int,
            ),
        decreases inner@.len() - i,
    {
        let ghost prev = out@;
        let mut step: Option<(usize, usize, usize)> = None;
        if match_at_exec(inner, &li, i, true) {
            match find_ch_exec(inner, '>', i + 3) {
                Some(j) => {
                    proof {
                        lemma_find_ch(inner@, '>', i as int + 3);
                    }
                    match find_exec(inner, &close, j + 1, true) {
                        Some(k) => {
                            proof {
                                lemma_find_from(inner@, close@, j as int + 1, true);
                            }
                            step = Some((j + 1, k, k + 5));
                        },
                        None => {},
                    }
                },
                None => {},
            }
        }
        match step {
            Some((lo, hi, e)) => {
                let frag = subrange_vec(inner, lo, hi);
                let line = rendered_line_vec(&frag, kind, n + 1);
                push_all(&mut out, &line);
                proof {
                    assert(render_items_from(inner@, kind, n as int, i as int)
                        == spec_rendered_line(
                        inner@.subrange(lo as int, hi as int),
                        kind,
                        n as int + 1,
                    ) + render_items_from(inner@, kind, n as int + 1, e as int));
                    assert(prev + (spec_rendered_line(
                        inner@.subrange(lo as int, hi as int),
                        kind,
                        n as int + 1,
                    ) + render_items_from(inner@, kind, n as int + 1, e as int)) =~= out@
                        + render_items_from(inner@, kind, n as int + 1, e as int));
                }
                n += 1;
                i = e;
            },
            None => {
                proof {
                    assert(render_items_from(inner@, kind, n as int, i as int)
                        == render_items_from(inner@, kind, n as int, i as int + 1));
                }
                i += 1;
            },
        }
    }
    proof {
        assert(out@ + render_items_from(inner@, kind, n as int, i as int) =~= out@);
    }
    out
}

/// Inner range and end of the list element beginning at `i`:
/// `(inner start, inner end, match end)`.
pub open spec fn list_parts(s: Seq<char>, i: int, close: Seq<char>) -> Option<(int, int, int)> {
    match find_ch(s, '>', i + 3) {
        Some(j) => match find_from(s, close, j + 1, true) {
            Some(k) => Some((j + 1, k, k + close.len())),
            None => None,
        },
        None => None,
    }
}

/// Result of replacing, at or after `i`, every list element whose opening
/// tag starts with `open` and which closes with `close` by its items'
/// flattened lines.
pub open spec fn flatten_lists_from(
    s: Seq<char>,
    open: Seq<char>,
    close: Seq<char>,
    kind: ListKind,
    i: int,
) -> Seq<char>
    decreases s.len() - i,
    when 0 <= i <= s.len()
{
    if i >= s.len() {
        Seq::empty()
    } else if match_at(s, open, i, true) {
        match list_parts(s, i, close) {
            Some((lo, hi, e)) => if i < e <= s.len() && 0 <= lo <= hi <= s.len() {
                render_items_from(s.subrange(lo, hi), kind, 0, 0) + flatten_lists_from(
                    s,
                    open,
                    close,
                    kind,
                    e,
                )
            } else {
                seq![s[i]] + flatten_lists_from(s, open, close, kind, i + 1)
            },
            None => seq![s[i]] + flatten_lists_from(s, open, close, kind, i + 1),
        }
    } else {
        seq![s[i]] + flatten_lists_from(s, open, close, kind, i + 1)
    }
}

/// The two list passes share one scanner; the tag names follow the kind.
pub open spec fn spec_flatten_lists(s: Seq<char>, kind: ListKind) -> Seq<char> {
    match kind {
        ListKind::Unordered => flatten_lists_from(s, "<ul"@, "</ul>"@, ListKind::Unordered, 0),
        ListKind::Ordered => flatten_lists_from(s, "<ol"@, "</ol>"@, ListKind::Ordered, 0),
    }
}

fn flatten_lists(s: &Vec<char>, kind: ListKind) -> (r: Vec<char>)
    ensures
        r@ == spec_flatten_lists(s@, kind),
{
    let open = match kind {
        ListKind::Unordered => chars_vec("<ul"),
        ListKind::Ordered => chars_vec("<ol"),
    };
    let close = match kind {
        ListKind::Unordered => chars_vec("</ul>"),
        ListKind::Ordered => chars_vec("</ol>"),
    };
    proof {
        reveal_strlit("<ul");
        reveal_strlit("</ul>");
        reveal_strlit("<ol");
        reveal_strlit("</ol>");
    }
    let mut out: Vec<char> = Vec::new();
    let mut i: usize = 0;
    while i < s.len()
        invariant
            0 <= i <= s@.len(),
            (kind matches ListKind::Unordered && open@ == "<ul"@ && close@ == "</ul>"@) || (
            kind matches ListKind::Ordered && open@ == "<ol"@ && close@ == "</ol>"@),
            open@.len() == 3 && close@.len() == 5,
            flatten_lists_from(s@, open@, close@, kind, 0) == out@ + flatten_lists_from(
                s@,
                open@,
                close@,
                kind,
                i as int,
            ),
        decreases s@.len() - i,
    {
        let ghost prev = out@;
        let mut step: Option<(usize, usize, usize)> = None;
        if match_at_exec(s, &open, i, true) {
            match find_ch_exec(s, '>', i + 3) {
                Some(j) => {
                    proof {
                        lemma_find_ch(s@, '>', i as int + 3);
                    }
                    match find_exec(s, &close, j + 1, true) {
                        Some(k) => {
                            proof {
                                lemma_find_from(s@, close@, j as int + 1, true);
                            }
                            step = Some((j + 1, k, k + 5));
                        },
                        None => {},
                    }
                },
                None => {},
            }
        }
        match step {
            Some((lo, hi, e)) => {
                let inner = subrange_vec(s, lo, hi);
                let lines = render_list(&inner, kind);
                push_all(&mut out, &lines);
                proof {
                    assert(flatten_lists_from(s@, open@, close@, kind, i as int)
                        == render_items_from(s@.subrange(lo as int, hi as int), kind, 0, 0)
                        + flatten_lists_from(s@, open@, close@, kind, e as int));
                    assert(prev + (render_items_from(s@.subrange(lo as int, hi as int), kind, 0, 0)
                        + flatten_lists_from(s@, open@, close@, kind, e as int)) =~= out@
                        + flatten_lists_from(s@, open@, close@, kind, e as int));
                }
                i = e;
            },
            None => {
                out.push(s[i]);
                proof {
                    assert(flatten_lists_from(s@, open@, close@, kind, i as int)
                        == seq![s@[i as int]] + flatten_lists_from(
                        s@,
                        open@,
                        close@,
                        kind,
                        i as int + 1,
                    ));
                    assert(prev + (seq![s@[i as int]] + flatten_lists_from(
                        s@,
                        open@,
                        close@,
                        kind,
                        i as int + 1,
                    )) =~= out@ + flatten_lists_from(s@, open@, close@, kind, i as int + 1));
                }
                i += 1;
            },
        }
    }
    proof {
        assert(out@ + flatten_lists_from(s@, open@, close@, kind, i as int) =~= out@);
    }
    out
}

proof fn lemma_strip_labels_id(s: Seq<char>, i: int)
    requires
        0 <= i <= s.len(),
        !occurs(s, "<label"@, true),
    ensures
        strip_labels_from(s, i) == s.subrange(i, s.len() as int),
    decreases s.len() - i,
{
    if i >= s.len() {
        assert(s.subrange(i, s.len() as int) =~= Seq::<char>::empty());
    } else {
        assert(!match_at(s, "<label"@, i, true));
        lemma_strip_labels_id(s, i + 1);
        assert(seq![s[i]] + s.subrange(i + 1, s.len() as int) =~= s.subrange(i, s.len() as int));
    }
}

proof fn lemma_strip_checkbox_id(s: Seq<char>, i: int)
    requires
        0 <= i <= s.len(),
        !occurs(s, "<input"@, true),
    ensures
        strip_checkbox_from(s, i) == s.subrange(i, s.len() as int),
    decreases s.len() - i,
{
    if i >= s.len() {
        assert(s.subrange(i, s.len() as int) =~= Seq::<char>::empty());
    } else {
        assert(!match_at(s, "<input"@, i, true));
        lemma_strip_checkbox_id(s, i + 1);
        assert(seq![s[i]] + s.subrange(i + 1, s.len() as int) =~= s.subrange(i, s.len() as int));
    }
}

proof fn lemma_collapse_content_id(s: Seq<char>, i: int)
    requires
        0 <= i <= s.len(),
        !occurs(s, "<ul"@, true),
    ensures
        collapse_content_from(s, i) == s.subrange(i, s.len() as int),
    decreases s.len() - i,
{
    if i >= s.len() {
        assert(s.subrange(i, s.len() as int) =~= Seq::<char>::empty());
    } else {
        if match_at(s, "<div"@, i, true) {
            reveal_strlit("<div");
            match find_ch(s, '>', i + 4) {
                Some(j) => {
                    lemma_find_ch(s, '>', i + 4);
                    if occurs_in(s, "class=\"content\""@, i + 4, j, true) {
                        lemma_find_from(s, "<ul"@, j + 1, true);
                        match find_from(s, "<ul"@, j + 1, true) {
                            Some(m) => {
                                assert(match_at(s, "<ul"@, m, true));
                                assert(occurs(s, "<ul"@, true));
                                assert(false);
                            },
                            None => {},
                        }
                    }
                },
                None => {},
            }
        }
        lemma_collapse_content_id(s, i + 1);
        assert(seq![s[i]] + s.subrange(i + 1, s.len() as int) =~= s.subrange(i, s.len() as int));
    }
}

proof fn lemma_flatten_lists_id(s: Seq<char>, open: Seq<char>, close: Seq<char>, kind: ListKind, i: int)
    requires
        0 <= i <= s.len(),
        !occurs(s, open, true),
    ensures
        flatten_lists_from(s, open, close, kind, i) == s.subrange(i, s.len() as int),
    decreases s.len() - i,
{
    if i >= s.len() {
        assert(s.subrange(i, s.len() as int) =~= Seq::<char>::empty());
    } else {
        assert(!match_at(s, open, i, true));
        lemma_flatten_lists_id(s, open, close, kind, i + 1);
        assert(seq![s[i]] + s.subrange(i + 1, s.len() as int) =~= s.subrange(i, s.len() as int));
    }
}

/// Content that carries none of the markers the engine rewrites: no
/// editor-only attribute, no label or checkbox control, and no list element
/// of either kind.
pub open spec fn marker_free(s: Seq<char>) -> bool {
    &&& !occurs(s, " data-type=\"taskItem\""@, false)
    &&& !occurs(s, " data-type=\"taskList\""@, false)
    &&& !occurs(s, " data-checked=\"true\""@, false)
    &&& !occurs(s, " data-checked=\"false\""@, false)
    &&& !occurs(s, " data-text-style=\"\""@, false)
    &&& !occurs(s, "<label"@, true)
    &&& !occurs(s, "<input"@, true)
    &&& !occurs(s, "<ul"@, true)
    &&& !occurs(s, "<ol"@, true)
}

/// Marker-free, already-trimmed content is a fixed point of the engine.
pub proof fn lemma_sanitize_fixed_point(s: Seq<char>)
    requires
        marker_free(s),
        s == trimmed(s),
    ensures
        spec_sanitize(s) == s,
{
    reveal_strlit(" data-type=\"taskItem\"");
    reveal_strlit(" data-type=\"taskList\"");
    reveal_strlit(" data-checked=\"true\"");
    reveal_strlit(" data-checked=\"false\"");
    reveal_strlit(" data-text-style=\"\"");
    let e = Seq::<char>::empty();
    lemma_replace_id(s, " data-type=\"taskItem\""@, e, 0);
    assert(replace_seq(s, " data-type=\"taskItem\""@, e) =~= s);
    lemma_replace_id(s, " data-type=\"taskList\""@, e, 0);
    assert(replace_seq(s, " data-type=\"taskList\""@, e) =~= s);
    lemma_replace_id(s, " data-checked=\"true\""@, e, 0);
    assert(replace_seq(s, " data-checked=\"true\""@, e) =~= s);
    lemma_replace_id(s, " data-checked=\"false\""@, e, 0);
    assert(replace_seq(s, " data-checked=\"false\""@, e) =~= s);
    lemma_replace_id(s, " data-text-style=\"\""@, e, 0);
    assert(replace_seq(s, " data-text-style=\"\""@, e) =~= s);
    assert(spec_strip_attrs(s) == s);
    lemma_strip_labels_id(s, 0);
    assert(strip_labels_from(s, 0) =~= s);
    lemma_strip_checkbox_id(s, 0);
    assert(strip_checkbox_from(s, 0) =~= s);
    lemma_collapse_content_id(s, 0);
    assert(collapse_content_from(s, 0) =~= s);
    lemma_flatten_lists_id(s, "<ul"@, "</ul>"@, ListKind::Unordered, 0);
    assert(flatten_lists_from(s, "<ul"@, "</ul>"@, ListKind::Unordered, 0) =~= s);
    lemma_flatten_lists_id(s, "<ol"@, "</ol>"@, ListKind::Ordered, 0);
    assert(flatten_lists_from(s, "<ol"@, "</ol>"@, ListKind::Ordered, 0) =~= s);
}

/// The engine is idempotent on its own output whenever that output carries
/// no marker: a second pass is a no-op.
pub proof fn lemma_sanitize_idempotent(s: Seq<char>)
    requires
        marker_free(spec_sanitize(s)),
    ensures
        spec_sanitize(spec_sanitize(s)) == spec_sanitize(s),
{
    let inner = spec_flatten_lists(
        spec_flatten_lists(
            collapse_content_from(
                strip_checkbox_from(strip_labels_from(spec_strip_attrs(s), 0), 0),
                0,
            ),
            ListKind::Unordered,
        ),
        ListKind::Ordered,
    );
    lemma_trimmed_idem(inner);
    lemma_sanitize_fixed_point(spec_sanitize(s));
}

/// The fragments of the matched items of a list's inner markup at or after
/// `i`, in document order.
pub open spec fn item_fragments(inner: Seq<char>, i: int) -> Seq<Seq<char>>
    decreases inner.len() - i,
    when 0 <= i <= inner.len()
{
    if i >= inner.len() {
        Seq::empty()
    } else if match_at(inner, "<li"@, i, true) {
        match item_parts(inner, i) {
            Some((lo, hi, e)) => if i < e <= inner.len() && 0 <= lo <= hi <= inner.len() {
                seq![inner.subrange(lo, hi)] + item_fragments(inner, e)
            } else {
                item_fragments(inner, i + 1)
            },
            None => item_fragments(inner, i + 1),
        }
    } else {
        item_fragments(inner, i + 1)
    }
}

proof fn lemma_render_items_fragments(inner: Seq<char>, kind: ListKind, n: int, i: int)
    requires
        0 <= i <= inner.len(),
    ensures
        render_items_from(inner, kind, n, i) == rendered_lines(item_fragments(inner, i), kind, n),
    decreases inner.len() - i,
{
    if i >= inner.len() {
    } else if match_at(inner, "<li"@, i, true) {
        match item_parts(inner, i) {
            Some((lo, hi, e)) => {
                if i < e <= inner.len() && 0 <= lo <= hi <= inner.len() {
                    lemma_render_items_fragments(inner, kind, n + 1, e);
                    let frags = item_fragments(inner, i);
                    assert(frags.drop_first() =~= item_fragments(inner, e));
                    assert(frags[0] == inner.subrange(lo, hi));
                } else {
                    lemma_render_items_fragments(inner, kind, n, i + 1);
                }
            },
            None => {
                lemma_render_items_fragments(inner, kind, n, i + 1);
            },
        }
    } else {
        lemma_render_items_fragments(inner, kind, n, i + 1);
    }
}

/// The lines of the fragments in order, the k-th (0-based) carrying the
/// 1-based number `n + k + 1`.
pub open spec fn rendered_lines(frags: Seq<Seq<char>>, kind: ListKind, n: int) -> Seq<char>
    decreases frags.len(),
{
    if frags.len() == 0 {
        Seq::empty()
    } else {
        spec_rendered_line(frags[0], kind, n + 1) + rendered_lines(frags.drop_first(), kind, n + 1)
    }
}

proof fn lemma_rendered_lines_indexed(frags: Seq<Seq<char>>, kind: ListKind, n: int)
    ensures
        rendered_lines(frags, kind, n) == Seq::new(
            frags.len(),
            |k: int| spec_rendered_line(frags[k], kind, n + k + 1),
        ).flatten(),
    decreases frags.len(),
{
    let lines = Seq::new(frags.len(), |k: int| spec_rendered_line(frags[k], kind, n + k + 1));
    if frags.len() == 0 {
        assert(lines.flatten() == Seq::<char>::empty());
    } else {
        lemma_rendered_lines_indexed(frags.drop_first(), kind, n + 1);
        assert(lines.drop_first() =~= Seq::new(
            frags.drop_first().len(),
            |k: int| spec_rendered_line(frags.drop_first()[k], kind, n + 1 + k + 1),
        ));
        assert(lines.flatten() == lines.first() + lines.drop_first().flatten());
    }
}

/// List flattening preserves item order and numbers ordered items from 1 in
/// document order: the output is exactly the concatenation, in order, of the
/// k-th item's line carrying the number `k + 1`. An item's line keeps only
/// the item's own text — content from its first nested list on is dropped —
/// and an item whose text is empty contributes no line while still
/// consuming its number.
pub proof fn lemma_list_flattening(inner: Seq<char>, kind: ListKind)
    ensures
        render_items_from(inner, kind, 0, 0) == Seq::new(
            item_fragments(inner, 0).len(),
            |k: int| spec_rendered_line(item_fragments(inner, 0)[k], kind, k + 1),
        ).flatten(),
{
    lemma_render_items_fragments(inner, kind, 0, 0);
    lemma_rendered_lines_indexed(item_fragments(inner, 0), kind, 0);
    assert(Seq::new(
        item_fragments(inner, 0).len(),
        |k: int| spec_rendered_line(item_fragments(inner, 0)[k], kind, 0 + k + 1),
    ) =~= Seq::new(
        item_fragments(inner, 0).len(),
        |k: int| spec_rendered_line(item_fragments(inner, 0)[k], kind, k + 1),
    ));
}

/// Removing a checkbox and its label leaves a content container followed by
/// an empty nested list shell; the collapse stage reduces that artifact to
/// the container holding only its leading text, trimmed — whatever that text
/// is, as long as the text itself carries no markup characters.
pub proof fn lemma_wrapper_collapse(text: Seq<char>)
    requires
        forall|k: int| 0 <= k < text.len() ==> text[k] != '<' && text[k] != '>',
    ensures
        collapse_content_from("<div class=\"content\">"@ + text + "<ul><li></li></ul></div>"@, 0)
            == "<div class=\"content\">"@ + trimmed(text) + "</div>"@,
{
    reveal_strlit("<div class=\"content\">");
    reveal_strlit("<ul><li></li></ul></div>");
    reveal_strlit("<div");
    reveal_strlit("class=\"content\"");
    reveal_strlit("<ul");
    reveal_strlit("</ul></div>");
    reveal_strlit("</div>");
    let p = "<div class=\"content\">"@;
    let t = "<ul><li></li></ul></div>"@;
    let s = p + text + t;
    let b = 21 + text.len() as int;
    assert(s.len() == b + 24);
    assert forall|k: int| 0 <= k < 24 implies s[b + k] == t[k] by {}
    assert(match_at(s, "<div"@, 0, true)) by {
        assert forall|k: int| 0 <= k < "<div"@.len() implies char_eq(
            s[0 + k],
            "<div"@[k],
            true,
        ) by {
            assert(s[k] == p[k]);
        }
    }
    lemma_find_ch_exact(s, '>', 4, 20);
    assert(occurs_in(s, "class=\"content\""@, 4, 20, true)) by {
        assert(match_at(s, "class=\"content\""@, 5, true)) by {
            assert forall|k: int| 0 <= k < "class=\"content\""@.len() implies char_eq(
                s[5 + k],
                "class=\"content\""@[k],
                true,
            ) by {
                assert(s[5 + k] == p[5 + k]);
            }
        }
        assert(5 + "class=\"content\""@.len() <= 20);
    }
    assert(match_at(s, "<ul"@, b, true)) by {
        assert forall|k: int| 0 <= k < "<ul"@.len() implies char_eq(s[b + k], "<ul"@[k], true) by {
            assert(s[b + k] == t[k]);
        }
    }
    assert forall|q: int| 21 <= q < b implies !match_at(s, "<ul"@, q, true) by {
        if match_at(s, "<ul"@, q, true) {
            assert(char_eq(s[q + 0], "<ul"@[0], true));
            assert("<ul"@[0] == '<');
            assert('<' as u32 == 60);
            assert(lower(s[q]) == lower('<'));
            assert(s[q] as u32 == 60);
            lemma_char_codes(s[q]);
            assert(s[q] == '<');
            assert(s[q] == text[q - 21]);
        }
    }
    lemma_find_from_exact(s, "<ul"@, 21, b, true);
    lemma_find_ch_exact(s, '>', b + 3, b + 3);
    assert(match_at(s, "</ul></div>"@, b + 13, true)) by {
        assert forall|k: int| 0 <= k < "</ul></div>"@.len() implies char_eq(
            s[b + 13 + k],
            "</ul></div>"@[k],
            true,
        ) by {
            assert(s[b + 13 + k] == t[13 + k]);
        }
    }
    assert forall|q: int| b + 4 <= q < b + 13 implies !match_at(s, "</ul></div>"@, q, true) by {
        if match_at(s, "</ul></div>"@, q, true) {
            assert(char_eq(s[q + 0], "</ul></div>"@[0], true));
            assert("</ul></div>"@[0] == '<');
            assert(s[q] == t[q - b]);
            assert('<' as u32 == 60);
            assert(lower(s[q]) == lower('<'));
            assert(s[q] as u32 == 60);
            lemma_char_codes(s[q]);
            assert(s[q] == '<');
            assert(q == b + 4 || q == b + 8);
            if q == b + 4 {
                assert(char_eq(s[q + 1], "</ul></div>"@[1], true));
                assert(s[q + 1] == t[5]);
                assert(t[5] == 'l' && "</ul></div>"@[1] == '/');
                assert(lower('l') == 108 && lower('/') == 47);
            } else {
                assert(char_eq(s[q + 2], "</ul></div>"@[2], true));
                assert(s[q + 2] == t[10]);
                assert(t[10] == 'l' && "</ul></div>"@[2] == 'u');
                assert(lower('l') == 108 && lower('u') == 117);
            }
        }
    }
    lemma_find_from_exact(s, "</ul></div>"@, b + 4, b + 13, true);
    assert(content_parts(s, 0) == Some((21int, b, b + 24)));
    assert(s.subrange(21, b) =~= text);
    assert(collapse_content_from(s, b + 24) == Seq::<char>::empty());
    assert(collapse_content_from(s, 0) == "<div class=\"content\">"@ + trimmed(text) + "</div>"@
        + Seq::<char>::empty());
    assert("<div class=\"content\">"@ + trimmed(text) + "</div>"@ + Seq::<char>::empty() =~= "<div class=\"content\">"@
        + trimmed(text) + "</div>"@);
}

/// The markup a checkbox affordance leaves in the editor: the control
/// wrapped in a label, inside a content container whose leading text is
/// followed by a nested list shell.
pub open spec fn checkbox_artifact(text: Seq<char>) -> Seq<char> {
    "<div class=\"content\">"@ + "<label><input type=\"checkbox\" /></label>"@ + text
        + "<ul><li></li></ul></div>"@
}

/// Label removal copies every position of `[i, m)` where no label element
/// begins.
proof fn lemma_strip_labels_copy(s: Seq<char>, i: int, m: int)
    requires
        0 <= i <= m <= s.len(),
        forall|q: int| i <= q < m ==> !match_at(s, "<label"@, q, true),
    ensures
        strip_labels_from(s, i) == s.subrange(i, m) + strip_labels_from(s, m),
    decreases m - i,
{
    if i == m {
        assert(s.subrange(i, m) =~= Seq::<char>::empty());
        assert(Seq::<char>::empty() + strip_labels_from(s, m) =~= strip_labels_from(s, m));
    } else {
        lemma_strip_labels_copy(s, i + 1, m);
        assert(seq![s[i]] + (s.subrange(i + 1, m) + strip_labels_from(s, m)) =~= s.subrange(i, m)
            + strip_labels_from(s, m));
    }
}

/// No editor-only attribute occurs anywhere in the artifact: each attribute
/// pattern carries two quotes whose spacing matches no pair of the
/// artifact's quote positions, or lands where the characters differ.
proof fn lemma_artifact_attrs(text: Seq<char>)
    requires
        forall|k: int| 0 <= k < text.len() ==> text[k] != '"',
    ensures
        spec_strip_attrs(checkbox_artifact(text)) == checkbox_artifact(text),
{
    reveal_strlit("<div class=\"content\">");
    reveal_strlit("<label><input type=\"checkbox\" /></label>");
    reveal_strlit("<ul><li></li></ul></div>");
    reveal_strlit(" data-type=\"taskItem\"");
    reveal_strlit(" data-type=\"taskList\"");
    reveal_strlit(" data-checked=\"true\"");
    reveal_strlit(" data-checked=\"false\"");
    reveal_strlit(" data-text-style=\"\"");
    let p = "<div class=\"content\">"@;
    let l = "<label><input type=\"checkbox\" /></label>"@;
    let t = "<ul><li></li></ul></div>"@;
    let s = checkbox_artifact(text);
    let b = 61 + text.len() as int;
    assert(s.len() == b + 24);
    assert forall|k: int| 0 <= k < s.len() && s[k] == '"' implies (k == 11 || k == 19 || k == 40
        || k == 49) by {
        if k < 21 {
            assert(s[k] == p[k]);
        } else if k < 61 {
            assert(s[k] == l[k - 21]);
        } else if k < b {
            assert(s[k] == text[k - 61]);
        } else {
            assert(s[k] == t[k - b]);
        }
    }
    let e = Seq::<char>::empty();
    let a1 = " data-type=\"taskItem\""@;
    assert forall|q: int| !match_at(s, a1, q, false) by {
        if match_at(s, a1, q, false) {
            assert(char_eq(s[q + 11], a1[11], false));
            assert(char_eq(s[q + 20], a1[20], false));
            assert(s[q + 11] == '"' && s[q + 20] == '"');
            assert(q == 29);
            assert(char_eq(s[q + 0], a1[0], false));
            assert(s[29] == l[8]);
        }
    }
    assert(!occurs(s, a1, false));
    lemma_replace_id(s, a1, e, 0);
    assert(replace_seq(s, a1, e) =~= s);
    let a2 = " data-type=\"taskList\""@;
    assert forall|q: int| !match_at(s, a2, q, false) by {
        if match_at(s, a2, q, false) {
            assert(char_eq(s[q + 11], a2[11], false));
            assert(char_eq(s[q + 20], a2[20], false));
            assert(s[q + 11] == '"' && s[q + 20] == '"');
            assert(q == 29);
            assert(char_eq(s[q + 0], a2[0], false));
            assert(s[29] == l[8]);
        }
    }
    assert(!occurs(s, a2, false));
    lemma_replace_id(s, a2, e, 0);
    assert(replace_seq(s, a2, e) =~= s);
    let a3 = " data-checked=\"true\""@;
    assert forall|q: int| !match_at(s, a3, q, false) by {
        if match_at(s, a3, q, false) {
            assert(char_eq(s[q + 14], a3[14], false));
            assert(char_eq(s[q + 19], a3[19], false));
            assert(s[q + 14] == '"' && s[q + 19] == '"');
        }
    }
    assert(!occurs(s, a3, false));
    lemma_replace_id(s, a3, e, 0);
    assert(replace_seq(s, a3, e) =~= s);
    let a4 = " data-checked=\"false\""@;
    assert forall|q: int| !match_at(s, a4, q, false) by {
        if match_at(s, a4, q, false) {
            assert(char_eq(s[q + 14], a4[14], false));
            assert(char_eq(s[q + 20], a4[20], false));
            assert(s[q + 14] == '"' && s[q + 20] == '"');
        }
    }
    assert(!occurs(s, a4, false));
    lemma_replace_id(s, a4, e, 0);
    assert(replace_seq(s, a4, e) =~= s);
    let a5 = " data-text-style=\"\""@;
    assert forall|q: int| !match_at(s, a5, q, false) by {
        if match_at(s, a5, q, false) {
            assert(char_eq(s[q + 17], a5[17], false));
            assert(char_eq(s[q + 18], a5[18], false));
            assert(s[q + 17] == '"' && s[q + 18] == '"');
        }
    }
    assert(!occurs(s, a5, false));
    lemma_replace_id(s, a5, e, 0);
    assert(replace_seq(s, a5, e) =~= s);
}

/// Label removal takes the artifact's label element out, control and all,
/// and touches nothing else.
proof fn lemma_artifact_labels(text: Seq<char>)
    requires
        forall|k: int| 0 <= k < text.len() ==> text[k] != '<' && text[k] != '>',
    ensures
        strip_labels_from(checkbox_artifact(text), 0) == "<div class=\"content\">"@ + text
            + "<ul><li></li></ul></div>"@,
{
    reveal_strlit("<div class=\"content\">");
    reveal_strlit("<label><input type=\"checkbox\" /></label>");
    reveal_strlit("<ul><li></li></ul></div>");
    reveal_strlit("<label");
    reveal_strlit("</label>");
    let p = "<div class=\"content\">"@;
    let l = "<label><input type=\"checkbox\" /></label>"@;
    let t = "<ul><li></li></ul></div>"@;
    let s = checkbox_artifact(text);
    let b = 61 + text.len() as int;
    assert(s.len() == b + 24);
    assert forall|q: int| 0 <= q < 21 implies !match_at(s, "<label"@, q, true) by {
        if match_at(s, "<label"@, q, true) {
            assert(char_eq(s[q + 0], "<label"@[0], true));
            assert('<' as u32 == 60);
            assert(s[q] as u32 == 60);
            lemma_char_codes(s[q]);
            assert(s[q] == '<');
            assert(s[q] == p[q]);
            assert(q == 0);
            assert(char_eq(s[q + 1], "<label"@[1], true));
            assert(s[1] == p[1]);
        }
    }
    lemma_strip_labels_copy(s, 0, 21);
    assert(match_at(s, "<label"@, 21, true)) by {
        assert forall|k: int| 0 <= k < "<label"@.len() implies char_eq(
            s[21 + k],
            "<label"@[k],
            true,
        ) by {
            assert(s[21 + k] == l[k]);
        }
    }
    assert(s[27] == l[6]);
    assert(find_ch(s, '>', 27) == Some(27int));
    assert(match_at(s, "</label>"@, 53, true)) by {
        assert forall|k: int| 0 <= k < "</label>"@.len() implies char_eq(
            s[53 + k],
            "</label>"@[k],
            true,
        ) by {
            assert(s[53 + k] == l[32 + k]);
        }
    }
    assert forall|q: int| 28 <= q < 53 implies !match_at(s, "</label>"@, q, true) by {
        if match_at(s, "</label>"@, q, true) {
            assert(char_eq(s[q + 0], "</label>"@[0], true));
            assert('<' as u32 == 60);
            assert(s[q] as u32 == 60);
            lemma_char_codes(s[q]);
            assert(s[q] == '<');
            assert(s[q] == l[q - 21]);
            assert(q == 28);
            assert(char_eq(s[q + 1], "</label>"@[1], true));
            assert(s[29] == l[8]);
        }
    }
    lemma_find_from_exact(s, "</label>"@, 28, 53, true);
    assert(label_end(s, 21) == Some(61int));
    assert(strip_labels_from(s, 21) == strip_labels_from(s, 61));
    assert forall|q: int| 61 <= q implies !match_at(s, "<label"@, q, true) by {
        if match_at(s, "<label"@, q, true) {
            assert(char_eq(s[q + 0], "<label"@[0], true));
            assert('<' as u32 == 60);
            assert(s[q] as u32 == 60);
            lemma_char_codes(s[q]);
            assert(s[q] == '<');
            if q < b {
                assert(s[q] == text[q - 61]);
            } else {
                assert(s[q] == t[q - b]);
                assert(q == b || q == b + 4 || q == b + 8 || q == b + 13 || q == b + 18);
                assert(char_eq(s[q + 1], "<label"@[1], true));
                if q == b {
                    assert(s[q + 1] == t[1]);
                } else if q == b + 4 {
                    assert(s[q + 1] == t[5]);
                    assert(char_eq(s[q + 2], "<label"@[2], true));
                    assert(s[q + 2] == t[6]);
                } else if q == b + 8 {
                    assert(s[q + 1] == t[9]);
                } else if q == b + 13 {
                    assert(s[q + 1] == t[14]);
                } else {
                    assert(s[q + 1] == t[19]);
                }
            }
        }
    }
    lemma_strip_labels_copy(s, 61, s.len() as int);
    assert(strip_labels_from(s, s.len() as int) == Seq::<char>::empty());
    assert(strip_labels_from(s, 0) =~= p + text + t);
}

/// The whole transformation reduces the checkbox artifact to the content
/// container holding only the leading text, trimmed — for every leading text
/// free of markup characters. The label, the control it wraps, and the
/// nested list shell all vanish.
pub proof fn lemma_checkbox_artifact_collapse(text: Seq<char>)
    requires
        forall|k: int| 0 <= k < text.len() ==> text[k] != '<' && text[k] != '>' && text[k] != '"',
    ensures
        spec_sanitize(checkbox_artifact(text)) == "<div class=\"content\">"@ + trimmed(text)
            + "</div>"@,
{
    reveal_strlit("<div class=\"content\">");
    reveal_strlit("<ul><li></li></ul></div>");
    reveal_strlit("</div>");
    reveal_strlit("<input");
    reveal_strlit("<ul");
    reveal_strlit("<ol");
    let p = "<div class=\"content\">"@;
    let t = "<ul><li></li></ul></div>"@;
    let s0 = checkbox_artifact(text);
    lemma_artifact_attrs(text);
    lemma_artifact_labels(text);
    let s1 = p + text + t;
    let b1 = 21 + text.len() as int;
    assert forall|q: int| !match_at(s1, "<input"@, q, true) by {
        if match_at(s1, "<input"@, q, true) {
            assert(char_eq(s1[q + 0], "<input"@[0], true));
            assert('<' as u32 == 60);
            assert(s1[q] as u32 == 60);
            lemma_char_codes(s1[q]);
            assert(s1[q] == '<');
            assert(char_eq(s1[q + 1], "<input"@[1], true));
            if q < 21 {
                assert(s1[q] == p[q]);
                assert(q == 0);
                assert(s1[1] == p[1]);
            } else if q < b1 {
                assert(s1[q] == text[q - 21]);
            } else {
                assert(s1[q] == t[q - b1]);
                assert(q == b1 || q == b1 + 4 || q == b1 + 8 || q == b1 + 13 || q == b1 + 18);
                if q == b1 {
                    assert(s1[q + 1] == t[1]);
                } else if q == b1 + 4 {
                    assert(s1[q + 1] == t[5]);
                } else if q == b1 + 8 {
                    assert(s1[q + 1] == t[9]);
                } else if q == b1 + 13 {
                    assert(s1[q + 1] == t[14]);
                } else {
                    assert(s1[q + 1] == t[19]);
                }
            }
        }
    }
    assert(!occurs(s1, "<input"@, true));
    lemma_strip_checkbox_id(s1, 0);
    assert(strip_checkbox_from(s1, 0) =~= s1);
    lemma_wrapper_collapse(text);
    let s2 = p + trimmed(text) + "</div>"@;
    let b2 = 21 + trimmed(text).len() as int;
    lemma_ltrim_shift(text);
    lemma_rtrim_prefix(ltrim(text));
    assert forall|k: int| 0 <= k < trimmed(text).len() implies trimmed(text)[k] != '<' && trimmed(
        text,
    )[k] != '>' by {
        assert(trimmed(text)[k] == ltrim(text)[k]);
        assert(ltrim(text)[k] == text[k + text.len() - ltrim(text).len()]);
    }
    assert forall|q: int| !match_at(s2, "<ul"@, q, true) by {
        if match_at(s2, "<ul"@, q, true) {
            assert(char_eq(s2[q + 0], "<ul"@[0], true));
            assert('<' as u32 == 60);
            assert(s2[q] as u32 == 60);
            lemma_char_codes(s2[q]);
            assert(s2[q] == '<');
            assert(char_eq(s2[q + 1], "<ul"@[1], true));
            if q < 21 {
                assert(s2[q] == p[q]);
                assert(q == 0);
                assert(s2[1] == p[1]);
            } else if q < b2 {
                assert(s2[q] == trimmed(text)[q - 21]);
            } else {
                assert(s2[q] == "</div>"@[q - b2]);
                assert(q == b2);
                assert(s2[q + 1] == "</div>"@[1]);
            }
        }
    }
    assert(!occurs(s2, "<ul"@, true));
    lemma_flatten_lists_id(s2, "<ul"@, "</ul>"@, ListKind::Unordered, 0);
    assert(flatten_lists_from(s2, "<ul"@, "</ul>"@, ListKind::Unordered, 0) =~= s2);
    assert forall|q: int| !match_at(s2, "<ol"@, q, true) by {
        if match_at(s2, "<ol"@, q, true) {
            assert(char_eq(s2[q + 0], "<ol"@[0], true));
            assert('<' as u32 == 60);
            assert(s2[q] as u32 == 60);
            lemma_char_codes(s2[q]);
            assert(s2[q] == '<');
            assert(char_eq(s2[q + 1], "<ol"@[1], true));
            if q < 21 {
                assert(s2[q] == p[q]);
                assert(q == 0);
                assert(s2[1] == p[1]);
            } else if q < b2 {
                assert(s2[q] == trimmed(text)[q - 21]);
            } else {
                assert(s2[q] == "</div>"@[q - b2]);
                assert(q == b2);
                assert(s2[q + 1] == "</div>"@[1]);
            }
        }
    }
    assert(!occurs(s2, "<ol"@, true));
    lemma_flatten_lists_id(s2, "<ol"@, "</ol>"@, ListKind::Ordered, 0);
    assert(flatten_lists_from(s2, "<ol"@, "</ol>"@, ListKind::Ordered, 0) =~= s2);
    assert(s2[0] == p[0] && !is_wspace(s2[0]));
    assert(ltrim(s2) == s2);
    assert(s2[s2.len() - 1] == "</div>"@[5] && !is_wspace(s2[s2.len() - 1]));
    assert(rtrim(s2) == s2);
    assert(trimmed(s2) == s2);
    assert(spec_sanitize(s0) == s2);
}

/// Case-insensitive equality of two character sequences.
pub open spec fn eq_ci(a: Seq<char>, b: Seq<char>) -> bool {
    a.len() == b.len() && forall|k: int| 0 <= k < a.len() ==> char_eq(a[k], #[trigger] b[k], true)
}

fn eq_ci_vec(a: &Vec<char>, b: &Vec<char>) -> (r: bool)
    ensures
        r == eq_ci(a@, b@),
{
    if a.len() != b.len() {
        return false;
    }
    let mut k: usize = 0;
    while k < a.len()
        invariant
            0 <= k <= a@.len(),
            a@.len() == b@.len(),
            forall|q: int| 0 <= q < k ==> char_eq(a@[q], #[trigger] b@[q], true),
        decreases a@.len() - k,
    {
        if !crate::text::char_eq_exec(a[k], b[k], true) {
            return false;
        }
        k += 1;
    }
    true
}

/// Index of the first character at or after `i` that is not white space.
pub open spec fn ws_end(s: Seq<char>, i: int) -> int
    decreases s.len() - i,
    when 0 <= i <= s.len()
{
    if i < s.len() && is_wspace(s[i]) {
        ws_end(s, i + 1)
    } else {
        i
    }
}

/// End of a heading that leads `s` (after white space) and whose trimmed
/// text equals the trimmed `title` case-insensitively, when there is one.
pub open spec fn heading_parts(s: Seq<char>, title: Seq<char>) -> Option<int> {
    let w = ws_end(s, 0);
    if match_at(s, "<h1"@, w, true) {
        match find_ch(s, '>', w + 3) {
            Some(j) => match find_from(s, "</h1>"@, j + 1, true) {
                Some(k) => if eq_ci(trimmed(s.subrange(j + 1, k)), trimmed(title)) {
                    Some(k + 5)
                } else {
                    None
                },
                None => None,
            },
            None => None,
        }
    } else {
        None
    }
}

/// `s` without its leading heading when that heading duplicates `title`;
/// otherwise `s` unchanged.
pub open spec fn spec_strip_heading(s: Seq<char>, title: Seq<char>) -> Seq<char> {
    match heading_parts(s, title) {
        Some(e) => if 0 <= e <= s.len() {
            s.skip(e)
        } else {
            s
        },
        None => s,
    }
}

/// Removes a leading top-level heading whose text matches the destination's
/// configured title, so the destination's own title field is not duplicated
/// in the body. Matching trims both texts and ignores ASCII case; a
/// non-matching leading heading is preserved.
pub fn strip_leading_matching_heading(html: &str, title: &str) -> (r: String)
    ensures
        r@ == spec_strip_heading(html@, title@),
{
    let s = chars_vec(html);
    let t = chars_vec(title);
    let h1 = chars_vec("<h1");
    let h1c = chars_vec("</h1>");
    proof {
        reveal_strlit("<h1");
        reveal_strlit("</h1>");
    }
    let mut w: usize = 0;
    while w < s.len() && is_wspace_char(s[w])
        invariant
            0 <= w <= s@.len(),
            ws_end(s@, 0) == ws_end(s@, w as int),
        decreases s@.len() - w,
    {
        w += 1;
    }
    proof {
        assert(ws_end(s@, w as int) == w as int);
    }
    let mut end: Option<usize> = None;
    if match_at_exec(&s, &h1, w, true) {
        match find_ch_exec(&s, '>', w + 3) {
            Some(j) => {
                proof {
                    lemma_find_ch(s@, '>', w as int + 3);
                }
                match find_exec(&s, &h1c, j + 1, true) {
                    Some(k) => {
                        proof {
                            lemma_find_from(s@, h1c@, j as int + 1, true);
                        }
                        let cap = subrange_vec(&s, j + 1, k);
                        let cap_trimmed = trim_vec(&cap);
                        let title_trimmed = trim_vec(&t);
                        if eq_ci_vec(&cap_trimmed, &title_trimmed) {
                            end = Some(k + 5);
                        }
                    },
                    None => {},
                }
            },
            None => {},
        }
    }
    match end {
        Some(e) => {
            let rest = subrange_vec(&s, e, s.len());
            proof {
                assert(rest@ =~= s@.skip(e as int));
                assert(spec_strip_heading(s@, t@) == s@.skip(e as int));
            }
            string_from_chars(&rest)
        },
        None => {
            proof {
                assert(spec_strip_heading(s@, t@) == s@);
            }
            string_from_chars(&s)
        },
    }
}

/// Heading removal depends on the configured title only through its trimmed,
/// case-folded text: titles that agree there strip exactly the same
/// headings from every input.
pub proof fn lemma_strip_heading_title_insensitive(s: Seq<char>, t1: Seq<char>, t2: Seq<char>)
    requires
        eq_ci(trimmed(t1), trimmed(t2)),
    ensures
        spec_strip_heading(s, t1) == spec_strip_heading(s, t2),
{
    let a = trimmed(t1);
    let b = trimmed(t2);
    assert forall|x: Seq<char>| #[trigger] eq_ci(x, a) == eq_ci(x, b) by {
        if eq_ci(x, a) {
            assert forall|k: int| 0 <= k < x.len() implies char_eq(x[k], #[trigger] b[k], true) by {
                assert(char_eq(x[k], a[k], true));
                assert(char_eq(a[k], b[k], true));
            }
            assert(eq_ci(x, b));
        }
        if eq_ci(x, b) {
            assert forall|k: int| 0 <= k < x.len() implies char_eq(x[k], #[trigger] a[k], true) by {
                assert(char_eq(x[k], b[k], true));
                assert(char_eq(a[k], b[k], true));
            }
            assert(eq_ci(x, a));
        }
    }
}

/// The whole transformation: attribute stripping, control and label removal,
/// wrapper collapse, list flattening, and a final trim, in that order.
pub open spec fn spec_sanitize(s: Seq<char>) -> Seq<char> {
    trimmed(
        spec_flatten_lists(
            spec_flatten_lists(
                collapse_content_from(
                    strip_checkbox_from(strip_labels_from(spec_strip_attrs(s), 0), 0),
                    0,
                ),
                ListKind::Unordered,
            ),
            ListKind::Ordered,
        ),
    )
}

/// Rewrites rich editor markup into display-safe markup. Deterministic and
/// total: malformed markup degrades to best-effort text extraction rather
/// than failing.
pub fn sanitize_html_for_notes(html: &str) -> (r: String)
    ensures
        r@ == spec_sanitize(html@),
{
    let v = chars_vec(html);
    let a = strip_attrs(&v);
    let b = strip_labels(&a);
    let c = strip_checkbox_inputs(&b);
    let d = collapse_content_divs(&c);
    let e = flatten_lists(&d, ListKind::Unordered);
    let f = flatten_lists(&e, ListKind::Ordered);
    let g = trim_vec(&f);
    string_from_chars(&g)
}

} // verus!
