use what_the_note::sanitize::{sanitize_html_for_notes, strip_leading_matching_heading, ListKind,
    render_list_item};
use what_the_note::storage::StorageService;

#[test]
fn removes_nested_tasks() {
    let html = r#"<ul data-type=\"taskList\"><li data-type=\"taskItem\"><label><input type=\"checkbox\" /></label><div class=\"content\">Parent<ul><li>Nested</li></ul></div></li></ul>"#;
    let sanitized = sanitize_html_for_notes(html);

    assert!(!sanitized.contains("input"));
    assert!(!sanitized.contains("label"));
    assert!(!sanitized.contains("Nested"));
    assert!(sanitized.contains("Parent"));
}

#[test]
fn render_list_item_removes_nested_content() {
    let raw = "<label><input type=\"checkbox\" /></label><div class=\"content\">Parent<ul><li>Nested</li></ul></div>";
    let rendered = render_list_item(raw, ListKind::Unordered, 1);
    assert_eq!(rendered, "<div>• Parent</div>");
}

#[test]
fn preserves_standard_list_items() {
    let html = r#"
            <h2>Features</h2>
            <ul>
                <li><p>Auto-save - your notes are saved instantly</p></li>
                <li><p>Rich formatting - bold, italic, lists, headings, and more</p></li>
                <li><p>Drag to reposition, resize from edges</p></li>
            </ul>
            <p><em>Delete this text and start writing your notes!</em></p>
        "#;

    let sanitized = sanitize_html_for_notes(html);
    assert!(sanitized.contains("Auto-save"));
    assert!(sanitized.contains("Rich formatting"));
    assert!(sanitized.contains("Drag to reposition"));
    assert!(sanitized.contains("•"));
}

#[test]
fn sample_state_preserved() {
    let sanitized = sanitize_html_for_notes(&StorageService::default_note());
    assert!(sanitized.contains("Auto-save - your notes are saved instantly"));
    assert!(sanitized.contains("Rich formatting - bold, italic, lists, headings, and more"));
    assert!(sanitized.contains("Drag to reposition, resize from edges"));
    assert!(sanitized.contains("Click away to hide (customizable in settings)"));
    assert!(sanitized.contains("Adjustable text size in preferences"));
    assert!(sanitized.contains("Delete this text and start writing your notes!"));
}

#[test]
fn unordered_items_get_bullet_markers() {
    let sanitized = sanitize_html_for_notes("<ul><li>first</li><li>second</li></ul>");
    assert_eq!(sanitized, "<div>• first</div><div>• second</div>");
}

#[test]
fn ordered_items_numbered_from_one_in_order() {
    let sanitized = sanitize_html_for_notes("<ol><li>alpha</li><li>beta</li><li>gamma</li></ol>");
    assert_eq!(sanitized, "<div>1. alpha</div><div>2. beta</div><div>3. gamma</div>");
}

#[test]
fn empty_item_contributes_no_line_but_keeps_its_number() {
    let sanitized = sanitize_html_for_notes("<ol><li>alpha</li><li> </li><li>gamma</li></ol>");
    assert_eq!(sanitized, "<div>1. alpha</div><div>3. gamma</div>");
}

#[test]
fn item_with_nested_list_keeps_only_its_own_text() {
    let sanitized =
        sanitize_html_for_notes("<ul><li>own text<ul><li>nested text</li></ul></li></ul>");
    assert!(sanitized.contains("own text"));
    assert!(!sanitized.contains("nested text"));
}

#[test]
fn editor_attributes_are_stripped() {
    let html = "<ul data-type=\"taskList\"><li data-checked=\"false\">task</li></ul>";
    let sanitized = sanitize_html_for_notes(html);
    assert!(!sanitized.contains("data-type"));
    assert!(!sanitized.contains("data-checked"));
    assert!(sanitized.contains("task"));
}

#[test]
fn checkbox_in_label_inside_content_container_collapses_to_leading_text() {
    let html = "<div class=\"content\"><label><input type=\"checkbox\" /></label> Groceries <ul><li></li></ul></div>";
    let sanitized = sanitize_html_for_notes(html);
    assert_eq!(sanitized, "<div class=\"content\">Groceries</div>");
}

#[test]
fn matching_leading_heading_removed_case_insensitively() {
    let sanitized = sanitize_html_for_notes("<h1>My Note</h1><p>Body</p>");
    let result = strip_leading_matching_heading(&sanitized, "my note");
    assert!(!result.contains("<h1>"));
    assert!(result.contains("<p>Body</p>"));
    assert_eq!(result, "<p>Body</p>");
}

#[test]
fn matching_heading_removed_despite_surrounding_whitespace_in_title() {
    let result = strip_leading_matching_heading("<h1> My Note </h1><p>Body</p>", "  MY NOTE  ");
    assert_eq!(result, "<p>Body</p>");
}

#[test]
fn non_matching_leading_heading_preserved() {
    let html = "<h1>Other Title</h1><p>Body</p>";
    let result = strip_leading_matching_heading(html, "my note");
    assert_eq!(result, html);
}

#[test]
fn sanitize_is_idempotent_on_marker_free_output() {
    let once = sanitize_html_for_notes(&StorageService::default_note());
    let twice = sanitize_html_for_notes(&once);
    assert_eq!(twice, once);
}

#[test]
fn malformed_markup_degrades_without_failing() {
    let sanitized = sanitize_html_for_notes("<ul><li>unclosed item");
    assert_eq!(sanitized, "<ul><li>unclosed item");
}
