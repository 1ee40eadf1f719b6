use ai_board::ui::INDEX_HTML;

#[test]
fn embedded_ui_uses_spec_routes_and_description() {
    assert!(INDEX_HTML.contains("fetch(\"/api/specs\")"));
    assert!(INDEX_HTML.contains("/api/board?spec_id=${id}"));
    assert!(INDEX_HTML.contains("/api/spec/${specId}"));
    assert!(INDEX_HTML.contains("ticket.description"));
    assert!(INDEX_HTML.contains("const description = editorRef.current"));
    assert!(INDEX_HTML.contains("description,"));
    assert!(!INDEX_HTML.contains("/api/design"));
    assert!(!INDEX_HTML.contains("ticket.spec"));
}

#[test]
fn page_reads_tickets_and_tasks_through_the_api() {
    assert!(INDEX_HTML.contains("/api/ticket/${id}"));
    assert!(INDEX_HTML.contains("ticket.tasks"));
    assert!(INDEX_HTML.contains("method: \"PATCH\""));
}
