use ai_board::api::{
    new_task_request, reply_for, spec_edit_fields, task_edit_request, ticket_edit_request, Reply,
};
use ai_board::error::BoardError;
use ai_board::json::Json;
use ai_board::models::{spec_json, ticket_json, SpecRecord, Ticket, WorkType};

fn s(x: &str) -> Json {
    Json::Str(x.to_string())
}

fn obj(members: Vec<(&str, Json)>) -> Json {
    Json::Object(members.into_iter().map(|(k, v)| (k.to_string(), v)).collect())
}

fn text(j: Option<&Json>) -> Option<&str> {
    match j {
        Some(Json::Str(x)) => Some(x.as_str()),
        _ => None,
    }
}

fn error_of(r: &Reply) -> Option<&str> {
    assert!(matches!(r.body.get("ok"), Some(Json::Bool(false))));
    text(r.body.get("error"))
}

#[test]
fn patch_ticket_response_updates_ticket() {
    let payload = obj(vec![
        ("title", s("Updated")),
        ("description", s("updated description")),
        ("definitions_of_done", Json::Array(vec![])),
    ]);
    let edit = ticket_edit_request(&payload).unwrap();
    assert_eq!(edit.title, "Updated");
    let stored = Ticket {
        id: 1,
        spec_id: 1,
        title: edit.title.clone(),
        description: edit.description.clone(),
        definitions_of_done: Json::Array(vec![]),
        status: "queued".to_string(),
        attempts: 0,
        human_context: None,
    };
    let r = reply_for(Ok(ticket_json(stored)));
    assert_eq!(r.status, 200);
    assert_eq!(text(r.body.get("title")), Some("Updated"));
    assert_eq!(text(r.body.get("description")), Some("updated description"));
    assert!(matches!(r.body.get("definitions_of_done"), Some(Json::Array(v)) if v.is_empty()));
}

#[test]
fn patch_ticket_response_rejects_empty_description() {
    let payload = obj(vec![
        ("title", s("Valid title")),
        ("description", s("   ")),
        ("definitions_of_done", Json::Array(vec![])),
    ]);
    let r = ticket_edit_request(&payload).unwrap_err();
    assert_eq!(r.status, 400);
    assert_eq!(error_of(&r), Some("description must not be empty"));
}

#[test]
fn patch_ticket_response_rejects_non_array_dod() {
    let payload = obj(vec![
        ("title", s("Valid title")),
        ("description", s("Valid description")),
        ("definitions_of_done", obj(vec![("bad", Json::Bool(true))])),
    ]);
    let r = ticket_edit_request(&payload).unwrap_err();
    assert_eq!(r.status, 400);
    assert_eq!(error_of(&r), Some("definitions_of_done must be a JSON array"));
}

#[test]
fn patch_ticket_response_rejects_missing_title() {
    let payload = obj(vec![
        ("description", s("updated description")),
        ("definitions_of_done", Json::Array(vec![])),
    ]);
    let r = ticket_edit_request(&payload).unwrap_err();
    assert_eq!(r.status, 400);
    assert_eq!(error_of(&r), Some("missing field: title"));
}

#[test]
fn patch_ticket_response_rejects_missing_description() {
    let payload = obj(vec![("title", s("Updated")), ("definitions_of_done", Json::Array(vec![]))]);
    let r = ticket_edit_request(&payload).unwrap_err();
    assert_eq!(r.status, 400);
    assert_eq!(error_of(&r), Some("missing field: description"));
}

#[test]
fn patch_ticket_response_rejects_unknown_ticket() {
    let payload = obj(vec![
        ("title", s("Updated")),
        ("description", s("updated description")),
        ("definitions_of_done", Json::Array(vec![])),
    ]);
    assert!(ticket_edit_request(&payload).is_ok());
    // The update changed no row: the command reports the ticket missing.
    let missing = ai_board::board::ensure_found(false, BoardError::TicketNotFound(999))
        .unwrap_err();
    let r = reply_for(Err(missing));
    assert_eq!(r.status, 404);
    assert_eq!(error_of(&r), Some("ticket 999 not found"));
}

#[test]
fn patch_ticket_rejects_old_acceptance_criteria_key() {
    let payload = obj(vec![
        ("title", s("Updated")),
        ("description", s("updated description")),
        ("acceptance_criteria", Json::Array(vec![])),
    ]);
    let r = ticket_edit_request(&payload).unwrap_err();
    assert_eq!(r.status, 400);
    assert_eq!(error_of(&r), Some("missing field: definitions_of_done"));
}

#[test]
fn patch_spec_response_updates_title_and_content() {
    let payload = obj(vec![("title", s("Updated")), ("content", s("# Updated"))]);
    let edit = spec_edit_fields(&payload).unwrap();
    let r = reply_for(Ok(spec_json(SpecRecord {
        id: 1,
        title: edit.title.clone(),
        status: "planning".to_string(),
        content: edit.content.clone(),
    })));
    assert_eq!(r.status, 200);
    assert_eq!(text(r.body.get("title")), Some("Updated"));
    assert_eq!(text(r.body.get("content")), Some("# Updated"));
}

#[test]
fn post_and_patch_task() {
    let created = obj(vec![
        ("ticket_id", Json::Int(1)),
        ("title", s("range")),
        ("work_type", s("code_implementation")),
        ("objective", s("detect")),
        ("acceptance_criteria", Json::Array(vec![s("cargo test => PASS")])),
    ]);
    let (task, w) = new_task_request(&created).unwrap();
    assert_eq!(task.ticket_id, 1);
    assert_eq!(w, WorkType::CodeImplementation);
    assert!(task.context.is_none());

    let edit = obj(vec![
        ("title", s("range 2")),
        ("work_type", s("investigation")),
        ("objective", s("survey")),
        ("acceptance_criteria", Json::Array(vec![])),
        ("context", s("see src/range.rs")),
    ]);
    let (t, w) = task_edit_request(&edit).unwrap();
    assert_eq!(t.title, "range 2");
    assert_eq!(w, WorkType::Investigation);
    assert_eq!(t.context, "see src/range.rs");
}

#[test]
fn post_task_rejects_unknown_work_type() {
    let created = obj(vec![
        ("ticket_id", Json::Int(1)),
        ("title", s("x")),
        ("work_type", s("refactor")),
        ("objective", s("x")),
        ("acceptance_criteria", Json::Array(vec![])),
    ]);
    let r = new_task_request(&created).unwrap_err();
    assert_eq!(r.status, 400);
    assert!(error_of(&r).unwrap().contains("invalid work type"));
}

#[test]
fn post_task_requires_integer_ticket_id_and_array_criteria() {
    let no_id = obj(vec![("ticket_id", s("1"))]);
    assert_eq!(error_of(&new_task_request(&no_id).unwrap_err()), Some("missing field: ticket_id"));
    let bad = obj(vec![
        ("ticket_id", Json::Int(1)),
        ("title", s("x")),
        ("work_type", s("design")),
        ("objective", s("x")),
        ("acceptance_criteria", s("[]")),
    ]);
    assert_eq!(
        error_of(&new_task_request(&bad).unwrap_err()),
        Some("acceptance_criteria must be a JSON array")
    );
}

#[test]
fn patch_task_requires_context_and_checks_content() {
    let edit = obj(vec![
        ("title", s("t")),
        ("work_type", s("design")),
        ("objective", s("o")),
        ("acceptance_criteria", Json::Array(vec![])),
    ]);
    assert_eq!(error_of(&task_edit_request(&edit).unwrap_err()), Some("missing field: context"));
    let blank = obj(vec![
        ("title", s("t")),
        ("work_type", s("design")),
        ("objective", s(" ")),
        ("acceptance_criteria", Json::Array(vec![])),
        ("context", s("")),
    ]);
    assert_eq!(error_of(&task_edit_request(&blank).unwrap_err()), Some("objective must not be empty"));
}

#[test]
fn parse_json_body_rejects_malformed_json() {
    let reply = ai_board::api::body_json("{").unwrap_err();
    assert_eq!(reply.status, 400);
    match reply.body.get("error") {
        Some(ai_board::json::Json::Str(err)) => {
            assert!(err.contains("EOF") || err.contains("expected"))
        }
        _ => panic!("no error message"),
    }
}

#[test]
fn body_json_reads_objects() {
    let body = ai_board::api::body_json(r#"{"title":"T","n":2,"x":1.5}"#).unwrap();
    assert!(matches!(body.get("title"), Some(ai_board::json::Json::Str(t)) if t == "T"));
    assert!(matches!(body.get("n"), Some(ai_board::json::Json::Int(2))));
    assert!(matches!(body.get("x"), Some(ai_board::json::Json::Num(t)) if t == "1.5"));
}
