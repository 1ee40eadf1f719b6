use ai_board::board::{
    board_json, check_json_arg, cli_output, created_json, db_path, ensure_found,
    ensure_spec_exists, error_envelope, found_ticket_json, init_json, legacy_schema_check,
    raw_json, spec_content_source, spec_created_json, specs_json, validate_task_content,
    validate_ticket_content, CliOutput, ContentSource,
};
use ai_board::error::{BoardError, JsonArg};
use ai_board::json::Json;
use ai_board::models::{SpecHeader, SpecSummary, Ticket, WorkType};

fn s(x: &str) -> Json {
    Json::Str(x.to_string())
}

fn text(j: Option<&Json>) -> Option<&str> {
    match j {
        Some(Json::Str(x)) => Some(x.as_str()),
        _ => None,
    }
}

fn ticket(id: i64, title: &str, status: &str) -> Ticket {
    Ticket {
        id,
        spec_id: 1,
        title: title.to_string(),
        description: "do x".to_string(),
        definitions_of_done: Json::Array(vec![s("true => PASS")]),
        status: status.to_string(),
        attempts: 0,
        human_context: None,
    }
}

#[test]
fn specs_json_lists_specs() {
    let v = specs_json(vec![SpecSummary {
        id: 1,
        title: "S".to_string(),
        status: "active".to_string(),
        created_at: "2024-01-01 00:00:00".to_string(),
    }]);
    match v {
        Json::Array(arr) => {
            assert_eq!(arr.len(), 1);
            assert_eq!(text(arr[0].get("title")), Some("S"));
            assert_eq!(text(arr[0].get("status")), Some("active"));
        }
        _ => panic!("not an array"),
    }
}

#[test]
fn board_json_returns_spec_and_tickets() {
    let v = board_json(
        SpecHeader { id: 1, title: "S".to_string(), status: "active".to_string() },
        vec![ticket(1, "T1", "queued"), ticket(2, "T2", "implementing")],
    );
    let spec = v.get("spec").unwrap();
    assert!(matches!(spec.get("id"), Some(Json::Int(1))));
    assert_eq!(text(spec.get("title")), Some("S"));
    match v.get("tickets") {
        Some(Json::Array(tickets)) => {
            assert_eq!(tickets.len(), 2);
            assert_eq!(text(tickets[0].get("title")), Some("T1"));
            assert!(tickets[0].get("definitions_of_done").unwrap().is_array());
            assert_eq!(text(tickets[1].get("status")), Some("implementing"));
            assert!(tickets[0].get("tasks").is_none());
        }
        _ => panic!("no tickets"),
    }
}

#[test]
fn board_json_unknown_spec_errors() {
    let err = ensure_spec_exists(999, false).unwrap_err();
    assert_eq!(err.message(), "spec 999 not found");
    assert!(ensure_spec_exists(1, true).is_ok());
}

#[test]
fn update_ticket_content_allows_empty_criteria_array() {
    assert!(validate_ticket_content("Title", "Description", &Json::Array(vec![])).is_ok());
}

#[test]
fn update_ticket_content_rejects_empty_title() {
    let err = validate_ticket_content("   ", "Description", &Json::Array(vec![])).unwrap_err();
    assert_eq!(err.message(), "title must not be empty");
}

#[test]
fn update_ticket_content_rejects_empty_description() {
    let err = validate_ticket_content("Title", "\n\t", &Json::Array(vec![])).unwrap_err();
    assert_eq!(err.message(), "description must not be empty");
}

#[test]
fn update_ticket_content_rejects_unknown_ticket() {
    let err = ensure_found(false, BoardError::TicketNotFound(999)).unwrap_err();
    assert_eq!(err.message(), "ticket 999 not found");
}

#[test]
fn json_args_must_be_arrays() {
    assert!(check_json_arg(JsonArg::Dod, r#"["greeter exists"]"#).is_ok());
    let err = check_json_arg(JsonArg::Dod, r#"{"not":"array"}"#).unwrap_err();
    assert_eq!(err.message(), "--dod must be a JSON array of definitions of done");
    let err = check_json_arg(JsonArg::Criteria, "not json").unwrap_err();
    assert!(err.message().starts_with("--criteria is not valid JSON: "), "{}", err.message());
    assert!(err.message().len() > "--criteria is not valid JSON: ".len());
    let err = check_json_arg(JsonArg::Criteria, "\"[]\"").unwrap_err();
    assert_eq!(err.message(), "--criteria must be a JSON array of command strings");
}

#[test]
fn spec_content_comes_from_exactly_one_source() {
    assert_eq!(spec_content_source(true, false).unwrap(), ContentSource::File);
    assert_eq!(spec_content_source(false, true).unwrap(), ContentSource::Stdin);
    assert_eq!(
        spec_content_source(true, true).unwrap_err().message(),
        "provide exactly one of --file or --stdin"
    );
    assert!(spec_content_source(false, false).is_err());
}

#[test]
fn legacy_schemas_are_refused() {
    let err = legacy_schema_check("board.db", true, true).unwrap_err();
    assert!(err.message().contains("legacy design schema"));
    let err = legacy_schema_check("board.db", false, true).unwrap_err();
    assert!(err.message().contains("acceptance_criteria"));
    assert!(err.message().contains("recreate the board database"));
    assert!(legacy_schema_check("board.db", false, false).is_ok());
}

#[test]
fn raw_answers_print_as_text() {
    match cli_output(raw_json("# Raw\ncontent".to_string())) {
        CliOutput::Raw(t) => assert_eq!(t, "# Raw\ncontent"),
        other => panic!("{other:?}"),
    }
    assert!(matches!(cli_output(created_json(3)), CliOutput::Json(_)));
}

#[test]
fn answers_have_the_documented_shape() {
    let v = found_ticket_json(None);
    assert!(matches!(v.get("ticket"), Some(Json::Null)));
    let v = found_ticket_json(Some(ticket(4, "a", "implementing")));
    assert!(matches!(v.get("id"), Some(Json::Int(4))));
    let v = spec_created_json(1, "Auth");
    assert_eq!(text(v.get("title")), Some("Auth"));
    let v = init_json("board.db");
    assert!(matches!(v.get("ok"), Some(Json::Bool(true))));
    let v = error_envelope("boom".to_string());
    assert!(matches!(v.get("ok"), Some(Json::Bool(false))));
    assert_eq!(text(v.get("error")), Some("boom"));
}

#[test]
fn db_path_defaults_to_board_db() {
    assert_eq!(db_path(None), "board.db");
    assert_eq!(db_path(Some("/tmp/x.db".to_string())), "/tmp/x.db");
}

#[test]
fn task_content_is_checked_in_order() {
    let arr = Json::Array(vec![]);
    assert_eq!(
        validate_task_content("", "nope", "", &arr).unwrap_err().message(),
        "title must not be empty"
    );
    assert_eq!(
        validate_task_content("t", "nope", "", &arr).unwrap_err().message(),
        "invalid work type: nope"
    );
    assert_eq!(
        validate_task_content("t", "design", "o", &Json::Null).unwrap_err().message(),
        "acceptance_criteria must be a JSON array"
    );
    assert_eq!(validate_task_content("t", "design", "o", &arr).unwrap(), WorkType::Design);
}
