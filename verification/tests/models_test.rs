use ai_board::json::Json;
use ai_board::models::{
    task_json, ticket_json, ticket_json_with_tasks, Status, Task, Ticket, WorkType,
};
use std::str::FromStr;

fn text(j: Option<&Json>) -> Option<&str> {
    match j {
        Some(Json::Str(s)) => Some(s.as_str()),
        _ => None,
    }
}

fn sample_ticket() -> Ticket {
    Ticket {
        id: 1,
        spec_id: 1,
        title: "T1".to_string(),
        description: "do x".to_string(),
        definitions_of_done: Json::Array(vec![Json::Str("true => PASS".to_string())]),
        status: "queued".to_string(),
        attempts: 0,
        human_context: None,
    }
}

fn sample_task(id: i64, title: &str) -> Task {
    Task {
        id,
        ticket_id: 1,
        title: title.to_string(),
        work_type: "code_implementation".to_string(),
        objective: "detect range".to_string(),
        acceptance_criteria: Json::Array(vec![]),
        context: String::new(),
    }
}

#[test]
fn status_roundtrip() {
    for s in ["queued", "implementing", "verifying", "done", "needs_human"] {
        let parsed = Status::from_str(s).unwrap();
        assert_eq!(parsed.as_str(), s);
    }
    assert!(Status::from_str("bogus").is_err());
}

#[test]
fn work_type_roundtrip() {
    for s in [
        "code_implementation",
        "investigation",
        "documentation",
        "design",
    ] {
        assert_eq!(WorkType::from_str(s).unwrap().as_str(), s);
    }
    assert!(WorkType::from_str("refactor").is_err());
}

#[test]
fn invalid_status_message_names_the_text() {
    let err = Status::parse("bogus").unwrap_err();
    assert_eq!(err.message(), "invalid status: bogus");
    let err = WorkType::parse("refactor").unwrap_err();
    assert_eq!(err.message(), "invalid work type: refactor");
}

#[test]
fn status_parse_is_exact() {
    assert!(Status::parse("Queued").is_err());
    assert!(Status::parse(" queued").is_err());
    assert!(Status::parse("").is_err());
    assert_eq!(Status::parse("needs_human").unwrap(), Status::NeedsHuman);
}

#[test]
fn ticket_json_excludes_parent_content() {
    let v = ticket_json(sample_ticket());
    assert!(matches!(v.get("id"), Some(Json::Int(1))));
    assert_eq!(text(v.get("title")), Some("T1"));
    assert!(matches!(v.get("spec_id"), Some(Json::Int(1))));
    assert_eq!(text(v.get("description")), Some("do x"));
    assert!(v.get("content").is_none());
    assert!(v.get("definitions_of_done").unwrap().is_array());
    assert!(v.get("tasks").is_none());
}

#[test]
fn ticket_json_fields_in_order() {
    let v = ticket_json(sample_ticket());
    match v {
        Json::Object(members) => {
            let keys: Vec<&str> = members.iter().map(|(k, _)| k.as_str()).collect();
            assert_eq!(
                keys,
                vec![
                    "id",
                    "spec_id",
                    "title",
                    "description",
                    "definitions_of_done",
                    "status",
                    "attempts",
                    "human_context"
                ]
            );
        }
        _ => panic!("not an object"),
    }
}

#[test]
fn ticket_show_nests_tasks() {
    let v = ticket_json_with_tasks(
        sample_ticket(),
        vec![sample_task(1, "range"), sample_task(2, "nearest")],
    );
    match v.get("tasks") {
        Some(Json::Array(items)) => {
            assert_eq!(items.len(), 2);
            assert_eq!(text(items[0].get("title")), Some("range"));
            assert_eq!(text(items[1].get("title")), Some("nearest"));
        }
        _ => panic!("no tasks"),
    }
}

#[test]
fn task_json_context_defaults_to_empty_string() {
    let v = task_json(sample_task(3, "range"));
    assert_eq!(text(v.get("context")), Some(""));
    assert_eq!(text(v.get("work_type")), Some("code_implementation"));
    assert!(matches!(v.get("ticket_id"), Some(Json::Int(1))));
}

#[test]
fn human_context_is_null_or_text() {
    let mut t = sample_ticket();
    assert!(matches!(ticket_json(sample_ticket()).get("human_context"), Some(Json::Null)));
    t.human_context = Some("blocked".to_string());
    assert_eq!(text(ticket_json(t).get("human_context")), Some("blocked"));
}
