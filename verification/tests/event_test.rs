use ai_board::event::{event_json, to_json_line, Event, EventSink, JsonlStdoutSink, VecSink};
use ai_board::json::Json;

fn parsed_line(event: Event) -> serde_json::Value {
    serde_json::from_str(&to_json_line(event)).unwrap()
}

#[test]
fn initialized_omits_agent_name_when_none() {
    let v = parsed_line(Event::Initialized { protocol_version: Json::Int(1), agent_name: None });
    assert_eq!(v["type"], "initialized");
    assert!(v.get("agent_name").is_none());
    assert_eq!(v["protocol_version"], 1);
}

#[test]
fn initialized_includes_agent_name() {
    let v = parsed_line(Event::Initialized {
        protocol_version: Json::Int(1),
        agent_name: Some("mock".into()),
    });
    assert_eq!(v["agent_name"], "mock");
}

#[test]
fn update_embeds_raw_object() {
    let v = parsed_line(Event::Update {
        session_id: "s1".into(),
        update: Json::Object(vec![(
            "sessionUpdate".to_string(),
            Json::Str("agent_message_chunk".to_string()),
        )]),
    });
    assert_eq!(v["type"], "update");
    assert_eq!(v["session_id"], "s1");
    assert_eq!(v["update"]["sessionUpdate"], "agent_message_chunk");
}

#[test]
fn denied_permission_omits_tool_when_none() {
    let v = parsed_line(Event::DeniedPermission { session_id: "s1".into(), tool: None });
    assert_eq!(v["type"], "denied_permission");
    assert!(v.get("tool").is_none());
}

#[test]
fn result_end_turn() {
    let v = parsed_line(Event::Result { session_id: "s1".into(), stop_reason: "end_turn".into() });
    assert_eq!(v["type"], "result");
    assert_eq!(v["stop_reason"], "end_turn");
}

#[test]
fn type_comes_first() {
    match event_json(Event::Session { session_id: "s".into() }) {
        Json::Object(m) => {
            assert_eq!(m[0].0, "type");
            assert_eq!(m[1].0, "session_id");
        }
        _ => panic!("not an object"),
    }
}

#[test]
fn line_is_compact_with_type_first() {
    let line =
        to_json_line(Event::Result { session_id: "s1".into(), stop_reason: "end_turn".into() });
    assert_eq!(line, r#"{"type":"result","session_id":"s1","stop_reason":"end_turn"}"#);
}

#[test]
fn line_of_denied_permission_with_tool_is_escaped() {
    let line = to_json_line(Event::DeniedPermission {
        session_id: "s\"1".into(),
        tool: Some("t\n1".into()),
    });
    assert_eq!(line, r#"{"type":"denied_permission","session_id":"s\"1","tool":"t\n1"}"#);
}

#[test]
fn vec_sink_keeps_events_in_order() {
    let mut sink = VecSink(Vec::new());
    sink.emit(Event::Session { session_id: "a".into() }).unwrap();
    sink.emit(Event::Session { session_id: "b".into() }).unwrap();
    assert_eq!(sink.0.len(), 2);
    assert!(matches!(&sink.0[1], Event::Session { session_id } if session_id == "b"));
}

#[test]
fn stdout_sink_accepts_events() {
    let mut sink = JsonlStdoutSink;
    assert!(sink.emit(Event::Session { session_id: "s1".into() }).is_ok());
}
