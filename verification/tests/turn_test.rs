use ai_board::agent::{PermissionKind, PermissionOption, PermissionOutcome, StopReason};
use ai_board::event::Event;
use ai_board::json::Json;
use ai_board::turn::Turn;

fn option(id: &str, kind: PermissionKind) -> PermissionOption {
    PermissionOption { option_id: id.to_string(), kind }
}

#[test]
fn held_back_events_come_before_the_result_in_arrival_order() {
    let mut turn = Turn::new();
    turn.initialized(Json::Int(1), Some("mock".to_string()));
    turn.session_opened("s1".to_string());
    turn.update("s1".to_string(), Json::Object(vec![]));
    let answer = turn.permission_requested(
        "s1".to_string(),
        Some("tool-1".to_string()),
        &vec![option("yes", PermissionKind::AllowOnce), option("no", PermissionKind::RejectOnce)],
    );
    assert!(matches!(answer, PermissionOutcome::Selected(ref id) if id == "no"));
    assert_eq!(turn.reported.len(), 2);
    assert_eq!(turn.pending.len(), 2);
    turn.finished("s1".to_string(), StopReason::EndTurn);
    assert!(turn.pending.is_empty());
    assert_eq!(turn.reported.len(), 5);
    assert!(matches!(turn.reported[0], Event::Initialized { .. }));
    assert!(matches!(turn.reported[1], Event::Session { .. }));
    assert!(matches!(turn.reported[2], Event::Update { .. }));
    assert!(matches!(&turn.reported[3], Event::DeniedPermission { tool: Some(t), .. } if t == "tool-1"));
    assert!(
        matches!(&turn.reported[4], Event::Result { session_id, stop_reason } if session_id == "s1" && stop_reason == "end_turn")
    );
}

#[test]
fn permission_without_reject_option_is_cancelled() {
    let mut turn = Turn::new();
    let answer = turn.permission_requested(
        "s1".to_string(),
        None,
        &vec![option("yes", PermissionKind::AllowAlways)],
    );
    assert!(matches!(answer, PermissionOutcome::Cancelled));
    assert_eq!(turn.pending.len(), 1);
}

#[test]
fn unknown_stop_reason_is_reported_by_its_name_or_as_unknown() {
    let mut turn = Turn::new();
    turn.finished("s".to_string(), StopReason::Other(None));
    assert!(matches!(&turn.reported[0], Event::Result { stop_reason, .. } if stop_reason == "unknown"));
}
