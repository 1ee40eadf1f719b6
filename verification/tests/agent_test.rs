use ai_board::agent::{
    agent_error_message, choose_permission, is_agent_process_exit, stop_reason_str,
    PermissionKind, PermissionOption, PermissionOutcome, StopReason,
};

#[test]
fn map_acp_err_server_shut_down_is_agent_process_exited() {
    let err = "Internal error: \"server shut down unexpectedly\"";
    let msg = agent_error_message(err);
    assert!(msg.starts_with("agent process exited: "), "{msg}");
    assert!(msg.contains(err), "{msg}");
}

#[test]
fn map_acp_err_connection_closed_is_agent_process_exited() {
    let err = "Internal error: \"connection closed before request could be sent\"";
    let msg = agent_error_message(err);
    assert!(msg.contains("agent process exited"), "{msg}");
}

#[test]
fn map_acp_err_other_internal_keeps_original() {
    let err = "Internal error: \"failed to deserialize response\"";
    let msg = agent_error_message(err);
    assert!(!msg.contains("agent process exited"), "{msg}");
    assert_eq!(msg, err);
}

#[test]
fn exit_detection_ignores_ascii_case() {
    assert!(is_agent_process_exit("Broken Pipe"));
    assert!(is_agent_process_exit("unexpected EOF"));
    assert!(is_agent_process_exit("Connection Reset by peer"));
    assert!(!is_agent_process_exit("timeout"));
}

#[test]
fn stop_reasons_are_named() {
    assert_eq!(stop_reason_str(StopReason::EndTurn), "end_turn");
    assert_eq!(stop_reason_str(StopReason::MaxTurnRequests), "max_turn_requests");
    assert_eq!(stop_reason_str(StopReason::Other(Some("paused".into()))), "paused");
    assert_eq!(stop_reason_str(StopReason::Other(None)), "unknown");
}

fn opt(id: &str, kind: PermissionKind) -> PermissionOption {
    PermissionOption { option_id: id.to_string(), kind }
}

#[test]
fn permission_picks_first_reject() {
    let options = vec![
        opt("allow", PermissionKind::AllowOnce),
        opt("reject-always", PermissionKind::RejectAlways),
        opt("reject-once", PermissionKind::RejectOnce),
    ];
    match choose_permission(&options) {
        PermissionOutcome::Selected(id) => assert_eq!(id, "reject-always"),
        other => panic!("{other:?}"),
    }
}

#[test]
fn permission_without_reject_is_cancelled() {
    let options = vec![opt("allow", PermissionKind::AllowAlways)];
    assert!(matches!(choose_permission(&options), PermissionOutcome::Cancelled));
    assert!(matches!(choose_permission(&vec![]), PermissionOutcome::Cancelled));
}
