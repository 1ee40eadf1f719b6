use ai_board::error::{BoardError, IdLabel};
use ai_board::http::{
    api_error_status, parse_prefixed_id, query_spec_id, query_ticket_id, request_path,
    route_json, route_request, ApiRoute, Method, Route,
};

#[test]
fn request_path_strips_query_string() {
    assert_eq!(request_path("/api/ticket/1?foo=bar"), "/api/ticket/1");
}

#[test]
fn request_path_without_query_is_whole_url() {
    assert_eq!(request_path("/api/specs"), "/api/specs");
    assert_eq!(request_path("?x"), "");
}

#[test]
fn route_json_rejects_invalid_ticket_id() {
    let err = route_json("/api/ticket/nope").unwrap_err();
    assert_eq!(err.message(), "invalid ticket id");
}

#[test]
fn old_design_routes_are_not_found() {
    assert!(route_json("/api/designs").is_err());
    assert!(route_json("/api/design/1").is_err());
    assert!(route_json("/api/board?design=1").is_err());
}

#[test]
fn route_json_unknown_ticket_maps_to_404_status() {
    assert_eq!(route_json("/api/ticket/999").unwrap(), ApiRoute::Ticket(999));
    let msg = BoardError::TicketNotFound(999).message();
    assert_eq!(api_error_status(&msg), 404);
}

#[test]
fn route_json_reads_board_and_tasks_queries() {
    assert_eq!(route_json("/api/specs").unwrap(), ApiRoute::Specs);
    assert_eq!(route_json("/api/board?spec_id=1").unwrap(), ApiRoute::Board(1));
    assert_eq!(route_json("/api/tasks?ticket_id=1").unwrap(), ApiRoute::Tasks(1));
    assert_eq!(route_json("/api/task/1").unwrap(), ApiRoute::Task(1));
    assert_eq!(route_json("/api/spec/1").unwrap(), ApiRoute::Spec(1));
    assert_eq!(route_json("/api/board").unwrap_err().message(), "missing ?spec_id=<id>");
    assert_eq!(route_json("/api/tasks?spec_id=1").unwrap_err().message(), "missing ?ticket_id=<id>");
    assert_eq!(route_json("/api/nothing").unwrap_err().message(), "not found");
}

#[test]
fn query_ids_take_the_first_matching_pair() {
    assert_eq!(query_spec_id("/api/board?x=1&spec_id=7&spec_id=8"), Some(7));
    assert_eq!(query_spec_id("/api/board?spec_id=abc&spec_id=8"), None);
    assert_eq!(query_spec_id("/api/board?spec_id"), None);
    assert_eq!(query_spec_id("/api/board"), None);
    assert_eq!(query_ticket_id("/api/tasks?ticket_id=-3"), Some(-3));
    assert_eq!(query_ticket_id("/api/tasks?ticket_id=+4"), Some(4));
    assert_eq!(query_ticket_id("/api/tasks?ticket_id=99999999999999999999"), None);
}

#[test]
fn prefixed_ids_are_plain_integers() {
    assert_eq!(parse_prefixed_id("/api/task/12", "/api/task/", IdLabel::Task).unwrap(), 12);
    assert!(parse_prefixed_id("/api/task/", "/api/task/", IdLabel::Task).is_err());
    assert!(parse_prefixed_id("/api/task/1/2", "/api/task/", IdLabel::Task).is_err());
    assert_eq!(
        parse_prefixed_id("/api/task//api/task/5", "/api/task/", IdLabel::Task).unwrap(),
        5
    );
    assert_eq!(
        parse_prefixed_id("/api/spec/x", "/api/spec/", IdLabel::Spec).unwrap_err().message(),
        "invalid spec id"
    );
}

#[test]
fn not_found_messages_answer_404_others_400() {
    assert_eq!(api_error_status("spec 3 not found"), 404);
    assert_eq!(api_error_status("title must not be empty"), 400);
}

#[test]
fn requests_are_routed_by_method_and_path() {
    assert_eq!(route_request(Method::Post, "/api/tasks"), Route::PostTask);
    assert_eq!(route_request(Method::Patch, "/api/task/4"), Route::PatchTask(Some(4)));
    assert_eq!(route_request(Method::Patch, "/api/ticket/x"), Route::PatchTicket(None));
    assert_eq!(route_request(Method::Patch, "/api/spec/2?y=1"), Route::PatchSpec(Some(2)));
    assert_eq!(route_request(Method::Post, "/api/specs"), Route::MethodNotAllowed);
    assert_eq!(route_request(Method::Get, "/"), Route::Index);
    assert_eq!(route_request(Method::Get, "/?spec=1"), Route::Index);
    assert_eq!(route_request(Method::Get, "/api/specs"), Route::Api);
    assert_eq!(route_request(Method::Get, "/favicon.ico"), Route::NotFound);
}
