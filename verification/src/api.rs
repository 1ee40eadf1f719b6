//! The board's JSON API: reading the fields of request bodies and shaping the
//! answers, `(body, status)`, of the live board's HTTP endpoints.
use vstd::prelude::*;
use crate::board::{
    error_envelope, error_value, ticket_edit_error, validate_task_content, validate_ticket_content,
};
use crate::error::BoardError;
use crate::models::{work_type_named, WorkType};
use crate::text::trim;
use crate::http::{api_error_status, error_status};
use crate::json::{json_text_value, number_texts, opt_str_view, parse_json, Json, JsonV};
use crate::text::{concat, contains_seq};

verus! {

/// An answer of the JSON API: a body and an HTTP status code.
#[derive(Debug)]
pub struct Reply {
    pub body: Json,
    pub status: u16,
}

/// The text of the error for a body that lacks `field`.
pub open spec fn missing_field_message(field: Seq<char>) -> Seq<char> {
    "missing field: "@ + field
}

/// The answer to a body that lacks `field`: status 400 with the error envelope.
pub open spec fn is_missing_field_reply(r: Reply, field: Seq<char>) -> bool {
    r.status == 400 && r.body@ == error_value(missing_field_message(field))
}

/// The answer law for missing records: every error that reports a spec,
/// ticket, task or route as not found is answered with status 404.
pub proof fn lemma_not_found_answers_404(e: BoardError)
    requires
        e.is_not_found(),
    ensures
        error_status(e.message_spec()) == 404,
{
    reveal_strlit(" not found");
    reveal_strlit("not found");
    let needle = "not found"@;
    let msg = e.message_spec();
    let tail = " not found"@;
    assert(tail.subrange(1, 10) =~= needle);
    match e {
        BoardError::RouteNotFound => {
            assert(msg.subrange(0, 0 + needle.len() as int) =~= needle);
        },
        _ => {
            let head = msg.subrange(0, msg.len() - 10);
            assert(msg =~= head + tail);
            let i = head.len() + 1;
            assert(msg.subrange(i as int, i + needle.len() as int) =~= needle);
        },
    }
}

/// A message whose text has no `not found` in it is answered with 400.
proof fn lemma_no_not_found(msg: Seq<char>)
    requires
        forall|i: int|
            0 <= i && i + 9 <= msg.len() ==> !(#[trigger] msg[i] == 'n' && msg[i + 1] == 'o'
                && msg[i + 2] == 't' && msg[i + 3] == ' ' && msg[i + 4] == 'f'),
    ensures
        error_status(msg) == 400,
{
    reveal_strlit("not found");
    let needle = "not found"@;
    if contains_seq(msg, needle) {
        let i = choose|i: int|
            0 <= i && i + needle.len() <= msg.len() && #[trigger] msg.subrange(
                i,
                i + needle.len(),
            ) == needle;
        let w = msg.subrange(i, i + 9);
        assert(w[0] == msg[i] && w[1] == msg[i + 1] && w[2] == msg[i + 2] && w[3] == msg[i + 3]
            && w[4] == msg[i + 4]);
    }
}

/// The answer law for refused edits: a blank title, description or objective,
/// or definitions of done or acceptance criteria that are not an array, are
/// answered with status 400.
pub proof fn lemma_refused_edit_answers_400(e: BoardError)
    requires
        e is EmptyTitle || e is EmptyDescription || e is EmptyObjective || e is DodNotArray
            || e is CriteriaNotArray,
    ensures
        error_status(e.message_spec()) == 400,
{
    reveal_strlit("title must not be empty");
    reveal_strlit("description must not be empty");
    reveal_strlit("objective must not be empty");
    reveal_strlit("definitions_of_done must be a JSON array");
    reveal_strlit("acceptance_criteria must be a JSON array");
    let msg = e.message_spec();
    assert forall|i: int| 0 <= i && i + 9 <= msg.len() implies !(#[trigger] msg[i] == 'n' && msg[i
        + 1] == 'o' && msg[i + 2] == 't' && msg[i + 3] == ' ' && msg[i + 4] == 'f') by {}
    lemma_no_not_found(msg);
}

/// An error answer with status `status`.
pub fn error_reply(message: String, status: u16) -> (r: Reply)
    ensures
        r.body@ == error_value(message@),
        r.status == status,
{
    Reply { body: error_envelope(message), status }
}

/// The answer to a body that lacks `field`.
pub fn missing_field(field: &str) -> (r: Reply)
    ensures
        is_missing_field_reply(r, field@),
{
    error_reply(concat("missing field: ", field), 400)
}

/// The answer to a command's outcome: its value with status 200, or its error
/// with status 404 when something was not found and 400 otherwise.
pub fn reply_for(result: Result<Json, BoardError>) -> (r: Reply)
    ensures
        match result {
            Ok(v) => r.status == 200 && r.body@ == v@,
            Err(e) => r.status == error_status(e.message_spec()) && r.body@ == error_value(
                e.message_spec(),
            ),
        },
{
    match result {
        Ok(v) => Reply { body: v, status: 200 },
        Err(e) => {
            let message = e.message();
            let status = api_error_status(message.as_str());
            error_reply(message, status)
        },
    }
}

/// The answer to an error reported as text, such as a body that is not JSON.
pub fn reply_for_message(message: String) -> (r: Reply)
    ensures
        r.status == error_status(message@),
        r.body@ == error_value(message@),
{
    let status = api_error_status(message.as_str());
    error_reply(message, status)
}

/// Reads a request body as JSON: its value, or, when it is not JSON, status
/// 400 with the parser's message.
pub fn body_json(text: &str) -> (r: Result<Json, Reply>)
    ensures
        match json_text_value(text@) {
            Ok(v) => (r matches Ok(j) && j@ == v && number_texts(j@)),
            Err(m) => (r matches Err(rep) && rep.status == 400 && rep.body@ == error_value(m)),
        },
{
    match parse_json(text) {
        Ok(j) => Ok(j),
        Err(message) => Err(error_reply(message, 400)),
    }
}

/// The fields of a ticket edit.
#[derive(Debug)]
pub struct TicketEdit<'a> {
    pub title: &'a String,
    pub description: &'a String,
    pub definitions_of_done: &'a Json,
}

/// The first field a ticket edit lacks, if any.
pub open spec fn ticket_edit_missing(body: JsonV) -> Option<Seq<char>> {
    if body.str_field("title"@) is None {
        Some("title"@)
    } else if body.str_field("description"@) is None {
        Some("description"@)
    } else if body.get("definitions_of_done"@) is None {
        Some("definitions_of_done"@)
    } else {
        None
    }
}

/// Reads the fields of a ticket edit: string `title` and `description`, and
/// `definitions_of_done` of any kind.
pub fn ticket_edit_fields<'a>(body: &'a Json) -> (r: Result<TicketEdit<'a>, Reply>)
    ensures
        match ticket_edit_missing(body@) {
            Some(f) => (r matches Err(rep) && is_missing_field_reply(rep, f)),
            None => (r matches Ok(e) && body@.str_field("title"@) == Some(e.title@)
                && body@.str_field("description"@) == Some(e.description@) && body@.get(
                "definitions_of_done"@,
            ) == Some(e.definitions_of_done@)),
        },
{
    let title = match body.str_field("title") {
        Some(v) => v,
        None => return Err(missing_field("title")),
    };
    let description = match body.str_field("description") {
        Some(v) => v,
        None => return Err(missing_field("description")),
    };
    let definitions_of_done = match body.get("definitions_of_done") {
        Some(v) => v,
        None => return Err(missing_field("definitions_of_done")),
    };
    Ok(TicketEdit { title, description, definitions_of_done })
}

/// The fields of a spec edit.
#[derive(Debug)]
pub struct SpecEdit<'a> {
    pub title: &'a String,
    pub content: &'a String,
}

/// The first field a spec edit lacks, if any.
pub open spec fn spec_edit_missing(body: JsonV) -> Option<Seq<char>> {
    if body.str_field("title"@) is None {
        Some("title"@)
    } else if body.str_field("content"@) is None {
        Some("content"@)
    } else {
        None
    }
}

/// Reads the fields of a spec edit: string `title` and `content`.
pub fn spec_edit_fields<'a>(body: &'a Json) -> (r: Result<SpecEdit<'a>, Reply>)
    ensures
        match spec_edit_missing(body@) {
            Some(f) => (r matches Err(rep) && is_missing_field_reply(rep, f)),
            None => (r matches Ok(e) && body@.str_field("title"@) == Some(e.title@)
                && body@.str_field("content"@) == Some(e.content@)),
        },
{
    let title = match body.str_field("title") {
        Some(v) => v,
        None => return Err(missing_field("title")),
    };
    let content = match body.str_field("content") {
        Some(v) => v,
        None => return Err(missing_field("content")),
    };
    Ok(SpecEdit { title, content })
}

/// The fields of a new task.
#[derive(Debug)]
pub struct NewTask<'a> {
    pub ticket_id: i64,
    pub title: &'a String,
    pub work_type: &'a String,
    pub objective: &'a String,
    pub acceptance_criteria: &'a Json,
    pub context: Option<&'a String>,
}

/// How a new task's body is refused, if it is.
pub enum NewTaskRefusal {
    /// The body lacks this field.
    Missing(Seq<char>),
    /// `acceptance_criteria` is there but is not an array.
    CriteriaNotArray,
}

/// How a new task's body is refused, if it is: fields are read in the order
/// ticket_id, title, work_type, objective, acceptance_criteria.
pub open spec fn new_task_refusal(body: JsonV) -> Option<NewTaskRefusal> {
    if body.int_field("ticket_id"@) is None {
        Some(NewTaskRefusal::Missing("ticket_id"@))
    } else if body.str_field("title"@) is None {
        Some(NewTaskRefusal::Missing("title"@))
    } else if body.str_field("work_type"@) is None {
        Some(NewTaskRefusal::Missing("work_type"@))
    } else if body.str_field("objective"@) is None {
        Some(NewTaskRefusal::Missing("objective"@))
    } else {
        match body.get("acceptance_criteria"@) {
            None => Some(NewTaskRefusal::Missing("acceptance_criteria"@)),
            Some(c) => if c is Array {
                None
            } else {
                Some(NewTaskRefusal::CriteriaNotArray)
            },
        }
    }
}

/// Reads the fields of a new task: integer `ticket_id`, string `title`,
/// `work_type` and `objective`, array `acceptance_criteria`, and an optional
/// string `context`.
pub fn new_task_fields<'a>(body: &'a Json) -> (r: Result<NewTask<'a>, Reply>)
    ensures
        match new_task_refusal(body@) {
            Some(NewTaskRefusal::Missing(f)) => (r matches Err(rep) && is_missing_field_reply(
                rep,
                f,
            )),
            Some(NewTaskRefusal::CriteriaNotArray) => (r matches Err(rep) && rep.status == 400
                && rep.body@ == error_value("acceptance_criteria must be a JSON array"@)),
            None => (r matches Ok(t) && body@.int_field("ticket_id"@) == Some(t.ticket_id as int)
                && body@.str_field("title"@) == Some(t.title@) && body@.str_field("work_type"@)
                == Some(t.work_type@) && body@.str_field("objective"@) == Some(t.objective@)
                && body@.get("acceptance_criteria"@) == Some(t.acceptance_criteria@)
                && body@.str_field("context"@) == opt_str_view(t.context)),
        },
{
    let ticket_id = match body.int_field("ticket_id") {
        Some(v) => v,
        None => return Err(missing_field("ticket_id")),
    };
    let title = match body.str_field("title") {
        Some(v) => v,
        None => return Err(missing_field("title")),
    };
    let work_type = match body.str_field("work_type") {
        Some(v) => v,
        None => return Err(missing_field("work_type")),
    };
    let objective = match body.str_field("objective") {
        Some(v) => v,
        None => return Err(missing_field("objective")),
    };
    let acceptance_criteria = match body.get("acceptance_criteria") {
        Some(v) => {
            if v.is_array() {
                v
            } else {
                return Err(
                    error_reply("acceptance_criteria must be a JSON array".to_owned(), 400),
                );
            }
        },
        None => return Err(missing_field("acceptance_criteria")),
    };
    let context = body.str_field("context");
    Ok(NewTask { ticket_id, title, work_type, objective, acceptance_criteria, context })
}

/// The fields of a task edit.
#[derive(Debug)]
pub struct TaskEdit<'a> {
    pub title: &'a String,
    pub work_type: &'a String,
    pub objective: &'a String,
    pub acceptance_criteria: &'a Json,
    pub context: &'a String,
}

/// The first field a task edit lacks, if any.
pub open spec fn task_edit_missing(body: JsonV) -> Option<Seq<char>> {
    if body.str_field("title"@) is None {
        Some("title"@)
    } else if body.str_field("work_type"@) is None {
        Some("work_type"@)
    } else if body.str_field("objective"@) is None {
        Some("objective"@)
    } else if body.get("acceptance_criteria"@) is None {
        Some("acceptance_criteria"@)
    } else if body.str_field("context"@) is None {
        Some("context"@)
    } else {
        None
    }
}

/// Reads the fields of a task edit: string `title`, `work_type`, `objective`
/// and `context`, and `acceptance_criteria` of any kind.
pub fn task_edit_fields<'a>(body: &'a Json) -> (r: Result<TaskEdit<'a>, Reply>)
    ensures
        match task_edit_missing(body@) {
            Some(f) => (r matches Err(rep) && is_missing_field_reply(rep, f)),
            None => (r matches Ok(t) && body@.str_field("title"@) == Some(t.title@)
                && body@.str_field("work_type"@) == Some(t.work_type@) && body@.str_field(
                "objective"@,
            ) == Some(t.objective@) && body@.get("acceptance_criteria"@) == Some(
                t.acceptance_criteria@,
            ) && body@.str_field("context"@) == Some(t.context@)),
        },
{
    let title = match body.str_field("title") {
        Some(v) => v,
        None => return Err(missing_field("title")),
    };
    let work_type = match body.str_field("work_type") {
        Some(v) => v,
        None => return Err(missing_field("work_type")),
    };
    let objective = match body.str_field("objective") {
        Some(v) => v,
        None => return Err(missing_field("objective")),
    };
    let acceptance_criteria = match body.get("acceptance_criteria") {
        Some(v) => v,
        None => return Err(missing_field("acceptance_criteria")),
    };
    let context = match body.str_field("context") {
        Some(v) => v,
        None => return Err(missing_field("context")),
    };
    Ok(TaskEdit { title, work_type, objective, acceptance_criteria, context })
}

/// The answer to a refused request: the error's message, with status 404
/// when it says something was not found and 400 otherwise.
pub open spec fn is_error_reply(r: Reply, e: BoardError) -> bool {
    r.status == error_status(e.message_spec()) && r.body@ == error_value(e.message_spec())
}

/// Reads and checks a ticket edit: the fields must be there, the title and
/// description must not be blank, and the definitions of done must be an array.
pub fn ticket_edit_request<'a>(body: &'a Json) -> (r: Result<TicketEdit<'a>, Reply>)
    ensures
        match ticket_edit_missing(body@) {
            Some(f) => (r matches Err(rep) && is_missing_field_reply(rep, f)),
            None => {
                let title = body@.str_field("title"@)->0;
                let description = body@.str_field("description"@)->0;
                let dod = body@.get("definitions_of_done"@)->0;
                match ticket_edit_error(title, description, dod) {
                    Some(e) => (r matches Err(rep) && is_error_reply(rep, e)),
                    None => (r matches Ok(t) && t.title@ == title && t.description@ == description
                        && t.definitions_of_done@ == dod),
                }
            },
        },
{
    let edit = match ticket_edit_fields(body) {
        Ok(e) => e,
        Err(rep) => return Err(rep),
    };
    match validate_ticket_content(
        edit.title.as_str(),
        edit.description.as_str(),
        edit.definitions_of_done,
    ) {
        Ok(()) => Ok(edit),
        Err(e) => Err(reply_for(Err(e))),
    }
}

/// Reads a new task and its work type: the fields must be there, the
/// acceptance criteria an array, and the work type known.
pub fn new_task_request<'a>(body: &'a Json) -> (r: Result<(NewTask<'a>, WorkType), Reply>)
    ensures
        match new_task_refusal(body@) {
            Some(NewTaskRefusal::Missing(f)) => (r matches Err(rep) && is_missing_field_reply(
                rep,
                f,
            )),
            Some(NewTaskRefusal::CriteriaNotArray) => (r matches Err(rep) && rep.status == 400
                && rep.body@ == error_value("acceptance_criteria must be a JSON array"@)),
            None => {
                let wt = body@.str_field("work_type"@)->0;
                match work_type_named(wt) {
                    Some(w) => (r matches Ok((t, x)) && x == w && t.work_type@ == wt
                        && body@.int_field("ticket_id"@) == Some(t.ticket_id as int)
                        && body@.str_field("title"@) == Some(t.title@)
                        && body@.str_field("objective"@) == Some(t.objective@)
                        && body@.get("acceptance_criteria"@) == Some(t.acceptance_criteria@)
                        && body@.str_field("context"@) == opt_str_view(t.context)),
                    None => (r matches Err(rep) && rep.status == error_status(
                        "invalid work type: "@ + wt,
                    ) && rep.body@ == error_value("invalid work type: "@ + wt)),
                }
            },
        },
{
    let task = match new_task_fields(body) {
        Ok(t) => t,
        Err(rep) => return Err(rep),
    };
    match WorkType::parse(task.work_type.as_str()) {
        Ok(w) => Ok((task, w)),
        Err(e) => Err(reply_for(Err(e))),
    }
}

/// Reads and checks a task edit: the fields must be there, the title and the
/// objective must not be blank, the work type must be known and the acceptance
/// criteria must be an array.
pub fn task_edit_request<'a>(body: &'a Json) -> (r: Result<(TaskEdit<'a>, WorkType), Reply>)
    ensures
        match task_edit_missing(body@) {
            Some(f) => (r matches Err(rep) && is_missing_field_reply(rep, f)),
            None => {
                let title = body@.str_field("title"@)->0;
                let wt = body@.str_field("work_type"@)->0;
                let objective = body@.str_field("objective"@)->0;
                let criteria = body@.get("acceptance_criteria"@)->0;
                if trim(title).len() == 0 {
                    (r matches Err(rep) && is_error_reply(rep, BoardError::EmptyTitle))
                } else if work_type_named(wt) is None {
                    (r matches Err(rep) && rep.status == error_status("invalid work type: "@ + wt)
                        && rep.body@ == error_value("invalid work type: "@ + wt))
                } else if trim(objective).len() == 0 {
                    (r matches Err(rep) && is_error_reply(rep, BoardError::EmptyObjective))
                } else if !(criteria is Array) {
                    (r matches Err(rep) && is_error_reply(rep, BoardError::CriteriaNotArray))
                } else {
                    (r matches Ok((t, w)) && work_type_named(wt) == Some(w) && t.title@ == title
                        && t.work_type@ == wt && t.objective@ == objective
                        && t.acceptance_criteria@ == criteria && body@.str_field("context"@)
                        == Some(t.context@))
                }
            },
        },
{
    let edit = match task_edit_fields(body) {
        Ok(e) => e,
        Err(rep) => return Err(rep),
    };
    match validate_task_content(
        edit.title.as_str(),
        edit.work_type.as_str(),
        edit.objective.as_str(),
        edit.acceptance_criteria,
    ) {
        Ok(w) => Ok((edit, w)),
        Err(e) => Err(reply_for(Err(e))),
    }
}

} // verus!
