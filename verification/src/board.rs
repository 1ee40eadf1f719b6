//! The rules of the board's commands: what each accepts, what it refuses and
//! with which error, and the JSON it answers with. The database statements
//! themselves run in the program around the library.
use vstd::prelude::*;
use crate::error::{BoardError, JsonArg};
use crate::json::{
    array, json_text_value, member_views, object, parse_json, push_item, push_member, str_value,
    views, Json, JsonV,
};
use crate::models::{
    spec_header_json, spec_header_value, spec_summary_json, spec_summary_value, ticket_json,
    ticket_members, ticket_values, tickets_json, work_type_named, SpecHeader, SpecSummary, Ticket,
    WorkType,
};
use crate::text::{is_blank, trim};

verus! {

/// Whether a JSON flag's value is accepted, given what the JSON parser made of
/// it: it must be an array.
pub open spec fn json_arg_accepted(parsed: Result<JsonV, Seq<char>>) -> bool {
    parsed matches Ok(v) && v is Array
}

/// Judges the value of a JSON flag from what the parser made of it: it must be
/// a JSON array. Invalid JSON is reported with the parser's message.
pub fn check_parsed_json_arg(arg: JsonArg, parsed: Result<Json, String>) -> (r: Result<
    (),
    BoardError,
>)
    ensures
        match parsed {
            Ok(v) => if v@ is Array {
                r is Ok
            } else {
                r == Err::<(), BoardError>(BoardError::ArgNotArray(arg))
            },
            Err(e) => r matches Err(BoardError::ArgNotJson { arg: a, detail }) && a == arg
                && detail@ == e@,
        },
{
    match parsed {
        Ok(v) => if v.is_array() {
            Ok(())
        } else {
            Err(BoardError::ArgNotArray(arg))
        },
        Err(e) => Err(BoardError::ArgNotJson { arg, detail: e }),
    }
}

/// Checks that the text of a JSON flag is a JSON array.
pub fn check_json_arg(arg: JsonArg, text: &str) -> (r: Result<(), BoardError>)
    ensures
        r is Ok <==> json_arg_accepted(json_text_value(text@)),
        match json_text_value(text@) {
            Ok(v) => if v is Array {
                r is Ok
            } else {
                r == Err::<(), BoardError>(BoardError::ArgNotArray(arg))
            },
            Err(e) => r matches Err(BoardError::ArgNotJson { arg: a, detail }) && a == arg
                && detail@ == e,
        },
{
    let parsed = parse_json(text);
    check_parsed_json_arg(arg, parsed)
}

/// Where the content of a new spec comes from.
#[derive(Debug, Clone, Copy, PartialEq, Eq, Structural)]
pub enum ContentSource {
    File,
    Stdin,
}

/// The source of a new spec's content: exactly one of a file or stdin.
pub fn spec_content_source(has_file: bool, stdin: bool) -> (r: Result<ContentSource, BoardError>)
    ensures
        r == (if has_file && !stdin {
            Ok::<ContentSource, BoardError>(ContentSource::File)
        } else if !has_file && stdin {
            Ok(ContentSource::Stdin)
        } else {
            Err(BoardError::ContentSource)
        }),
{
    if has_file && !stdin {
        Ok(ContentSource::File)
    } else if !has_file && stdin {
        Ok(ContentSource::Stdin)
    } else {
        Err(BoardError::ContentSource)
    }
}

/// Succeeds when the record was found, and reports `missing` otherwise.
pub fn ensure_found(found: bool, missing: BoardError) -> (r: Result<(), BoardError>)
    ensures
        found ==> r is Ok,
        !found ==> r == Err::<(), BoardError>(missing),
{
    if found {
        Ok(())
    } else {
        Err(missing)
    }
}

/// Succeeds when spec `spec_id` exists, and reports it missing otherwise.
pub fn ensure_spec_exists(spec_id: i64, exists: bool) -> (r: Result<(), BoardError>)
    ensures
        exists ==> r is Ok,
        !exists ==> r == Err::<(), BoardError>(BoardError::SpecNotFound(spec_id)),
{
    ensure_found(exists, BoardError::SpecNotFound(spec_id))
}

/// Whether a ticket edit is accepted: a title and a description that are not
/// blank, and definitions of done that are a JSON array.
pub open spec fn ticket_edit_error(title: Seq<char>, description: Seq<char>, dod: JsonV) -> Option<
    BoardError,
> {
    if trim(title).len() == 0 {
        Some(BoardError::EmptyTitle)
    } else if trim(description).len() == 0 {
        Some(BoardError::EmptyDescription)
    } else if !(dod is Array) {
        Some(BoardError::DodNotArray)
    } else {
        None
    }
}

/// Checks the new content of a ticket, in the order title, description,
/// definitions of done.
pub fn validate_ticket_content(title: &str, description: &str, dod: &Json) -> (r: Result<
    (),
    BoardError,
>)
    ensures
        match ticket_edit_error(title@, description@, dod@) {
            Some(e) => r == Err::<(), BoardError>(e),
            None => r is Ok,
        },
{
    if is_blank(title) {
        Err(BoardError::EmptyTitle)
    } else if is_blank(description) {
        Err(BoardError::EmptyDescription)
    } else if !dod.is_array() {
        Err(BoardError::DodNotArray)
    } else {
        Ok(())
    }
}

/// Checks the new content of a task and reads its work type: the title and
/// the objective must not be blank, the work type must be known, and the
/// acceptance criteria must be a JSON array.
pub fn validate_task_content(title: &str, work_type: &str, objective: &str, criteria: &Json) -> (r:
    Result<WorkType, BoardError>)
    ensures
        trim(title@).len() == 0 ==> r == Err::<WorkType, BoardError>(BoardError::EmptyTitle),
        trim(title@).len() != 0 && work_type_named(work_type@) is None ==> (r matches Err(
            BoardError::InvalidWorkType(t),
        ) && t@ == work_type@),
        trim(title@).len() != 0 && work_type_named(work_type@) is Some ==> r == (if trim(
            objective@,
        ).len() == 0 {
            Err::<WorkType, BoardError>(BoardError::EmptyObjective)
        } else if !(criteria@ is Array) {
            Err(BoardError::CriteriaNotArray)
        } else {
            Ok(work_type_named(work_type@)->0)
        }),
{
    if is_blank(title) {
        return Err(BoardError::EmptyTitle);
    }
    let w = match WorkType::parse(work_type) {
        Ok(w) => w,
        Err(e) => return Err(e),
    };
    if is_blank(objective) {
        Err(BoardError::EmptyObjective)
    } else if !criteria.is_array() {
        Err(BoardError::CriteriaNotArray)
    } else {
        Ok(w)
    }
}

/// The answer when no ticket matches: `{"ticket": null}`.
pub open spec fn no_ticket_value() -> JsonV {
    JsonV::Object(seq![("ticket"@, JsonV::Null)])
}

/// The answer of `next` and `needs-human`: the ticket found, or `{"ticket": null}`.
pub fn found_ticket_json(t: Option<Ticket>) -> (r: Json)
    ensures
        match t {
            Some(x) => r@ == JsonV::Object(ticket_members(x)),
            None => r@ == no_ticket_value(),
        },
{
    match t {
        Some(x) => ticket_json(x),
        None => {
            let mut m: Vec<(String, Json)> = Vec::new();
            assert(member_views(m@) =~= Seq::empty());
            push_member(&mut m, "ticket", Json::Null);
            assert(member_views(m@) =~= seq![("ticket"@, JsonV::Null)]);
            object(m)
        },
    }
}

/// The answer to adding a ticket or a task: `{"id": id}`.
pub fn created_json(id: i64) -> (r: Json)
    ensures
        r@ == JsonV::Object(seq![("id"@, JsonV::Int(id as int))]),
{
    let mut m: Vec<(String, Json)> = Vec::new();
    assert(member_views(m@) =~= Seq::empty());
    push_member(&mut m, "id", Json::Int(id));
    assert(member_views(m@) =~= seq![("id"@, JsonV::Int(id as int))]);
    object(m)
}

/// The answer to adding a spec: `{"id": id, "title": title}`.
pub fn spec_created_json(id: i64, title: &str) -> (r: Json)
    ensures
        r@ == JsonV::Object(seq![("id"@, JsonV::Int(id as int)), ("title"@, JsonV::Str(title@))]),
{
    let mut m: Vec<(String, Json)> = Vec::new();
    assert(member_views(m@) =~= Seq::empty());
    push_member(&mut m, "id", Json::Int(id));
    push_member(&mut m, "title", str_value(title));
    assert(member_views(m@) =~= seq![
        ("id"@, JsonV::Int(id as int)),
        ("title"@, JsonV::Str(title@)),
    ]);
    object(m)
}

/// The answer to `init`: `{"ok": true, "db": path}`.
pub fn init_json(db_path: &str) -> (r: Json)
    ensures
        r@ == JsonV::Object(seq![("ok"@, JsonV::Bool(true)), ("db"@, JsonV::Str(db_path@))]),
{
    let mut m: Vec<(String, Json)> = Vec::new();
    assert(member_views(m@) =~= Seq::empty());
    push_member(&mut m, "ok", Json::Bool(true));
    push_member(&mut m, "db", str_value(db_path));
    assert(member_views(m@) =~= seq![("ok"@, JsonV::Bool(true)), ("db"@, JsonV::Str(db_path@))]);
    object(m)
}

/// The answer of `spec get`: the spec's content, to be printed as it is.
pub fn raw_json(content: String) -> (r: Json)
    ensures
        r@ == JsonV::Object(seq![("__raw__"@, JsonV::Str(content@))]),
{
    let ghost c = content@;
    let mut m: Vec<(String, Json)> = Vec::new();
    assert(member_views(m@) =~= Seq::empty());
    push_member(&mut m, "__raw__", Json::Str(content));
    assert(member_views(m@) =~= seq![("__raw__"@, JsonV::Str(c))]);
    object(m)
}

/// The JSON values of `specs`, in order.
pub open spec fn spec_summary_values(specs: Seq<SpecSummary>) -> Seq<JsonV> {
    specs.map_values(|s: SpecSummary| spec_summary_value(s))
}

/// The list of specs as a JSON array, in the order given (newest first).
pub fn specs_json(specs: Vec<SpecSummary>) -> (r: Json)
    ensures
        r@ == JsonV::Array(spec_summary_values(specs@)),
{
    let ghost all = specs@;
    let mut rest = specs;
    let mut out: Vec<Json> = Vec::new();
    let ghost mut k: int = 0;
    assert(views(out@) =~= spec_summary_values(all.subrange(0, 0)));
    while rest.len() > 0
        invariant
            0 <= k <= all.len(),
            rest@ == all.subrange(k, all.len() as int),
            views(out@) == spec_summary_values(all.subrange(0, k)),
        decreases rest.len(),
    {
        let s = rest.remove(0);
        assert(s == all[k]);
        push_item(&mut out, spec_summary_json(s));
        proof {
            assert(spec_summary_values(all.subrange(0, k + 1)) =~= spec_summary_values(
                all.subrange(0, k),
            ).push(spec_summary_value(all[k])));
            k = k + 1;
        }
        assert(rest@ =~= all.subrange(k, all.len() as int));
    }
    assert(all.subrange(0, k) =~= all);
    array(out)
}

/// A spec with its tickets: `{"spec": {...}, "tickets": [...]}`, the tickets
/// without their tasks.
pub fn board_json(spec: SpecHeader, tickets: Vec<Ticket>) -> (r: Json)
    ensures
        r@ == JsonV::Object(
            seq![
                ("spec"@, spec_header_value(spec)),
                ("tickets"@, JsonV::Array(ticket_values(tickets@))),
            ],
        ),
{
    let ghost sv = spec_header_value(spec);
    let ghost tv = ticket_values(tickets@);
    let mut m: Vec<(String, Json)> = Vec::new();
    assert(member_views(m@) =~= Seq::empty());
    push_member(&mut m, "spec", spec_header_json(spec));
    push_member(&mut m, "tickets", tickets_json(tickets));
    assert(member_views(m@) =~= seq![("spec"@, sv), ("tickets"@, JsonV::Array(tv))]);
    object(m)
}

/// The error envelope: `{"ok": false, "error": message}`.
pub open spec fn error_value(message: Seq<char>) -> JsonV {
    JsonV::Object(seq![("ok"@, JsonV::Bool(false)), ("error"@, JsonV::Str(message))])
}

/// The error envelope: `{"ok": false, "error": message}`.
pub fn error_envelope(message: String) -> (r: Json)
    ensures
        r@ == error_value(message@),
{
    let ghost msg = message@;
    let mut m: Vec<(String, Json)> = Vec::new();
    assert(member_views(m@) =~= Seq::empty());
    push_member(&mut m, "ok", Json::Bool(false));
    push_member(&mut m, "error", Json::Str(message));
    assert(member_views(m@) =~= seq![("ok"@, JsonV::Bool(false)), ("error"@, JsonV::Str(msg))]);
    object(m)
}

/// How a command's answer is printed.
#[derive(Debug)]
pub enum CliOutput {
    /// The text, as it is.
    Raw(String),
    /// The value, as JSON.
    Json(Json),
}

/// How to print a command's answer: a string member `__raw__` is printed as
/// it is, any other answer as JSON.
pub fn cli_output(value: Json) -> (r: CliOutput)
    ensures
        match value@.str_field("__raw__"@) {
            Some(text) => r matches CliOutput::Raw(t) && t@ == text,
            None => r matches CliOutput::Json(j) && j@ == value@,
        },
{
    let raw = match value.str_field("__raw__") {
        Some(t) => Some(t.clone()),
        None => None,
    };
    match raw {
        Some(t) => CliOutput::Raw(t),
        None => CliOutput::Json(value),
    }
}

/// The path of the board database: `$BOARD_DB` when it is set, `board.db` otherwise.
pub fn db_path(board_db: Option<String>) -> (r: String)
    ensures
        r@ == (match board_db {
            Some(p) => p@,
            None => "board.db"@,
        }),
{
    match board_db {
        Some(p) => p,
        None => "board.db".to_owned(),
    }
}

/// Refuses a database laid out by an older board: one with a `design` table,
/// or whose `ticket` table still has an `acceptance_criteria` column.
pub fn legacy_schema_check(path: &str, has_design_table: bool, ticket_has_criteria_column: bool) -> (r:
    Result<(), BoardError>)
    ensures
        has_design_table ==> (r matches Err(BoardError::LegacyDesignSchema(p)) && p@ == path@),
        !has_design_table && ticket_has_criteria_column ==> (r matches Err(
            BoardError::LegacyTicketSchema(p),
        ) && p@ == path@),
        !has_design_table && !ticket_has_criteria_column ==> r is Ok,
{
    if has_design_table {
        Err(BoardError::LegacyDesignSchema(path.to_owned()))
    } else if ticket_has_criteria_column {
        Err(BoardError::LegacyTicketSchema(path.to_owned()))
    } else {
        Ok(())
    }
}

} // verus!
