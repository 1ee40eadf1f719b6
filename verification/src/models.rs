//! Ticket statuses, task work types, and the rows the board keeps.
use vstd::prelude::*;
use crate::error::BoardError;
use crate::json::{
    lemma_lookup_at, lookup, array, member_views, object, opt_string_json, opt_string_value, push_item, push_member, views,
    Json, JsonV,
};
use crate::text::str_eq;

verus! {

/// Where a ticket stands: queued, implementing, verifying, done, or needs_human.
#[derive(Debug, Clone, Copy, PartialEq, Eq, Structural)]
pub enum Status {
    Queued,
    Implementing,
    Verifying,
    Done,
    NeedsHuman,
}

/// The status named by `s`, if any.
pub open spec fn status_named(s: Seq<char>) -> Option<Status> {
    if s == "queued"@ {
        Some(Status::Queued)
    } else if s == "implementing"@ {
        Some(Status::Implementing)
    } else if s == "verifying"@ {
        Some(Status::Verifying)
    } else if s == "done"@ {
        Some(Status::Done)
    } else if s == "needs_human"@ {
        Some(Status::NeedsHuman)
    } else {
        None
    }
}

impl Status {
    /// The name the board stores and prints for the status.
    pub open spec fn name(self) -> Seq<char> {
        match self {
            Status::Queued => "queued"@,
            Status::Implementing => "implementing"@,
            Status::Verifying => "verifying"@,
            Status::Done => "done"@,
            Status::NeedsHuman => "needs_human"@,
        }
    }

    /// The name the board stores and prints for the status.
    pub fn as_str(self) -> (r: &'static str)
        ensures
            r@ == self.name(),
    {
        match self {
            Status::Queued => "queued",
            Status::Implementing => "implementing",
            Status::Verifying => "verifying",
            Status::Done => "done",
            Status::NeedsHuman => "needs_human",
        }
    }

    /// The status named by `s`; any other text is an invalid status.
    pub fn parse(s: &str) -> (r: Result<Status, BoardError>)
        ensures
            match status_named(s@) {
                Some(st) => r == Ok::<Status, BoardError>(st),
                None => r matches Err(BoardError::InvalidStatus(t)) && t@ == s@,
            },
    {
        if str_eq(s, "queued") {
            Ok(Status::Queued)
        } else if str_eq(s, "implementing") {
            Ok(Status::Implementing)
        } else if str_eq(s, "verifying") {
            Ok(Status::Verifying)
        } else if str_eq(s, "done") {
            Ok(Status::Done)
        } else if str_eq(s, "needs_human") {
            Ok(Status::NeedsHuman)
        } else {
            Err(BoardError::InvalidStatus(s.to_owned()))
        }
    }
}

impl std::str::FromStr for Status {
    type Err = BoardError;

    fn from_str(s: &str) -> (r: Result<Status, BoardError>)
        ensures
            match status_named(s@) {
                Some(st) => r == Ok::<Status, BoardError>(st),
                None => r matches Err(BoardError::InvalidStatus(t)) && t@ == s@,
            },
    {
        Status::parse(s)
    }
}

/// The kind of work a task asks for.
#[derive(Debug, Clone, Copy, PartialEq, Eq, Structural)]
pub enum WorkType {
    CodeImplementation,
    Investigation,
    Documentation,
    Design,
}

/// The work type named by `s`, if any.
pub open spec fn work_type_named(s: Seq<char>) -> Option<WorkType> {
    if s == "code_implementation"@ {
        Some(WorkType::CodeImplementation)
    } else if s == "investigation"@ {
        Some(WorkType::Investigation)
    } else if s == "documentation"@ {
        Some(WorkType::Documentation)
    } else if s == "design"@ {
        Some(WorkType::Design)
    } else {
        None
    }
}

impl WorkType {
    /// The name the board stores and prints for the work type.
    pub open spec fn name(self) -> Seq<char> {
        match self {
            WorkType::CodeImplementation => "code_implementation"@,
            WorkType::Investigation => "investigation"@,
            WorkType::Documentation => "documentation"@,
            WorkType::Design => "design"@,
        }
    }

    /// The name the board stores and prints for the work type.
    pub fn as_str(self) -> (r: &'static str)
        ensures
            r@ == self.name(),
    {
        match self {
            WorkType::CodeImplementation => "code_implementation",
            WorkType::Investigation => "investigation",
            WorkType::Documentation => "documentation",
            WorkType::Design => "design",
        }
    }

    /// The work type named by `s`; any other text is an invalid work type.
    pub fn parse(s: &str) -> (r: Result<WorkType, BoardError>)
        ensures
            match work_type_named(s@) {
                Some(w) => r == Ok::<WorkType, BoardError>(w),
                None => r matches Err(BoardError::InvalidWorkType(t)) && t@ == s@,
            },
    {
        if str_eq(s, "code_implementation") {
            Ok(WorkType::CodeImplementation)
        } else if str_eq(s, "investigation") {
            Ok(WorkType::Investigation)
        } else if str_eq(s, "documentation") {
            Ok(WorkType::Documentation)
        } else if str_eq(s, "design") {
            Ok(WorkType::Design)
        } else {
            Err(BoardError::InvalidWorkType(s.to_owned()))
        }
    }
}

impl std::str::FromStr for WorkType {
    type Err = BoardError;

    fn from_str(s: &str) -> (r: Result<WorkType, BoardError>)
        ensures
            match work_type_named(s@) {
                Some(w) => r == Ok::<WorkType, BoardError>(w),
                None => r matches Err(BoardError::InvalidWorkType(t)) && t@ == s@,
            },
    {
        WorkType::parse(s)
    }
}

/// A ticket as the board stores it: a smaller PRD with prose definitions of done.
#[derive(Debug)]
pub struct Ticket {
    pub id: i64,
    pub spec_id: i64,
    pub title: String,
    pub description: String,
    pub definitions_of_done: Json,
    pub status: String,
    pub attempts: i64,
    pub human_context: Option<String>,
}

/// A task under a ticket: an atomic deliverable with machine-checkable
/// acceptance criteria.
#[derive(Debug)]
pub struct Task {
    pub id: i64,
    pub ticket_id: i64,
    pub title: String,
    pub work_type: String,
    pub objective: String,
    pub acceptance_criteria: Json,
    pub context: String,
}

/// A spec with its content.
pub struct SpecRecord {
    pub id: i64,
    pub title: String,
    pub status: String,
    pub content: String,
}

/// A spec as the list of specs shows it.
pub struct SpecSummary {
    pub id: i64,
    pub title: String,
    pub status: String,
    pub created_at: String,
}

/// A spec as the board shows it above its tickets.
pub struct SpecHeader {
    pub id: i64,
    pub title: String,
    pub status: String,
}

/// The view of an optional string.
pub open spec fn opt_text(o: Option<String>) -> Option<Seq<char>> {
    match o {
        Some(s) => Some(s@),
        None => None,
    }
}

/// The members of a ticket's JSON object, in order.
pub open spec fn ticket_members(t: Ticket) -> Seq<(Seq<char>, JsonV)> {
    Seq::empty().push(("id"@, JsonV::Int(t.id as int))).push(
        ("spec_id"@, JsonV::Int(t.spec_id as int)),
    ).push(("title"@, JsonV::Str(t.title@))).push(
        ("description"@, JsonV::Str(t.description@)),
    ).push(("definitions_of_done"@, t.definitions_of_done@)).push(
        ("status"@, JsonV::Str(t.status@)),
    ).push(("attempts"@, JsonV::Int(t.attempts as int))).push(
        ("human_context"@, opt_string_value(opt_text(t.human_context))),
    )
}

/// The members of a task's JSON object, in order.
pub open spec fn task_members(t: Task) -> Seq<(Seq<char>, JsonV)> {
    Seq::empty().push(("id"@, JsonV::Int(t.id as int))).push(
        ("ticket_id"@, JsonV::Int(t.ticket_id as int)),
    ).push(("title"@, JsonV::Str(t.title@))).push(("work_type"@, JsonV::Str(t.work_type@))).push(
        ("objective"@, JsonV::Str(t.objective@)),
    ).push(("acceptance_criteria"@, t.acceptance_criteria@)).push(
        ("context"@, JsonV::Str(t.context@)),
    )
}

/// The JSON object of a ticket carries the ticket's own fields under their
/// names: its ids, title, description, definitions of done, status and
/// attempts, and its human context or `null`.
pub proof fn lemma_ticket_json_fields(t: Ticket)
    ensures
        ({
            let v = JsonV::Object(ticket_members(t));
            &&& v.int_field("id"@) == Some(t.id as int)
            &&& v.int_field("spec_id"@) == Some(t.spec_id as int)
            &&& v.str_field("title"@) == Some(t.title@)
            &&& v.str_field("description"@) == Some(t.description@)
            &&& v.get("definitions_of_done"@) == Some(t.definitions_of_done@)
            &&& v.str_field("status"@) == Some(t.status@)
            &&& v.int_field("attempts"@) == Some(t.attempts as int)
            &&& v.get("human_context"@) == Some(
                match t.human_context {
                    Some(c) => JsonV::Str(c@),
                    None => JsonV::Null,
                },
            )
        }),
{
    reveal_strlit("id");
    reveal_strlit("spec_id");
    reveal_strlit("title");
    reveal_strlit("description");
    reveal_strlit("definitions_of_done");
    reveal_strlit("status");
    reveal_strlit("attempts");
    reveal_strlit("human_context");
    let m = ticket_members(t);
    let keys = seq![
        "id"@,
        "spec_id"@,
        "title"@,
        "description"@,
        "definitions_of_done"@,
        "status"@,
        "attempts"@,
        "human_context"@,
    ];
    assert(m.len() == 8);
    assert forall|k: int| 0 <= k < 8 implies #[trigger] m[k].0 == keys[k] by {}
    assert forall|i: int, k: int| 0 <= k < i < 8 implies #[trigger] keys[k] != #[trigger] keys[i] by {
        assert(keys[k].len() != keys[i].len() || keys[k][0] != keys[i][0]);
    }
    assert forall|i: int| 0 <= i < 8 implies lookup(m, #[trigger] keys[i]) == Some(m[i].1) by {
        assert forall|k: int| 0 <= k < i implies m[k].0 != keys[i] by {
            assert(keys[k] != keys[i]);
        }
        lemma_lookup_at(m, keys[i], i);
    }
    assert(lookup(m, keys[0]) == Some(m[0].1));
    assert(lookup(m, keys[1]) == Some(m[1].1));
    assert(lookup(m, keys[2]) == Some(m[2].1));
    assert(lookup(m, keys[3]) == Some(m[3].1));
    assert(lookup(m, keys[4]) == Some(m[4].1));
    assert(lookup(m, keys[5]) == Some(m[5].1));
    assert(lookup(m, keys[6]) == Some(m[6].1));
    assert(lookup(m, keys[7]) == Some(m[7].1));
}

/// The JSON object of a task carries the task's own fields under their names:
/// its ids, title, work type, objective, acceptance criteria and context.
pub proof fn lemma_task_json_fields(t: Task)
    ensures
        ({
            let v = JsonV::Object(task_members(t));
            &&& v.int_field("id"@) == Some(t.id as int)
            &&& v.int_field("ticket_id"@) == Some(t.ticket_id as int)
            &&& v.str_field("title"@) == Some(t.title@)
            &&& v.str_field("work_type"@) == Some(t.work_type@)
            &&& v.str_field("objective"@) == Some(t.objective@)
            &&& v.get("acceptance_criteria"@) == Some(t.acceptance_criteria@)
            &&& v.str_field("context"@) == Some(t.context@)
        }),
{
    reveal_strlit("id");
    reveal_strlit("ticket_id");
    reveal_strlit("title");
    reveal_strlit("work_type");
    reveal_strlit("objective");
    reveal_strlit("acceptance_criteria");
    reveal_strlit("context");
    let m = task_members(t);
    let keys = seq![
        "id"@,
        "ticket_id"@,
        "title"@,
        "work_type"@,
        "objective"@,
        "acceptance_criteria"@,
        "context"@,
    ];
    assert(m.len() == 7);
    assert forall|k: int| 0 <= k < 7 implies #[trigger] m[k].0 == keys[k] by {}
    assert forall|i: int, k: int| 0 <= k < i < 7 implies #[trigger] keys[k] != #[trigger] keys[i] by {
        assert(keys[k].len() != keys[i].len() || keys[k][0] != keys[i][0]);
    }
    assert forall|i: int| 0 <= i < 7 implies lookup(m, #[trigger] keys[i]) == Some(m[i].1) by {
        assert forall|k: int| 0 <= k < i implies m[k].0 != keys[i] by {
            assert(keys[k] != keys[i]);
        }
        lemma_lookup_at(m, keys[i], i);
    }
    assert(lookup(m, keys[0]) == Some(m[0].1));
    assert(lookup(m, keys[1]) == Some(m[1].1));
    assert(lookup(m, keys[2]) == Some(m[2].1));
    assert(lookup(m, keys[3]) == Some(m[3].1));
    assert(lookup(m, keys[4]) == Some(m[4].1));
    assert(lookup(m, keys[5]) == Some(m[5].1));
    assert(lookup(m, keys[6]) == Some(m[6].1));
}

/// The JSON values of `tasks`, in order.
pub open spec fn task_values(tasks: Seq<Task>) -> Seq<JsonV> {
    tasks.map_values(|t: Task| JsonV::Object(task_members(t)))
}

/// The JSON values of `tickets`, in order, without their tasks.
pub open spec fn ticket_values(tickets: Seq<Ticket>) -> Seq<JsonV> {
    tickets.map_values(|t: Ticket| JsonV::Object(ticket_members(t)))
}

/// The JSON object of a spec with its content.
pub open spec fn spec_record_value(s: SpecRecord) -> JsonV {
    JsonV::Object(
        Seq::empty().push(("id"@, JsonV::Int(s.id as int))).push(
            ("title"@, JsonV::Str(s.title@)),
        ).push(("status"@, JsonV::Str(s.status@))).push(("content"@, JsonV::Str(s.content@))),
    )
}

/// The JSON object of a spec in the list of specs.
pub open spec fn spec_summary_value(s: SpecSummary) -> JsonV {
    JsonV::Object(
        Seq::empty().push(("id"@, JsonV::Int(s.id as int))).push(
            ("title"@, JsonV::Str(s.title@)),
        ).push(("status"@, JsonV::Str(s.status@))).push(
            ("created_at"@, JsonV::Str(s.created_at@)),
        ),
    )
}

/// The JSON object of a spec above its tickets.
pub open spec fn spec_header_value(s: SpecHeader) -> JsonV {
    JsonV::Object(
        Seq::empty().push(("id"@, JsonV::Int(s.id as int))).push(
            ("title"@, JsonV::Str(s.title@)),
        ).push(("status"@, JsonV::Str(s.status@))),
    )
}

/// The members of a ticket's JSON object.
fn ticket_member_list(t: Ticket) -> (r: Vec<(String, Json)>)
    ensures
        member_views(r@) == ticket_members(t),
{
    let Ticket {
        id,
        spec_id,
        title,
        description,
        definitions_of_done,
        status,
        attempts,
        human_context,
    } = t;
    let mut m: Vec<(String, Json)> = Vec::new();
    assert(member_views(m@) =~= Seq::empty());
    push_member(&mut m, "id", Json::Int(id));
    push_member(&mut m, "spec_id", Json::Int(spec_id));
    push_member(&mut m, "title", Json::Str(title));
    push_member(&mut m, "description", Json::Str(description));
    push_member(&mut m, "definitions_of_done", definitions_of_done);
    push_member(&mut m, "status", Json::Str(status));
    push_member(&mut m, "attempts", Json::Int(attempts));
    push_member(&mut m, "human_context", opt_string_json(human_context));
    m
}

/// A ticket as JSON, without its tasks (the form lists and the board use).
pub fn ticket_json(t: Ticket) -> (r: Json)
    ensures
        r@ == JsonV::Object(ticket_members(t)),
        r@.int_field("id"@) == Some(t.id as int),
        r@.int_field("spec_id"@) == Some(t.spec_id as int),
        r@.str_field("title"@) == Some(t.title@),
        r@.str_field("description"@) == Some(t.description@),
        r@.get("definitions_of_done"@) == Some(t.definitions_of_done@),
        r@.str_field("status"@) == Some(t.status@),
        r@.int_field("attempts"@) == Some(t.attempts as int),
        r@.get("human_context"@) == Some(
            match t.human_context {
                Some(c) => JsonV::Str(c@),
                None => JsonV::Null,
            },
        ),
{
    proof {
        lemma_ticket_json_fields(t);
    }
    object(ticket_member_list(t))
}

/// A ticket as JSON with its tasks nested under `tasks` (the form `ticket show` uses).
pub fn ticket_json_with_tasks(t: Ticket, tasks: Vec<Task>) -> (r: Json)
    ensures
        r@ == JsonV::Object(
            ticket_members(t).push(("tasks"@, JsonV::Array(task_values(tasks@)))),
        ),
{
    let mut m = ticket_member_list(t);
    push_member(&mut m, "tasks", tasks_json(tasks));
    object(m)
}

/// A task as JSON.
pub fn task_json(t: Task) -> (r: Json)
    ensures
        r@ == JsonV::Object(task_members(t)),
        r@.int_field("id"@) == Some(t.id as int),
        r@.int_field("ticket_id"@) == Some(t.ticket_id as int),
        r@.str_field("title"@) == Some(t.title@),
        r@.str_field("work_type"@) == Some(t.work_type@),
        r@.str_field("objective"@) == Some(t.objective@),
        r@.get("acceptance_criteria"@) == Some(t.acceptance_criteria@),
        r@.str_field("context"@) == Some(t.context@),
{
    proof {
        lemma_task_json_fields(t);
    }
    let Task { id, ticket_id, title, work_type, objective, acceptance_criteria, context } = t;
    let mut m: Vec<(String, Json)> = Vec::new();
    assert(member_views(m@) =~= Seq::empty());
    push_member(&mut m, "id", Json::Int(id));
    push_member(&mut m, "ticket_id", Json::Int(ticket_id));
    push_member(&mut m, "title", Json::Str(title));
    push_member(&mut m, "work_type", Json::Str(work_type));
    push_member(&mut m, "objective", Json::Str(objective));
    push_member(&mut m, "acceptance_criteria", acceptance_criteria);
    push_member(&mut m, "context", Json::Str(context));
    object(m)
}

/// Tasks as a JSON array, in order.
pub fn tasks_json(tasks: Vec<Task>) -> (r: Json)
    ensures
        r@ == JsonV::Array(task_values(tasks@)),
{
    let ghost all = tasks@;
    let mut rest = tasks;
    let mut out: Vec<Json> = Vec::new();
    let ghost mut k: int = 0;
    assert(views(out@) =~= task_values(all.subrange(0, 0)));
    while rest.len() > 0
        invariant
            0 <= k <= all.len(),
            rest@ == all.subrange(k, all.len() as int),
            views(out@) == task_values(all.subrange(0, k)),
        decreases rest.len(),
    {
        let t = rest.remove(0);
        assert(t == all[k]);
        push_item(&mut out, task_json(t));
        proof {
            assert(task_values(all.subrange(0, k + 1)) =~= task_values(all.subrange(0, k)).push(
                JsonV::Object(task_members(all[k])),
            ));
            k = k + 1;
        }
        assert(rest@ =~= all.subrange(k, all.len() as int));
    }
    assert(all.subrange(0, k) =~= all);
    array(out)
}

/// Tickets as a JSON array, in order, without their tasks.
pub fn tickets_json(tickets: Vec<Ticket>) -> (r: Json)
    ensures
        r@ == JsonV::Array(ticket_values(tickets@)),
{
    let ghost all = tickets@;
    let mut rest = tickets;
    let mut out: Vec<Json> = Vec::new();
    let ghost mut k: int = 0;
    assert(views(out@) =~= ticket_values(all.subrange(0, 0)));
    while rest.len() > 0
        invariant
            0 <= k <= all.len(),
            rest@ == all.subrange(k, all.len() as int),
            views(out@) == ticket_values(all.subrange(0, k)),
        decreases rest.len(),
    {
        let t = rest.remove(0);
        assert(t == all[k]);
        push_item(&mut out, ticket_json(t));
        proof {
            assert(ticket_values(all.subrange(0, k + 1)) =~= ticket_values(
                all.subrange(0, k),
            ).push(JsonV::Object(ticket_members(all[k]))));
            k = k + 1;
        }
        assert(rest@ =~= all.subrange(k, all.len() as int));
    }
    assert(all.subrange(0, k) =~= all);
    array(out)
}

/// A spec with its content as JSON.
pub fn spec_json(s: SpecRecord) -> (r: Json)
    ensures
        r@ == spec_record_value(s),
{
    let SpecRecord { id, title, status, content } = s;
    let mut m: Vec<(String, Json)> = Vec::new();
    assert(member_views(m@) =~= Seq::empty());
    push_member(&mut m, "id", Json::Int(id));
    push_member(&mut m, "title", Json::Str(title));
    push_member(&mut m, "status", Json::Str(status));
    push_member(&mut m, "content", Json::Str(content));
    object(m)
}

/// A spec of the list of specs as JSON.
pub fn spec_summary_json(s: SpecSummary) -> (r: Json)
    ensures
        r@ == spec_summary_value(s),
{
    let SpecSummary { id, title, status, created_at } = s;
    let mut m: Vec<(String, Json)> = Vec::new();
    assert(member_views(m@) =~= Seq::empty());
    push_member(&mut m, "id", Json::Int(id));
    push_member(&mut m, "title", Json::Str(title));
    push_member(&mut m, "status", Json::Str(status));
    push_member(&mut m, "created_at", Json::Str(created_at));
    object(m)
}

/// A spec above its tickets as JSON.
pub fn spec_header_json(s: SpecHeader) -> (r: Json)
    ensures
        r@ == spec_header_value(s),
{
    let SpecHeader { id, title, status } = s;
    let mut m: Vec<(String, Json)> = Vec::new();
    assert(member_views(m@) =~= Seq::empty());
    push_member(&mut m, "id", Json::Int(id));
    push_member(&mut m, "title", Json::Str(title));
    push_member(&mut m, "status", Json::Str(status));
    object(m)
}

/// Reading a status's name gives the status back.
pub proof fn lemma_status_name_parses(st: Status)
    ensures
        status_named(st.name()) == Some(st),
{
    reveal_strlit("queued");
    reveal_strlit("implementing");
    reveal_strlit("verifying");
    reveal_strlit("done");
    reveal_strlit("needs_human");
    assert("queued"@.len() == 6);
    assert("implementing"@.len() == 12);
    assert("verifying"@.len() == 9);
    assert("done"@.len() == 4);
    assert("needs_human"@.len() == 11);
}

/// Only a status's own name reads as that status.
pub proof fn lemma_status_named_is_name(s: Seq<char>)
    ensures
        status_named(s) matches Some(st) ==> st.name() == s,
{
}

/// Reading a work type's name gives the work type back.
pub proof fn lemma_work_type_name_parses(w: WorkType)
    ensures
        work_type_named(w.name()) == Some(w),
{
    reveal_strlit("code_implementation");
    reveal_strlit("investigation");
    reveal_strlit("documentation");
    reveal_strlit("design");
    assert("code_implementation"@.len() == 19);
    assert("investigation"@.len() == 13);
    assert("documentation"@.len() == 13);
    assert("design"@.len() == 6);
    assert("investigation"@[0] != "documentation"@[0]);
}

/// Only a work type's own name reads as that work type.
pub proof fn lemma_work_type_named_is_name(s: Seq<char>)
    ensures
        work_type_named(s) matches Some(w) ==> w.name() == s,
{
}

} // verus!
