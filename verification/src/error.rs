//! The errors that board commands and the board's HTTP API report.
use vstd::prelude::*;
use crate::text::{concat, concat3, i64_text, int_text};

verus! {

/// Why a board command or an API request was refused.
#[derive(Debug)]
pub enum BoardError {
    SpecNotFound(i64),
    TicketNotFound(i64),
    TaskNotFound(i64),
    NoTicketWithId(i64),
    InvalidStatus(String),
    InvalidWorkType(String),
    EmptyTitle,
    EmptyDescription,
    EmptyObjective,
    DodNotArray,
    CriteriaNotArray,
    ContentSource,
    ArgNotJson { arg: JsonArg, detail: String },
    ArgNotArray(JsonArg),
    LegacyDesignSchema(String),
    LegacyTicketSchema(String),
    RouteNotFound,
    MissingSpecIdQuery,
    MissingTicketIdQuery,
    InvalidId(IdLabel),
}

/// A command-line flag that carries a JSON array.
#[derive(Debug, Clone, Copy, PartialEq, Eq, Structural)]
pub enum JsonArg {
    /// `--dod`: a ticket's definitions of done.
    Dod,
    /// `--criteria`: a task's acceptance criteria.
    Criteria,
}

impl JsonArg {
    /// The flag as written on the command line.
    pub open spec fn flag(self) -> Seq<char> {
        match self {
            JsonArg::Dod => "--dod"@,
            JsonArg::Criteria => "--criteria"@,
        }
    }

    /// What the flag's array holds, in words.
    pub open spec fn holds(self) -> Seq<char> {
        match self {
            JsonArg::Dod => "definitions of done"@,
            JsonArg::Criteria => "command strings"@,
        }
    }

    /// The flag as written on the command line.
    pub fn flag_str(self) -> (r: &'static str)
        ensures
            r@ == self.flag(),
    {
        match self {
            JsonArg::Dod => "--dod",
            JsonArg::Criteria => "--criteria",
        }
    }

    /// What the flag's array holds, in words.
    pub fn holds_str(self) -> (r: &'static str)
        ensures
            r@ == self.holds(),
    {
        match self {
            JsonArg::Dod => "definitions of done",
            JsonArg::Criteria => "command strings",
        }
    }
}

/// What kind of record an id in a request path names.
#[derive(Debug, Clone, Copy, PartialEq, Eq, Structural)]
pub enum IdLabel {
    Task,
    Ticket,
    Spec,
}

impl IdLabel {
    /// The word for the record in messages.
    pub open spec fn word(self) -> Seq<char> {
        match self {
            IdLabel::Task => "task"@,
            IdLabel::Ticket => "ticket"@,
            IdLabel::Spec => "spec"@,
        }
    }

    /// The word for the record in messages.
    pub fn as_str(self) -> (r: &'static str)
        ensures
            r@ == self.word(),
    {
        match self {
            IdLabel::Task => "task",
            IdLabel::Ticket => "ticket",
            IdLabel::Spec => "spec",
        }
    }
}

impl BoardError {
    /// The text of the error as the board prints it.
    pub open spec fn message_spec(self) -> Seq<char> {
        match self {
            BoardError::SpecNotFound(id) => "spec "@ + int_text(id as int) + " not found"@,
            BoardError::TicketNotFound(id) => "ticket "@ + int_text(id as int) + " not found"@,
            BoardError::TaskNotFound(id) => "task "@ + int_text(id as int) + " not found"@,
            BoardError::NoTicketWithId(id) => "no ticket with id "@ + int_text(id as int),
            BoardError::InvalidStatus(s) => "invalid status: "@ + s@,
            BoardError::InvalidWorkType(s) => "invalid work type: "@ + s@,
            BoardError::EmptyTitle => "title must not be empty"@,
            BoardError::EmptyDescription => "description must not be empty"@,
            BoardError::EmptyObjective => "objective must not be empty"@,
            BoardError::DodNotArray => "definitions_of_done must be a JSON array"@,
            BoardError::CriteriaNotArray => "acceptance_criteria must be a JSON array"@,
            BoardError::ContentSource => "provide exactly one of --file or --stdin"@,
            BoardError::ArgNotJson { arg, detail } => arg.flag() + " is not valid JSON: "@ + detail@,
            BoardError::ArgNotArray(arg) => arg.flag() + " must be a JSON array of "@ + arg.holds(),
            BoardError::LegacyDesignSchema(path) => "legacy design schema detected at "@ + path@
                + "; recreate the board database"@,
            BoardError::LegacyTicketSchema(path) => "legacy ticket.acceptance_criteria schema detected at "@
                + path@ + "; recreate the board database"@,
            BoardError::RouteNotFound => "not found"@,
            BoardError::MissingSpecIdQuery => "missing ?spec_id=<id>"@,
            BoardError::MissingTicketIdQuery => "missing ?ticket_id=<id>"@,
            BoardError::InvalidId(label) => "invalid "@ + label.word() + " id"@,
        }
    }

    /// Whether the error reports a spec, ticket, task or route that does not exist.
    pub open spec fn is_not_found(self) -> bool {
        ||| self is SpecNotFound
        ||| self is TicketNotFound
        ||| self is TaskNotFound
        ||| self is RouteNotFound
    }

    /// The text of the error as the board prints it.
    pub fn message(&self) -> (r: String)
        ensures
            r@ == self.message_spec(),
    {
        match self {
            BoardError::SpecNotFound(id) => {
                let n = i64_text(*id);
                concat3("spec ", n.as_str(), " not found")
            },
            BoardError::TicketNotFound(id) => {
                let n = i64_text(*id);
                concat3("ticket ", n.as_str(), " not found")
            },
            BoardError::TaskNotFound(id) => {
                let n = i64_text(*id);
                concat3("task ", n.as_str(), " not found")
            },
            BoardError::NoTicketWithId(id) => {
                let n = i64_text(*id);
                concat("no ticket with id ", n.as_str())
            },
            BoardError::InvalidStatus(s) => concat("invalid status: ", s.as_str()),
            BoardError::InvalidWorkType(s) => concat("invalid work type: ", s.as_str()),
            BoardError::EmptyTitle => "title must not be empty".to_owned(),
            BoardError::EmptyDescription => "description must not be empty".to_owned(),
            BoardError::EmptyObjective => "objective must not be empty".to_owned(),
            BoardError::DodNotArray => "definitions_of_done must be a JSON array".to_owned(),
            BoardError::CriteriaNotArray => "acceptance_criteria must be a JSON array".to_owned(),
            BoardError::ContentSource => "provide exactly one of --file or --stdin".to_owned(),
            BoardError::ArgNotJson { arg, detail } => concat3(
                arg.flag_str(),
                " is not valid JSON: ",
                detail.as_str(),
            ),
            BoardError::ArgNotArray(arg) => concat3(
                arg.flag_str(),
                " must be a JSON array of ",
                arg.holds_str(),
            ),
            BoardError::LegacyDesignSchema(path) => concat3(
                "legacy design schema detected at ",
                path.as_str(),
                "; recreate the board database",
            ),
            BoardError::LegacyTicketSchema(path) => concat3(
                "legacy ticket.acceptance_criteria schema detected at ",
                path.as_str(),
                "; recreate the board database",
            ),
            BoardError::RouteNotFound => "not found".to_owned(),
            BoardError::MissingSpecIdQuery => "missing ?spec_id=<id>".to_owned(),
            BoardError::MissingTicketIdQuery => "missing ?ticket_id=<id>".to_owned(),
            BoardError::InvalidId(label) => concat3("invalid ", label.as_str(), " id"),
        }
    }
}

} // verus!
