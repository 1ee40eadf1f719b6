//! The events an agent turn reports, one JSON object per line.
use vstd::prelude::*;
use crate::json::{
    json_text, json_text_spec, lemma_members_number_texts, lemma_text_no_line_feed,
    member_views, no_line_feed, number_texts, object, push_member, Json, JsonV,
};
use std::io::Write;
use crate::models::opt_text;

verus! {

/// What happened during an agent turn.
#[derive(Debug)]
pub enum Event {
    /// The agent answered the handshake.
    Initialized { protocol_version: Json, agent_name: Option<String> },
    /// A session was opened.
    Session { session_id: String },
    /// The agent sent an update within the session.
    Update { session_id: String, update: Json },
    /// The agent asked for a permission, which the board denied.
    DeniedPermission { session_id: String, tool: Option<String> },
    /// The turn ended.
    Result { session_id: String, stop_reason: String },
}

/// An optional member: present with the string when there is one.
pub open spec fn opt_member(key: Seq<char>, s: Option<Seq<char>>) -> Seq<(Seq<char>, JsonV)> {
    match s {
        Some(t) => seq![(key, JsonV::Str(t))],
        None => Seq::empty(),
    }
}

/// The JSON object of an event: its `type` first, then its fields; an absent
/// agent name or tool is left out.
pub open spec fn event_value(e: Event) -> JsonV {
    JsonV::Object(
        match e {
            Event::Initialized { protocol_version, agent_name } => seq![
                ("type"@, JsonV::Str("initialized"@)),
                ("protocol_version"@, protocol_version@),
            ] + opt_member("agent_name"@, opt_text(agent_name)),
            Event::Session { session_id } => seq![
                ("type"@, JsonV::Str("session"@)),
                ("session_id"@, JsonV::Str(session_id@)),
            ],
            Event::Update { session_id, update } => seq![
                ("type"@, JsonV::Str("update"@)),
                ("session_id"@, JsonV::Str(session_id@)),
                ("update"@, update@),
            ],
            Event::DeniedPermission { session_id, tool } => seq![
                ("type"@, JsonV::Str("denied_permission"@)),
                ("session_id"@, JsonV::Str(session_id@)),
            ] + opt_member("tool"@, opt_text(tool)),
            Event::Result { session_id, stop_reason } => seq![
                ("type"@, JsonV::Str("result"@)),
                ("session_id"@, JsonV::Str(session_id@)),
                ("stop_reason"@, JsonV::Str(stop_reason@)),
            ],
        },
    )
}

/// The JSON object of an event, as one line of the turn's JSONL output holds it.
pub fn event_json(e: Event) -> (r: Json)
    ensures
        r@ == event_value(e),
{
    let mut m: Vec<(String, Json)> = Vec::new();
    assert(member_views(m@) =~= Seq::empty());
    match e {
        Event::Initialized { protocol_version, agent_name } => {
            let ghost pv = protocol_version@;
            let ghost an = opt_text(agent_name);
            push_member(&mut m, "type", Json::Str("initialized".to_owned()));
            push_member(&mut m, "protocol_version", protocol_version);
            match agent_name {
                Some(n) => push_member(&mut m, "agent_name", Json::Str(n)),
                None => {},
            }
            assert(member_views(m@) =~= seq![
                ("type"@, JsonV::Str("initialized"@)),
                ("protocol_version"@, pv),
            ] + opt_member("agent_name"@, an));
        },
        Event::Session { session_id } => {
            let ghost sid = session_id@;
            push_member(&mut m, "type", Json::Str("session".to_owned()));
            push_member(&mut m, "session_id", Json::Str(session_id));
            assert(member_views(m@) =~= seq![
                ("type"@, JsonV::Str("session"@)),
                ("session_id"@, JsonV::Str(sid)),
            ]);
        },
        Event::Update { session_id, update } => {
            let ghost sid = session_id@;
            let ghost uv = update@;
            push_member(&mut m, "type", Json::Str("update".to_owned()));
            push_member(&mut m, "session_id", Json::Str(session_id));
            push_member(&mut m, "update", update);
            assert(member_views(m@) =~= seq![
                ("type"@, JsonV::Str("update"@)),
                ("session_id"@, JsonV::Str(sid)),
                ("update"@, uv),
            ]);
        },
        Event::DeniedPermission { session_id, tool } => {
            let ghost sid = session_id@;
            let ghost tv = opt_text(tool);
            push_member(&mut m, "type", Json::Str("denied_permission".to_owned()));
            push_member(&mut m, "session_id", Json::Str(session_id));
            match tool {
                Some(t) => push_member(&mut m, "tool", Json::Str(t)),
                None => {},
            }
            assert(member_views(m@) =~= seq![
                ("type"@, JsonV::Str("denied_permission"@)),
                ("session_id"@, JsonV::Str(sid)),
            ] + opt_member("tool"@, tv));
        },
        Event::Result { session_id, stop_reason } => {
            let ghost sid = session_id@;
            let ghost sr = stop_reason@;
            push_member(&mut m, "type", Json::Str("result".to_owned()));
            push_member(&mut m, "session_id", Json::Str(session_id));
            push_member(&mut m, "stop_reason", Json::Str(stop_reason));
            assert(member_views(m@) =~= seq![
                ("type"@, JsonV::Str("result"@)),
                ("session_id"@, JsonV::Str(sid)),
                ("stop_reason"@, JsonV::Str(sr)),
            ]);
        },
    }
    object(m)
}

/// Where the events of an agent turn go.
pub trait EventSink {
    /// Takes one event; an error stops the turn.
    fn emit(&mut self, event: Event) -> Result<(), String>;
}

/// The line of JSONL output for an event: the compact JSON text of its object.
pub fn to_json_line(event: Event) -> (r: String)
    ensures
        r@ == json_text_spec(event_value(event)),
        event_number_texts(event) ==> no_line_feed(r@),
{
    proof {
        if event_number_texts(event) {
            lemma_line_has_no_line_feed(event);
        }
    }
    let value = event_json(event);
    json_text(&value)
}

/// Whether the numbers an event carries (in a handshake's protocol version or
/// an update) are number texts, as those that `serde_json` reads are.
pub open spec fn event_number_texts(e: Event) -> bool {
    match e {
        Event::Initialized { protocol_version, .. } => number_texts(
            protocol_version@,
        ),
        Event::Update { update, .. } => number_texts(update@),
        _ => true,
    }
}

/// Each event is one line of the output: the text of an event holds no line
/// feed when the numbers it carries are number texts; its strings are escaped.
pub proof fn lemma_line_has_no_line_feed(e: Event)
    requires
        event_number_texts(e),
    ensures
        no_line_feed(json_text_spec(event_value(e))),
{
    let v = event_value(e);
    let ms = v->Object_0;
    assert forall|i: int| 0 <= i < ms.len() implies number_texts(
        #[trigger] ms[i].1,
    ) by {
        match e {
            Event::Initialized { .. } => {
                if i >= 2 {
                    assert(ms[i].1 is Str);
                }
            },
            Event::DeniedPermission { .. } => {
                assert(ms[i].1 is Str);
            },
            Event::Update { .. } => {
                if i < 2 {
                    assert(ms[i].1 is Str);
                }
            },
            _ => {
                assert(ms[i].1 is Str);
            },
        }
    }
    lemma_members_number_texts(ms);
    lemma_text_no_line_feed(v);
}

/// `writeln!` on `std::io::stdout()`: writes `line` and a newline to standard
/// output. Whether the write succeeds depends on where the output goes, so
/// nothing is promised of the result.
#[verifier::external_body]
fn write_stdout_line(line: &str) -> (r: Result<(), String>) {
    match writeln!(std::io::stdout(), "{}", line) {
        Ok(()) => Ok(()),
        Err(e) => Err(e.to_string()),
    }
}

/// A sink that writes each event as one line of JSON on standard output.
pub struct JsonlStdoutSink;

impl EventSink for JsonlStdoutSink {
    fn emit(&mut self, event: Event) -> (r: Result<(), String>) {
        let line = to_json_line(event);
        write_stdout_line(line.as_str())
    }
}

/// A sink that keeps the events in order.
pub struct VecSink(pub Vec<Event>);

impl EventSink for VecSink {
    fn emit(&mut self, event: Event) -> (r: Result<(), String>)
        ensures
            final(self).0@ == old(self).0@.push(event),
            r is Ok,
    {
        self.0.push(event);
        Ok(())
    }
}

} // verus!
