//! The course of one agent turn. The handshake and the session are reported
//! as they happen; the agent's updates and the permissions it asks for are
//! held back while the prompt runs, and reported, in the order they came,
//! just before the turn's result.
use vstd::prelude::*;
use crate::agent::{
    choose_permission, first_reject, stop_reason_name, stop_reason_str, PermissionOption,
    PermissionOutcome, StopReason,
};
use crate::event::Event;
use crate::json::Json;

verus! {

/// What an agent turn has to report so far.
pub struct Turn {
    /// Events that are ready to be reported, in order.
    pub reported: Vec<Event>,
    /// Events that arrived while the prompt runs, in the order they came.
    pub pending: Vec<Event>,
}

impl Turn {
    /// A turn that has nothing to report yet.
    pub fn new() -> (r: Turn)
        ensures
            r.reported@ == Seq::<Event>::empty(),
            r.pending@ == Seq::<Event>::empty(),
    {
        Turn { reported: Vec::new(), pending: Vec::new() }
    }

    /// The agent answered the handshake: that is reported at once.
    pub fn initialized(&mut self, protocol_version: Json, agent_name: Option<String>)
        ensures
            final(self).reported@ == old(self).reported@.push(
                Event::Initialized { protocol_version, agent_name },
            ),
            final(self).pending@ == old(self).pending@,
    {
        self.reported.push(Event::Initialized { protocol_version, agent_name });
    }

    /// A session was opened: that is reported at once.
    pub fn session_opened(&mut self, session_id: String)
        ensures
            final(self).reported@ == old(self).reported@.push(Event::Session { session_id }),
            final(self).pending@ == old(self).pending@,
    {
        self.reported.push(Event::Session { session_id });
    }

    /// The agent sent an update: it is held back until the prompt returns.
    pub fn update(&mut self, session_id: String, update: Json)
        ensures
            final(self).reported@ == old(self).reported@,
            final(self).pending@ == old(self).pending@.push(Event::Update { session_id, update }),
    {
        self.pending.push(Event::Update { session_id, update });
    }

    /// The agent asked for a permission: the denial is held back until the
    /// prompt returns, and the answer picks the first option that rejects,
    /// or cancels the request when none does.
    pub fn permission_requested(
        &mut self,
        session_id: String,
        tool: Option<String>,
        options: &Vec<PermissionOption>,
    ) -> (r: PermissionOutcome)
        ensures
            final(self).reported@ == old(self).reported@,
            final(self).pending@ == old(self).pending@.push(
                Event::DeniedPermission { session_id, tool },
            ),
            match first_reject(options@) {
                Some(i) => r matches PermissionOutcome::Selected(id) && id@
                    == options@[i].option_id@,
                None => r is Cancelled,
            },
    {
        self.pending.push(Event::DeniedPermission { session_id, tool });
        choose_permission(options)
    }

    /// The prompt returned: what was held back is reported in the order it
    /// came, then the result of the turn.
    pub fn finished(&mut self, session_id: String, reason: StopReason)
        ensures
            final(self).pending@ == Seq::<Event>::empty(),
            final(self).reported@.len() == old(self).reported@.len() + old(self).pending@.len() + 1,
            final(self).reported@.take((old(self).reported@.len() + old(self).pending@.len()) as int)
                == old(self).reported@ + old(self).pending@,
            final(self).reported@.last() matches Event::Result { session_id: sid, stop_reason }
                && sid == session_id && stop_reason@ == stop_reason_name(reason),
    {
        let ghost before = self.reported@ + self.pending@;
        self.reported.append(&mut self.pending);
        assert(self.reported@ == before);
        let stop_reason = stop_reason_str(reason);
        self.reported.push(Event::Result { session_id, stop_reason });
        assert(self.reported@.take(before.len() as int) =~= before);
    }
}

} // verus!
