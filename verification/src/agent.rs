//! Decisions of an agent turn: which errors mean the agent process went away,
//! how a stop reason is named, and which answer a permission request gets.
use vstd::prelude::*;
use crate::text::{ascii_lower, chars_of, concat, contains_seq, seq_contains, to_ascii_lower};

verus! {

/// Whether an error message says that the agent process went away: after
/// ASCII lower-casing it mentions a broken pipe, a closed connection, a
/// connection reset, an end of file, or a shut down.
pub open spec fn is_exit_message(msg: Seq<char>) -> bool {
    let lower = ascii_lower(msg);
    ||| contains_seq(lower, "broken pipe"@)
    ||| contains_seq(lower, "closed"@)
    ||| contains_seq(lower, "connection reset"@)
    ||| contains_seq(lower, "eof"@)
    ||| contains_seq(lower, "shut down"@)
    ||| contains_seq(lower, "server shut down unexpectedly"@)
}

fn mentions(lower: &Vec<char>, word: &str) -> (r: bool)
    ensures
        r == contains_seq(lower@, word@),
{
    let w = chars_of(word);
    seq_contains(lower, &w)
}

/// Whether an error message says that the agent process went away.
pub fn is_agent_process_exit(msg: &str) -> (r: bool)
    ensures
        r == is_exit_message(msg@),
{
    let chars = chars_of(msg);
    let lower = to_ascii_lower(&chars);
    mentions(&lower, "broken pipe") || mentions(&lower, "closed") || mentions(
        &lower,
        "connection reset",
    ) || mentions(&lower, "eof") || mentions(&lower, "shut down") || mentions(
        &lower,
        "server shut down unexpectedly",
    )
}

/// The message reported for an error of the agent connection: prefixed with
/// `agent process exited: ` when it says the agent went away, as it is otherwise.
pub open spec fn agent_error_text(msg: Seq<char>) -> Seq<char> {
    if is_exit_message(msg) {
        "agent process exited: "@ + msg
    } else {
        msg
    }
}

/// The message reported for an error of the agent connection.
pub fn agent_error_message(msg: &str) -> (r: String)
    ensures
        r@ == agent_error_text(msg@),
{
    if is_agent_process_exit(msg) {
        concat("agent process exited: ", msg)
    } else {
        msg.to_owned()
    }
}

/// Why an agent turn ended.
pub enum StopReason {
    EndTurn,
    MaxTokens,
    MaxTurnRequests,
    Refusal,
    Cancelled,
    /// A reason this board does not know, with the name the protocol gives it
    /// when it has a name.
    Other(Option<String>),
}

/// The name of a stop reason as the turn's result reports it.
pub open spec fn stop_reason_name(r: StopReason) -> Seq<char> {
    match r {
        StopReason::EndTurn => "end_turn"@,
        StopReason::MaxTokens => "max_tokens"@,
        StopReason::MaxTurnRequests => "max_turn_requests"@,
        StopReason::Refusal => "refusal"@,
        StopReason::Cancelled => "cancelled"@,
        StopReason::Other(Some(name)) => name@,
        StopReason::Other(None) => "unknown"@,
    }
}

/// The stop reasons the protocol knows are reported by their protocol names,
/// `end_turn`, `max_tokens`, `max_turn_requests`, `refusal` and `cancelled`,
/// so no two of them are reported alike.
pub proof fn lemma_stop_reason_names(a: StopReason, b: StopReason)
    ensures
        stop_reason_name(StopReason::EndTurn) == "end_turn"@,
        stop_reason_name(StopReason::MaxTokens) == "max_tokens"@,
        stop_reason_name(StopReason::MaxTurnRequests) == "max_turn_requests"@,
        stop_reason_name(StopReason::Refusal) == "refusal"@,
        stop_reason_name(StopReason::Cancelled) == "cancelled"@,
        !(a is Other) && !(b is Other) && stop_reason_name(a) == stop_reason_name(b) ==> a == b,
{
    reveal_strlit("end_turn");
    reveal_strlit("max_tokens");
    reveal_strlit("max_turn_requests");
    reveal_strlit("refusal");
    reveal_strlit("cancelled");
    assert("end_turn"@.len() == 8);
    assert("max_tokens"@.len() == 10);
    assert("max_turn_requests"@.len() == 17);
    assert("refusal"@.len() == 7);
    assert("cancelled"@.len() == 9);
}

/// The name of a stop reason as the turn's result reports it.
pub fn stop_reason_str(reason: StopReason) -> (r: String)
    ensures
        r@ == stop_reason_name(reason),
        reason is EndTurn ==> r@ == "end_turn"@,
        reason is MaxTokens ==> r@ == "max_tokens"@,
        reason is MaxTurnRequests ==> r@ == "max_turn_requests"@,
        reason is Refusal ==> r@ == "refusal"@,
        reason is Cancelled ==> r@ == "cancelled"@,
{
    proof {
        lemma_stop_reason_names(StopReason::EndTurn, StopReason::EndTurn);
    }
    match reason {
        StopReason::EndTurn => "end_turn".to_owned(),
        StopReason::MaxTokens => "max_tokens".to_owned(),
        StopReason::MaxTurnRequests => "max_turn_requests".to_owned(),
        StopReason::Refusal => "refusal".to_owned(),
        StopReason::Cancelled => "cancelled".to_owned(),
        StopReason::Other(Some(name)) => name,
        StopReason::Other(None) => "unknown".to_owned(),
    }
}

/// The kind of an option that a permission request offers.
#[derive(Debug, Clone, Copy, PartialEq, Eq, Structural)]
pub enum PermissionKind {
    AllowOnce,
    AllowAlways,
    RejectOnce,
    RejectAlways,
    Other,
}

/// An option that a permission request offers.
pub struct PermissionOption {
    pub option_id: String,
    pub kind: PermissionKind,
}

/// The answer to a permission request.
#[derive(Debug)]
pub enum PermissionOutcome {
    /// The option with this id is chosen.
    Selected(String),
    /// The request is cancelled.
    Cancelled,
}

/// Whether an option rejects the permission.
pub open spec fn is_reject(k: PermissionKind) -> bool {
    k == PermissionKind::RejectOnce || k == PermissionKind::RejectAlways
}

/// The index of the first rejecting option, if any.
pub open spec fn first_reject(options: Seq<PermissionOption>) -> Option<int>
    decreases options.len(),
{
    if options.len() == 0 {
        None
    } else if is_reject(options[0].kind) {
        Some(0)
    } else {
        match first_reject(options.drop_first()) {
            Some(i) => Some(i + 1),
            None => None,
        }
    }
}

proof fn lemma_first_reject(options: Seq<PermissionOption>, i: int)
    requires
        0 <= i <= options.len(),
        forall|k: int| 0 <= k < i ==> !is_reject(#[trigger] options[k].kind),
    ensures
        first_reject(options) == (match first_reject(options.subrange(i, options.len() as int)) {
            Some(j) => Some(j + i),
            None => None::<int>,
        }),
    decreases i,
{
    if i == 0 {
        assert(options.subrange(0, options.len() as int) =~= options);
        match first_reject(options) {
            Some(j) => {},
            None => {},
        }
    } else {
        lemma_first_reject(options.drop_first(), i - 1);
        assert(options.drop_first().subrange(i - 1, options.drop_first().len() as int)
            =~= options.subrange(i, options.len() as int));
    }
}

/// The board denies every permission: it picks the first option that rejects,
/// and cancels the request when no option rejects.
pub fn choose_permission(options: &Vec<PermissionOption>) -> (r: PermissionOutcome)
    ensures
        match first_reject(options@) {
            Some(i) => r matches PermissionOutcome::Selected(id) && id@ == options@[i].option_id@,
            None => r is Cancelled,
        },
{
    let mut i: usize = 0;
    while i < options.len()
        invariant
            i <= options.len(),
            forall|k: int| 0 <= k < i ==> !is_reject(#[trigger] options@[k].kind),
        decreases options.len() - i,
    {
        let kind = options[i].kind;
        if kind == PermissionKind::RejectOnce || kind == PermissionKind::RejectAlways {
            proof {
                lemma_first_reject(options@, i as int);
                assert(options@.subrange(i as int, options@.len() as int)[0] == options@[i as int]);
            }
            return PermissionOutcome::Selected(options[i].option_id.clone());
        }
        i = i + 1;
    }
    proof {
        lemma_first_reject(options@, i as int);
    }
    PermissionOutcome::Cancelled
}

} // verus!
