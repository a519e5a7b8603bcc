//! Messages arriving from other servers: who sent them, what kind they are,
//! what the recipient is told, and how a stored message is confirmed.

use vstd::prelude::*;
use crate::addr;

verus! {

/// The kind of a received message, `text` when it names none.
pub fn message_kind(kind: Option<String>) -> (r: String)
    ensures
        r@ == match kind {
            Some(k) => k@,
            None => "text"@,
        },
{
    match kind {
        Some(k) => k,
        None => String::from_str("text"),
    }
}

/// What a received message asks of the call subsystem.
pub enum CallHook {
    /// A call invite for the recipient.
    Invite,
    /// The end of a call the recipient was part of.
    End,
    /// Nothing.
    Nothing,
}

/// Only messages of kind `call_invite` or `call_end` that carry metadata
/// reach the call subsystem.
pub fn call_hook(kind: &str, has_metadata: bool) -> (r: CallHook)
    ensures
        r is Invite <==> has_metadata && kind@ == "call_invite"@,
        r is End <==> has_metadata && kind@ == "call_end"@,
{
    proof {
        reveal_strlit("call_invite");
        reveal_strlit("call_end");
        assert("call_end"@.len() != "call_invite"@.len());
    }
    if !has_metadata {
        return CallHook::Nothing;
    }
    let k = String::from_str(kind);
    if k.eq(&String::from_str("call_invite")) {
        CallHook::Invite
    } else if k.eq(&String::from_str("call_end")) {
        CallHook::End
    } else {
        CallHook::Nothing
    }
}

/// The title of the push notification for a received message.
pub open spec fn push_title_spec(kind: Seq<char>, sender: Seq<char>) -> Seq<char> {
    if kind == "call_invite"@ {
        "Incoming call from "@ + sender
    } else {
        "New message from "@ + sender
    }
}

/// The title of the push notification for a received message.
pub fn push_title(kind: &str, sender: &str) -> (r: String)
    ensures
        r@ == push_title_spec(kind@, sender@),
{
    let k = String::from_str(kind);
    let mut r = if k.eq(&String::from_str("call_invite")) {
        String::from_str("Incoming call from ")
    } else {
        String::from_str("New message from ")
    };
    r.append(sender);
    r
}

/// The plain value of an optional string.
pub open spec fn opt_view(o: Option<&str>) -> Option<Seq<char>> {
    match o {
        Some(s) => Some(s@),
        None => None,
    }
}

fn opt_eq(a: Option<&str>, b: Option<&str>) -> (r: bool)
    ensures
        r == (opt_view(a) == opt_view(b)),
{
    match (a, b) {
        (Some(x), Some(y)) => String::from_str(x).eq(&String::from_str(y)),
        (None, None) => true,
        _ => false,
    }
}

/// A stored message confirms a validation request when its key, sender and
/// receiver all equal the requested ones (a missing request field matches
/// only a missing key and never a sender or receiver).
pub fn validation_matches(
    stored_key: Option<&str>,
    stored_sender: &str,
    stored_receiver: &str,
    key: Option<&str>,
    sender: Option<&str>,
    receiver: Option<&str>,
) -> (r: bool)
    ensures
        r == (opt_view(stored_key) == opt_view(key) && Some(stored_sender@) == opt_view(sender)
            && Some(stored_receiver@) == opt_view(receiver)),
{
    opt_eq(stored_key, key) && opt_eq(Some(stored_sender), sender) && opt_eq(
        Some(stored_receiver),
        receiver,
    )
}

/// What `POST /federation/receive` does next, given the outcomes of the
/// outside steps that have run so far.
pub enum ReceiveStep {
    /// Answer with this status and text.
    Reply(u16, &'static str),
    /// Ask whether the sender's domain is blocked.
    CheckBlocked,
    /// Ask the sender's server to confirm the message.
    Validate,
    /// Store the message.
    Store,
}

/// The plain value of a step: a tag (0 reply, 1 check blocked, 2 validate,
/// 3 store), and the status and text of a reply.
pub open spec fn receive_step_view(s: ReceiveStep) -> (int, u16, Seq<char>) {
    match s {
        ReceiveStep::Reply(c, m) => (0, c, m@),
        ReceiveStep::CheckBlocked => (1, 0u16, seq![]),
        ReceiveStep::Validate => (2, 0u16, seq![]),
        ReceiveStep::Store => (3, 0u16, seq![]),
    }
}

/// The order of a receive: a sender without `@` is a bad request (400); then
/// a blocked sender domain is forbidden (403); then a message its sender's
/// server does not confirm, or that cannot be stored, is refused (401
/// `Invalid`); a stored message is answered `OK`. `None` stands for a step
/// that has not run yet.
pub open spec fn receive_step_spec(
    sender: Seq<char>,
    blocked: Option<bool>,
    valid: Option<bool>,
    stored: Option<bool>,
) -> (int, u16, Seq<char>) {
    if addr::domain_spec(sender) is None {
        (0, 400u16, "Invalid sender format"@)
    } else {
        match blocked {
            None => (1, 0u16, seq![]),
            Some(true) => (0, 403u16, "Sender domain is blocked"@),
            Some(false) => match valid {
                None => (2, 0u16, seq![]),
                Some(false) => (0, 401u16, "Invalid"@),
                Some(true) => match stored {
                    None => (3, 0u16, seq![]),
                    Some(false) => (0, 401u16, "Invalid"@),
                    Some(true) => (0, 200u16, "OK"@),
                },
            },
        }
    }
}

/// The next step of a receive.
pub fn receive_step(sender: &str, blocked: Option<bool>, valid: Option<bool>, stored: Option<bool>) -> (r:
    ReceiveStep)
    ensures
        receive_step_view(r) == receive_step_spec(sender@, blocked, valid, stored),
{
    if addr::domain_of(sender).is_none() {
        return ReceiveStep::Reply(400, "Invalid sender format");
    }
    match blocked {
        None => ReceiveStep::CheckBlocked,
        Some(true) => ReceiveStep::Reply(403, "Sender domain is blocked"),
        Some(false) => match valid {
            None => ReceiveStep::Validate,
            Some(false) => ReceiveStep::Reply(401, "Invalid"),
            Some(true) => match stored {
                None => ReceiveStep::Store,
                Some(false) => ReceiveStep::Reply(401, "Invalid"),
                Some(true) => ReceiveStep::Reply(200, "OK"),
            },
        },
    }
}

} // verus!
