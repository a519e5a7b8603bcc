//! Decisions of the call signaling sockets: the browser socket of a local
//! user and the socket a peer server opens toward this server's call manager.

use vstd::prelude::*;
use crate::addr;
use crate::call::PendingInvite;
use crate::codec;

verus! {

/// Query of the browser signaling socket: an optional session token.
pub struct WsAuthQuery {
    pub token: Option<String>,
}

/// Query of the peer-server socket toward this server's call manager.
pub struct ManagerParams {
    pub call_id: String,
    pub token: String,
    pub server: String,
}

/// The session token of a browser socket: from `?token=`, else the session
/// cookie, else the `X-Session-Token` header.
pub fn pick_token(query: Option<String>, cookie: Option<String>, header: Option<String>) -> (r:
    Option<String>)
    ensures
        r == (if query is Some {
            query
        } else if cookie is Some {
            cookie
        } else {
            header
        }),
{
    match query {
        Some(t) => Some(t),
        None => match cookie {
            Some(t) => Some(t),
            None => header,
        },
    }
}

/// Why a direct call cannot be started.
pub open spec fn start_refusal(to: Seq<char>, in_call: bool) -> Option<Seq<char>> {
    if !to.contains('@') {
        Some("invalid callee"@)
    } else if in_call {
        Some("already in a call"@)
    } else {
        None
    }
}

/// Checks a direct call from a user (`in_call` tells whether the user is
/// already in one) to `to`: the callee's domain, or the error shown to the user.
pub fn start_call_check(to: &str, in_call: bool) -> (r: Result<String, &'static str>)
    ensures
        match r {
            Ok(d) => start_refusal(to@, in_call) is None && addr::domain_spec(to@) == Some(d@),
            Err(e) => start_refusal(to@, in_call) == Some(e@),
        },
{
    proof {
        reveal_strlit("invalid callee");
        reveal_strlit("already in a call");
    }
    match addr::domain_of(to) {
        None => Err("invalid callee"),
        Some(d) => {
            if in_call {
                Err("already in a call")
            } else {
                Ok(d)
            }
        },
    }
}

/// The URL of this server's call manager socket: `ws://{domain}/calls/manager/ws`.
pub fn manager_ws_url(domain: &str) -> (r: String)
    ensures
        r@ == "ws://"@ + domain@ + "/calls/manager/ws"@,
{
    let mut r = String::from_str("ws://");
    r.append(domain);
    r.append("/calls/manager/ws");
    r
}

/// The URL a participant server dials to join a call at its manager:
/// `{manager_ws_url}?call_id={call_id}&token={token}&server={server}`.
pub fn manager_join_url(manager_ws_url: &str, call_id: &str, token: &str, server: &str) -> (r:
    String)
    ensures
        r@ == manager_ws_url@ + "?call_id="@ + call_id@ + "&token="@ + token@ + "&server="@
            + server@,
{
    let mut r = String::from_str(manager_ws_url);
    r.append("?call_id=");
    r.append(call_id);
    r.append("&token=");
    r.append(token);
    r.append("&server=");
    r.append(server);
    r
}

/// The text of the chat message that carries a call invite.
pub fn invite_text(username: &str) -> (r: String)
    ensures
        r@ == username@ + " started a call"@,
{
    let mut r = String::from_str(username);
    r.append(" started a call");
    r
}

/// The invite that a `call_invite` message's metadata describes for local
/// user `recipient`, sent by `from`: it needs the string fields `call_id`,
/// `manager_ws_url` and `token`.
pub open spec fn invite_spec(recipient: Seq<char>, from: Seq<char>, meta: Seq<char>) -> Option<
    (Seq<char>, Seq<char>, Seq<char>, Seq<char>, Seq<char>),
> {
    match (
        codec::json_str_field_of(meta, "call_id"@),
        codec::json_str_field_of(meta, "manager_ws_url"@),
        codec::json_str_field_of(meta, "token"@),
    ) {
        (Some(c), Some(u), Some(t)) => Some((c, from, u, t, recipient)),
        _ => None,
    }
}

/// The plain values of an invite: call, sender, manager URL, token, recipient.
pub open spec fn invite_view(inv: PendingInvite) -> (Seq<char>, Seq<char>, Seq<char>, Seq<char>, Seq<char>) {
    (inv.call_id@, inv.from@, inv.manager_ws_url@, inv.token@, inv.for_user_id@)
}

/// Reads the invite out of a `call_invite` message's metadata.
pub fn invite_from_metadata(recipient: &str, from: &str, meta: &str) -> (r: Option<PendingInvite>)
    ensures
        match r {
            Some(inv) => invite_spec(recipient@, from@, meta@) == Some(invite_view(inv)),
            None => invite_spec(recipient@, from@, meta@) is None,
        },
{
    let call_id = codec::json_str_field(meta, "call_id");
    let url = codec::json_str_field(meta, "manager_ws_url");
    let token = codec::json_str_field(meta, "token");
    match (call_id, url, token) {
        (Some(c), Some(u), Some(t)) => Some(
            PendingInvite {
                call_id: c,
                from: String::from_str(from),
                manager_ws_url: u,
                token: t,
                for_user_id: String::from_str(recipient),
            },
        ),
        _ => None,
    }
}

/// The call and outcome a `call_end` message's metadata names: the string
/// field `call_id`, and `outcome` or else `ended`.
pub open spec fn call_end_spec(meta: Seq<char>) -> Option<(Seq<char>, Seq<char>)> {
    match codec::json_str_field_of(meta, "call_id"@) {
        None => None,
        Some(c) => Some(
            (
                c,
                match codec::json_str_field_of(meta, "outcome"@) {
                    Some(o) => o,
                    None => "ended"@,
                },
            ),
        ),
    }
}

/// Reads the call and outcome out of a `call_end` message's metadata.
pub fn call_end_fields(meta: &str) -> (r: Option<(String, String)>)
    ensures
        match r {
            Some((c, o)) => call_end_spec(meta@) == Some((c@, o@)),
            None => call_end_spec(meta@) is None,
        },
{
    match codec::json_str_field(meta, "call_id") {
        None => None,
        Some(c) => {
            let outcome = match codec::json_str_field(meta, "outcome") {
                Some(o) => o,
                None => String::from_str("ended"),
            };
            Some((c, outcome))
        },
    }
}

/// What a browser's last local member sends toward the manager on leaving.
pub enum LeaveFrame {
    /// Leave a channel room, which goes on without this server.
    Leave,
    /// Hang up a direct call, which ends it.
    Hangup,
}

/// A channel room is left; any other call is hung up.
pub fn leave_frame(is_room: bool) -> (r: LeaveFrame)
    ensures
        is_room <==> r is Leave,
{
    if is_room {
        LeaveFrame::Leave
    } else {
        LeaveFrame::Hangup
    }
}

} // verus!
