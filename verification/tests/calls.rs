use bscp_userserver::call::engine::{forward_to, should_dial, use_port_range};
use bscp_userserver::call::ws::{
    call_end_fields, invite_from_metadata, invite_text, leave_frame, manager_join_url,
    manager_ws_url, pick_token, start_call_check, LeaveFrame,
};
use bscp_userserver::call::{AcceptRefusal, CallState, PendingInvite};
use bscp_userserver::keyed::Keyed;

fn invite(call: &str, user: &str) -> PendingInvite {
    PendingInvite {
        call_id: call.to_string(),
        from: "bob@two.example".to_string(),
        manager_ws_url: "ws://two.example/calls/manager/ws".to_string(),
        token: "tok".to_string(),
        for_user_id: user.to_string(),
    }
}

#[test]
fn keyed_map_basics() {
    let mut k: Keyed<u32> = Keyed::new();
    k.insert("a", 1);
    k.insert("b", 2);
    k.insert("a", 3);
    assert_eq!(k.len(), 2);
    assert_eq!(k.get("a"), Some(&3));
    assert!(k.contains_key("b"));
    assert_eq!(k.remove("b"), Some(2));
    assert_eq!(k.remove("b"), None);
    assert_eq!(k.len(), 1);
}

#[test]
fn browser_tabs_register_and_close() {
    let mut s: CallState<&str> = CallState::new("one.example".to_string());
    assert_eq!(s.domain(), "one.example");
    let a = s.register_browser("u1", "sink-a");
    let b = s.register_browser("u1", "sink-b");
    assert_eq!((a, b), (1, 2));
    assert!(s.user_has_socket("u1"));
    assert_eq!(s.tabs("u1").map(|t| t.len()), Some(2));
    s.unregister_browser("u1", a);
    assert_eq!(s.tabs("u1").unwrap()[0], (2, "sink-b"));
    s.unregister_browser("u1", 99);
    assert!(s.user_has_socket("u1"));
    s.unregister_browser("u1", b);
    assert!(!s.user_has_socket("u1"));
    assert!(s.tabs("u1").is_none());
}

#[test]
fn closing_last_tab_reports_call() {
    let mut s: CallState<u8> = CallState::new("one.example".to_string());
    let a = s.register_browser("u1", 1);
    let b = s.register_browser("u1", 2);
    s.attach_local("call-1", "u1");
    assert_eq!(s.close_browser("u1", a), None);
    assert_eq!(s.close_browser("u1", b), Some("call-1".to_string()));
}

#[test]
fn pending_invites() {
    let mut s: CallState<u8> = CallState::new("d".to_string());
    s.add_pending(invite("c1", "u1"));
    assert_eq!(s.peek_pending("c1").map(|i| i.for_user_id), Some("u1".to_string()));
    assert_eq!(s.take_pending("c1").map(|i| i.call_id), Some("c1".to_string()));
    assert!(s.take_pending("c1").is_none());
}

#[test]
fn accepting_invites() {
    let mut s: CallState<u8> = CallState::new("d".to_string());
    assert!(matches!(s.accept_invite("c1", "u1"), Err(AcceptRefusal::Gone)));
    s.add_pending(invite("c1", "u2"));
    assert!(matches!(s.accept_invite("c1", "u1"), Err(AcceptRefusal::NotForUser)));
    assert!(s.peek_pending("c1").is_none());
    s.add_pending(invite("c2", "u1"));
    assert!(matches!(s.accept_invite("c2", "u1"), Ok(i) if i.token == "tok"));
}

#[test]
fn manager_links() {
    let mut s: CallState<&str> = CallState::new("d".to_string());
    s.set_manager_link("c1", "link");
    assert_eq!(s.manager_link("c1"), Some(&"link"));
    s.drop_manager_link("c1");
    assert_eq!(s.manager_link("c1"), None);
}

#[test]
fn user_calls() {
    let mut s: CallState<u8> = CallState::new("d".to_string());
    s.set_user_call("u1", "c1");
    assert_eq!(s.user_call("u1"), Some("c1".to_string()));
    assert_eq!(s.clear_user_call("u1"), Some("c1".to_string()));
    assert_eq!(s.user_call("u1"), None);
}

#[test]
fn local_members() {
    let mut s: CallState<u8> = CallState::new("d".to_string());
    s.add_local("c1", "u1");
    s.add_local("c1", "u2");
    s.add_local("c1", "u1");
    assert_eq!(s.locals("c1"), vec!["u1", "u2"]);
    assert!(s.call_has_locals("c1"));
    assert_eq!(s.remove_local("c1", "u1"), 1);
    assert_eq!(s.remove_local("c1", "u9"), 1);
    assert_eq!(s.remove_local("c1", "u2"), 0);
    assert!(!s.call_has_locals("c1"));
    assert_eq!(s.remove_local("c1", "u2"), 0);
    assert!(s.locals("c1").is_empty());
}

#[test]
fn draining_a_call() {
    let mut s: CallState<u8> = CallState::new("d".to_string());
    s.attach_local("c1", "u1");
    s.attach_local("c1", "u2");
    s.set_user_call("u2", "c2");
    s.attach_local("c3", "u3");
    s.set_manager_link("c1", 7);
    let gone = s.end_call("c1");
    assert_eq!(gone, vec!["u1", "u2"]);
    assert_eq!(s.user_call("u1"), None);
    assert_eq!(s.user_call("u2"), Some("c2".to_string()));
    assert_eq!(s.user_call("u3"), Some("c3".to_string()));
    assert_eq!(s.manager_link("c1"), None);
    assert!(!s.call_has_locals("c1"));
    assert!(s.drain_locals("c1").is_empty());
}

#[test]
fn leaving_and_call_end() {
    let mut s: CallState<u8> = CallState::new("d".to_string());
    s.attach_local("c1", "u1");
    s.attach_local("c1", "u2");
    assert_eq!(s.leave("c1", "u1"), 1);
    assert_eq!(s.user_call("u1"), None);
    s.add_pending(invite("c1", "u2"));
    s.set_manager_link("c1", 1);
    s.call_ended_for("c1", "u2");
    assert!(s.peek_pending("c1").is_none());
    assert!(s.manager_link("c1").is_none());
    assert_eq!(s.user_call("u2"), None);
    assert!(!s.call_has_locals("c1"));
}

#[test]
fn socket_token_choice() {
    assert_eq!(pick_token(Some("q".into()), Some("c".into()), Some("h".into())), Some("q".to_string()));
    assert_eq!(pick_token(None, Some("c".into()), Some("h".into())), Some("c".to_string()));
    assert_eq!(pick_token(None, None, Some("h".into())), Some("h".to_string()));
    assert_eq!(pick_token(None, None, None), None);
}

#[test]
fn starting_direct_calls() {
    assert_eq!(start_call_check("bob@two.example", false), Ok("two.example".to_string()));
    assert_eq!(start_call_check("bob", false), Err("invalid callee"));
    assert_eq!(start_call_check("bob@two.example", true), Err("already in a call"));
    assert_eq!(manager_ws_url("one.example"), "ws://one.example/calls/manager/ws");
    assert_eq!(
        manager_join_url("ws://two/calls/manager/ws", "c1", "t", "one"),
        "ws://two/calls/manager/ws?call_id=c1&token=t&server=one"
    );
    assert_eq!(invite_text("alice"), "alice started a call");
}

#[test]
fn call_message_metadata() {
    let inv = invite_from_metadata("u1", "bob@two", r#"{"call_id":"c9","manager_ws_url":"ws://m","token":"t9"}"#).unwrap();
    assert_eq!((inv.call_id.as_str(), inv.from.as_str(), inv.manager_ws_url.as_str(), inv.token.as_str(), inv.for_user_id.as_str()), ("c9", "bob@two", "ws://m", "t9", "u1"));
    assert!(invite_from_metadata("u1", "b", r#"{"call_id":"c9","token":"t9"}"#).is_none());
    assert!(invite_from_metadata("u1", "b", "not json").is_none());
    assert_eq!(call_end_fields(r#"{"call_id":"c1","outcome":"rejected"}"#), Some(("c1".to_string(), "rejected".to_string())));
    assert_eq!(call_end_fields(r#"{"call_id":"c1"}"#), Some(("c1".to_string(), "ended".to_string())));
    assert_eq!(call_end_fields(r#"{"call_id":5}"#), None);
    assert!(matches!(leave_frame(true), LeaveFrame::Leave));
    assert!(matches!(leave_frame(false), LeaveFrame::Hangup));
}

#[test]
fn mesh_dialing_is_one_sided() {
    assert!(should_dial("a.example", "b.example", false));
    assert!(!should_dial("b.example", "a.example", false));
    assert!(!should_dial("a.example", "b.example", true));
    assert!(!should_dial("a.example", "a.example", false));
    for (x, y) in [("one", "two"), ("x.io", "x.io:8080"), ("B", "a")] {
        assert!(should_dial(x, y, false) != should_dial(y, x, false));
    }
    assert!(use_port_range(40000, 40100));
    assert!(!use_port_range(0, 40100));
    assert!(!use_port_range(5000, 4000));
    assert!(forward_to("alice@one", "bob@two"));
    assert!(!forward_to("alice@one", "alice@one"));
}
