use bscp_userserver::routes::admin::{manifest_name, module_base_url, storage_limit_refusal};
use bscp_userserver::routes::auth::{
    device_info, invite_problem, join_errors, login_sets_online, normalize_email, register_errors,
    setup_errors, trim, username_needs_lookup,
};
use bscp_userserver::routes::chats::{
    channel_domain, chat_partners, clamp_limit, default_limit, delete_refusal, delivery_for,
    dm_push_title, history_sql, message_id, send_refused, send_step, validation_key, webhook_partner, Delivery,
    SendStep,
};
use bscp_userserver::routes::federation::{
    call_hook, message_kind, push_title, receive_step, validation_matches, CallHook, ReceiveStep,
};
use bscp_userserver::routes::guilds::{
    channel_base, gateway_url, invite_accept_path, member_path, parse_invite, success_status,
};
use bscp_userserver::routes::misc::{spa_action, webhook_content, webhook_push_title, webhook_sender, SpaAction};
use bscp_userserver::routes::uploads::{
    delete_refusal as upload_delete_refusal, quota_error, size_error, stored_name, total_size,
    upload_markdown, upload_mimetype, upload_url, video_type,
};
use bscp_userserver::routes::users::{
    deactivated_message, delete_target, image_allowed, local_webhook, picture_url, profile_route,
    push_subscription, split_full_id, twofa_disable_refusal, twofa_enable_refusal, ProfileRoute,
};
use bscp_userserver::routes::webhooks::webhook_url;

fn strings(v: &[&str]) -> Vec<String> {
    v.iter().map(|s| s.to_string()).collect()
}

#[test]
fn trimming() {
    assert_eq!(trim("  alice \t\n"), "alice");
    assert_eq!(trim("\u{3000}x\u{a0}"), "x");
    assert_eq!(trim("   "), "");
}

#[test]
fn registration_errors_in_order() {
    assert!(register_errors("alice", false, "secret1", "secret1", "CODE").is_empty());
    assert_eq!(
        register_errors("", false, "", "x", ""),
        strings(&["Username is required", "Password is required", "Passwords do not match", "Invite code is required"])
    );
    assert_eq!(
        register_errors("al", false, "12345", "12345", "c"),
        strings(&["Username must be at least 3 characters", "Password must be at least 6 characters"])
    );
    assert_eq!(register_errors("alice", true, "secret1", "secret1", "c"), strings(&["Username already exists"]));
    assert_eq!(register_errors("é", true, "secret1", "secret1", "c"), strings(&["Username must be at least 3 characters"]));
    assert!(register_errors("éa", false, "secret1", "secret1", "c").is_empty());
    assert!(username_needs_lookup("alice"));
    assert!(!username_needs_lookup("al"));
}

#[test]
fn setup_form_errors() {
    assert_eq!(setup_errors("", "", ""), strings(&["Username is required", "Password is required"]));
    assert!(setup_errors("admin", "password", "password").is_empty());
}

#[test]
fn invite_codes() {
    assert_eq!(invite_problem(false, false, false), Some("Invalid invite code"));
    assert_eq!(invite_problem(true, true, true), Some("Invite code already used"));
    assert_eq!(invite_problem(true, false, true), Some("Invite code has expired"));
    assert_eq!(invite_problem(true, false, false), None);
}

#[test]
fn account_helpers() {
    assert_eq!(join_errors(&strings(&["a", "b", "c"])), "a, b, c");
    assert_eq!(join_errors(&vec![]), "");
    assert_eq!(normalize_email(Some("  a@x  ".into())), Some("a@x".to_string()));
    assert_eq!(normalize_email(Some("   ".into())), None);
    assert_eq!(normalize_email(None), None);
    assert!(login_sets_online(0) && login_sets_online(1));
    assert!(!login_sets_online(2) && !login_sets_online(3));
    assert_eq!(device_info(None), "Unknown");
    assert_eq!(device_info(Some("curl/8".into())), "curl/8");
}

#[test]
fn chat_partner_list() {
    let sent = strings(&["zed@b", "amy@a", "zed@b"]);
    let recv = strings(&["Bob@c", "amy@a", "zed@b"]);
    assert_eq!(chat_partners(&sent, &recv), strings(&["Bob@c", "amy@a", "zed@b"]));
    assert!(chat_partners(&vec![], &vec![]).is_empty());
}

#[test]
fn history_queries() {
    assert_eq!(default_limit(), 50);
    assert_eq!(clamp_limit(0), 1);
    assert_eq!(clamp_limit(-9), 1);
    assert_eq!(clamp_limit(1000), 500);
    assert_eq!(clamp_limit(20), 20);
    assert_eq!(
        history_sql(true, false),
        "SELECT * FROM messages WHERE ((sender = ? AND receiver = ?) OR (sender = ? AND receiver = ?)) AND timestamp > ? ORDER BY timestamp DESC LIMIT ?"
    );
    assert_eq!(
        history_sql(false, true),
        "SELECT * FROM messages WHERE ((sender = ? AND receiver = ?) OR (sender = ? AND receiver = ?)) AND timestamp < ? ORDER BY timestamp DESC LIMIT ?"
    );
}

#[test]
fn chat_targets() {
    assert_eq!(webhook_partner("webhook-42@one.example", "one.example"), Some("42".to_string()));
    assert_eq!(webhook_partner("webhook-42@two.example", "one.example"), None);
    assert_eq!(webhook_partner("alice@one.example", "one.example"), None);
    assert_eq!(channel_domain("cs.example#general"), Some("cs.example".to_string()));
    assert_eq!(channel_domain("alice@one"), None);
    assert!(send_refused("webhook-1@one.example"));
    assert!(!send_refused("alice@one.example"));
    assert!(matches!(delivery_for("cs.example#general", "cs.example#general@one"), Delivery::Channel(d) if d == "cs.example"));
    assert!(matches!(delivery_for("bob@two", "bob@two"), Delivery::Direct(d) if d == "two"));
    assert!(matches!(delivery_for("bob", "bob"), Delivery::Direct(d) if d == "bob"));
}

#[test]
fn message_naming() {
    assert_eq!(message_id("one.example", "uuid-1"), "one.example/uuid-1");
    assert_eq!(validation_key("0123456789abcdef"), "key-01234567");
    assert_eq!(validation_key("éééé-rest"), "key-éééé");
    assert_eq!(delete_refusal(false, "a", "a"), Some("Message not found"));
    assert_eq!(delete_refusal(true, "a", "b"), Some("Cannot delete other user's messages"));
    assert_eq!(delete_refusal(true, "a", "a"), None);
    assert_eq!(dm_push_title("alice"), "New message from alice");
}

#[test]
fn federation_receive() {
    assert_eq!(message_kind(None), "text");
    assert_eq!(message_kind(Some("call_end".into())), "call_end");
    assert!(matches!(call_hook("call_invite", true), CallHook::Invite));
    assert!(matches!(call_hook("call_end", true), CallHook::End));
    assert!(matches!(call_hook("call_invite", false), CallHook::Nothing));
    assert!(matches!(call_hook("text", true), CallHook::Nothing));
    assert_eq!(push_title("call_invite", "bob@two"), "Incoming call from bob@two");
    assert_eq!(push_title("text", "bob@two"), "New message from bob@two");
    assert!(validation_matches(Some("k"), "s", "r", Some("k"), Some("s"), Some("r")));
    assert!(validation_matches(None, "s", "r", None, Some("s"), Some("r")));
    assert!(!validation_matches(Some("k"), "s", "r", None, Some("s"), Some("r")));
    assert!(!validation_matches(Some("k"), "s", "r", Some("k"), None, Some("r")));
}

#[test]
fn uploads() {
    assert_eq!(upload_mimetype(String::new()), "application/octet-stream");
    assert_eq!(upload_mimetype("image/png".into()), "image/png");
    assert_eq!(size_error(1, 1048577), Some("File exceeds size limit of 1MB".to_string()));
    assert_eq!(size_error(1, 1048576), None);
    assert_eq!(quota_error(2, 10, 3 * 1048576), Some("Insufficient storage. Used: 3MB / 2MB".to_string()));
    assert_eq!(quota_error(2, 10, -1048577 * 2), None);
    assert_eq!(quota_error(-2, 0, -1048577), Some("Insufficient storage. Used: -1MB / -2MB".to_string()));
    assert_eq!(quota_error(-1, 0, -1000), Some("Insufficient storage. Used: 0MB / -1MB".to_string()));
    assert_eq!(quota_error(10, 1, 100), None);
    assert_eq!(stored_name("uuid", "my cat.png"), "uuid_my_cat.png");
    assert_eq!(upload_url("one.example", "f.png"), "http://one.example/uploads/f.png");
    assert!(video_type("video/webm") && !video_type("image/png"));
    assert_eq!(upload_markdown("video/mp4", "http://u"), "http://u");
    assert_eq!(upload_markdown("image/png", "http://u"), "![image](http://u)");
    assert_eq!(total_size(&vec![1, 2, 3]), 6);
    assert_eq!(total_size(&vec![]), 0);
    assert_eq!(upload_delete_refusal(true, "u1", "u2"), Some("Cannot delete other user's uploads"));
    assert_eq!(upload_delete_refusal(false, "u1", "u1"), Some("Upload not found"));
    assert_eq!(webhook_url("one.example", "id1", "tok"), "http://one.example/webhooks/id1/tok");
}

#[test]
fn user_lookups() {
    assert_eq!(split_full_id("a@b@c"), Some(("a@b".to_string(), "c".to_string())));
    assert_eq!(local_webhook("webhook-7@one", "one"), Some("7".to_string()));
    assert_eq!(local_webhook("webhook-7@two", "one"), None);
    assert_eq!(delete_target("bob@one", "one"), Ok("bob".to_string()));
    assert_eq!(delete_target("bob", "one"), Ok("bob".to_string()));
    assert_eq!(delete_target("bob@two", "one"), Err("Cannot delete users on remote servers"));
    assert_eq!(deactivated_message("bob"), "User bob has been deactivated.");
    assert!(matches!(profile_route("bob@one", "one"), ProfileRoute::Local(u) if u == "bob"));
    assert!(matches!(profile_route("bob@two", "one"), ProfileRoute::Remote(d) if d == "two"));
    assert!(matches!(profile_route("bob", "one"), ProfileRoute::NotFound));
}

#[test]
fn user_settings() {
    assert_eq!(push_subscription(Some("e".into()), Some("p".into()), Some("a".into())), Some(("e".to_string(), "p".to_string(), "a".to_string())));
    assert_eq!(push_subscription(Some(String::new()), Some("p".into()), Some("a".into())), None);
    assert_eq!(push_subscription(Some("e".into()), None, Some("a".into())), None);
    assert!(image_allowed("image/webp") && !image_allowed("image/bmp"));
    assert_eq!(picture_url("one", "f.png"), "http://one/media/proxy?url=http://one/uploads/f.png");
    assert_eq!(twofa_enable_refusal(true, true), Some("2FA is already enabled"));
    assert_eq!(twofa_enable_refusal(false, false), Some("2FA setup not initiated. Start setup first."));
    assert_eq!(twofa_enable_refusal(false, true), None);
    assert_eq!(twofa_disable_refusal(false, true), Some("Invalid password"));
    assert_eq!(twofa_disable_refusal(true, false), Some("2FA is not enabled"));
    assert_eq!(twofa_disable_refusal(true, true), None);
}

#[test]
fn admin_checks() {
    assert_eq!(module_base_url("  https://m.example/// "), Ok("https://m.example".to_string()));
    assert_eq!(module_base_url("nope"), Err("base_url must be a valid URL"));
    assert_eq!(manifest_name("x"), Ok("x".to_string()));
    assert_eq!(manifest_name(""), Err("module manifest has no name"));
    assert_eq!(storage_limit_refusal(0), Some("Storage limit must be at least 1 MB"));
    assert_eq!(storage_limit_refusal(1), None);
}

#[test]
fn guild_invites() {
    let cs = |h: &str, c: &str| Some((h.to_string(), c.to_string()));
    assert_eq!(parse_invite("https://cs.example/invite/AbC"), cs("cs.example", "AbC"));
    assert_eq!(parse_invite(" cs.example/invite/AbC/ "), cs("cs.example", "AbC"));
    assert_eq!(parse_invite("cs.example/AbC"), cs("cs.example", "AbC"));
    assert_eq!(parse_invite("http://http://cs.example/x"), cs("cs.example", "x"));
    assert_eq!(parse_invite("cs.example"), None);
    assert_eq!(parse_invite("/code"), None);
    assert_eq!(parse_invite("cs.example//"), None);
    assert!(success_status(200) && success_status(299) && !success_status(300) && !success_status(199));
    assert_eq!(invite_accept_path("AbC"), "invites/AbC/accept");
    assert_eq!(member_path("g1", "alice@one.example"), "guilds/g1/members/alice%40one.example");
}

#[test]
fn gateway_targets() {
    assert_eq!(channel_base(Some("https://cs/api-root//".into()), "cs"), "https://cs/api-root");
    assert_eq!(channel_base(None, "cs.example"), "http://cs.example");
    assert_eq!(gateway_url("http://cs", "/guilds/mine", Some("a=1")).as_deref(), Some("http://cs/api/guilds/mine?a=1"));
    assert_eq!(gateway_url("http://cs", "guilds", Some("")).as_deref(), Some("http://cs/api/guilds"));
    assert_eq!(gateway_url("http://cs", "a/../b", None), None);
}

#[test]
fn misc_routes() {
    assert_eq!(webhook_content(Some("hi".into())), Some("hi".to_string()));
    assert_eq!(webhook_content(Some(String::new())), None);
    assert_eq!(webhook_content(None), None);
    assert_eq!(webhook_sender("w1", "one"), "webhook-w1@one");
    assert_eq!(webhook_push_title("CI"), "Message from CI");
    assert!(matches!(spa_action("/api/x"), SpaAction::NotFound));
    assert!(matches!(spa_action("/federation/receive"), SpaAction::NotFound));
    assert!(matches!(spa_action("//assets/app.js"), SpaAction::TryFile(r) if r == "assets/app.js"));
    assert!(matches!(spa_action("/"), SpaAction::Index));
    assert!(matches!(spa_action("/a/../b"), SpaAction::Index));
}

#[test]
fn receive_reply_order() {
    assert!(matches!(receive_step("nobody", None, None, None), ReceiveStep::Reply(400, "Invalid sender format")));
    assert!(matches!(receive_step("a@b.example", None, None, None), ReceiveStep::CheckBlocked));
    assert!(matches!(receive_step("a@b.example", Some(true), None, None), ReceiveStep::Reply(403, "Sender domain is blocked")));
    assert!(matches!(receive_step("a@b.example", Some(false), None, None), ReceiveStep::Validate));
    assert!(matches!(receive_step("a@b.example", Some(false), Some(false), None), ReceiveStep::Reply(401, "Invalid")));
    assert!(matches!(receive_step("a@b.example", Some(false), Some(true), None), ReceiveStep::Store));
    assert!(matches!(receive_step("a@b.example", Some(false), Some(true), Some(false)), ReceiveStep::Reply(401, "Invalid")));
    assert!(matches!(receive_step("a@b.example", Some(false), Some(true), Some(true)), ReceiveStep::Reply(200, "OK")));
}

#[test]
fn send_reply_order() {
    assert!(matches!(send_step("webhook-1@x", "webhook-1@x", None), SendStep::Refuse(403, "Cannot send messages to webhooks")));
    assert!(matches!(send_step("bob", "bob@x", None), SendStep::LookUpProfile));
    assert!(matches!(send_step("bob", "bob@x", Some(false)), SendStep::Refuse(404, "User not found")));
    assert!(matches!(send_step("bob", "bob@x", Some(true)), SendStep::Store));
    assert!(matches!(send_step("cs.example#general", "cs.example#general@x", None), SendStep::Store));
}
