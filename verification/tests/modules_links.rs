use bscp_userserver::modules::links::{mint_ticket, verify_ticket};
use bscp_userserver::modules::{
    constant_eq, contains_string, module_from_row, module_url, provider_display_name,
    retry_delay_ms, signature, signature_ok, LinkProvider, Module, ModuleBus, ModuleManifest,
};
use bscp_userserver::routes::modules::{
    callback_module, callback_ticket, link_callback_url, link_redirect, link_start_module,
    provider_entries, CallbackRefusal,
};

fn provider(id: &str, name: &str) -> LinkProvider {
    LinkProvider { id: id.to_string(), name: name.to_string(), icon_url: None }
}

fn module(name: &str, enabled: bool, events: &[&str], providers: Vec<LinkProvider>) -> Module {
    Module {
        name: name.to_string(),
        base_url: format!("https://{name}.example/"),
        secret: format!("{name}-secret"),
        manifest: ModuleManifest {
            name: name.to_string(),
            version: "1".to_string(),
            description: String::new(),
            events: events.iter().map(|e| e.to_string()).collect(),
            link_providers: providers,
            admin_url: None,
        },
        enabled,
    }
}

fn bus() -> ModuleBus {
    let mut b = ModuleBus::new();
    b.reload(vec![
        module("gh", true, &["message.received", "user.registered"], vec![provider("github", "GitHub"), provider("gist", "")]),
        module("off", false, &["message.received"], vec![provider("x", "X")]),
        module("audit", true, &["user.deleted"], vec![]),
    ]);
    b
}

#[test]
fn ticket_known_value() {
    assert_eq!(
        mint_ticket("srv", "u1", "mod", "github", 1700000000),
        "dTF8bW9kfGdpdGh1YnwxNzAwMDAwMDAw.3ebbc56991f651e80d5556b49fed8aaa6b7a2eda31358e71e131d14b9359b325"
    );
}

#[test]
fn ticket_round_trip_until_expiry() {
    let t = mint_ticket("srv", "user-1", "gh", "github", 2000);
    let want = Some(("user-1".to_string(), "gh".to_string(), "github".to_string()));
    assert_eq!(verify_ticket("srv", &t, 1999), want);
    assert_eq!(verify_ticket("srv", &t, 2000), want);
    assert_eq!(verify_ticket("srv", &t, 2001), None);
    let neg = mint_ticket("srv", "u", "m", "p", -5);
    assert_eq!(verify_ticket("srv", &neg, -10), Some(("u".to_string(), "m".to_string(), "p".to_string())));
}

#[test]
fn ticket_rejections() {
    let t = mint_ticket("srv", "u", "m", "p", 100);
    assert_eq!(verify_ticket("other", &t, 0), None);
    assert_eq!(verify_ticket("srv", "no-dot", 0), None);
    assert_eq!(verify_ticket("srv", "!!!.abc", 0), None);
    let mut tampered = t.clone();
    tampered.push('0');
    assert_eq!(verify_ticket("srv", &tampered, 0), None);
    let (head, sig) = t.split_once('.').unwrap();
    let mut flipped: Vec<char> = sig.chars().collect();
    flipped[0] = if flipped[0] == 'a' { 'b' } else { 'a' };
    let altered = format!("{head}.{}", flipped.into_iter().collect::<String>());
    assert_eq!(verify_ticket("srv", &altered, 0), None);
    assert_eq!(verify_ticket("srv", &format!("{head}."), 0), None);
    assert_eq!(verify_ticket("srv", &t, 101), None);
    assert_eq!(verify_ticket("srv", &t, i64::MAX), None);
}

#[test]
fn signatures() {
    assert_eq!(signature("s3cret", br#"{"a":1}"#), "sha256=5910e62016ef5034272c926c27071992a465c2335cecf41851bda071577f4f6d");
    assert!(signature_ok("s3cret", br#"{"a":1}"#, "sha256=5910e62016ef5034272c926c27071992a465c2335cecf41851bda071577f4f6d"));
    assert!(!signature_ok("s3cret", br#"{"a":2}"#, "sha256=5910e62016ef5034272c926c27071992a465c2335cecf41851bda071577f4f6d"));
    assert!(constant_eq("abc", "abc"));
    assert!(!constant_eq("abc", "abd"));
    assert!(!constant_eq("abc", "ab"));
    assert!(constant_eq("", ""));
}

#[test]
fn module_helpers() {
    assert_eq!(module_url("https://m.example//", "events"), "https://m.example/events");
    assert_eq!(provider_display_name(&provider("gist", "")), "gist");
    assert_eq!(provider_display_name(&provider("github", "GitHub")), "GitHub");
    assert_eq!(retry_delay_ms(0), Some(300));
    assert_eq!(retry_delay_ms(1), Some(600));
    assert_eq!(retry_delay_ms(2), None);
    assert!(contains_string(&vec!["a".to_string(), "b".to_string()], "b"));
    assert!(!contains_string(&vec![], "b"));
    let m = module_from_row("n".into(), "u".into(), "s".into(), None, 0);
    assert!(!m.enabled && m.manifest.name.is_empty() && m.manifest.events.is_empty());
    let m2 = module_from_row("n".into(), "u".into(), "s".into(), Some(ModuleManifest::default()), 3);
    assert!(m2.enabled);
}

#[test]
fn bus_queries() {
    let b = bus();
    let names: Vec<String> = b.enabled().into_iter().map(|m| m.name).collect();
    assert_eq!(names, vec!["gh", "audit"]);
    assert_eq!(b.get("off").map(|m| m.enabled), Some(false));
    assert!(b.get("nope").is_none());
    let t: Vec<String> = b.dispatch_targets("message.received").into_iter().map(|m| m.name).collect();
    assert_eq!(t, vec!["gh"]);
    assert!(b.dispatch_targets("unknown").is_empty());
}

#[test]
fn providers_offered() {
    let b = bus();
    let links = vec![("other".to_string(), "github".to_string()), ("gh".to_string(), "github".to_string())];
    let e = provider_entries(&b.modules, &links);
    assert_eq!(e.len(), 2);
    assert_eq!((e[0].module.as_str(), e[0].id.as_str(), e[0].name.as_str(), e[0].link), ("gh", "github", "GitHub", Some(1)));
    assert_eq!((e[1].id.as_str(), e[1].name.as_str(), e[1].link), ("gist", "gist", None));
}

#[test]
fn starting_links() {
    let b = bus();
    assert!(matches!(link_start_module(&b, "gh", "github"), Ok(m) if m.name == "gh"));
    assert!(matches!(link_start_module(&b, "gh", "gitlab"), Err("unknown provider")));
    assert!(matches!(link_start_module(&b, "off", "x"), Err("unknown module")));
    assert!(matches!(link_start_module(&b, "nope", "x"), Err("unknown module")));
    assert_eq!(link_callback_url("https://me.example", "gh"), "https://me.example/api/modules/gh/links");
    assert_eq!(
        link_redirect("https://gh.example/", "github", "t.k", "https://me/x y").as_deref(),
        Some("https://gh.example/link/github?ticket=t.k&callback=https%3A%2F%2Fme%2Fx+y")
    );
    assert_eq!(link_redirect("not a url", "p", "t", "c"), None);
}

#[test]
fn module_callbacks() {
    let b = bus();
    let body = br#"{"ticket":"t"}"#;
    let sig = signature("gh-secret", body);
    assert!(matches!(callback_module(&b, "gh", &sig, body), Ok(_)));
    assert!(matches!(callback_module(&b, "gh", "sha256=00", body), Err(CallbackRefusal::BadSignature)));
    assert!(matches!(callback_module(&b, "zz", &sig, body), Err(CallbackRefusal::UnknownModule)));
    let t = mint_ticket("srv", "u1", "gh", "github", 50);
    assert_eq!(callback_ticket("srv", &t, 10, "gh").ok(), Some(("u1".to_string(), "github".to_string())));
    assert!(matches!(callback_ticket("srv", &t, 10, "other"), Err(CallbackRefusal::ModuleMismatch)));
    assert!(matches!(callback_ticket("srv", &t, 51, "gh"), Err(CallbackRefusal::BadTicket)));
}
