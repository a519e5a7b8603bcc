use bscp_userserver::oidc::clients::{
    build_from_doc, from_stored, register_client, parse_uris, plan_registration, registration_token_ok, trim_end,
    trust_origin, RegisterRequest, RelyingPartyDoc, ResolvedClient, StoredClient,
};
use bscp_userserver::oidc::consent::{esc, page, scope_label};
use bscp_userserver::oidc::tokens::{bearer_token, profile_claims, verify_pkce};
use bscp_userserver::oidc::{is_local_host, known_scopes, scope_has};
use bscp_userserver::routes::oidc::{
    authorize_check, check_client_secret, check_code_grant, client_credentials, code_redirect_url,
    consent_check, csrf_token, effective_scope, err_page_html, grant_kind, hidden_fields,
    html_escape, invalid_code, invalid_refresh, parse_basic_auth, percent_decode,
    redirect_err_url, require_client_id, skip_consent, try_percent_decode, unknown_client,
    unsupported_grant, urldecode, urlenc, urlencode, user_gone, AuthorizeOutcome,
    AuthorizeParams, CodeGrant, ConsentRefusal, Grant, login_redirect, token_step, TokenStep,
};

fn client(public: bool) -> ResolvedClient {
    ResolvedClient {
        client_id: "client".to_string(),
        name: "App".to_string(),
        logo_url: None,
        redirect_uris: vec!["https://app.example/cb".to_string()],
        is_public: public,
        registered: true,
        secret_hash: None,
        allowed_scope: "openid profile".to_string(),
    }
}

fn params() -> AuthorizeParams {
    AuthorizeParams {
        client_id: "client".to_string(),
        redirect_uri: "https://app.example/cb".to_string(),
        response_type: "code".to_string(),
        scope: "openid profile email".to_string(),
        state: Some("xyz".to_string()),
        nonce: None,
        code_challenge: Some("abc".to_string()),
        code_challenge_method: Some("S256".to_string()),
        prompt: None,
    }
}

#[test]
fn pkce_s256_and_plain() {
    let verifier = "dBjftJeZ4CVP-mJ0kDlMMbrJ7wcmFCYYmXmF4V3ds2E";
    let challenge = "pwd2iyNR2kYMV6XMAb9zEJi3Tozz1e89GUJOmM9Znig";
    assert!(verify_pkce(challenge, Some("S256"), verifier));
    assert!(!verify_pkce(challenge, Some("S256"), "other"));
    assert!(verify_pkce("plainval", None, "plainval"));
    assert!(verify_pkce("plainval", Some("plain"), "plainval"));
    assert!(!verify_pkce(challenge, None, verifier));
}

#[test]
fn effective_scope_filters_and_adds_openid() {
    assert_eq!(effective_scope("profile email bogus", "openid profile"), "openid profile");
    assert_eq!(effective_scope("", "profile"), "openid");
    assert_eq!(effective_scope("profile openid", "openid profile"), "profile openid");
    assert_eq!(effective_scope("profile profile", "profile"), "openid profile");
}

#[test]
fn effective_scope_only_grants_allowed() {
    for (req, allowed) in [("email bscp:links x", "email"), ("openid", ""), ("a b c", "a b c")] {
        let granted = effective_scope(req, allowed);
        assert!(scope_has(&granted, "openid"));
        for w in granted.split_whitespace() {
            assert!(w == "openid" || (known_scopes().iter().any(|k| k.iter().collect::<String>() == w) && scope_has(allowed, w)));
        }
    }
}

#[test]
fn scope_words() {
    assert!(scope_has("openid  profile", "profile"));
    assert!(!scope_has("openid profile", "prof"));
    assert_eq!(known_scopes().len(), 4);
}

#[test]
fn local_hosts() {
    assert!(is_local_host("localhost:8080"));
    assert!(is_local_host("127.0.0.1"));
    assert!(is_local_host("[::1]:3000"));
    assert!(is_local_host("0.0.0.0"));
    assert!(!is_local_host("example.com"));
    assert!(is_local_host("localhost"));
    assert!(is_local_host("localhost:5000"));
    assert!(is_local_host("127.0.0.1:8080"));
    assert!(is_local_host("127.255.10.3"));
    assert!(is_local_host("[::1]"));
    assert!(!is_local_host("localhost.evil.com"));
    assert!(!is_local_host("127.evil.com"));
    assert!(!is_local_host("127.0.0.1.evil.com"));
    assert!(!is_local_host("127.0.0.256"));
    assert!(!is_local_host("localhost:"));
    assert!(!is_local_host("localhost:80a"));
    assert!(!is_local_host("[::1]x"));
    assert!(!is_local_host("0.0.0.0:80"));
}

#[test]
fn percent_encodings() {
    assert_eq!(urlenc("a b&c/é"), "a+b%26c%2F%C3%A9");
    assert_eq!(urlencode("a b@c"), "a%20b%40c");
    assert_eq!(urlenc("AZaz09-_.~"), "AZaz09-_.~");
}

#[test]
fn decode_round_trips_encode() {
    for s in ["hello world", "a+b=c&d", "ünïcödé ✓", "%zz", ""] {
        assert_eq!(urldecode(&urlenc(s)), s);
        assert_eq!(urldecode(&urlencode(s)), s);
    }
}

#[test]
fn percent_decoding() {
    assert_eq!(percent_decode("a%20b+c"), "a b c");
    assert_eq!(percent_decode("%41%4a%4A"), "AJJ");
    assert_eq!(percent_decode("100%"), "100%");
    assert_eq!(percent_decode("%zz"), "%zz");
    assert_eq!(percent_decode("%+5"), "\u{5}");
    assert_eq!(try_percent_decode("%aé"), None);
    assert_eq!(try_percent_decode("%é"), Some("%é".to_string()));
}

#[test]
fn basic_auth_header() {
    // "my%20id:s%3Acret" in base64
    let h = format!("Basic {}", "bXklMjBpZDpzJTNBY3JldA==");
    assert_eq!(parse_basic_auth(Some(&h)), Some(("my id".to_string(), "s:cret".to_string())));
    assert_eq!(parse_basic_auth(None), Some((String::new(), String::new())));
    assert_eq!(parse_basic_auth(Some("Bearer x")), Some((String::new(), String::new())));
    assert_eq!(parse_basic_auth(Some("Basic !!!")), Some((String::new(), String::new())));
    // "nocolon"
    assert_eq!(parse_basic_auth(Some("Basic bm9jb2xvbg==")), Some((String::new(), String::new())));
}

#[test]
fn client_credentials_prefer_basic() {
    assert_eq!(client_credentials("a".into(), "b".into(), "c", "d"), ("a".to_string(), "b".to_string()));
    assert_eq!(client_credentials(String::new(), String::new(), "c", "d"), ("c".to_string(), "d".to_string()));
}

#[test]
fn redirect_urls() {
    assert_eq!(
        redirect_err_url("https://app/cb", "access_denied", "user denied the request", Some("s 1")),
        "https://app/cb?error=access_denied&error_description=user+denied+the+request&state=s+1"
    );
    assert_eq!(code_redirect_url("https://app/cb", "c/d", None), "https://app/cb?code=c%2Fd");
}

#[test]
fn csrf_is_hash_of_token_and_client() {
    assert_eq!(csrf_token("tok", "client"), "019d445c341096e25b935a2ade97e8fc1fb142d04b4a84ae0af792eabe11198c");
}

#[test]
fn html_pieces() {
    assert_eq!(html_escape("<a href=\"x\">&</a>"), "&lt;a href=\"x\"&gt;&amp;&lt;/a&gt;");
    assert_eq!(esc("\"<>&"), "&quot;&lt;&gt;&amp;");
    assert_eq!(err_page_html("bad <x>"), "<h3>Authorization error</h3><p>bad &lt;x&gt;</p>");
    assert_eq!(scope_label("email"), "Your email address");
    assert_eq!(scope_label("weird"), "Additional access");
}

#[test]
fn consent_page_contents() {
    let p = page("My <App>", Some("https://l/x.png"), "alice@one", &["openid", "profile"], "<input>", "c\"s", "/oauth/authorize");
    assert!(p.contains("My &lt;App&gt;"));
    assert!(p.contains("Your display name and avatar"));
    assert!(!p.contains("Confirm your identity"));
    assert!(p.contains("c&quot;s"));
    assert!(p.contains("<img src=\"https://l/x.png\""));
    let q = page("A", None, "s", &["openid"], "", "t", "/a");
    assert!(!q.contains("This will share"));
}

#[test]
fn hidden_inputs() {
    let h = hidden_fields(&params(), "openid profile");
    assert!(h.contains("name=\"client_id\" value=\"client\""));
    assert!(h.contains("name=\"scope\" value=\"openid profile\""));
    assert!(h.contains("name=\"state\" value=\"xyz\""));
    assert!(!h.contains("name=\"nonce\""));
}

#[test]
fn authorize_checks_in_order() {
    let c = client(true);
    match authorize_check(&c, &params()) {
        AuthorizeOutcome::Proceed(s) => assert_eq!(s, "openid profile"),
        _ => panic!("expected proceed"),
    }
    let mut p = params();
    p.redirect_uri = "https://evil/cb".into();
    assert!(matches!(authorize_check(&c, &p), AuthorizeOutcome::ErrorPage(m) if m == "redirect_uri is not registered for this client"));
    let mut p = params();
    p.response_type = "token".into();
    assert!(matches!(authorize_check(&c, &p), AuthorizeOutcome::ErrorRedirect(u) if u == "https://app.example/cb?error=unsupported_response_type&error_description=only+code+is+supported&state=xyz"));
    let mut p = params();
    p.code_challenge = None;
    assert!(matches!(authorize_check(&c, &p), AuthorizeOutcome::ErrorRedirect(u) if u.contains("PKCE")));
    assert!(matches!(authorize_check(&client(false), &p), AuthorizeOutcome::Proceed(_)));
    let mut p = params();
    p.code_challenge_method = Some("plain".into());
    assert!(matches!(authorize_check(&c, &p), AuthorizeOutcome::ErrorRedirect(u) if u.contains("S256")));
}

#[test]
fn consent_skipping() {
    assert!(skip_consent(true, None, Some("openid profile email"), "openid profile"));
    assert!(!skip_consent(true, Some("consent"), Some("openid profile"), "openid"));
    assert!(!skip_consent(false, None, Some("openid"), "openid"));
    assert!(!skip_consent(true, None, Some("openid"), "openid email"));
    assert!(!skip_consent(true, None, None, "openid"));
}

#[test]
fn consent_form_checks() {
    let c = client(false);
    let csrf = csrf_token("tok", "client");
    assert!(consent_check(&c, "https://app.example/cb", None, Some("tok"), &csrf, "approve").is_none());
    assert!(matches!(consent_check(&c, "https://x/cb", None, Some("tok"), &csrf, "approve"), Some(ConsentRefusal::ErrorPage(_))));
    assert!(matches!(consent_check(&c, "https://app.example/cb", None, None, &csrf, "approve"), Some(ConsentRefusal::ErrorPage(m)) if m.starts_with("session expired")));
    assert!(matches!(consent_check(&c, "https://app.example/cb", None, Some("tok"), "bad", "approve"), Some(ConsentRefusal::ErrorPage(m)) if m == "invalid form token"));
    assert!(matches!(consent_check(&c, "https://app.example/cb", Some("st"), Some("tok"), &csrf, "deny"), Some(ConsentRefusal::Denied(u)) if u == "https://app.example/cb?error=access_denied&error_description=user+denied+the+request&state=st"));
}

#[test]
fn token_endpoint_errors() {
    let e = require_client_id("").unwrap();
    assert_eq!((e.status, e.error.as_str()), (401, "invalid_client"));
    assert!(require_client_id("c").is_none());
    assert_eq!(unknown_client().status, 401);
    let hash = Some("3479eafc7e598290b2de7901ba6c061fa6273da6a01fcfb13a221e06a136dd82".to_string());
    assert!(check_client_secret(&hash, "regtoken").is_none());
    assert!(check_client_secret(&hash, "wrong").is_some());
    assert!(check_client_secret(&None, "anything").is_none());
    assert!(matches!(grant_kind("authorization_code"), Grant::AuthorizationCode));
    assert!(matches!(grant_kind("refresh_token"), Grant::RefreshToken));
    assert!(matches!(grant_kind("password"), Grant::Unsupported));
    let u = unsupported_grant("password");
    assert_eq!(u.error, "unsupported_grant_type");
    assert_eq!(invalid_code().error, "invalid_grant");
    assert_eq!(user_gone().error, "invalid_grant");
    assert_eq!(invalid_refresh().description, "refresh token is invalid");
}

#[test]
fn code_grant_checks() {
    let row = CodeGrant {
        client_id: "c".into(),
        user_id: "u".into(),
        redirect_uri: "https://a/cb".into(),
        scope: "openid".into(),
        nonce: None,
        code_challenge: Some("pwd2iyNR2kYMV6XMAb9zEJi3Tozz1e89GUJOmM9Znig".into()),
        code_challenge_method: Some("S256".into()),
    };
    assert!(check_code_grant(&row, "c", "https://a/cb", "dBjftJeZ4CVP-mJ0kDlMMbrJ7wcmFCYYmXmF4V3ds2E", true).is_none());
    assert_eq!(check_code_grant(&row, "c", "https://a/cb", "", true).unwrap().description, "PKCE verification failed");
    assert_eq!(check_code_grant(&row, "x", "https://a/cb", "v", true).unwrap().description, "code does not match this request");
    let plain = CodeGrant { code_challenge: None, code_challenge_method: None, ..row };
    assert_eq!(check_code_grant(&plain, "c", "https://a/cb", "", true).unwrap().description, "PKCE required");
    assert!(check_code_grant(&plain, "c", "https://a/cb", "", false).is_none());
}

fn step_error(s: TokenStep) -> Option<(u16, String, String)> {
    match s {
        TokenStep::Refuse(e) => Some((e.status, e.error, e.description)),
        _ => None,
    }
}

#[test]
fn token_request_order() {
    let public = client(true);
    let row = CodeGrant {
        client_id: "client".into(),
        user_id: "u".into(),
        redirect_uri: "https://app.example/cb".into(),
        scope: "openid".into(),
        nonce: None,
        code_challenge: None,
        code_challenge_method: None,
    };
    let e = step_error(token_step("", None, "", "authorization_code", None, "", "", None, None)).unwrap();
    assert_eq!((e.0, e.2.as_str()), (401, "client_id is required"));
    assert!(matches!(token_step("client", None, "", "authorization_code", None, "", "", None, None), TokenStep::ResolveClient));
    let e = step_error(token_step("client", Some(None), "", "authorization_code", None, "", "", None, None)).unwrap();
    assert_eq!(e.2, "unknown client");
    let mut secret_client = client(false);
    secret_client.secret_hash = Some("3479eafc7e598290b2de7901ba6c061fa6273da6a01fcfb13a221e06a136dd82".into());
    let e = step_error(token_step("client", Some(Some(&secret_client)), "wrong", "password", None, "", "", None, None)).unwrap();
    assert_eq!(e.2, "bad client secret");
    let e = step_error(token_step("client", Some(Some(&secret_client)), "regtoken", "password", None, "", "", None, None)).unwrap();
    assert_eq!((e.0, e.1.as_str(), e.2.as_str()), (400, "unsupported_grant_type", "password"));
    assert!(matches!(token_step("client", Some(Some(&public)), "", "authorization_code", None, "", "", None, None), TokenStep::ConsumeCode));
    let e = step_error(token_step("client", Some(Some(&public)), "", "authorization_code", Some(None), "", "", None, None)).unwrap();
    assert_eq!(e.2, "code is invalid or expired");
    let e = step_error(token_step("client", Some(Some(&public)), "", "authorization_code", Some(Some(&row)), "https://app.example/cb", "", None, None)).unwrap();
    assert_eq!(e.2, "PKCE required");
    let conf = client(false);
    assert!(matches!(token_step("client", Some(Some(&conf)), "", "authorization_code", Some(Some(&row)), "https://app.example/cb", "", None, None), TokenStep::FindUser));
    let e = step_error(token_step("client", Some(Some(&conf)), "", "authorization_code", Some(Some(&row)), "https://app.example/cb", "", Some(false), None)).unwrap();
    assert_eq!(e.2, "user no longer exists");
    assert!(matches!(token_step("client", Some(Some(&conf)), "", "authorization_code", Some(Some(&row)), "https://app.example/cb", "", Some(true), None), TokenStep::Issue));
    assert!(matches!(token_step("client", Some(Some(&conf)), "", "refresh_token", None, "", "", None, None), TokenStep::RotateRefresh));
    let e = step_error(token_step("client", Some(Some(&conf)), "", "refresh_token", None, "", "", None, Some(false))).unwrap();
    assert_eq!(e.2, "refresh token is invalid");
    assert!(matches!(token_step("client", Some(Some(&conf)), "", "refresh_token", None, "", "", None, Some(true)), TokenStep::Issue));
}

#[test]
fn stored_clients() {
    assert_eq!(parse_uris("[\"https://a/cb\",\"https://b/cb\"]"), vec!["https://a/cb", "https://b/cb"]);
    assert!(parse_uris("not json").is_empty());
    let stored = StoredClient {
        client_id: "c1".into(),
        client_secret_hash: None,
        name: String::new(),
        redirect_uris: "[\"https://a/cb\"]".into(),
        scope: "openid".into(),
        token_endpoint_auth_method: "none".into(),
        registration_access_token_hash: None,
        disabled: 0,
    };
    let c = from_stored(stored).ok().unwrap();
    assert_eq!(c.name, "an application");
    assert!(c.is_public && c.registered);
    assert!(c.allows_redirect("https://a/cb"));
    assert!(!c.allows_redirect("https://a/cb2"));
    let disabled = StoredClient {
        client_id: "c2".into(),
        client_secret_hash: None,
        name: "n".into(),
        redirect_uris: "[]".into(),
        scope: "openid".into(),
        token_endpoint_auth_method: "client_secret_basic".into(),
        registration_access_token_hash: None,
        disabled: 1,
    };
    assert_eq!(from_stored(disabled).err().unwrap(), "client is disabled");
}

#[test]
fn federation_trust_origins() {
    assert_eq!(trim_end("https://rp.example//", '/'), "https://rp.example");
    assert_eq!(trust_origin("https://rp.example/"), Ok("https://rp.example".to_string()));
    assert_eq!(trust_origin("http://localhost:3000"), Ok("http://localhost:3000".to_string()));
    assert_eq!(trust_origin("http://rp.example"), Err("client_id must be an https origin".to_string()));
    assert_eq!(trust_origin("not a url"), Err("unknown client".to_string()));
    let doc = RelyingPartyDoc {
        client_name: Some("RP".into()),
        redirect_uris: vec!["https://rp.example/cb".into(), "https://evil.example/cb".into()],
        logo_url: None,
    };
    let c = build_from_doc("https://rp.example", &doc).ok().unwrap();
    assert_eq!(c.redirect_uris, vec!["https://rp.example/cb"]);
    assert!(c.is_public && !c.registered);
    assert_eq!(c.allowed_scope, "openid profile email bscp:links");
    let none = RelyingPartyDoc { client_name: None, redirect_uris: vec!["https://evil/cb".into()], logo_url: None };
    assert!(build_from_doc("https://rp.example", &none).is_err());
    let mixed = RelyingPartyDoc {
        client_name: None,
        redirect_uris: vec![
            "https://rp.example.evil.com/cb".into(),
            "https://rp.example".into(),
            "https://rp.example?x=1".into(),
            "https://rp.example#f".into(),
            "https://rp.examplex/cb".into(),
        ],
        logo_url: None,
    };
    let m = build_from_doc("https://rp.example", &mixed).ok().unwrap();
    assert_eq!(m.redirect_uris, vec!["https://rp.example", "https://rp.example?x=1", "https://rp.example#f"]);
    assert_eq!(m.name, "https://rp.example");
    let only_lookalike = RelyingPartyDoc {
        client_name: None,
        redirect_uris: vec!["https://rp.example.evil.com/cb".into()],
        logo_url: None,
    };
    assert_eq!(
        build_from_doc("https://rp.example", &only_lookalike).err().unwrap(),
        "relying-party document lists no redirect URI under its own origin"
    );
}

#[test]
fn dynamic_registration_plan() {
    let req = RegisterRequest { redirect_uris: vec![], client_name: None, token_endpoint_auth_method: None, scope: None };
    assert_eq!(plan_registration(&req), Err("redirect_uris is required".to_string()));
    let bad = RegisterRequest { redirect_uris: vec!["https://a/cb".into(), "nope".into()], client_name: None, token_endpoint_auth_method: None, scope: None };
    assert_eq!(plan_registration(&bad), Err("invalid redirect_uri: nope".to_string()));
    let ok = RegisterRequest { redirect_uris: vec!["https://a/cb".into()], client_name: None, token_endpoint_auth_method: Some("none".into()), scope: Some(String::new()) };
    assert_eq!(plan_registration(&ok), Ok(("none".to_string(), "openid profile email".to_string())));
    let other = RegisterRequest { redirect_uris: vec!["https://a/cb".into()], client_name: None, token_endpoint_auth_method: Some("weird".into()), scope: Some("openid".into()) };
    assert_eq!(plan_registration(&other), Ok(("client_secret_basic".to_string(), "openid".to_string())));
    assert!(registration_token_ok(&Some("3479eafc7e598290b2de7901ba6c061fa6273da6a01fcfb13a221e06a136dd82".into()), "regtoken"));
    assert!(!registration_token_ok(&None, "regtoken"));
}

#[test]
fn dynamic_registration_response() {
    let public = RegisterRequest {
        redirect_uris: vec!["https://app.example/cb".into()],
        client_name: Some("Test App".into()),
        token_endpoint_auth_method: Some("none".into()),
        scope: None,
    };
    let r = register_client(public, "00ff", "regtoken".into(), "sekret".into(), "http://localhost:5000")
        .ok()
        .unwrap();
    assert_eq!(r.client_id, "bscp_00ff");
    assert!(r.client_secret.is_none() && r.client_secret_hash.is_none());
    assert_eq!(r.token_endpoint_auth_method, "none");
    assert_eq!(r.scope, "openid profile email");
    assert_eq!(r.client_name.as_deref(), Some("Test App"));
    assert_eq!(r.stored_name, "Test App");
    assert_eq!(r.redirect_uris, vec!["https://app.example/cb"]);
    assert_eq!(r.registration_access_token, "regtoken");
    assert_eq!(r.registration_token_hash, "3479eafc7e598290b2de7901ba6c061fa6273da6a01fcfb13a221e06a136dd82");
    assert_eq!(r.registration_client_uri, "http://localhost:5000/oauth/register/bscp_00ff");

    let confidential = RegisterRequest {
        redirect_uris: vec!["https://app.example/cb".into()],
        client_name: None,
        token_endpoint_auth_method: None,
        scope: Some("openid".into()),
    };
    let c = register_client(confidential, "ab", "t".into(), "sekret".into(), "https://s").ok().unwrap();
    assert_eq!(c.token_endpoint_auth_method, "client_secret_basic");
    assert_eq!(c.client_secret.as_deref(), Some("sekret"));
    assert_eq!(c.client_secret_hash, Some(bscp_userserver::crypto::sha256_hex("sekret")));
    assert_eq!(c.stored_name, "");
    assert!(c.client_name.is_none());

    let empty = RegisterRequest { redirect_uris: vec![], client_name: None, token_endpoint_auth_method: None, scope: None };
    assert_eq!(register_client(empty, "ab", "t".into(), "s".into(), "https://s").err().unwrap(), "redirect_uris is required");
    let bad = RegisterRequest { redirect_uris: vec!["nope".into()], client_name: None, token_endpoint_auth_method: None, scope: None };
    assert_eq!(register_client(bad, "ab", "t".into(), "s".into(), "https://s").err().unwrap(), "invalid redirect_uri: nope");
}

#[test]
fn claims_by_scope() {
    let c = profile_claims("openid profile email", "alice", "one.example", None, Some("p.png".into()), Some("a@x".into()));
    assert!(c.profile);
    assert_eq!(c.name.as_deref(), Some("alice"));
    assert_eq!(c.preferred_username.as_deref(), Some("alice@one.example"));
    assert_eq!(c.picture.as_deref(), Some("p.png"));
    assert_eq!(c.email.as_deref(), Some("a@x"));
    let d = profile_claims("openid", "alice", "one.example", Some("Al".into()), Some("p.png".into()), Some("a@x".into()));
    assert!(!d.profile && d.name.is_none() && d.picture.is_none() && d.email.is_none());
}

#[test]
fn bearer_header() {
    assert_eq!(bearer_token(Some("Bearer abc")), Some("abc".to_string()));
    assert_eq!(bearer_token(Some("bearer abc")), None);
    assert_eq!(bearer_token(None), None);
}

#[test]
fn login_redirect_carries_the_request() {
    assert_eq!(
        login_redirect("http://localhost:5000", "client_id=x&state=a b").as_deref(),
        Some("http://localhost:5000/login?next=%2Foauth%2Fauthorize%3Fclient_id%3Dx%26state%3Da+b")
    );
    assert_eq!(
        login_redirect("https://s.example/base/", "").as_deref(),
        Some("https://s.example/login?next=%2Foauth%2Fauthorize%3F")
    );
    assert!(login_redirect("not a url", "x").is_none());
}
