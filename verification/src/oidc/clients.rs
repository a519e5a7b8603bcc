//! OAuth client resolution: registered clients (RFC 7591 dynamic registration)
//! and federation-trust clients (the relying party publishes
//! `/.well-known/BSCP/relying-party`).

use vstd::prelude::*;
use crate::codec;
use crate::crypto;
use crate::oidc;
use crate::text;

verus! {

/// A client stored by dynamic registration (the columns the provider reads).
pub struct StoredClient {
    pub client_id: String,
    pub client_secret_hash: Option<String>,
    pub name: String,
    pub redirect_uris: String,
    pub scope: String,
    pub token_endpoint_auth_method: String,
    pub registration_access_token_hash: Option<String>,
    pub disabled: i64,
}

/// A client ready to run an `authorize` request against.
pub struct ResolvedClient {
    pub client_id: String,
    pub name: String,
    pub logo_url: Option<String>,
    pub redirect_uris: Vec<String>,
    /// public ⇒ PKCE mandatory, no client secret, consent never skipped.
    pub is_public: bool,
    pub registered: bool,
    pub secret_hash: Option<String>,
    pub allowed_scope: String,
}

pub open spec fn opt_view(o: Option<String>) -> Option<Seq<char>> {
    match o {
        Some(s) => Some(s@),
        None => None,
    }
}

impl ResolvedClient {
    /// Whether `uri` is exactly one of the client's redirect URIs.
    pub fn allows_redirect(&self, uri: &str) -> (r: bool)
        ensures
            r == self.redirect_uris.deep_view().contains(uri@),
    {
        let target = text::chars_of(uri);
        let mut i: usize = 0;
        while i < self.redirect_uris.len()
            invariant
                target@ == uri@,
                i <= self.redirect_uris.len(),
                forall|j: int| 0 <= j < i ==> self.redirect_uris.deep_view()[j] != uri@,
            decreases self.redirect_uris.len() - i,
        {
            if text::chars_eq(&text::chars_of(self.redirect_uris[i].as_str()), &target) {
                assert(self.redirect_uris.deep_view()[i as int] == uri@);
                return true;
            }
            i = i + 1;
        }
        assert forall|x: Seq<char>| self.redirect_uris.deep_view().contains(x) implies x != uri@ by {
            let j = choose|j: int|
                0 <= j < self.redirect_uris.deep_view().len() && self.redirect_uris.deep_view()[j]
                    == x;
        }
        false
    }
}

/// The redirect URIs stored as a JSON array; anything else reads as none.
pub open spec fn parse_uris_spec(json_text: Seq<char>) -> Seq<Seq<char>> {
    match codec::json_string_list_of(json_text) {
        Some(v) => v,
        None => seq![],
    }
}

/// The redirect URIs stored as a JSON array of strings (empty when the text
/// is not one).
pub fn parse_uris(json_text: &str) -> (r: Vec<String>)
    ensures
        r.deep_view() == parse_uris_spec(json_text@),
{
    match codec::json_string_list(json_text) {
        Some(v) => v,
        None => {
            let v: Vec<String> = Vec::new();
            assert(v.deep_view() =~= seq![]);
            v
        },
    }
}

/// A registered client as resolved for `authorize` / `token`, or why it cannot be.
pub fn from_stored(c: StoredClient) -> (r: Result<ResolvedClient, String>)
    ensures
        c.disabled != 0 ==> (r matches Err(e) && e@ == "client is disabled"@),
        c.disabled == 0 ==> (r matches Ok(rc) && {
            &&& rc.client_id@ == c.client_id@
            &&& rc.name@ == (if c.name@.len() == 0 { "an application"@ } else { c.name@ })
            &&& rc.logo_url is None
            &&& rc.redirect_uris.deep_view() == parse_uris_spec(c.redirect_uris@)
            &&& rc.is_public == (c.token_endpoint_auth_method@ == "none"@)
            &&& rc.registered
            &&& opt_view(rc.secret_hash) == opt_view(c.client_secret_hash)
            &&& rc.allowed_scope@ == c.scope@
        }),
{
    if c.disabled != 0 {
        return Err(String::from_str("client is disabled"));
    }
    let is_public = text::chars_eq(
        &text::chars_of(c.token_endpoint_auth_method.as_str()),
        &text::lit("none"),
    );
    let redirect_uris = parse_uris(c.redirect_uris.as_str());
    let name = if c.name.as_str().is_empty() {
        String::from_str("an application")
    } else {
        c.name
    };
    Ok(
        ResolvedClient {
            client_id: c.client_id,
            name,
            logo_url: None,
            redirect_uris,
            is_public,
            registered: true,
            secret_hash: c.client_secret_hash,
            allowed_scope: c.scope,
        },
    )
}

// ── federation trust ──────────────────────────────────────────────────

/// The document a relying party publishes at `/.well-known/BSCP/relying-party`.
pub struct RelyingPartyDoc {
    pub client_name: Option<String>,
    pub redirect_uris: Vec<String>,
    pub logo_url: Option<String>,
}

/// `s` with every trailing `c` removed (`str::trim_end_matches` with a char).
pub open spec fn trim_end_char(s: Seq<char>, c: char) -> Seq<char>
    decreases s.len(),
{
    if s.len() > 0 && s.last() == c {
        trim_end_char(s.drop_last(), c)
    } else {
        s
    }
}

/// `str::trim_end_matches` with a single character.
pub fn trim_end(s: &str, c: char) -> (r: String)
    ensures
        r@ == trim_end_char(s@, c),
{
    let cs = text::chars_of(s);
    let mut n: usize = cs.len();
    assert(s@.take(n as int) =~= s@);
    while n > 0 && cs[n - 1] == c
        invariant
            n <= cs.len(),
            cs@ == s@,
            trim_end_char(s@, c) == trim_end_char(s@.take(n as int), c),
        decreases n,
    {
        assert(s@.take(n as int).drop_last() =~= s@.take(n - 1));
        n = n - 1;
    }
    assert(trim_end_char(s@.take(n as int), c) == s@.take(n as int));
    let mut head: Vec<char> = Vec::new();
    let mut i: usize = 0;
    while i < n
        invariant
            n <= cs.len(),
            i <= n,
            head@ == cs@.take(i as int),
        decreases n - i,
    {
        head.push(cs[i]);
        assert(head@ =~= cs@.take(i + 1));
        i = i + 1;
    }
    text::string_from_chars(&head)
}

/// The origin of a federation-trust `client_id` (trailing slashes removed),
/// if it names an `https` origin, or an `http` one on a local host.
pub open spec fn trust_origin_spec(client_id: Seq<char>) -> Result<Seq<char>, Seq<char>> {
    let origin = trim_end_char(client_id, '/');
    match codec::url_parts_of(origin) {
        None => Err("unknown client"@),
        Some((scheme, host)) => match host {
            None => Err("client_id has no host"@),
            Some(h) => if scheme == "https"@ || (scheme == "http"@ && oidc::is_local_host_spec(
                h,
            )) {
                Ok(origin)
            } else {
                Err("client_id must be an https origin"@)
            },
        },
    }
}

/// Checks that an unregistered `client_id` is an acceptable origin for the
/// federation-trust fallback and returns that origin.
pub fn trust_origin(client_id: &str) -> (r: Result<String, String>)
    ensures
        match r {
            Ok(o) => trust_origin_spec(client_id@) == Ok::<Seq<char>, Seq<char>>(o@),
            Err(e) => trust_origin_spec(client_id@) == Err::<Seq<char>, Seq<char>>(e@),
        },
{
    let origin = trim_end(client_id, '/');
    match codec::url_parts(origin.as_str()) {
        None => Err(String::from_str("unknown client")),
        Some((scheme, host)) => match host {
            None => Err(String::from_str("client_id has no host")),
            Some(h) => {
                let sc = text::chars_of(scheme.as_str());
                if text::chars_eq(&sc, &text::lit("https")) || (text::chars_eq(
                    &sc,
                    &text::lit("http"),
                ) && oidc::is_local_host(h.as_str())) {
                    Ok(origin)
                } else {
                    Err(String::from_str("client_id must be an https origin"))
                }
            },
        },
    }
}

/// A URI lies under an origin when it is the origin itself, or the origin
/// followed by a path, a query or a fragment (`/`, `?` or `#`).
pub open spec fn lies_under(u: Seq<char>, origin: Seq<char>) -> bool {
    ||| u == origin
    ||| {
        &&& origin.is_prefix_of(u)
        &&& u.len() > origin.len()
        &&& (u[origin.len() as int] == '/' || u[origin.len() as int] == '?' || u[origin.len() as int] == '#')
    }
}

/// The redirect URIs of `uris` that lie under `origin`, in order.
pub open spec fn under_origin(uris: Seq<Seq<char>>, origin: Seq<char>) -> Seq<Seq<char>>
    decreases uris.len(),
{
    if uris.len() == 0 {
        seq![]
    } else {
        under_origin(uris.drop_last(), origin) + if lies_under(uris.last(), origin) {
            seq![uris.last()]
        } else {
            seq![]
        }
    }
}

fn under(u: &Vec<char>, origin: &Vec<char>) -> (r: bool)
    ensures
        r == lies_under(u@, origin@),
{
    if text::chars_eq(u, origin) {
        return true;
    }
    if !text::starts_with(u, origin) || u.len() <= origin.len() {
        return false;
    }
    let c = u[origin.len()];
    c == '/' || c == '?' || c == '#'
}

/// The scope a federation-trust client may ask for.
pub open spec fn federation_scope() -> Seq<char> {
    "openid profile email bscp:links"@
}

/// Builds the client of a relying-party document: only redirect URIs under
/// its own origin count, and there must be at least one.
pub fn build_from_doc(origin: &str, doc: &RelyingPartyDoc) -> (r: Result<ResolvedClient, String>)
    ensures
        match r {
            Ok(c) => {
                &&& under_origin(doc.redirect_uris.deep_view(), origin@).len() > 0
                &&& c.client_id@ == origin@
                &&& c.name@ == (match doc.client_name {
                    Some(n) => n@,
                    None => origin@,
                })
                &&& opt_view(c.logo_url) == opt_view(doc.logo_url)
                &&& c.redirect_uris.deep_view() == under_origin(
                    doc.redirect_uris.deep_view(),
                    origin@,
                )
                &&& c.is_public
                &&& !c.registered
                &&& c.secret_hash is None
                &&& c.allowed_scope@ == federation_scope()
            },
            Err(e) => {
                &&& under_origin(doc.redirect_uris.deep_view(), origin@).len() == 0
                &&& e@ == "relying-party document lists no redirect URI under its own origin"@
            },
        },
{
    let o = text::chars_of(origin);
    let mut kept: Vec<String> = Vec::new();
    let mut i: usize = 0;
    while i < doc.redirect_uris.len()
        invariant
            o@ == origin@,
            i <= doc.redirect_uris.len(),
            kept.deep_view() == under_origin(doc.redirect_uris.deep_view().take(i as int), origin@),
        decreases doc.redirect_uris.len() - i,
    {
        let u = &doc.redirect_uris[i];
        let ghost before = kept;
        if under(&text::chars_of(u.as_str()), &o) {
            kept.push(u.clone());
            assert(kept.deep_view() =~= before.deep_view().push(u@));
        }
        proof {
            let t = doc.redirect_uris.deep_view().take(i + 1);
            assert(t.drop_last() =~= doc.redirect_uris.deep_view().take(i as int));
            assert(t.last() == u@);
            assert(kept.deep_view() =~= under_origin(t, origin@));
        }
        i = i + 1;
    }
    assert(doc.redirect_uris.deep_view().take(doc.redirect_uris.len() as int)
        =~= doc.redirect_uris.deep_view());
    if kept.len() == 0 {
        return Err(
            String::from_str("relying-party document lists no redirect URI under its own origin"),
        );
    }
    let name = match &doc.client_name {
        Some(n) => n.clone(),
        None => String::from_str(origin),
    };
    let logo_url = match &doc.logo_url {
        Some(l) => Some(l.clone()),
        None => None,
    };
    Ok(
        ResolvedClient {
            client_id: String::from_str(origin),
            name,
            logo_url,
            redirect_uris: kept,
            is_public: true,
            registered: false,
            secret_hash: None,
            allowed_scope: String::from_str("openid profile email bscp:links"),
        },
    )
}

// ── dynamic registration (RFC 7591) ──────────────────────────────────

/// The body of `POST /oauth/register`.
pub struct RegisterRequest {
    pub redirect_uris: Vec<String>,
    pub client_name: Option<String>,
    pub token_endpoint_auth_method: Option<String>,
    pub scope: Option<String>,
}

/// The token-endpoint authentication method a registration ends up with.
pub open spec fn auth_method_spec(requested: Option<Seq<char>>) -> Seq<char> {
    match requested {
        Some(m) => if m == "none"@ {
            "none"@
        } else if m == "client_secret_post"@ {
            "client_secret_post"@
        } else {
            "client_secret_basic"@
        },
        None => "client_secret_basic"@,
    }
}

/// The scope a registration ends up with: the requested one unless absent or empty.
pub open spec fn registered_scope_spec(requested: Option<Seq<char>>) -> Seq<char> {
    match requested {
        Some(s) => if s.len() > 0 {
            s
        } else {
            "openid profile email"@
        },
        None => "openid profile email"@,
    }
}

/// Index of the first redirect URI that `url::Url::parse` refuses, if any.
pub open spec fn first_bad_uri(uris: Seq<Seq<char>>) -> Option<int> {
    if exists|i: int| 0 <= i < uris.len() && codec::url_parts_of(#[trigger] uris[i]) is None {
        Some(
            choose|i: int|
                0 <= i < uris.len() && codec::url_parts_of(uris[i]) is None && forall|j: int|
                    0 <= j < i ==> codec::url_parts_of(#[trigger] uris[j]) is Some,
        )
    } else {
        None
    }
}

/// What a registration request is accepted as: its authentication method and
/// scope, or the error message it is refused with.
pub fn plan_registration(req: &RegisterRequest) -> (r: Result<(String, String), String>)
    ensures
        req.redirect_uris@.len() == 0 ==> (r matches Err(e) && e@ == "redirect_uris is required"@),
        req.redirect_uris@.len() > 0 ==> match r {
            Err(e) => exists|i: int|
                0 <= i < req.redirect_uris@.len() && codec::url_parts_of(
                    #[trigger] req.redirect_uris.deep_view()[i],
                ) is None && (forall|j: int|
                    0 <= j < i ==> codec::url_parts_of(#[trigger] req.redirect_uris.deep_view()[j])
                        is Some) && e@ == "invalid redirect_uri: "@
                    + req.redirect_uris.deep_view()[i],
            Ok((method, scope)) => {
                &&& forall|i: int|
                    0 <= i < req.redirect_uris@.len() ==> codec::url_parts_of(
                        #[trigger] req.redirect_uris.deep_view()[i],
                    ) is Some
                &&& method@ == auth_method_spec(opt_view(req.token_endpoint_auth_method))
                &&& scope@ == registered_scope_spec(opt_view(req.scope))
            },
        },
{
    if req.redirect_uris.len() == 0 {
        return Err(String::from_str("redirect_uris is required"));
    }
    let mut i: usize = 0;
    while i < req.redirect_uris.len()
        invariant
            i <= req.redirect_uris.len(),
            forall|j: int|
                0 <= j < i ==> codec::url_parts_of(#[trigger] req.redirect_uris.deep_view()[j])
                    is Some,
        decreases req.redirect_uris.len() - i,
    {
        let u = &req.redirect_uris[i];
        if codec::url_parts(u.as_str()).is_none() {
            let mut e = String::from_str("invalid redirect_uri: ");
            e.append(u.as_str());
            assert(req.redirect_uris.deep_view()[i as int] == u@);
            return Err(e);
        }
        i = i + 1;
    }
    let method = match &req.token_endpoint_auth_method {
        Some(m) => {
            let mc = text::chars_of(m.as_str());
            if text::chars_eq(&mc, &text::lit("none")) {
                String::from_str("none")
            } else if text::chars_eq(&mc, &text::lit("client_secret_post")) {
                String::from_str("client_secret_post")
            } else {
                String::from_str("client_secret_basic")
            }
        },
        None => String::from_str("client_secret_basic"),
    };
    let scope = match &req.scope {
        Some(s) => if !s.as_str().is_empty() {
            s.clone()
        } else {
            String::from_str("openid profile email")
        },
        None => String::from_str("openid profile email"),
    };
    Ok((method, scope))
}

/// Why a registration request is refused, if it is: no redirect URI, or the
/// first redirect URI that `url::Url::parse` refuses.
pub open spec fn registration_error(uris: Seq<Seq<char>>) -> Option<Seq<char>> {
    if uris.len() == 0 {
        Some("redirect_uris is required"@)
    } else {
        match first_bad_uri(uris) {
            Some(i) => Some("invalid redirect_uri: "@ + uris[i]),
            None => None,
        }
    }
}

proof fn lemma_first_bad_uri(uris: Seq<Seq<char>>, i: int)
    requires
        0 <= i < uris.len(),
        codec::url_parts_of(uris[i]) is None,
        forall|j: int| 0 <= j < i ==> codec::url_parts_of(#[trigger] uris[j]) is Some,
    ensures
        first_bad_uri(uris) == Some(i),
{
    let k = choose|k: int|
        0 <= k < uris.len() && codec::url_parts_of(uris[k]) is None && forall|j: int|
            0 <= j < k ==> codec::url_parts_of(#[trigger] uris[j]) is Some;
    assert(0 <= k < uris.len() && codec::url_parts_of(uris[k]) is None && forall|j: int|
        0 <= j < k ==> codec::url_parts_of(#[trigger] uris[j]) is Some);
    if k < i {
        assert(codec::url_parts_of(uris[k]) is Some);
    }
    if i < k {
        assert(codec::url_parts_of(uris[i]) is Some);
    }
}

/// A client accepted by dynamic registration: what is stored of it and what
/// the registration answers.
pub struct Registration {
    pub client_id: String,
    /// The secret handed to a confidential client (none for method `none`).
    pub client_secret: Option<String>,
    /// The stored SHA-256 hex of that secret.
    pub client_secret_hash: Option<String>,
    /// The stored name (empty when the request gave none).
    pub stored_name: String,
    /// The name echoed back, when the request gave one.
    pub client_name: Option<String>,
    pub redirect_uris: Vec<String>,
    pub token_endpoint_auth_method: String,
    pub scope: String,
    pub registration_access_token: String,
    /// The stored SHA-256 hex of the registration access token.
    pub registration_token_hash: String,
    pub registration_client_uri: String,
}

/// Registers a client from a request and the freshly drawn values: the hex
/// part of its id, its registration access token and a candidate secret
/// (handed out only to a confidential client). The id is `bscp_` and the hex,
/// the management URI `{public_url}/oauth/register/{client_id}`.
pub fn register_client(
    req: RegisterRequest,
    id_hex: &str,
    reg_token: String,
    secret: String,
    public_url: &str,
) -> (r: Result<Registration, String>)
    ensures
        match r {
            Err(e) => registration_error(req.redirect_uris.deep_view()) == Some(e@),
            Ok(g) => {
                &&& registration_error(req.redirect_uris.deep_view()) is None
                &&& g.client_id@ == "bscp_"@ + id_hex@
                &&& g.token_endpoint_auth_method@ == auth_method_spec(opt_view(req.token_endpoint_auth_method))
                &&& g.scope@ == registered_scope_spec(opt_view(req.scope))
                &&& g.redirect_uris.deep_view() == req.redirect_uris.deep_view()
                &&& opt_view(g.client_name) == opt_view(req.client_name)
                &&& g.stored_name@ == (match req.client_name {
                    Some(n) => n@,
                    None => Seq::<char>::empty(),
                })
                &&& (g.token_endpoint_auth_method@ == "none"@ ==> g.client_secret is None
                    && g.client_secret_hash is None)
                &&& (g.token_endpoint_auth_method@ != "none"@ ==> opt_view(g.client_secret) == Some(secret@)
                    && opt_view(g.client_secret_hash) == Some(
                    text::hex_lower(crypto::sha256_of(vstd::utf8::encode_utf8(secret@))),
                ))
                &&& g.registration_access_token@ == reg_token@
                &&& g.registration_token_hash@ == text::hex_lower(
                    crypto::sha256_of(vstd::utf8::encode_utf8(reg_token@)),
                )
                &&& g.registration_client_uri@ == public_url@ + "/oauth/register/"@ + g.client_id@
            },
        },
{
    let (method, scope) = match plan_registration(&req) {
        Ok(p) => p,
        Err(e) => {
            proof {
                if req.redirect_uris@.len() > 0 {
                    let i = choose|i: int|
                        0 <= i < req.redirect_uris@.len() && codec::url_parts_of(
                            #[trigger] req.redirect_uris.deep_view()[i],
                        ) is None && (forall|j: int|
                            0 <= j < i ==> codec::url_parts_of(
                                #[trigger] req.redirect_uris.deep_view()[j],
                            ) is Some) && e@ == "invalid redirect_uri: "@
                            + req.redirect_uris.deep_view()[i];
                    lemma_first_bad_uri(req.redirect_uris.deep_view(), i);
                }
            }
            return Err(e);
        },
    };
    proof {
        let uris = req.redirect_uris.deep_view();
        if first_bad_uri(uris) is Some {
            let k = choose|k: int| 0 <= k < uris.len() && codec::url_parts_of(#[trigger] uris[k]) is None;
            assert(codec::url_parts_of(uris[k]) is Some);
        }
    }
    let mut client_id = String::from_str("bscp_");
    client_id.append(id_hex);
    let is_none = text::chars_eq(&text::chars_of(method.as_str()), &text::lit("none"));
    let (client_secret, client_secret_hash) = if is_none {
        (None, None)
    } else {
        let h = crypto::sha256_hex(secret.as_str());
        (Some(secret), Some(h))
    };
    let stored_name = match &req.client_name {
        Some(n) => n.clone(),
        None => String::new(),
    };
    let registration_token_hash = crypto::sha256_hex(reg_token.as_str());
    let mut registration_client_uri = String::from_str(public_url);
    registration_client_uri.append("/oauth/register/");
    registration_client_uri.append(client_id.as_str());
    Ok(
        Registration {
            client_id,
            client_secret,
            client_secret_hash,
            stored_name,
            client_name: req.client_name,
            redirect_uris: req.redirect_uris,
            token_endpoint_auth_method: method,
            scope,
            registration_access_token: reg_token,
            registration_token_hash,
            registration_client_uri,
        },
    )
}

/// The registration access token of a stored client matches `bearer` (its
/// stored SHA-256 hex equals that of `bearer`); no stored hash never matches.
pub fn registration_token_ok(stored_hash: &Option<String>, bearer: &str) -> (r: bool)
    ensures
        r == match stored_hash {
            Some(h) => h@ == text::hex_lower(crypto::sha256_of(text::utf8_bytes(bearer))),
            None => false,
        },
{
    match stored_hash {
        Some(h) => {
            let got = crypto::sha256_hex(bearer);
            h.eq(&got)
        },
        None => false,
    }
}

} // verus!
