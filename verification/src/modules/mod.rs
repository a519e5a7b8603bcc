//! Out-of-process modules: separate HTTP services that receive signed event
//! webhooks and can mediate external-account linking. The bus keeps the
//! installed modules and decides who receives which event.

use vstd::prelude::*;
use crate::crypto;
use crate::text;

pub mod links;

verus! {

/// An external account provider a module offers to link.
pub struct LinkProvider {
    pub id: String,
    pub name: String,
    pub icon_url: Option<String>,
}

/// The plain values of a link provider: id, name, icon URL.
pub open spec fn opt_chars(o: Option<String>) -> Option<Seq<char>> {
    match o {
        Some(s) => Some(s@),
        None => None,
    }
}

impl View for LinkProvider {
    type V = (Seq<char>, Seq<char>, Option<Seq<char>>);

    open spec fn view(&self) -> Self::V {
        (self.id@, self.name@, opt_chars(self.icon_url))
    }
}

impl Clone for LinkProvider {
    fn clone(&self) -> (r: Self)
        ensures
            r@ == self@,
    {
        LinkProvider { id: self.id.clone(), name: self.name.clone(), icon_url: clone_opt(&self.icon_url) }
    }
}

/// A copy of an optional string.
pub fn clone_opt(o: &Option<String>) -> (r: Option<String>)
    ensures
        r == *o,
{
    match o {
        Some(s) => Some(s.clone()),
        None => None,
    }
}

/// A copy of a list of strings.
pub fn clone_strings(v: &Vec<String>) -> (r: Vec<String>)
    ensures
        r@ == v@,
{
    let mut r: Vec<String> = Vec::new();
    let mut i: usize = 0;
    while i < v.len()
        invariant
            i <= v.len(),
            r@ == v@.take(i as int),
        decreases v.len() - i,
    {
        r.push(v[i].clone());
        assert(r@ =~= v@.take(i + 1));
        i = i + 1;
    }
    assert(r@ =~= v@);
    r
}

/// What a module serves at `/.well-known/bscp-module`.
pub struct ModuleManifest {
    pub name: String,
    pub version: String,
    pub description: String,
    pub events: Vec<String>,
    pub link_providers: Vec<LinkProvider>,
    pub admin_url: Option<String>,
}

/// The plain values of a manifest.
pub struct ManifestView {
    pub name: Seq<char>,
    pub version: Seq<char>,
    pub description: Seq<char>,
    pub events: Seq<Seq<char>>,
    pub link_providers: Seq<(Seq<char>, Seq<char>, Option<Seq<char>>)>,
    pub admin_url: Option<Seq<char>>,
}

impl View for ModuleManifest {
    type V = ManifestView;

    open spec fn view(&self) -> ManifestView {
        ManifestView {
            name: self.name@,
            version: self.version@,
            description: self.description@,
            events: self.events.deep_view(),
            link_providers: self.link_providers@.map_values(|p: LinkProvider| p@),
            admin_url: opt_chars(self.admin_url),
        }
    }
}

impl Clone for ModuleManifest {
    fn clone(&self) -> (r: Self)
        ensures
            r@ == self@,
    {
        let events = clone_strings(&self.events);
        let mut link_providers: Vec<LinkProvider> = Vec::new();
        let mut i: usize = 0;
        while i < self.link_providers.len()
            invariant
                i <= self.link_providers.len(),
                link_providers@.len() == i,
                forall|j: int| 0 <= j < i ==> (#[trigger] link_providers@[j])@ == self.link_providers@[j]@,
            decreases self.link_providers.len() - i,
        {
            link_providers.push(self.link_providers[i].clone());
            i = i + 1;
        }
        assert(link_providers@.map_values(|p: LinkProvider| p@) =~= self.link_providers@.map_values(|p: LinkProvider| p@));
        assert(events.deep_view() =~= self.events.deep_view());
        ModuleManifest {
            name: self.name.clone(),
            version: self.version.clone(),
            description: self.description.clone(),
            events,
            link_providers,
            admin_url: clone_opt(&self.admin_url),
        }
    }
}

/// Every field of a manifest is empty.
pub open spec fn empty_manifest(v: ManifestView) -> bool {
    &&& v.name.len() == 0
    &&& v.version.len() == 0
    &&& v.description.len() == 0
    &&& v.events.len() == 0
    &&& v.link_providers.len() == 0
    &&& v.admin_url is None
}

impl Default for ModuleManifest {
    /// The manifest of a module whose stored manifest is missing or unreadable
    /// (what an empty JSON object deserialises to): every field empty.
    fn default() -> (r: Self)
        ensures
            empty_manifest(r@),
    {
        ModuleManifest {
            name: String::new(),
            version: String::new(),
            description: String::new(),
            events: Vec::new(),
            link_providers: Vec::new(),
            admin_url: None,
        }
    }
}

/// An installed module.
pub struct Module {
    pub name: String,
    pub base_url: String,
    pub secret: String,
    pub manifest: ModuleManifest,
    pub enabled: bool,
}

/// The plain values of an installed module.
pub struct ModuleView {
    pub name: Seq<char>,
    pub base_url: Seq<char>,
    pub secret: Seq<char>,
    pub manifest: ManifestView,
    pub enabled: bool,
}

impl View for Module {
    type V = ModuleView;

    open spec fn view(&self) -> ModuleView {
        ModuleView {
            name: self.name@,
            base_url: self.base_url@,
            secret: self.secret@,
            manifest: self.manifest@,
            enabled: self.enabled,
        }
    }
}

/// The views of a list of modules.
pub open spec fn views(ms: Seq<Module>) -> Seq<ModuleView> {
    ms.map_values(|m: Module| m@)
}

impl Clone for Module {
    fn clone(&self) -> (r: Self)
        ensures
            r@ == self@,
    {
        Module {
            name: self.name.clone(),
            base_url: self.base_url.clone(),
            secret: self.secret.clone(),
            manifest: self.manifest.clone(),
            enabled: self.enabled,
        }
    }
}

/// A module as stored: its manifest (the default one when it is missing or
/// unreadable) and whether it is enabled (a non-zero flag).
pub fn module_from_row(
    name: String,
    base_url: String,
    secret: String,
    manifest: Option<ModuleManifest>,
    enabled: i64,
) -> (r: Module)
    ensures
        r.name == name,
        r.base_url == base_url,
        r.secret == secret,
        r.enabled == (enabled != 0),
        match manifest {
            Some(m) => r.manifest@ == m@,
            None => empty_manifest(r.manifest@),
        },
{
    let manifest = match manifest {
        Some(m) => m,
        None => ModuleManifest::default(),
    };
    Module { name, base_url, secret, manifest, enabled: enabled != 0 }
}

/// The pause before retrying an event delivery after failed attempt
/// `attempt` (counting from 0): 300 ms, then 600 ms; none after the third.
pub fn retry_delay_ms(attempt: u32) -> (r: Option<u64>)
    ensures
        match r {
            Some(ms) => attempt < 2 && ms == 300 * (attempt + 1),
            None => attempt >= 2,
        },
{
    if attempt < 2 {
        Some(300 * (attempt as u64 + 1))
    } else {
        None
    }
}

/// The display name of a link provider: its name, or its id when unnamed.
pub fn provider_display_name(p: &LinkProvider) -> (r: String)
    ensures
        r@ == (if p.name@.len() == 0 { p.id@ } else { p.name@ }),
{
    if p.name.as_str().is_empty() {
        p.id.clone()
    } else {
        p.name.clone()
    }
}

/// Whether a module subscribed to `event`.
pub open spec fn subscribed(m: ModuleView, event: Seq<char>) -> bool {
    m.manifest.events.contains(event)
}

/// The modules that are enabled, in order.
pub open spec fn enabled_spec(ms: Seq<ModuleView>) -> Seq<ModuleView>
    decreases ms.len(),
{
    if ms.len() == 0 {
        seq![]
    } else {
        enabled_spec(ms.drop_last()) + if ms.last().enabled {
            seq![ms.last()]
        } else {
            seq![]
        }
    }
}

/// The enabled modules subscribed to `event`, in order.
pub open spec fn targets_spec(ms: Seq<ModuleView>, event: Seq<char>) -> Seq<ModuleView>
    decreases ms.len(),
{
    if ms.len() == 0 {
        seq![]
    } else {
        targets_spec(ms.drop_last(), event) + if ms.last().enabled && subscribed(ms.last(), event) {
            seq![ms.last()]
        } else {
            seq![]
        }
    }
}

/// The first module named `name`.
pub open spec fn find_spec(ms: Seq<ModuleView>, name: Seq<char>) -> Option<ModuleView>
    decreases ms.len(),
{
    if ms.len() == 0 {
        None
    } else if ms[0].name == name {
        Some(ms[0])
    } else {
        find_spec(ms.drop_first(), name)
    }
}

/// The in-memory list of installed modules.
pub struct ModuleBus {
    pub modules: Vec<Module>,
}

impl ModuleBus {
    /// An empty bus.
    pub fn new() -> (r: Self)
        ensures
            r.modules@.len() == 0,
    {
        ModuleBus { modules: Vec::new() }
    }

    /// Replaces the module list with a freshly loaded one.
    pub fn reload(&mut self, modules: Vec<Module>)
        ensures
            views(final(self).modules@) == views(modules@),
    {
        self.modules = modules;
    }

    /// The enabled modules, in order.
    pub fn enabled(&self) -> (r: Vec<Module>)
        ensures
            views(r@) == enabled_spec(views(self.modules@)),
    {
        let mut r: Vec<Module> = Vec::new();
        let mut i: usize = 0;
        while i < self.modules.len()
            invariant
                i <= self.modules.len(),
                views(r@) == enabled_spec(views(self.modules@.take(i as int))),
            decreases self.modules.len() - i,
        {
            if self.modules[i].enabled {
                r.push(self.modules[i].clone());
            }
            proof {
                let t = views(self.modules@.take(i + 1));
                assert(t.drop_last() =~= views(self.modules@.take(i as int)));
                assert(views(r@) =~= enabled_spec(t));
            }
            i = i + 1;
        }
        assert(self.modules@.take(self.modules.len() as int) =~= self.modules@);
        r
    }

    /// The module named `name`, enabled or not.
    pub fn get(&self, name: &str) -> (r: Option<Module>)
        ensures
            match r {
                Some(m) => find_spec(views(self.modules@), name@) == Some(m@),
                None => find_spec(views(self.modules@), name@) is None,
            },
    {
        let want = text::chars_of(name);
        let mut i: usize = 0;
        assert(views(self.modules@.skip(0)) =~= views(self.modules@));
        while i < self.modules.len()
            invariant
                want@ == name@,
                i <= self.modules.len(),
                find_spec(views(self.modules@), name@) == find_spec(views(self.modules@.skip(i as int)), name@),
            decreases self.modules.len() - i,
        {
            proof {
                let t = views(self.modules@.skip(i as int));
                assert(t.drop_first() =~= views(self.modules@.skip(i + 1)));
                assert(t[0] == self.modules@[i as int]@);
            }
            if text::chars_eq(&text::chars_of(self.modules[i].name.as_str()), &want) {
                return Some(self.modules[i].clone());
            }
            i = i + 1;
        }
        None
    }

    /// The modules an event goes to: enabled and subscribed, in order.
    pub fn dispatch_targets(&self, event: &str) -> (r: Vec<Module>)
        ensures
            views(r@) == targets_spec(views(self.modules@), event@),
    {
        let mut r: Vec<Module> = Vec::new();
        let mut i: usize = 0;
        while i < self.modules.len()
            invariant
                i <= self.modules.len(),
                views(r@) == targets_spec(views(self.modules@.take(i as int)), event@),
            decreases self.modules.len() - i,
        {
            let m = &self.modules[i];
            if m.enabled && contains_string(&m.manifest.events, event) {
                r.push(m.clone());
            }
            proof {
                let t = views(self.modules@.take(i + 1));
                assert(t.drop_last() =~= views(self.modules@.take(i as int)));
                assert(views(r@) =~= targets_spec(t, event@));
            }
            i = i + 1;
        }
        assert(self.modules@.take(self.modules.len() as int) =~= self.modules@);
        r
    }
}

/// Whether one of `ss` equals `s`.
pub fn contains_string(ss: &Vec<String>, s: &str) -> (r: bool)
    ensures
        r == ss.deep_view().contains(s@),
{
    let want = text::chars_of(s);
    let mut i: usize = 0;
    while i < ss.len()
        invariant
            want@ == s@,
            i <= ss.len(),
            forall|j: int| 0 <= j < i ==> ss.deep_view()[j] != s@,
        decreases ss.len() - i,
    {
        if text::chars_eq(&text::chars_of(ss[i].as_str()), &want) {
            assert(ss.deep_view()[i as int] == s@);
            return true;
        }
        i = i + 1;
    }
    assert forall|x: Seq<char>| ss.deep_view().contains(x) implies x != s@ by {
        let j = choose|j: int| 0 <= j < ss.deep_view().len() && ss.deep_view()[j] == x;
    }
    false
}

/// The signature header value of a body signed with a module secret:
/// `sha256=` and the hex HMAC-SHA256.
pub open spec fn signature_spec(secret: Seq<char>, body: Seq<u8>) -> Seq<char> {
    "sha256="@ + text::hex_lower(crypto::hmac_sha256_of(vstd::utf8::encode_utf8(secret), body))
}

/// The `X-BSCP-Signature` value for a body sent to or received from a module.
pub fn signature(secret: &str, body: &[u8]) -> (r: String)
    ensures
        r@ == signature_spec(secret@, body@),
{
    let mut r = String::from_str("sha256=");
    let h = crypto::hmac_hex(secret, body);
    r.append(h.as_str());
    r
}

/// Compares two strings byte by byte without stopping at the first difference.
pub fn constant_eq(a: &str, b: &str) -> (r: bool)
    ensures
        r == (a@ == b@),
{
    let x = a.as_bytes();
    let y = b.as_bytes();
    proof {
        vstd::utf8::encode_utf8_decode_utf8(a@);
        vstd::utf8::encode_utf8_decode_utf8(b@);
    }
    if x.len() != y.len() {
        return false;
    }
    let mut acc: u8 = 0;
    let mut i: usize = 0;
    while i < x.len()
        invariant
            x.len() == y.len(),
            i <= x.len(),
            (acc == 0) == (forall|j: int| 0 <= j < i ==> x@[j] == y@[j]),
        decreases x.len() - i,
    {
        let p = x[i];
        let q = y[i];
        let next = acc | (p ^ q);
        assert((next == 0) == (acc == 0 && p == q)) by (bit_vector)
            requires
                next == acc | (p ^ q),
        ;
        acc = next;
        i = i + 1;
    }
    if acc == 0 {
        assert(x@ =~= y@);
        true
    } else {
        false
    }
}

/// The modules' callback signature must match the body signed with the module secret.
pub fn signature_ok(secret: &str, body: &[u8], header: &str) -> (r: bool)
    ensures
        r == (header@ == signature_spec(secret@, body@)),
{
    let expected = signature(secret, body);
    constant_eq(header, expected.as_str())
}

/// `{base_url without trailing slashes}/{path}`.
pub fn module_url(base_url: &str, path: &str) -> (r: String)
    ensures
        r@ == crate::oidc::clients::trim_end_char(base_url@, '/') + seq!['/'] + path@,
{
    let mut r = crate::oidc::clients::trim_end(base_url, '/');
    text::string_push(&mut r, '/');
    r.append(path);
    r
}

} // verus!
