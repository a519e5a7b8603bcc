//! External account linking through modules: the providers a user is
//! offered, starting a link, and the checks on a module's callback.

use vstd::prelude::*;
use crate::codec;
use crate::modules::{self, links, LinkProvider, Module, ModuleBus, ModuleView};
use crate::oidc::clients;

verus! {

/// A provider offered to a user: its module, id, display name, icon, and the
/// position of the user's link to it in the list of links, if there is one.
pub struct ProviderEntry {
    pub module: String,
    pub id: String,
    pub name: String,
    pub icon_url: Option<String>,
    pub link: Option<usize>,
}

/// The plain values of an entry, without its link.
pub open spec fn entry_view(e: ProviderEntry) -> (Seq<char>, Seq<char>, Seq<char>, Option<Seq<char>>) {
    (e.module@, e.id@, e.name@, modules::opt_chars(e.icon_url))
}

/// The entry of provider `p` of module `m`.
pub open spec fn entry_of(m: Seq<char>, p: (Seq<char>, Seq<char>, Option<Seq<char>>)) -> (
    Seq<char>,
    Seq<char>,
    Seq<char>,
    Option<Seq<char>>,
) {
    (m, p.0, if p.1.len() == 0 {
        p.0
    } else {
        p.1
    }, p.2)
}

/// Every provider of every enabled module, in order.
pub open spec fn entries_spec(ms: Seq<ModuleView>) -> Seq<
    (Seq<char>, Seq<char>, Seq<char>, Option<Seq<char>>),
>
    decreases ms.len(),
{
    if ms.len() == 0 {
        seq![]
    } else {
        entries_spec(ms.drop_last()) + if ms.last().enabled {
            ms.last().manifest.link_providers.map_values(
                |p: (Seq<char>, Seq<char>, Option<Seq<char>>)| entry_of(ms.last().name, p),
            )
        } else {
            seq![]
        }
    }
}

/// The plain values of a list of `(module, provider)` links.
pub open spec fn pairs(v: Vec<(String, String)>) -> Seq<(Seq<char>, Seq<char>)> {
    v@.map_values(|l: (String, String)| (l.0@, l.1@))
}

/// `l` is the position of the first link to provider `p` of module `m`, or
/// none when there is none.
pub open spec fn first_link(links: Seq<(Seq<char>, Seq<char>)>, m: Seq<char>, p: Seq<char>, l: Option<usize>) -> bool {
    match l {
        Some(i) => i < links.len() && links[i as int] == (m, p) && forall|j: int|
            0 <= j < i ==> links[j] != (m, p),
        None => forall|j: int| 0 <= j < links.len() ==> links[j] != (m, p),
    }
}

fn find_link(links: &Vec<(String, String)>, m: &String, p: &String) -> (r: Option<usize>)
    ensures
        first_link(pairs(*links), m@, p@, r),
{
    let mut i: usize = 0;
    while i < links.len()
        invariant
            i <= links@.len(),
            forall|j: int| 0 <= j < i ==> pairs(*links)[j] != (m@, p@),
        decreases links@.len() - i,
    {
        if links[i].0.eq(m) && links[i].1.eq(p) {
            return Some(i);
        }
        i = i + 1;
    }
    None
}

/// The providers a user is offered: every provider of every enabled module,
/// in order, each with its display name and the user's first link to it.
pub fn provider_entries(ms: &Vec<Module>, links: &Vec<(String, String)>) -> (r: Vec<ProviderEntry>)
    ensures
        r@.len() == entries_spec(modules::views(ms@)).len(),
        forall|k: int|
            0 <= k < r@.len() ==> entry_view(#[trigger] r@[k]) == entries_spec(modules::views(ms@))[k]
                && first_link(pairs(*links), r@[k].module@, r@[k].id@, r@[k].link),
{
    let mut r: Vec<ProviderEntry> = Vec::new();
    let mut i: usize = 0;
    while i < ms.len()
        invariant
            i <= ms@.len(),
            r@.len() == entries_spec(modules::views(ms@.take(i as int))).len(),
            forall|k: int|
                0 <= k < r@.len() ==> entry_view(#[trigger] r@[k]) == entries_spec(
                    modules::views(ms@.take(i as int)),
                )[k] && first_link(pairs(*links), r@[k].module@, r@[k].id@, r@[k].link),
        decreases ms@.len() - i,
    {
        let m = &ms[i];
        let ghost before = entries_spec(modules::views(ms@.take(i as int)));
        let ghost t = modules::views(ms@.take(i + 1));
        proof {
            assert(t.drop_last() =~= modules::views(ms@.take(i as int)));
            assert(t.last() == m@);
        }
        if m.enabled {
            let ghost provs = m@.manifest.link_providers;
            let mut j: usize = 0;
            while j < m.manifest.link_providers.len()
                invariant
                    m@ == ms@[i as int]@,
                    m.enabled,
                    provs == m@.manifest.link_providers,
                    j <= m.manifest.link_providers@.len(),
                    r@.len() == before.len() + j,
                    forall|k: int|
                        0 <= k < before.len() ==> entry_view(#[trigger] r@[k]) == before[k]
                            && first_link(pairs(*links), r@[k].module@, r@[k].id@, r@[k].link),
                    forall|k: int|
                        before.len() <= k < r@.len() ==> entry_view(#[trigger] r@[k]) == entry_of(
                            m@.name,
                            provs[k - before.len()],
                        ) && first_link(pairs(*links), r@[k].module@, r@[k].id@, r@[k].link),
                decreases m.manifest.link_providers@.len() - j,
            {
                let p: &LinkProvider = &m.manifest.link_providers[j];
                assert(provs[j as int] == p@);
                let name = modules::provider_display_name(p);
                let link = find_link(links, &m.name, &p.id);
                r.push(
                    ProviderEntry {
                        module: m.name.clone(),
                        id: p.id.clone(),
                        name,
                        icon_url: modules::clone_opt(&p.icon_url),
                        link,
                    },
                );
                j = j + 1;
            }
            proof {
                let add = provs.map_values(
                    |p: (Seq<char>, Seq<char>, Option<Seq<char>>)| entry_of(m@.name, p),
                );
                assert(entries_spec(t) =~= before + add);
            }
        } else {
            proof {
                assert(entries_spec(t) =~= before);
            }
        }
        i = i + 1;
    }
    assert(ms@.take(ms@.len() as int) =~= ms@);
    r
}

/// Why a link cannot be started.
pub open spec fn link_start_refusal(found: Option<ModuleView>, provider: Seq<char>) -> Option<Seq<char>> {
    match found {
        None => Some("unknown module"@),
        Some(m) => if !m.enabled {
            Some("unknown module"@)
        } else if !(exists|k: int|
            0 <= k < m.manifest.link_providers.len() && (#[trigger] m.manifest.link_providers[k]).0
                == provider) {
            Some("unknown provider"@)
        } else {
            None
        },
    }
}

/// The installed, enabled module named `module` that offers `provider`.
pub fn link_start_module(bus: &ModuleBus, module: &str, provider: &str) -> (r: Result<Module, &'static str>)
    ensures
        match r {
            Ok(m) => link_start_refusal(modules::find_spec(modules::views(bus.modules@), module@), provider@) is None
                && modules::find_spec(modules::views(bus.modules@), module@) == Some(m@),
            Err(e) => link_start_refusal(modules::find_spec(modules::views(bus.modules@), module@), provider@)
                == Some(e@),
        },
{
    let m = match bus.get(module) {
        Some(m) => m,
        None => return Err("unknown module"),
    };
    if !m.enabled {
        return Err("unknown module");
    }
    let want = String::from_str(provider);
    let mut k: usize = 0;
    while k < m.manifest.link_providers.len()
        invariant
            want@ == provider@,
            modules::find_spec(modules::views(bus.modules@), module@) == Some(m@),
            m.enabled,
            k <= m.manifest.link_providers@.len(),
            forall|j: int| 0 <= j < k ==> (#[trigger] m@.manifest.link_providers[j]).0 != provider@,
        decreases m.manifest.link_providers@.len() - k,
    {
        assert(m@.manifest.link_providers[k as int] == m.manifest.link_providers@[k as int]@);
        if m.manifest.link_providers[k].id.eq(&want) {
            assert(m@.manifest.link_providers[k as int].0 == provider@);
            return Ok(m);
        }
        k = k + 1;
    }
    Err("unknown provider")
}

/// Where the module takes the user to link `provider`:
/// `{base_url without trailing slashes}/link/{provider}` with the query
/// pairs `ticket` and `callback` appended; `None` when that is no URL.
pub open spec fn link_redirect_spec(
    base_url: Seq<char>,
    provider: Seq<char>,
    ticket: Seq<char>,
    callback: Seq<char>,
) -> Option<Seq<char>> {
    codec::url_with_pairs_of(
        clients::trim_end_char(base_url, '/') + "/link/"@ + provider,
        "ticket"@,
        ticket,
        "callback"@,
        callback,
    )
}

/// The callback a module posts a completed link to: `{public_url}/api/modules/{module}/links`.
pub fn link_callback_url(public_url: &str, module: &str) -> (r: String)
    ensures
        r@ == public_url@ + "/api/modules/"@ + module@ + "/links"@,
{
    let mut r = String::from_str(public_url);
    r.append("/api/modules/");
    r.append(module);
    r.append("/links");
    r
}

/// The redirect that starts a link at the module.
pub fn link_redirect(base_url: &str, provider: &str, ticket: &str, callback: &str) -> (r: Option<String>)
    ensures
        match r {
            Some(u) => link_redirect_spec(base_url@, provider@, ticket@, callback@) == Some(u@),
            None => link_redirect_spec(base_url@, provider@, ticket@, callback@) is None,
        },
{
    let mut u = clients::trim_end(base_url, '/');
    u.append("/link/");
    u.append(provider);
    codec::url_with_pairs(u.as_str(), "ticket", ticket, "callback", callback)
}

/// Why a module's link callback is refused.
pub enum CallbackRefusal {
    UnknownModule,
    BadSignature,
    BadTicket,
    ModuleMismatch,
}

/// The module a callback claims to come from, when it exists and the body
/// carries its signature.
pub fn callback_module(bus: &ModuleBus, module: &str, signature: &str, raw: &[u8]) -> (r: Result<Module, CallbackRefusal>)
    ensures
        match r {
            Ok(m) => modules::find_spec(modules::views(bus.modules@), module@) == Some(m@)
                && signature@ == modules::signature_spec(m@.secret, raw@),
            Err(CallbackRefusal::UnknownModule) => modules::find_spec(modules::views(bus.modules@), module@) is None,
            Err(CallbackRefusal::BadSignature) => match modules::find_spec(modules::views(bus.modules@), module@) {
                Some(m) => signature@ != modules::signature_spec(m.secret, raw@),
                None => false,
            },
            Err(_) => false,
        },
{
    let m = match bus.get(module) {
        Some(m) => m,
        None => return Err(CallbackRefusal::UnknownModule),
    };
    if !modules::signature_ok(m.secret.as_str(), raw, signature) {
        return Err(CallbackRefusal::BadSignature);
    }
    Ok(m)
}

/// The user and provider a callback's ticket grants, when the ticket checks
/// out at time `now` and names the module the callback came to.
pub fn callback_ticket(secret: &str, ticket: &str, now: i64, module: &str) -> (r: Result<(String, String), CallbackRefusal>)
    ensures
        match r {
            Ok((u, p)) => links::verify_spec(secret@, ticket@, now as int) == Some((u@, module@, p@)),
            Err(CallbackRefusal::BadTicket) => links::verify_spec(secret@, ticket@, now as int) is None,
            Err(CallbackRefusal::ModuleMismatch) => match links::verify_spec(secret@, ticket@, now as int) {
                Some((_, m, _)) => m != module@,
                None => false,
            },
            Err(_) => false,
        },
{
    match links::verify_ticket(secret, ticket, now) {
        None => Err(CallbackRefusal::BadTicket),
        Some((u, m, p)) => {
            if m.eq(&String::from_str(module)) {
                Ok((u, p))
            } else {
                Err(CallbackRefusal::ModuleMismatch)
            }
        },
    }
}

} // verus!
