//! Call subsystem state: which browser tabs are open, which invites are
//! pending, which link leads to each call's manager, which call each local
//! user is in and which local users are in each call.
//!
//! The state is generic over the sink type `S` through which frames reach a
//! browser tab or a call manager; sending on a sink is the caller's work.

use vstd::prelude::*;
use crate::keyed::Keyed;

pub mod engine;
pub mod ws;

verus! {

/// An unaccepted `call_invite` this server received for a local user.
pub struct PendingInvite {
    pub call_id: String,
    pub from: String,
    pub manager_ws_url: String,
    pub token: String,
    pub for_user_id: String,
}

impl Clone for PendingInvite {
    fn clone(&self) -> (r: Self)
        ensures
            r == *self,
    {
        PendingInvite {
            call_id: self.call_id.clone(),
            from: self.from.clone(),
            manager_ws_url: self.manager_ws_url.clone(),
            token: self.token.clone(),
            for_user_id: self.for_user_id.clone(),
        }
    }
}

/// The plain values of a list of strings.
pub open spec fn strs(v: Vec<String>) -> Seq<Seq<char>> {
    v@.map_values(|s: String| s@)
}

/// What the call state holds: this server's domain, the next browser connection id, the open tabs
/// of each user (connection id and sink), pending invites by call, manager
/// links by call, the call of each user, the local members of each call.
pub struct CallView<S> {
    pub domain: Seq<char>,
    pub next_id: u64,
    pub tabs: Map<Seq<char>, Seq<(u64, S)>>,
    pub pending: Map<Seq<char>, PendingInvite>,
    pub links: Map<Seq<char>, S>,
    pub calls: Map<Seq<char>, Seq<char>>,
    pub locals: Map<Seq<char>, Seq<Seq<char>>>,
}

/// No user is listed with zero tabs; no call is listed with zero local
/// members or with a member twice.
pub open spec fn consistent<S>(v: CallView<S>) -> bool {
    &&& forall|u: Seq<char>| #[trigger] v.tabs.contains_key(u) ==> v.tabs[u].len() > 0
    &&& forall|c: Seq<char>| #[trigger] v.locals.contains_key(c) ==> v.locals[c].len() > 0
        && v.locals[c].no_duplicates()
}

/// The counter after handing out `id` (it wraps, as an atomic add does).
pub open spec fn next_after(id: u64) -> u64 {
    if id == u64::MAX {
        0
    } else {
        (id + 1) as u64
    }
}

/// The tabs of a user, none when the user has none.
pub open spec fn tabs_of<S>(tabs: Map<Seq<char>, Seq<(u64, S)>>, u: Seq<char>) -> Seq<(u64, S)> {
    if tabs.contains_key(u) {
        tabs[u]
    } else {
        seq![]
    }
}

/// The tabs after registering connection `id` of user `u`.
pub open spec fn tabs_after_register<S>(
    tabs: Map<Seq<char>, Seq<(u64, S)>>,
    u: Seq<char>,
    id: u64,
    sink: S,
) -> Map<Seq<char>, Seq<(u64, S)>> {
    tabs.insert(u, tabs_of(tabs, u).push((id, sink)))
}

/// A list of tabs without connection `id`, in order.
pub open spec fn without_conn<S>(l: Seq<(u64, S)>, id: u64) -> Seq<(u64, S)>
    decreases l.len(),
{
    if l.len() == 0 {
        seq![]
    } else {
        without_conn(l.drop_last(), id) + if l.last().0 == id {
            seq![]
        } else {
            seq![l.last()]
        }
    }
}

/// The tabs after closing connection `id` of user `u`; a user left with no
/// tab is dropped.
pub open spec fn tabs_after_unregister<S>(
    tabs: Map<Seq<char>, Seq<(u64, S)>>,
    u: Seq<char>,
    id: u64,
) -> Map<Seq<char>, Seq<(u64, S)>> {
    if !tabs.contains_key(u) {
        tabs
    } else if without_conn(tabs[u], id).len() == 0 {
        tabs.remove(u)
    } else {
        tabs.insert(u, without_conn(tabs[u], id))
    }
}

/// A list of tabs none of which is connection `id` is left as it is.
pub proof fn lemma_without_absent_conn<S>(l: Seq<(u64, S)>, id: u64)
    requires
        forall|i: int| 0 <= i < l.len() ==> (#[trigger] l[i]).0 != id,
    ensures
        without_conn(l, id) == l,
    decreases l.len(),
{
    if l.len() > 0 {
        lemma_without_absent_conn(l.drop_last(), id);
        assert(l.drop_last() + seq![l.last()] =~= l);
    }
}

/// Closing a tab right after opening it gives the tabs back as they were,
/// when the new connection id was not already one of that user's tabs.
pub proof fn lemma_register_unregister<S>(
    tabs: Map<Seq<char>, Seq<(u64, S)>>,
    u: Seq<char>,
    id: u64,
    sink: S,
)
    requires
        forall|k: Seq<char>| #[trigger] tabs.contains_key(k) ==> tabs[k].len() > 0,
        forall|i: int| 0 <= i < tabs_of(tabs, u).len() ==> (#[trigger] tabs_of(tabs, u)[i]).0 != id,
    ensures
        tabs_after_unregister(tabs_after_register(tabs, u, id, sink), u, id) == tabs,
{
    let l = tabs_of(tabs, u);
    let after = tabs_after_register(tabs, u, id, sink);
    lemma_without_absent_conn(l, id);
    assert(l.push((id, sink)).drop_last() =~= l);
    assert(without_conn(after[u], id) == l);
    if tabs.contains_key(u) {
        assert(after.insert(u, l) =~= tabs);
    } else {
        assert(after.remove(u) =~= tabs);
    }
}

/// A list of users without `u`, in order.
pub open spec fn without_user(l: Seq<Seq<char>>, u: Seq<char>) -> Seq<Seq<char>>
    decreases l.len(),
{
    if l.len() == 0 {
        seq![]
    } else {
        without_user(l.drop_last(), u) + if l.last() == u {
            seq![]
        } else {
            seq![l.last()]
        }
    }
}

/// The local members of a call, none when it has none.
pub open spec fn locals_of(locals: Map<Seq<char>, Seq<Seq<char>>>, c: Seq<char>) -> Seq<Seq<char>> {
    if locals.contains_key(c) {
        locals[c]
    } else {
        seq![]
    }
}

/// The local members after `u` joins call `c` (a member already there stays once).
pub open spec fn locals_after_add(
    locals: Map<Seq<char>, Seq<Seq<char>>>,
    c: Seq<char>,
    u: Seq<char>,
) -> Map<Seq<char>, Seq<Seq<char>>> {
    if locals_of(locals, c).contains(u) {
        locals
    } else {
        locals.insert(c, locals_of(locals, c).push(u))
    }
}

/// The local members after `u` leaves call `c`; a call left with no local
/// member is dropped.
pub open spec fn locals_after_remove(
    locals: Map<Seq<char>, Seq<Seq<char>>>,
    c: Seq<char>,
    u: Seq<char>,
) -> Map<Seq<char>, Seq<Seq<char>>> {
    if !locals.contains_key(c) {
        locals
    } else if without_user(locals[c], u).len() == 0 {
        locals.remove(c)
    } else {
        locals.insert(c, without_user(locals[c], u))
    }
}

/// The calls of users after those of `uids` who were in call `c` leave it.
pub open spec fn calls_after_drain(
    calls: Map<Seq<char>, Seq<char>>,
    uids: Seq<Seq<char>>,
    c: Seq<char>,
) -> Map<Seq<char>, Seq<char>> {
    Map::new(
        |k: Seq<char>| calls.contains_key(k) && !(uids.contains(k) && calls[k] == c),
        |k: Seq<char>| calls[k],
    )
}

/// The in-memory call registry of this server.
pub struct CallState<S> {
    domain: String,
    next_conn_id: u64,
    browsers: Keyed<Vec<(u64, S)>>,
    pending: Keyed<PendingInvite>,
    to_manager: Keyed<S>,
    user_call: Keyed<String>,
    call_locals: Keyed<Vec<String>>,
}

impl<S> View for CallState<S> {
    type V = CallView<S>;

    closed spec fn view(&self) -> CallView<S> {
        CallView {
            domain: self.domain@,
            next_id: self.next_conn_id,
            tabs: self.browsers@.map_values(|v: Vec<(u64, S)>| v@),
            pending: self.pending@,
            links: self.to_manager@,
            calls: self.user_call@.map_values(|s: String| s@),
            locals: self.call_locals@.map_values(|v: Vec<String>| strs(v)),
        }
    }
}

impl<S> CallState<S> {
    /// The registries are well formed and the view is consistent.
    pub closed spec fn wf(&self) -> bool {
        &&& self.browsers.wf()
        &&& self.pending.wf()
        &&& self.to_manager.wf()
        &&& self.user_call.wf()
        &&& self.call_locals.wf()
        &&& forall|u: Seq<char>| #[trigger] self.browsers@.contains_key(u) ==> self.browsers@[u]@.len() > 0
        &&& forall|c: Seq<char>| #[trigger] self.call_locals@.contains_key(c) ==> strs(self.call_locals@[c]).len() > 0
            && strs(self.call_locals@[c]).no_duplicates()
    }

    /// Every state the operations below produce is consistent.
    pub proof fn lemma_consistent(&self)
        requires
            self.wf(),
        ensures
            consistent(self@),
    {
        let v = self@;
        assert forall|u: Seq<char>| #[trigger] v.tabs.contains_key(u) implies v.tabs[u].len() > 0 by {
            assert(self.browsers@.contains_key(u));
        }
        assert forall|c: Seq<char>| #[trigger] v.locals.contains_key(c) implies v.locals[c].len() > 0
            && v.locals[c].no_duplicates() by {
            assert(self.call_locals@.contains_key(c));
        }
    }

    /// An empty registry for `domain`; browser connection ids start at 1.
    pub fn new(domain: String) -> (r: Self)
        ensures
            r.wf(),
            r@.domain == domain@,
            r@.next_id == 1,
            r@.tabs == Map::<Seq<char>, Seq<(u64, S)>>::empty(),
            r@.pending == Map::<Seq<char>, PendingInvite>::empty(),
            r@.links == Map::<Seq<char>, S>::empty(),
            r@.calls == Map::<Seq<char>, Seq<char>>::empty(),
            r@.locals == Map::<Seq<char>, Seq<Seq<char>>>::empty(),
    {
        let r = CallState {
            domain,
            next_conn_id: 1,
            browsers: Keyed::new(),
            pending: Keyed::new(),
            to_manager: Keyed::new(),
            user_call: Keyed::new(),
            call_locals: Keyed::new(),
        };
        assert(r@.tabs =~= Map::<Seq<char>, Seq<(u64, S)>>::empty());
        assert(r@.calls =~= Map::<Seq<char>, Seq<char>>::empty());
        assert(r@.locals =~= Map::<Seq<char>, Seq<Seq<char>>>::empty());
        r
    }

    /// The domain of this server.
    pub fn domain(&self) -> (r: &str)
        ensures
            r@ == self@.domain,
    {
        self.domain.as_str()
    }

    // ── browser registry ────────────────────────────────────────────────

    /// Records an open browser tab of `user_id`; returns its connection id.
    pub fn register_browser(&mut self, user_id: &str, sink: S) -> (id: u64)
        requires
            old(self).wf(),
        ensures
            final(self).wf(),
            final(self)@.domain == old(self)@.domain,
            id == old(self)@.next_id,
            final(self)@.next_id == next_after(id),
            final(self)@.tabs == tabs_after_register(old(self)@.tabs, user_id@, id, sink),
            final(self)@.pending == old(self)@.pending,
            final(self)@.links == old(self)@.links,
            final(self)@.calls == old(self)@.calls,
            final(self)@.locals == old(self)@.locals,
    {
        let ghost tabs0 = self@.tabs;
        let id = self.next_conn_id;
        self.next_conn_id = self.next_conn_id.wrapping_add(1);
        let mut v = match self.browsers.remove(user_id) {
            Some(v) => v,
            None => Vec::new(),
        };
        assert(v@ == tabs_of(tabs0, user_id@));
        v.push((id, sink));
        self.browsers.insert(user_id, v);
        proof {
            assert(self@.tabs =~= tabs_after_register(tabs0, user_id@, id, sink));
        }
        id
    }

    /// Forgets connection `conn_id` of `user_id`, and the user once no tab is left.
    pub fn unregister_browser(&mut self, user_id: &str, conn_id: u64)
        requires
            old(self).wf(),
        ensures
            final(self).wf(),
            final(self)@.domain == old(self)@.domain,
            final(self)@.next_id == old(self)@.next_id,
            final(self)@.tabs == tabs_after_unregister(old(self)@.tabs, user_id@, conn_id),
            final(self)@.pending == old(self)@.pending,
            final(self)@.links == old(self)@.links,
            final(self)@.calls == old(self)@.calls,
            final(self)@.locals == old(self)@.locals,
    {
        let ghost tabs0 = self@.tabs;
        match self.browsers.remove(user_id) {
            None => {
                proof {
                    assert(self@.tabs =~= tabs0);
                }
            },
            Some(v) => {
                let kept = drop_conn(v, conn_id);
                if kept.len() > 0 {
                    self.browsers.insert(user_id, kept);
                    proof {
                        assert(self@.tabs =~= tabs_after_unregister(tabs0, user_id@, conn_id));
                    }
                } else {
                    proof {
                        assert(self@.tabs =~= tabs_after_unregister(tabs0, user_id@, conn_id));
                    }
                }
            },
        }
    }

    /// The open tabs of `user_id`, if it has any.
    pub fn tabs(&self, user_id: &str) -> (r: Option<&Vec<(u64, S)>>)
        requires
            self.wf(),
        ensures
            match r {
                Some(v) => self@.tabs.contains_key(user_id@) && v@ == self@.tabs[user_id@],
                None => !self@.tabs.contains_key(user_id@),
            },
    {
        self.browsers.get(user_id)
    }

    /// Whether `user_id` has at least one open tab.
    pub fn user_has_socket(&self, user_id: &str) -> (r: bool)
        requires
            self.wf(),
        ensures
            r == self@.tabs.contains_key(user_id@),
            r == (tabs_of(self@.tabs, user_id@).len() > 0),
    {
        self.browsers.contains_key(user_id)
    }

    // ── pending invites ─────────────────────────────────────────────────

    /// Records an invite, replacing any earlier one for the same call.
    pub fn add_pending(&mut self, inv: PendingInvite)
        requires
            old(self).wf(),
        ensures
            final(self).wf(),
            final(self)@.domain == old(self)@.domain,
            final(self)@.next_id == old(self)@.next_id,
            final(self)@.tabs == old(self)@.tabs,
            final(self)@.pending == old(self)@.pending.insert(inv.call_id@, inv),
            final(self)@.links == old(self)@.links,
            final(self)@.calls == old(self)@.calls,
            final(self)@.locals == old(self)@.locals,
    {
        let key = inv.call_id.clone();
        self.pending.insert(key.as_str(), inv);
    }

    /// Removes and returns the invite for `call_id`.
    pub fn take_pending(&mut self, call_id: &str) -> (r: Option<PendingInvite>)
        requires
            old(self).wf(),
        ensures
            final(self).wf(),
            final(self)@.domain == old(self)@.domain,
            final(self)@.next_id == old(self)@.next_id,
            final(self)@.tabs == old(self)@.tabs,
            final(self)@.pending == old(self)@.pending.remove(call_id@),
            final(self)@.links == old(self)@.links,
            final(self)@.calls == old(self)@.calls,
            final(self)@.locals == old(self)@.locals,
            r == old(self)@.pending.get(call_id@),
    {
        let r = self.pending.remove(call_id);
        r
    }

    /// The invite for `call_id`, left in place.
    pub fn peek_pending(&self, call_id: &str) -> (r: Option<PendingInvite>)
        requires
            self.wf(),
        ensures
            r == self@.pending.get(call_id@),
    {
        match self.pending.get(call_id) {
            Some(inv) => Some(inv.clone()),
            None => None,
        }
    }

    // ── manager link + membership ───────────────────────────────────────

    /// Records the sink toward the manager of `call_id`.
    pub fn set_manager_link(&mut self, call_id: &str, sink: S)
        requires
            old(self).wf(),
        ensures
            final(self).wf(),
            final(self)@.domain == old(self)@.domain,
            final(self)@.next_id == old(self)@.next_id,
            final(self)@.tabs == old(self)@.tabs,
            final(self)@.pending == old(self)@.pending,
            final(self)@.links == old(self)@.links.insert(call_id@, sink),
            final(self)@.calls == old(self)@.calls,
            final(self)@.locals == old(self)@.locals,
    {
        self.to_manager.insert(call_id, sink);
    }

    /// The sink toward the manager of `call_id`.
    pub fn manager_link(&self, call_id: &str) -> (r: Option<&S>)
        requires
            self.wf(),
        ensures
            match r {
                Some(s) => self@.links.contains_key(call_id@) && *s == self@.links[call_id@],
                None => !self@.links.contains_key(call_id@),
            },
    {
        self.to_manager.get(call_id)
    }

    /// Forgets the manager link of `call_id`.
    pub fn drop_manager_link(&mut self, call_id: &str)
        requires
            old(self).wf(),
        ensures
            final(self).wf(),
            final(self)@.domain == old(self)@.domain,
            final(self)@.next_id == old(self)@.next_id,
            final(self)@.tabs == old(self)@.tabs,
            final(self)@.pending == old(self)@.pending,
            final(self)@.links == old(self)@.links.remove(call_id@),
            final(self)@.calls == old(self)@.calls,
            final(self)@.locals == old(self)@.locals,
    {
        let _ = self.to_manager.remove(call_id);
    }

    /// Records that `user_id` is in `call_id`.
    pub fn set_user_call(&mut self, user_id: &str, call_id: &str)
        requires
            old(self).wf(),
        ensures
            final(self).wf(),
            final(self)@.domain == old(self)@.domain,
            final(self)@.next_id == old(self)@.next_id,
            final(self)@.tabs == old(self)@.tabs,
            final(self)@.pending == old(self)@.pending,
            final(self)@.links == old(self)@.links,
            final(self)@.calls == old(self)@.calls.insert(user_id@, call_id@),
            final(self)@.locals == old(self)@.locals,
    {
        let ghost calls0 = self@.calls;
        self.user_call.insert(user_id, String::from_str(call_id));
        assert(self@.calls =~= calls0.insert(user_id@, call_id@));
    }

    /// Forgets the call of `user_id`, returning it.
    pub fn clear_user_call(&mut self, user_id: &str) -> (r: Option<String>)
        requires
            old(self).wf(),
        ensures
            final(self).wf(),
            final(self)@.domain == old(self)@.domain,
            final(self)@.next_id == old(self)@.next_id,
            final(self)@.tabs == old(self)@.tabs,
            final(self)@.pending == old(self)@.pending,
            final(self)@.links == old(self)@.links,
            final(self)@.calls == old(self)@.calls.remove(user_id@),
            final(self)@.locals == old(self)@.locals,
            match r {
                Some(c) => old(self)@.calls.contains_key(user_id@) && c@ == old(self)@.calls[user_id@],
                None => !old(self)@.calls.contains_key(user_id@),
            },
    {
        let ghost calls0 = self@.calls;
        let r = self.user_call.remove(user_id);
        assert(self@.calls =~= calls0.remove(user_id@));
        r
    }

    /// The call `user_id` is in.
    pub fn user_call(&self, user_id: &str) -> (r: Option<String>)
        requires
            self.wf(),
        ensures
            match r {
                Some(c) => self@.calls.contains_key(user_id@) && c@ == self@.calls[user_id@],
                None => !self@.calls.contains_key(user_id@),
            },
    {
        match self.user_call.get(user_id) {
            Some(c) => Some(c.clone()),
            None => None,
        }
    }

    // ── local members of a call ─────────────────────────────────────────

    /// Adds `user_id` to the local members of `call_id` (once).
    pub fn add_local(&mut self, call_id: &str, user_id: &str)
        requires
            old(self).wf(),
        ensures
            final(self).wf(),
            final(self)@.domain == old(self)@.domain,
            final(self)@.next_id == old(self)@.next_id,
            final(self)@.tabs == old(self)@.tabs,
            final(self)@.pending == old(self)@.pending,
            final(self)@.links == old(self)@.links,
            final(self)@.calls == old(self)@.calls,
            final(self)@.locals == locals_after_add(old(self)@.locals, call_id@, user_id@),
            final(self)@.locals[call_id@].contains(user_id@),
    {
        let ghost locals0 = self@.locals;
        let mut v = match self.call_locals.remove(call_id) {
            Some(v) => v,
            None => Vec::new(),
        };
        assert(strs(v) == locals_of(locals0, call_id@));
        if !contains_str(&v, user_id) {
            let ghost before = v@;
            v.push(String::from_str(user_id));
            assert(strs(v) =~= strs_of(before).push(user_id@));
        }
        self.call_locals.insert(call_id, v);
        proof {
            assert(self@.locals =~= locals_after_add(locals0, call_id@, user_id@));
            assert(locals_of(locals0, call_id@).push(user_id@).last() == user_id@);
        }
    }

    /// Removes `user_id` from the local members of `call_id`; returns how many
    /// local members remain (0 when the call had none).
    pub fn remove_local(&mut self, call_id: &str, user_id: &str) -> (n: usize)
        requires
            old(self).wf(),
        ensures
            final(self).wf(),
            final(self)@.domain == old(self)@.domain,
            final(self)@.next_id == old(self)@.next_id,
            final(self)@.tabs == old(self)@.tabs,
            final(self)@.pending == old(self)@.pending,
            final(self)@.links == old(self)@.links,
            final(self)@.calls == old(self)@.calls,
            final(self)@.locals == locals_after_remove(old(self)@.locals, call_id@, user_id@),
            n == locals_of(final(self)@.locals, call_id@).len(),
            n == without_user(locals_of(old(self)@.locals, call_id@), user_id@).len(),
    {
        let ghost locals0 = self@.locals;
        match self.call_locals.remove(call_id) {
            None => {
                assert(self@.locals =~= locals0);
                0
            },
            Some(v) => {
                let kept = drop_user(v, user_id);
                let n = kept.len();
                if n > 0 {
                    self.call_locals.insert(call_id, kept);
                    proof {
                        lemma_without_user(locals0[call_id@], user_id@);
                        assert(self@.locals =~= locals_after_remove(locals0, call_id@, user_id@));
                    }
                } else {
                    proof {
                        assert(self@.locals =~= locals_after_remove(locals0, call_id@, user_id@));
                    }
                }
                n
            },
        }
    }

    /// The local members of `call_id` (none when it has none).
    pub fn locals(&self, call_id: &str) -> (r: Vec<String>)
        requires
            self.wf(),
        ensures
            strs(r) == locals_of(self@.locals, call_id@),
    {
        match self.call_locals.get(call_id) {
            Some(v) => clone_all(v),
            None => {
                let r: Vec<String> = Vec::new();
                assert(strs(r) =~= Seq::<Seq<char>>::empty());
                r
            },
        }
    }

    /// Whether `call_id` has a local member.
    pub fn call_has_locals(&self, call_id: &str) -> (r: bool)
        requires
            self.wf(),
        ensures
            r == (locals_of(self@.locals, call_id@).len() > 0),
    {
        match self.call_locals.get(call_id) {
            Some(v) => v.len() > 0,
            None => false,
        }
    }

    /// Removes and returns every local member of `call_id`, clearing the call
    /// of each of them that was in it. Used when a call ends for everyone.
    pub fn drain_locals(&mut self, call_id: &str) -> (r: Vec<String>)
        requires
            old(self).wf(),
        ensures
            final(self).wf(),
            final(self)@.domain == old(self)@.domain,
            final(self)@.next_id == old(self)@.next_id,
            final(self)@.tabs == old(self)@.tabs,
            final(self)@.pending == old(self)@.pending,
            final(self)@.links == old(self)@.links,
            strs(r) == locals_of(old(self)@.locals, call_id@),
            final(self)@.locals == old(self)@.locals.remove(call_id@),
            final(self)@.calls == calls_after_drain(old(self)@.calls, strs(r), call_id@),
    {
        let ghost locals0 = self@.locals;
        let ghost calls0 = self@.calls;
        let uids = match self.call_locals.remove(call_id) {
            Some(v) => v,
            None => Vec::new(),
        };
        assert(strs(uids) =~= locals_of(locals0, call_id@));
        assert(self@.locals =~= locals0.remove(call_id@));
        let cid = String::from_str(call_id);
        let mut i: usize = 0;
        assert(self@.calls =~= calls_after_drain(calls0, strs(uids).take(0), call_id@));
        while i < uids.len()
            invariant
                self.wf(),
                self@.domain == old(self)@.domain,
                i <= uids.len(),
                cid@ == call_id@,
                self@.next_id == old(self)@.next_id,
                self@.tabs == old(self)@.tabs,
                self@.pending == old(self)@.pending,
                self@.links == old(self)@.links,
                self@.locals == locals0.remove(call_id@),
                self@.calls == calls_after_drain(calls0, strs(uids).take(i as int), call_id@),
            decreases uids.len() - i,
        {
            let uid = uids[i].as_str();
            let here = match self.user_call.get(uid) {
                Some(c) => c.eq(&cid),
                None => false,
            };
            proof {
                assert(strs(uids).take(i + 1) =~= strs(uids).take(i as int).push(uid@));
                lemma_drain_step(calls0, strs(uids).take(i as int), uid@, call_id@);
            }
            if here {
                let _ = self.user_call.remove(uid);
                assert(self@.calls =~= calls_after_drain(calls0, strs(uids).take(i + 1), call_id@));
            } else {
                assert(self@.calls =~= calls_after_drain(calls0, strs(uids).take(i + 1), call_id@));
            }
            i = i + 1;
        }
        assert(strs(uids).take(uids.len() as int) =~= strs(uids));
        uids
    }
}

/// Why an invite cannot be accepted.
pub enum AcceptRefusal {
    /// No invite is pending for the call.
    Gone,
    /// The invite was for another local user (it is dropped all the same).
    NotForUser,
}

impl<S> CallState<S> {
    /// Makes `user_id` a local member of `call_id` and records that call as
    /// the user's.
    pub fn attach_local(&mut self, call_id: &str, user_id: &str)
        requires
            old(self).wf(),
        ensures
            final(self).wf(),
            final(self)@.domain == old(self)@.domain,
            final(self)@.next_id == old(self)@.next_id,
            final(self)@.tabs == old(self)@.tabs,
            final(self)@.pending == old(self)@.pending,
            final(self)@.links == old(self)@.links,
            final(self)@.calls == old(self)@.calls.insert(user_id@, call_id@),
            final(self)@.locals == locals_after_add(old(self)@.locals, call_id@, user_id@),
    {
        self.add_local(call_id, user_id);
        self.set_user_call(user_id, call_id);
    }

    /// `user_id` leaves `call_id`: it stops being a local member and has no
    /// call any more. Returns how many local members remain.
    pub fn leave(&mut self, call_id: &str, user_id: &str) -> (n: usize)
        requires
            old(self).wf(),
        ensures
            final(self).wf(),
            final(self)@.domain == old(self)@.domain,
            final(self)@.next_id == old(self)@.next_id,
            final(self)@.tabs == old(self)@.tabs,
            final(self)@.pending == old(self)@.pending,
            final(self)@.links == old(self)@.links,
            final(self)@.calls == old(self)@.calls.remove(user_id@),
            final(self)@.locals == locals_after_remove(old(self)@.locals, call_id@, user_id@),
            n == locals_of(final(self)@.locals, call_id@).len(),
    {
        let n = self.remove_local(call_id, user_id);
        let _ = self.clear_user_call(user_id);
        n
    }

    /// A call ended for everyone: its local members are removed (and
    /// returned), their calls cleared, and its manager link dropped.
    pub fn end_call(&mut self, call_id: &str) -> (r: Vec<String>)
        requires
            old(self).wf(),
        ensures
            final(self).wf(),
            final(self)@.domain == old(self)@.domain,
            final(self)@.next_id == old(self)@.next_id,
            final(self)@.tabs == old(self)@.tabs,
            final(self)@.pending == old(self)@.pending,
            final(self)@.links == old(self)@.links.remove(call_id@),
            strs(r) == locals_of(old(self)@.locals, call_id@),
            final(self)@.locals == old(self)@.locals.remove(call_id@),
            final(self)@.calls == calls_after_drain(old(self)@.calls, strs(r), call_id@),
    {
        let r = self.drain_locals(call_id);
        self.drop_manager_link(call_id);
        r
    }

    /// A browser tab closed. When it was the user's last tab, gives the call
    /// the user is still in, which the user then has to leave.
    pub fn close_browser(&mut self, user_id: &str, conn_id: u64) -> (r: Option<String>)
        requires
            old(self).wf(),
        ensures
            final(self).wf(),
            final(self)@.domain == old(self)@.domain,
            final(self)@.next_id == old(self)@.next_id,
            final(self)@.tabs == tabs_after_unregister(old(self)@.tabs, user_id@, conn_id),
            final(self)@.pending == old(self)@.pending,
            final(self)@.links == old(self)@.links,
            final(self)@.calls == old(self)@.calls,
            final(self)@.locals == old(self)@.locals,
            match r {
                Some(c) => !final(self)@.tabs.contains_key(user_id@) && old(self)@.calls.contains_key(
                    user_id@,
                ) && c@ == old(self)@.calls[user_id@],
                None => final(self)@.tabs.contains_key(user_id@) || !old(self)@.calls.contains_key(
                    user_id@,
                ),
            },
    {
        self.unregister_browser(user_id, conn_id);
        if self.user_has_socket(user_id) {
            None
        } else {
            self.user_call(user_id)
        }
    }

    /// `user_id` accepts the invite for `call_id`. The pending invite is
    /// consumed in any case; it is handed back only when it was for this user.
    pub fn accept_invite(&mut self, call_id: &str, user_id: &str) -> (r: Result<PendingInvite, AcceptRefusal>)
        requires
            old(self).wf(),
        ensures
            final(self).wf(),
            final(self)@.domain == old(self)@.domain,
            final(self)@.next_id == old(self)@.next_id,
            final(self)@.tabs == old(self)@.tabs,
            final(self)@.pending == old(self)@.pending.remove(call_id@),
            final(self)@.links == old(self)@.links,
            final(self)@.calls == old(self)@.calls,
            final(self)@.locals == old(self)@.locals,
            match r {
                Ok(inv) => old(self)@.pending.get(call_id@) == Some(inv) && inv.for_user_id@ == user_id@,
                Err(AcceptRefusal::Gone) => !old(self)@.pending.contains_key(call_id@),
                Err(AcceptRefusal::NotForUser) => old(self)@.pending.contains_key(call_id@)
                    && old(self)@.pending[call_id@].for_user_id@ != user_id@,
            },
    {
        match self.take_pending(call_id) {
            None => Err(AcceptRefusal::Gone),
            Some(inv) => {
                let me = String::from_str(user_id);
                if inv.for_user_id.eq(&me) {
                    Ok(inv)
                } else {
                    Err(AcceptRefusal::NotForUser)
                }
            },
        }
    }

    /// A `call_end` reached `user_id`: the invite for the call is dropped,
    /// the user leaves it, and the manager link is dropped.
    pub fn call_ended_for(&mut self, call_id: &str, user_id: &str)
        requires
            old(self).wf(),
        ensures
            final(self).wf(),
            final(self)@.domain == old(self)@.domain,
            final(self)@.next_id == old(self)@.next_id,
            final(self)@.tabs == old(self)@.tabs,
            final(self)@.pending == old(self)@.pending.remove(call_id@),
            final(self)@.links == old(self)@.links.remove(call_id@),
            final(self)@.calls == old(self)@.calls.remove(user_id@),
            final(self)@.locals == locals_after_remove(old(self)@.locals, call_id@, user_id@),
    {
        let _ = self.take_pending(call_id);
        let _ = self.leave(call_id, user_id);
        self.drop_manager_link(call_id);
    }
}

/// Clearing one more user's call, where the user is still in the call.
proof fn lemma_drain_step(calls: Map<Seq<char>, Seq<char>>, s: Seq<Seq<char>>, x: Seq<char>, c: Seq<char>)
    ensures
        ({
            let cur = calls_after_drain(calls, s, c);
            calls_after_drain(calls, s.push(x), c) == if cur.contains_key(x) && cur[x] == c {
                cur.remove(x)
            } else {
                cur
            }
        }),
{
    let cur = calls_after_drain(calls, s, c);
    let next = calls_after_drain(calls, s.push(x), c);
    assert forall|k: Seq<char>| #[trigger] s.push(x).contains(k) == (s.contains(k) || k == x) by {
        if s.push(x).contains(k) {
            let j = choose|j: int| 0 <= j < s.push(x).len() && s.push(x)[j] == k;
            if j < s.len() {
                assert(s[j] == k);
            }
        }
        if s.contains(k) {
            let j = choose|j: int| 0 <= j < s.len() && s[j] == k;
            assert(s.push(x)[j] == k);
        }
        if k == x {
            assert(s.push(x)[s.len() as int] == k);
        }
    }
    if cur.contains_key(x) && cur[x] == c {
        assert(next =~= cur.remove(x));
    } else {
        assert(next =~= cur);
    }
}

/// The plain values of a sequence of strings.
pub open spec fn strs_of(s: Seq<String>) -> Seq<Seq<char>> {
    s.map_values(|x: String| x@)
}

/// Whether one of `v` is `s`.
fn contains_str(v: &Vec<String>, s: &str) -> (r: bool)
    ensures
        r == strs(*v).contains(s@),
{
    let key = String::from_str(s);
    let mut i: usize = 0;
    while i < v.len()
        invariant
            key@ == s@,
            i <= v@.len(),
            forall|j: int| 0 <= j < i ==> v@[j]@ != s@,
        decreases v@.len() - i,
    {
        if v[i] == key {
            assert(strs(*v)[i as int] == s@);
            return true;
        }
        i = i + 1;
    }
    assert forall|x: Seq<char>| strs(*v).contains(x) implies x != s@ by {
        let j = choose|j: int| 0 <= j < strs(*v).len() && strs(*v)[j] == x;
        assert(strs(*v)[j] == v@[j]@);
    }
    false
}

/// A copy of a list of strings.
fn clone_all(v: &Vec<String>) -> (r: Vec<String>)
    ensures
        strs(r) == strs(*v),
{
    let mut r: Vec<String> = Vec::new();
    let mut i: usize = 0;
    while i < v.len()
        invariant
            i <= v@.len(),
            r@.len() == i,
            forall|j: int| 0 <= j < i ==> (#[trigger] r@[j])@ == v@[j]@,
        decreases v@.len() - i,
    {
        r.push(v[i].clone());
        i = i + 1;
    }
    assert(strs(r) =~= strs(*v));
    r
}

/// The tabs other than connection `id`, in order.
fn drop_conn<S>(v: Vec<(u64, S)>, id: u64) -> (r: Vec<(u64, S)>)
    ensures
        r@ == without_conn(v@, id),
{
    let ghost all = v@;
    let mut kept: Vec<(u64, S)> = Vec::new();
    let mut rest = v;
    while rest.len() > 0
        invariant
            kept@ + without_conn(rest@, id) == without_conn(all, id),
        decreases rest@.len(),
    {
        let ghost r0 = rest@;
        proof {
            lemma_without_conn_first(r0, id);
        }
        let e = rest.remove(0);
        assert(rest@ =~= r0.drop_first());
        if e.0 != id {
            let ghost k0 = kept@;
            kept.push(e);
            assert(kept@ + without_conn(rest@, id) =~= k0 + without_conn(r0, id));
        } else {
            assert(kept@ + without_conn(rest@, id) =~= kept@ + without_conn(r0, id));
        }
    }
    assert(without_conn(rest@, id) =~= Seq::<(u64, S)>::empty());
    assert(kept@ =~= without_conn(all, id));
    kept
}

proof fn lemma_without_conn_first<S>(s: Seq<(u64, S)>, id: u64)
    requires
        s.len() > 0,
    ensures
        without_conn(s, id) == (if s[0].0 == id {
            seq![]
        } else {
            seq![s[0]]
        }) + without_conn(s.drop_first(), id),
    decreases s.len(),
{
    if s.len() == 1 {
        assert(s.drop_last() =~= Seq::<(u64, S)>::empty());
        assert(s.drop_first() =~= Seq::<(u64, S)>::empty());
        assert(without_conn(s, id) =~= (if s[0].0 == id {
            seq![]
        } else {
            seq![s[0]]
        }) + without_conn(s.drop_first(), id));
    } else {
        lemma_without_conn_first(s.drop_last(), id);
        assert(s.drop_last().drop_first() =~= s.drop_first().drop_last());
        assert(s.drop_first().last() == s.last());
        assert(without_conn(s, id) =~= (if s[0].0 == id {
            seq![]
        } else {
            seq![s[0]]
        }) + without_conn(s.drop_first(), id));
    }
}

/// The members other than `u`, in order.
fn drop_user(v: Vec<String>, u: &str) -> (r: Vec<String>)
    ensures
        strs(r) == without_user(strs(v), u@),
{
    let key = String::from_str(u);
    let mut kept: Vec<String> = Vec::new();
    let mut i: usize = 0;
    while i < v.len()
        invariant
            key@ == u@,
            i <= v@.len(),
            strs(kept) == without_user(strs(v).take(i as int), u@),
        decreases v@.len() - i,
    {
        let ghost k0 = strs(kept);
        let ghost t = strs(v).take(i + 1);
        assert(t.drop_last() =~= strs(v).take(i as int));
        assert(t.last() == v@[i as int]@);
        if v[i] != key {
            kept.push(v[i].clone());
            assert(strs(kept) =~= k0.push(v@[i as int]@));
        }
        assert(strs(kept) =~= without_user(t, u@));
        i = i + 1;
    }
    assert(strs(v).take(v@.len() as int) =~= strs(v));
    kept
}

/// The members other than `u` are members, none of them `u`, and none
/// twice when none was twice before.
proof fn lemma_without_user(l: Seq<Seq<char>>, u: Seq<char>)
    ensures
        forall|x: Seq<char>| #[trigger] without_user(l, u).contains(x) ==> l.contains(x) && x != u,
        l.no_duplicates() ==> without_user(l, u).no_duplicates(),
    decreases l.len(),
{
    if l.len() > 0 {
        let p = l.drop_last();
        lemma_without_user(p, u);
        let w = without_user(l, u);
        let wp = without_user(p, u);
        assert forall|x: Seq<char>| #[trigger] w.contains(x) implies l.contains(x) && x != u by {
            let j = choose|j: int| 0 <= j < w.len() && w[j] == x;
            if j < wp.len() {
                assert(w[j] == wp[j]);
                assert(wp.contains(x));
                let q = choose|q: int| 0 <= q < p.len() && p[q] == x;
                assert(l[q] == x);
            } else {
                assert(x == l.last());
                assert(l[l.len() - 1] == x);
            }
        }
        if l.no_duplicates() {
            assert(p.no_duplicates()) by {
                assert forall|a: int, b: int| 0 <= a < p.len() && 0 <= b < p.len() && a != b implies p[a] != p[b] by {
                    assert(p[a] == l[a]);
                    assert(p[b] == l[b]);
                }
            }
            if l.last() != u {
                assert(!wp.contains(l.last())) by {
                    if wp.contains(l.last()) {
                        let q = choose|q: int| 0 <= q < p.len() && p[q] == l.last();
                        assert(l[q] == l[l.len() - 1]);
                    }
                }
                assert forall|a: int, b: int| 0 <= a < w.len() && 0 <= b < w.len() && a != b implies w[a] != w[b] by {
                    if a < wp.len() && b < wp.len() {
                        assert(w[a] == wp[a]);
                        assert(w[b] == wp[b]);
                    } else if a < wp.len() {
                        assert(w[a] == wp[a]);
                        assert(wp.contains(w[a]));
                    } else if b < wp.len() {
                        assert(w[b] == wp[b]);
                        assert(wp.contains(w[b]));
                    }
                }
            } else {
                assert(w =~= wp);
            }
        }
    }
}

} // verus!
