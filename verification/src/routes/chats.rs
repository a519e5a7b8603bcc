//! Conversations: who a user talks with, how targets are written, which
//! sends are refused, and how a stored message is named.

use vstd::prelude::*;
use vstd::utf8::{decode_utf8, encode_utf8, valid_utf8};
use crate::addr;
use crate::codec;
use crate::text;

verus! {

/// The plain values of a list of strings.
pub open spec fn strs(v: Vec<String>) -> Seq<Seq<char>> {
    v@.map_values(|s: String| s@)
}

/// Strictly increasing in the byte order of strings (what a `BTreeSet<String>`
/// walks in).
pub open spec fn strictly_sorted(s: Seq<Seq<char>>) -> bool {
    forall|i: int, j: int|
        0 <= i < j < s.len() ==> text::lex_lt(encode_utf8(#[trigger] s[i]), encode_utf8(#[trigger] s[j]))
}

/// Inserts `x` into a strictly sorted list, unless it is there already.
pub fn insert_sorted(r: &mut Vec<String>, x: String)
    requires
        strictly_sorted(strs(*old(r))),
    ensures
        strictly_sorted(strs(*final(r))),
        forall|y: Seq<char>| #[trigger] strs(*final(r)).contains(y) <==> strs(*old(r)).contains(y) || y == x@,
{
    let ghost s0 = strs(*r);
    let mut p: usize = 0;
    while p < r.len() && text::str_lt(r[p].as_str(), x.as_str())
        invariant
            strs(*r) == s0,
            strictly_sorted(s0),
            p <= r@.len(),
            forall|i: int| 0 <= i < p ==> text::lex_lt(encode_utf8(#[trigger] s0[i]), encode_utf8(x@)),
        decreases r@.len() - p,
    {
        p = p + 1;
    }
    if p < r.len() && r[p].eq(&x) {
        proof {
            assert(s0[p as int] == x@);
            assert forall|y: Seq<char>| #[trigger] s0.contains(y) <==> s0.contains(y) || y == x@ by {
                if y == x@ {
                    assert(s0[p as int] == y);
                }
            }
        }
        return;
    }
    proof {
        if p < s0.len() {
            text::lemma_lex_total(encode_utf8(s0[p as int]), encode_utf8(x@));
            vstd::utf8::encode_utf8_decode_utf8(s0[p as int]);
            vstd::utf8::encode_utf8_decode_utf8(x@);
            assert(text::lex_lt(encode_utf8(x@), encode_utf8(s0[p as int])));
        }
    }
    let ghost xv = x@;
    r.insert(p, x);
    proof {
        let s1 = strs(*r);
        assert(s1 =~= s0.insert(p as int, xv));
        assert forall|i: int, j: int| 0 <= i < j < s1.len() implies text::lex_lt(
            encode_utf8(#[trigger] s1[i]),
            encode_utf8(#[trigger] s1[j]),
        ) by {
            if j < p {
                assert(s1[i] == s0[i] && s1[j] == s0[j]);
            } else if j == p {
                assert(s1[i] == s0[i]);
            } else if i < p {
                assert(s1[i] == s0[i] && s1[j] == s0[j - 1]);
                assert(text::lex_lt(encode_utf8(s0[i]), encode_utf8(xv)));
                if j - 1 > p {
                    assert(text::lex_lt(encode_utf8(s0[p as int]), encode_utf8(s0[j - 1])));
                    text::lemma_lex_transitive(encode_utf8(xv), encode_utf8(s0[p as int]), encode_utf8(s0[j - 1]));
                }
                text::lemma_lex_transitive(encode_utf8(s0[i]), encode_utf8(xv), encode_utf8(s0[j - 1]));
            } else if i == p {
                assert(s1[j] == s0[j - 1]);
                if j - 1 > p {
                    assert(text::lex_lt(encode_utf8(s0[p as int]), encode_utf8(s0[j - 1])));
                    text::lemma_lex_transitive(encode_utf8(xv), encode_utf8(s0[p as int]), encode_utf8(s0[j - 1]));
                }
            } else {
                assert(s1[i] == s0[i - 1] && s1[j] == s0[j - 1]);
            }
        }
        assert forall|y: Seq<char>| #[trigger] s1.contains(y) <==> s0.contains(y) || y == xv by {
            if s1.contains(y) {
                let k = choose|k: int| 0 <= k < s1.len() && s1[k] == y;
                if k < p {
                    assert(s0[k] == y);
                } else if k > p {
                    assert(s0[k - 1] == y);
                }
            }
            if s0.contains(y) {
                let k = choose|k: int| 0 <= k < s0.len() && s0[k] == y;
                if k < p {
                    assert(s1[k] == y);
                } else {
                    assert(s1[k + 1] == y);
                }
            }
            if y == xv {
                assert(s1[p as int] == y);
            }
        }
    }
}

/// Everyone a user exchanged messages with (receivers of what the user
/// sent, senders of what the user received), each once, in byte order.
pub fn chat_partners(sent: &Vec<String>, received: &Vec<String>) -> (r: Vec<String>)
    ensures
        strictly_sorted(strs(r)),
        forall|y: Seq<char>| #[trigger] strs(r).contains(y) <==> strs(*sent).contains(y) || strs(*received).contains(y),
{
    let mut r: Vec<String> = Vec::new();
    let mut i: usize = 0;
    while i < sent.len()
        invariant
            i <= sent@.len(),
            strictly_sorted(strs(r)),
            forall|y: Seq<char>| #[trigger] strs(r).contains(y) <==> strs(*sent).take(i as int).contains(y),
        decreases sent@.len() - i,
    {
        let ghost before = strs(r);
        insert_sorted(&mut r, sent[i].clone());
        proof {
            let t = strs(*sent).take(i + 1);
            assert(t =~= strs(*sent).take(i as int).push(sent@[i as int]@));
            lemma_push_contains(strs(*sent).take(i as int), sent@[i as int]@);
        }
        i = i + 1;
    }
    assert(strs(*sent).take(sent@.len() as int) =~= strs(*sent));
    let mut j: usize = 0;
    while j < received.len()
        invariant
            j <= received@.len(),
            strictly_sorted(strs(r)),
            forall|y: Seq<char>| #[trigger] strs(r).contains(y) <==> strs(*sent).contains(y) || strs(*received).take(j as int).contains(y),
        decreases received@.len() - j,
    {
        insert_sorted(&mut r, received[j].clone());
        proof {
            assert(strs(*received).take(j + 1) =~= strs(*received).take(j as int).push(received@[j as int]@));
            lemma_push_contains(strs(*received).take(j as int), received@[j as int]@);
        }
        j = j + 1;
    }
    assert(strs(*received).take(received@.len() as int) =~= strs(*received));
    r
}

proof fn lemma_push_contains(s: Seq<Seq<char>>, x: Seq<char>)
    ensures
        forall|y: Seq<char>| #[trigger] s.push(x).contains(y) <==> s.contains(y) || y == x,
{
    assert forall|y: Seq<char>| #[trigger] s.push(x).contains(y) <==> s.contains(y) || y == x by {
        if s.push(x).contains(y) {
            let k = choose|k: int| 0 <= k < s.push(x).len() && s.push(x)[k] == y;
            if k < s.len() {
                assert(s[k] == y);
            }
        }
        if s.contains(y) {
            let k = choose|k: int| 0 <= k < s.len() && s[k] == y;
            assert(s.push(x)[k] == y);
        }
        if y == x {
            assert(s.push(x)[s.len() as int] == y);
        }
    }
}

/// Two strictly sorted lists with the same members are the same list: the
/// partner list is determined by the partners alone.
pub proof fn lemma_sorted_unique(a: Seq<Seq<char>>, b: Seq<Seq<char>>)
    requires
        strictly_sorted(a),
        strictly_sorted(b),
        forall|y: Seq<char>| #![trigger a.contains(y)] #![trigger b.contains(y)] a.contains(y) <==> b.contains(y),
    ensures
        a == b,
    decreases a.len() + b.len(),
{
    if a.len() == 0 {
        if b.len() > 0 {
            assert(b.contains(b[0]));
        }
        assert(a =~= b);
    } else if b.len() == 0 {
        assert(a.contains(a[0]));
    } else {
        // the first elements are the least members of both
        assert(a.contains(a[0]));
        assert(b.contains(b[0]));
        let ia = choose|k: int| 0 <= k < a.len() && a[k] == b[0];
        let ib = choose|k: int| 0 <= k < b.len() && b[k] == a[0];
        if ia > 0 {
            assert(text::lex_lt(encode_utf8(a[0]), encode_utf8(a[ia])));
            if ib > 0 {
                assert(text::lex_lt(encode_utf8(b[0]), encode_utf8(b[ib])));
                text::lemma_lex_asymmetric(encode_utf8(a[0]), encode_utf8(b[0]));
            }
        }
        if ia == 0 && ib != 0 {
            assert(text::lex_lt(encode_utf8(b[0]), encode_utf8(b[ib])));
            text::lemma_lex_irreflexive(encode_utf8(b[0]));
        }
        assert(a[0] == b[0]);
        let a1 = a.drop_first();
        let b1 = b.drop_first();
        assert forall|y: Seq<char>| #![trigger a1.contains(y)] #![trigger b1.contains(y)] a1.contains(y) <==> b1.contains(y) by {
            if a1.contains(y) {
                let k = choose|k: int| 0 <= k < a1.len() && a1[k] == y;
                assert(a[k + 1] == y);
                assert(a.contains(y));
                assert(text::lex_lt(encode_utf8(a[0]), encode_utf8(a[k + 1])));
                let m = choose|m: int| 0 <= m < b.len() && b[m] == y;
                if m == 0 {
                    text::lemma_lex_irreflexive(encode_utf8(a[0]));
                }
                assert(b1[m - 1] == y);
            }
            if b1.contains(y) {
                let k = choose|k: int| 0 <= k < b1.len() && b1[k] == y;
                assert(b[k + 1] == y);
                assert(b.contains(y));
                assert(text::lex_lt(encode_utf8(b[0]), encode_utf8(b[k + 1])));
                let m = choose|m: int| 0 <= m < a.len() && a[m] == y;
                if m == 0 {
                    text::lemma_lex_irreflexive(encode_utf8(b[0]));
                }
                assert(a1[m - 1] == y);
            }
        }
        assert forall|i: int, j: int| 0 <= i < j < a1.len() implies text::lex_lt(
            encode_utf8(#[trigger] a1[i]),
            encode_utf8(#[trigger] a1[j]),
        ) by {
            assert(a1[i] == a[i + 1] && a1[j] == a[j + 1]);
        }
        assert forall|i: int, j: int| 0 <= i < j < b1.len() implies text::lex_lt(
            encode_utf8(#[trigger] b1[i]),
            encode_utf8(#[trigger] b1[j]),
        ) by {
            assert(b1[i] == b[i + 1] && b1[j] == b[j + 1]);
        }
        lemma_sorted_unique(a1, b1);
        assert(a =~= seq![a[0]] + a1);
        assert(b =~= seq![b[0]] + b1);
    }
}

/// The number of messages a history request returns when it names none.
pub fn default_limit() -> (r: i64)
    ensures
        r == 50,
{
    50
}

/// A requested history length brought into `1..=500`.
pub fn clamp_limit(limit: i64) -> (r: i64)
    ensures
        r == (if limit < 1 {
            1
        } else if limit > 500 {
            500
        } else {
            limit
        }),
{
    if limit < 1 {
        1
    } else if limit > 500 {
        500
    } else {
        limit
    }
}

/// The history query between two users, newest first, with optional lower
/// and upper time bounds, and a limit.
pub open spec fn history_sql_spec(since: bool, before: bool) -> Seq<char> {
    "SELECT * FROM messages WHERE ((sender = ? AND receiver = ?) OR (sender = ? AND receiver = ?))"@
        + (if since {
        " AND timestamp > ?"@
    } else {
        ""@
    }) + (if before {
        " AND timestamp < ?"@
    } else {
        ""@
    }) + " ORDER BY timestamp DESC LIMIT ?"@
}

/// Every history query, whatever bounds it carries, selects the messages
/// between the two users and returns the newest first: it starts with the
/// conversation filter, ends with ` ORDER BY timestamp DESC LIMIT ?`, and
/// between them holds exactly the requested bounds, lower before upper.
pub proof fn lemma_history_newest_first(since: bool, before: bool)
    ensures
        ({
            let q = history_sql_spec(since, before);
            let head = "SELECT * FROM messages WHERE ((sender = ? AND receiver = ?) OR (sender = ? AND receiver = ?))"@;
            let tail = " ORDER BY timestamp DESC LIMIT ?"@;
            let lower = " AND timestamp > ?"@;
            let upper = " AND timestamp < ?"@;
            &&& q.len() >= head.len() + tail.len()
            &&& q.take(head.len() as int) == head
            &&& q.skip(q.len() - tail.len()) == tail
            &&& q.subrange(head.len() as int, q.len() - tail.len()) == (if since && before {
                lower + upper
            } else if since {
                lower
            } else if before {
                upper
            } else {
                Seq::<char>::empty()
            })
        }),
{
    reveal_strlit("");
    let q = history_sql_spec(since, before);
    let head = "SELECT * FROM messages WHERE ((sender = ? AND receiver = ?) OR (sender = ? AND receiver = ?))"@;
    let tail = " ORDER BY timestamp DESC LIMIT ?"@;
    let mid = (if since {
        " AND timestamp > ?"@
    } else {
        ""@
    }) + (if before {
        " AND timestamp < ?"@
    } else {
        ""@
    });
    assert(q =~= head + mid + tail);
    assert(q.take(head.len() as int) =~= head);
    assert(q.skip(q.len() - tail.len()) =~= tail);
    assert(q.subrange(head.len() as int, q.len() - tail.len()) =~= mid);
    if !since {
        assert(mid =~= (if before { " AND timestamp < ?"@ } else { Seq::<char>::empty() }));
    }
    if !before {
        assert(mid =~= (if since { " AND timestamp > ?"@ } else { Seq::<char>::empty() }));
    }
}

/// The SQL text of a history query.
pub fn history_sql(since: bool, before: bool) -> (r: String)
    ensures
        r@ == history_sql_spec(since, before),
{
    let mut sql = String::from_str(
        "SELECT * FROM messages WHERE ((sender = ? AND receiver = ?) OR (sender = ? AND receiver = ?))",
    );
    proof {
        reveal_strlit("");
    }
    if since {
        sql.append(" AND timestamp > ?");
    }
    if before {
        sql.append(" AND timestamp < ?");
    }
    sql.append(" ORDER BY timestamp DESC LIMIT ?");
    assert(sql@ =~= history_sql_spec(since, before));
    sql
}

/// The webhook id of a partner `webhook-{id}@{domain}` of this server.
pub open spec fn webhook_partner_spec(partner: Seq<char>, domain: Seq<char>) -> Option<Seq<char>> {
    let suffix = seq!['@'] + domain;
    if suffix.is_suffix_of(partner) {
        let local = partner.take(partner.len() - suffix.len());
        if "webhook-"@.is_prefix_of(local) {
            Some(local.skip("webhook-"@.len() as int))
        } else {
            None
        }
    } else {
        None
    }
}

/// The webhook a chat partner stands for, when it is one of this server's
/// webhooks (`strip_suffix("@{domain}")` then `strip_prefix("webhook-")`).
pub fn webhook_partner(partner: &str, domain: &str) -> (r: Option<String>)
    ensures
        match r {
            Some(id) => webhook_partner_spec(partner@, domain@) == Some(id@),
            None => webhook_partner_spec(partner@, domain@) is None,
        },
{
    let p = text::chars_of(partner);
    let mut suffix: Vec<char> = Vec::new();
    suffix.push('@');
    let d = text::chars_of(domain);
    let mut i: usize = 0;
    while i < d.len()
        invariant
            i <= d@.len(),
            suffix@ == seq!['@'] + d@.take(i as int),
        decreases d@.len() - i,
    {
        suffix.push(d[i]);
        assert(d@.take(i + 1) =~= d@.take(i as int).push(d@[i as int]));
        assert(suffix@ =~= seq!['@'] + d@.take(i + 1));
        i = i + 1;
    }
    assert(d@.take(d@.len() as int) =~= d@);
    if !text::ends_with(&p, &suffix) {
        return None;
    }
    let local = text::slice_chars(&p, 0, p.len() - suffix.len());
    assert(local@ =~= p@.take(p@.len() - suffix@.len()));
    let prefix = text::lit("webhook-");
    if !text::starts_with(&local, &prefix) {
        return None;
    }
    let id = text::slice_chars(&local, prefix.len(), local.len());
    assert(id@ =~= local@.skip(prefix@.len() as int));
    Some(text::string_from_chars(&id))
}

/// The domain of a channel target `domain#channel`: what precedes its first `#`.
pub open spec fn channel_domain_spec(target: Seq<char>) -> Option<Seq<char>> {
    match text::split_first(target, '#') {
        Some((d, _)) => Some(d),
        None => None,
    }
}

/// The domain of a channel target; none for a user target (no `#`).
pub fn channel_domain(target: &str) -> (r: Option<String>)
    ensures
        match r {
            Some(d) => channel_domain_spec(target@) == Some(d@),
            None => channel_domain_spec(target@) is None,
        },
{
    match text::split_once_char(&text::chars_of(target), '#') {
        Some((d, _)) => Some(text::string_from_chars(&d)),
        None => None,
    }
}

/// Sending to a webhook's address is refused: its local part starts with `webhook-`.
pub fn send_refused(receiver: &str) -> (r: bool)
    ensures
        r == "webhook-"@.is_prefix_of(addr::local_spec(receiver@)),
{
    let local = addr::local_part(receiver);
    text::starts_with(&text::chars_of(local.as_str()), &text::lit("webhook-"))
}

/// Where a sent message is federated to.
pub enum Delivery {
    /// The channel server of this domain.
    Channel(String),
    /// The user server of this domain.
    Direct(String),
}

/// The destination of a message sent to `target` (stored for `receiver`):
/// a channel target goes to its channel server, any other to the domain
/// after the receiver's last `@` (all of it when it has none).
pub fn delivery_for(target: &str, receiver: &str) -> (r: Delivery)
    ensures
        match r {
            Delivery::Channel(d) => channel_domain_spec(target@) == Some(d@),
            Delivery::Direct(d) => channel_domain_spec(target@) is None && d@ == match addr::domain_spec(
                receiver@,
            ) {
                Some(x) => x,
                None => receiver@,
            },
        },
{
    match channel_domain(target) {
        Some(d) => Delivery::Channel(d),
        None => match addr::domain_of(receiver) {
            Some(d) => Delivery::Direct(d),
            None => Delivery::Direct(String::from_str(receiver)),
        },
    }
}

/// The id of a message stored on this server: `{domain}/{uuid}`.
pub fn message_id(domain: &str, uuid: &str) -> (r: String)
    ensures
        r@ == domain@ + seq!['/'] + uuid@,
{
    let mut r = String::from_str(domain);
    text::string_push(&mut r, '/');
    r.append(uuid);
    r
}

/// The first eight bytes of a text end on a character boundary.
pub open spec fn head8_ok(s: Seq<char>) -> bool {
    encode_utf8(s).len() >= 8 && valid_utf8(encode_utf8(s).take(8))
}

/// The validation key of a message: `key-` and the first eight bytes of its
/// uuid (`&uuid[..8]`, which panics unless those bytes end on a character).
pub fn validation_key(uuid: &str) -> (r: String)
    requires
        head8_ok(uuid@),
    ensures
        r@ == "key-"@ + decode_utf8(encode_utf8(uuid@).take(8)),
{
    let b = uuid.as_bytes();
    let mut head: Vec<u8> = Vec::new();
    let mut i: usize = 0;
    while i < 8
        invariant
            b@ == encode_utf8(uuid@),
            b@.len() >= 8,
            i <= 8,
            head@ == b@.take(i as int),
        decreases 8 - i,
    {
        head.push(b[i]);
        assert(head@ =~= b@.take(i + 1));
        i = i + 1;
    }
    let mut r = String::from_str("key-");
    match codec::utf8_strict(head) {
        Some(h) => r.append(h.as_str()),
        None => {},
    }
    r
}

/// Who may delete a stored message: only its sender.
pub fn delete_refusal(found: bool, sender: &str, me: &str) -> (r: Option<&'static str>)
    ensures
        match r {
            None => found && sender@ == me@,
            Some(m) => if !found {
                m@ == "Message not found"@
            } else {
                sender@ != me@ && m@ == "Cannot delete other user's messages"@
            },
        },
{
    if !found {
        return Some("Message not found");
    }
    let a = String::from_str(sender);
    let b = String::from_str(me);
    if a.eq(&b) {
        None
    } else {
        Some("Cannot delete other user's messages")
    }
}

/// The title of the push notification for a direct message from `name`.
pub fn dm_push_title(name: &str) -> (r: String)
    ensures
        r@ == "New message from "@ + name@,
{
    let mut r = String::from_str("New message from ");
    r.append(name);
    r
}

/// What `POST /api/chats/{target}/messages` does next.
pub enum SendStep {
    /// Refuse with this status and message.
    Refuse(u16, &'static str),
    /// Look the receiver's profile up.
    LookUpProfile,
    /// Store and deliver the message.
    Store,
}

/// The plain value of a step: a tag (0 refuse, 1 look up, 2 store), and the
/// status and message of a refusal.
pub open spec fn send_step_view(s: SendStep) -> (int, u16, Seq<char>) {
    match s {
        SendStep::Refuse(c, m) => (0, c, m@),
        SendStep::LookUpProfile => (1, 0u16, seq![]),
        SendStep::Store => (2, 0u16, seq![]),
    }
}

/// The order of a send: a webhook receiver is forbidden (403); a user
/// target (no `#`) needs an existing profile (else 404), looked up first; a
/// channel target is stored at once. `None` stands for a lookup not run yet.
pub open spec fn send_step_spec(target: Seq<char>, receiver: Seq<char>, profile_found: Option<bool>) -> (
    int,
    u16,
    Seq<char>,
) {
    if "webhook-"@.is_prefix_of(addr::local_spec(receiver)) {
        (0, 403u16, "Cannot send messages to webhooks"@)
    } else if channel_domain_spec(target) is Some {
        (2, 0u16, seq![])
    } else {
        match profile_found {
            None => (1, 0u16, seq![]),
            Some(false) => (0, 404u16, "User not found"@),
            Some(true) => (2, 0u16, seq![]),
        }
    }
}

/// The next step of a send to `target`, stored for `receiver`.
pub fn send_step(target: &str, receiver: &str, profile_found: Option<bool>) -> (r: SendStep)
    ensures
        send_step_view(r) == send_step_spec(target@, receiver@, profile_found),
{
    if send_refused(receiver) {
        return SendStep::Refuse(403, "Cannot send messages to webhooks");
    }
    if channel_domain(target).is_some() {
        return SendStep::Store;
    }
    match profile_found {
        None => SendStep::LookUpProfile,
        Some(false) => SendStep::Refuse(404, "User not found"),
        Some(true) => SendStep::Store,
    }
}

} // verus!
