//! External account linking mediated by modules: the signed tickets that
//! carry a link request from the user server to a module and back.

use vstd::prelude::*;
use vstd::utf8::{decode_utf8, encode_utf8, valid_utf8};
use crate::codec;
use crate::crypto;
use crate::text;

verus! {

/// The signed payload of a ticket: `user|module|provider|exp`.
pub open spec fn ticket_payload(
    user: Seq<char>,
    module: Seq<char>,
    provider: Seq<char>,
    exp: int,
) -> Seq<char> {
    user + seq!['|'] + module + seq!['|'] + provider + seq!['|'] + text::signed_decimal(exp)
}

/// A ticket: URL-safe base64 (no padding) of the payload's UTF-8 bytes, a
/// dot, and the lower-case hex HMAC-SHA256 of those bytes keyed by the secret.
pub open spec fn ticket_spec(
    secret: Seq<char>,
    user: Seq<char>,
    module: Seq<char>,
    provider: Seq<char>,
    exp: int,
) -> Seq<char> {
    let p = encode_utf8(ticket_payload(user, module, provider, exp));
    codec::b64url_encode_of(p) + seq!['.'] + text::hex_lower(
        crypto::hmac_sha256_of(encode_utf8(secret), p),
    )
}

/// The part of a ticket before its dot: the base64 of the payload.
pub open spec fn ticket_head(user: Seq<char>, module: Seq<char>, provider: Seq<char>, exp: int) -> Seq<char> {
    codec::b64url_encode_of(encode_utf8(ticket_payload(user, module, provider, exp)))
}

/// The signature a ticket must carry after its dot: the hex HMAC-SHA256 of
/// the payload's UTF-8 bytes keyed by the secret.
pub open spec fn ticket_signature(
    secret: Seq<char>,
    user: Seq<char>,
    module: Seq<char>,
    provider: Seq<char>,
    exp: int,
) -> Seq<char> {
    text::hex_lower(
        crypto::hmac_sha256_of(encode_utf8(secret), encode_utf8(ticket_payload(user, module, provider, exp))),
    )
}

/// What checking a ticket at time `now` gives: `(user, module, provider)`
/// when the ticket splits at its first dot into base64 of a UTF-8 payload and
/// that payload's signature, the payload has at least four `|`-separated
/// fields, the fourth is an `i64`, and it is not earlier than `now`.
pub open spec fn verify_spec(secret: Seq<char>, ticket: Seq<char>, now: int) -> Option<
    (Seq<char>, Seq<char>, Seq<char>),
> {
    match text::split_first(ticket, '.') {
        None => None,
        Some((b64, sig)) => match codec::b64url_decode_of(encode_utf8(b64)) {
            None => None,
            Some(bytes) => {
                if !valid_utf8(bytes) {
                    None
                } else if text::hex_lower(crypto::hmac_sha256_of(encode_utf8(secret), bytes))
                    != sig {
                    None
                } else {
                    let parts = text::split_all(decode_utf8(bytes), '|');
                    if parts.len() < 4 {
                        None
                    } else {
                        match text::parse_i64_spec(parts[3]) {
                            None => None,
                            Some(exp) => if exp < now {
                                None
                            } else {
                                Some((parts[0], parts[1], parts[2]))
                            },
                        }
                    }
                }
            },
        },
    }
}

/// Signs a link ticket for `user_id` linking `provider` of `module`, valid up
/// to `exp` (seconds). Checking the ticket with the same secret at any time
/// not after `exp` gives the three names back, and at any later time nothing,
/// provided none holds a `|`. The same ticket with any other signature after
/// its dot is refused at every time.
pub fn mint_ticket(secret: &str, user_id: &str, module: &str, provider: &str, exp: i64) -> (r:
    String)
    ensures
        r@ == ticket_spec(secret@, user_id@, module@, provider@, exp as int),
        text::lacks(user_id@, '|') && text::lacks(module@, '|') && text::lacks(provider@, '|')
            ==> forall|now: int|
            #[trigger] verify_spec(secret@, r@, now) == if now <= exp {
                Some((user_id@, module@, provider@))
            } else {
                None
            },
        forall|sig: Seq<char>, now: int|
            sig != ticket_signature(secret@, user_id@, module@, provider@, exp as int)
                ==> #[trigger] verify_spec(
                secret@,
                ticket_head(user_id@, module@, provider@, exp as int) + seq!['.'] + sig,
                now,
            ) is None,
{
    let mut payload = String::from_str(user_id);
    text::string_push(&mut payload, '|');
    payload.append(module);
    text::string_push(&mut payload, '|');
    payload.append(provider);
    text::string_push(&mut payload, '|');
    text::push_signed(&mut payload, exp);
    let ghost pl = ticket_payload(user_id@, module@, provider@, exp as int);
    assert(payload@ =~= pl);
    let b64 = codec::b64url_encode(payload.as_str().as_bytes());
    let sig = crypto::hmac_hex(secret, payload.as_str().as_bytes());
    let mut r = b64.clone();
    text::string_push(&mut r, '.');
    r.append(sig.as_str());
    proof {
        assert(r@ =~= ticket_spec(secret@, user_id@, module@, provider@, exp as int));
        if text::lacks(user_id@, '|') && text::lacks(module@, '|') && text::lacks(provider@, '|') {
            lemma_verify_minted(secret@, user_id@, module@, provider@, exp, b64@);
        }
        lemma_altered_signature(secret@, user_id@, module@, provider@, exp, b64@);
    }
    r
}

proof fn lemma_verify_minted(
    secret: Seq<char>,
    user: Seq<char>,
    module: Seq<char>,
    provider: Seq<char>,
    exp: i64,
    b64: Seq<char>,
)
    requires
        text::lacks(user, '|'),
        text::lacks(module, '|'),
        text::lacks(provider, '|'),
        b64 == codec::b64url_encode_of(encode_utf8(ticket_payload(user, module, provider, exp as int))),
        forall|i: int| 0 <= i < b64.len() ==> codec::is_url_safe_b64_char(#[trigger] b64[i]),
        codec::b64url_decode_of(encode_utf8(b64)) == Some(
            encode_utf8(ticket_payload(user, module, provider, exp as int)),
        ),
    ensures
        forall|now: int|
            #[trigger] verify_spec(secret, ticket_spec(secret, user, module, provider, exp as int), now)
                == if now <= exp {
                Some((user, module, provider))
            } else {
                None
            },
{
    let pl = ticket_payload(user, module, provider, exp as int);
    let bytes = encode_utf8(pl);
    let sig = text::hex_lower(crypto::hmac_sha256_of(encode_utf8(secret), bytes));
    let t = ticket_spec(secret, user, module, provider, exp as int);
    assert(t == b64 + seq!['.'] + sig);
    assert forall|j: int| 0 <= j < b64.len() implies t[j] != '.' by {
        assert(t[j] == b64[j]);
        assert(codec::is_url_safe_b64_char(b64[j]));
    }
    text::lemma_split_first(t, '.', b64.len() as int);
    assert(t.take(b64.len() as int) =~= b64);
    assert(t.skip(b64.len() + 1int) =~= sig);
    vstd::utf8::encode_utf8_valid_utf8(pl);
    vstd::utf8::encode_utf8_decode_utf8(pl);
    let tail = module + seq!['|'] + provider + seq!['|'] + text::signed_decimal(exp as int);
    let tail2 = provider + seq!['|'] + text::signed_decimal(exp as int);
    let num = text::signed_decimal(exp as int);
    assert(pl =~= user + seq!['|'] + tail);
    assert(tail =~= module + seq!['|'] + tail2);
    assert(tail2 =~= provider + seq!['|'] + num);
    text::lemma_split_all_cons(user, tail, '|');
    text::lemma_split_all_cons(module, tail2, '|');
    text::lemma_split_all_cons(provider, num, '|');
    text::lemma_parse_signed_decimal(exp);
    lemma_signed_decimal_lacks(exp as int, '|');
    text::lemma_split_all_single(num, '|');
    let parts = text::split_all(pl, '|');
    assert(parts =~= seq![user, module, provider, num]);
}

proof fn lemma_altered_signature(
    secret: Seq<char>,
    user: Seq<char>,
    module: Seq<char>,
    provider: Seq<char>,
    exp: i64,
    b64: Seq<char>,
)
    requires
        b64 == ticket_head(user, module, provider, exp as int),
        forall|i: int| 0 <= i < b64.len() ==> codec::is_url_safe_b64_char(#[trigger] b64[i]),
        codec::b64url_decode_of(encode_utf8(b64)) == Some(
            encode_utf8(ticket_payload(user, module, provider, exp as int)),
        ),
    ensures
        forall|sig: Seq<char>, now: int|
            sig != ticket_signature(secret, user, module, provider, exp as int) ==> #[trigger] verify_spec(
                secret,
                ticket_head(user, module, provider, exp as int) + seq!['.'] + sig,
                now,
            ) is None,
{
    let pl = ticket_payload(user, module, provider, exp as int);
    vstd::utf8::encode_utf8_valid_utf8(pl);
    assert forall|sig: Seq<char>, now: int|
        sig != ticket_signature(secret, user, module, provider, exp as int) implies #[trigger] verify_spec(
            secret,
            ticket_head(user, module, provider, exp as int) + seq!['.'] + sig,
            now,
        ) is None by {
        let t = b64 + seq!['.'] + sig;
        assert forall|j: int| 0 <= j < b64.len() implies t[j] != '.' by {
            assert(t[j] == b64[j]);
            assert(codec::is_url_safe_b64_char(b64[j]));
        }
        text::lemma_split_first(t, '.', b64.len() as int);
        assert(t.take(b64.len() as int) =~= b64);
        assert(t.skip(b64.len() + 1int) =~= sig);
    }
}

proof fn lemma_signed_decimal_lacks(n: int, c: char)
    requires
        !text::is_digit(c),
        c != '-',
    ensures
        text::lacks(text::signed_decimal(n), c),
{
    if n < 0 {
        text::lemma_decimal_lacks((-n) as nat, c);
    } else {
        text::lemma_decimal_lacks(n as nat, c);
    }
}

/// Checking a ticket refuses it whenever the text after its first dot is not
/// the secret's HMAC of the payload the text before decodes to, and whenever
/// that payload's expiry field is earlier than `now`.
pub proof fn lemma_ticket_refusals(secret: Seq<char>, ticket: Seq<char>, now: int)
    ensures
        match text::split_first(ticket, '.') {
            Some((b64, sig)) => match codec::b64url_decode_of(encode_utf8(b64)) {
                Some(bytes) => {
                    &&& sig != text::hex_lower(crypto::hmac_sha256_of(encode_utf8(secret), bytes))
                        ==> verify_spec(secret, ticket, now) is None
                    &&& valid_utf8(bytes) && text::split_all(decode_utf8(bytes), '|').len() >= 4 ==> match text::parse_i64_spec(
                        text::split_all(decode_utf8(bytes), '|')[3],
                    ) {
                        Some(exp) => exp < now ==> verify_spec(secret, ticket, now) is None,
                        None => verify_spec(secret, ticket, now) is None,
                    }
                },
                None => verify_spec(secret, ticket, now) is None,
            },
            None => verify_spec(secret, ticket, now) is None,
        },
{
}

/// Checks a ticket with the server secret at time `now` (seconds, rounded up):
/// `(user, module, provider)` when it is well formed, correctly signed and
/// unexpired, exactly as `verify_spec` says.
pub fn verify_ticket(secret: &str, ticket: &str, now: i64) -> (r: Option<(String, String, String)>)
    ensures
        match r {
            Some((u, m, p)) => verify_spec(secret@, ticket@, now as int) == Some((u@, m@, p@)),
            None => verify_spec(secret@, ticket@, now as int) is None,
        },
{
    let cs = text::chars_of(ticket);
    let (b64, sig) = match text::split_once_char(&cs, '.') {
        Some(pair) => pair,
        None => return None,
    };
    let b64s = text::string_from_chars(&b64);
    let bytes = match codec::b64url_decode(b64s.as_str().as_bytes()) {
        Some(b) => b,
        None => return None,
    };
    let ghost raw = bytes@;
    let payload = match codec::utf8_strict(bytes) {
        Some(p) => p,
        None => return None,
    };
    proof {
        vstd::utf8::decode_utf8_encode_utf8(raw);
    }
    let expect = crypto::hmac_hex(secret, payload.as_str().as_bytes());
    if !text::chars_eq(&text::chars_of(expect.as_str()), &sig) {
        return None;
    }
    let parts = text::split_char(&text::chars_of(payload.as_str()), '|');
    if parts.len() < 4 {
        return None;
    }
    proof {
        assert(parts.deep_view()[3] == parts@[3]@);
    }
    let exp = match text::parse_i64(&parts[3]) {
        Some(v) => v,
        None => return None,
    };
    if exp < now {
        return None;
    }
    proof {
        assert(parts.deep_view()[0] == parts@[0]@);
        assert(parts.deep_view()[1] == parts@[1]@);
        assert(parts.deep_view()[2] == parts@[2]@);
    }
    Some((
        text::string_from_chars(&parts[0]),
        text::string_from_chars(&parts[1]),
        text::string_from_chars(&parts[2]),
    ))
}

} // verus!
