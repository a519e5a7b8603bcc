//! Decisions of the media relay: which peers of a call to dial, which
//! packets to forward, whether to bind a fixed port range.

use vstd::prelude::*;
use crate::text;

verus! {

/// Whether this server dials `peer` when a roster lists it: only peers whose
/// domain sorts after this server's (byte order), and not already connected,
/// so that of two servers exactly one dials the other.
pub fn should_dial(me: &str, peer: &str, connected: bool) -> (r: bool)
    ensures
        r == (text::lex_lt(text::utf8_bytes(me), text::utf8_bytes(peer)) && !connected),
{
    !connected && text::str_lt(me, peer)
}

/// Of two different servers in a roster, neither connected to the other
/// yet, exactly one dials the other.
pub proof fn lemma_one_side_dials(a: &str, b: &str)
    requires
        a@ != b@,
    ensures
        text::lex_lt(text::utf8_bytes(a), text::utf8_bytes(b)) != text::lex_lt(
            text::utf8_bytes(b),
            text::utf8_bytes(a),
        ),
{
    vstd::utf8::encode_utf8_decode_utf8(a@);
    vstd::utf8::encode_utf8_decode_utf8(b@);
    text::lemma_lex_total(text::utf8_bytes(a), text::utf8_bytes(b));
    text::lemma_lex_asymmetric(text::utf8_bytes(a), text::utf8_bytes(b));
}

/// Whether the relay binds its UDP sockets in `[lo, hi]`: only for a
/// configured, non-empty range.
pub fn use_port_range(lo: u16, hi: u16) -> (r: bool)
    ensures
        r == (lo > 0 && hi >= lo),
{
    lo > 0 && hi >= lo
}

/// Whether an audio packet from origin `src` goes out on the track of the
/// peer whose own origin is `mine`: everyone hears everyone but themselves.
pub fn forward_to(src: &str, mine: &str) -> (r: bool)
    ensures
        r == (src@ != mine@),
{
    let a = String::from_str(src);
    let b = String::from_str(mine);
    !a.eq(&b)
}

} // verus!
