//! Account creation and sessions: what a setup or registration form is
//! refused for, how the refusal is worded, and the small choices of login
//! and logout.

use vstd::prelude::*;
use vstd::utf8::encode_utf8;
use crate::text;

verus! {

/// The plain values of a list of strings.
pub open spec fn strs(v: Vec<String>) -> Seq<Seq<char>> {
    v@.map_values(|s: String| s@)
}

/// `s` without leading whitespace.
pub open spec fn trim_start(s: Seq<char>) -> Seq<char>
    decreases s.len(),
{
    if s.len() > 0 && text::is_ws(s[0]) {
        trim_start(s.drop_first())
    } else {
        s
    }
}

/// `s` without trailing whitespace.
pub open spec fn trim_end(s: Seq<char>) -> Seq<char>
    decreases s.len(),
{
    if s.len() > 0 && text::is_ws(s.last()) {
        trim_end(s.drop_last())
    } else {
        s
    }
}

/// `str::trim`: no leading or trailing whitespace.
pub open spec fn trim_spec(s: Seq<char>) -> Seq<char> {
    trim_end(trim_start(s))
}

/// `str::trim`.
pub fn trim(s: &str) -> (r: String)
    ensures
        r@ == trim_spec(s@),
{
    let cs = text::chars_of(s);
    let mut a: usize = 0;
    assert(cs@.skip(0) =~= cs@);
    while a < cs.len() && text::char_is_ws(cs[a])
        invariant
            cs@ == s@,
            a <= cs@.len(),
            trim_start(s@) == trim_start(cs@.skip(a as int)),
        decreases cs@.len() - a,
    {
        assert(cs@.skip(a as int).drop_first() =~= cs@.skip(a + 1));
        a = a + 1;
    }
    let ghost t = cs@.skip(a as int);
    assert(trim_start(s@) == t);
    let mut b: usize = cs.len();
    assert(t.take(b - a) =~= t);
    while b > a && text::char_is_ws(cs[b - 1])
        invariant
            cs@ == s@,
            a <= b <= cs@.len(),
            t == cs@.skip(a as int),
            trim_end(t) == trim_end(t.take(b - a)),
        decreases b,
    {
        assert(t.take(b - a).drop_last() =~= t.take(b - 1 - a));
        b = b - 1;
    }
    let mid = text::slice_chars(&cs, a, b);
    assert(mid@ =~= t.take(b - a));
    text::string_from_chars(&mid)
}

/// What is wrong with a username (`taken` tells whether another account
/// already has it; it is asked only of a long enough name).
pub open spec fn username_errors(u: Seq<char>, taken: bool) -> Seq<Seq<char>> {
    if u.len() == 0 {
        seq!["Username is required"@]
    } else if encode_utf8(u).len() < 3 {
        seq!["Username must be at least 3 characters"@]
    } else if taken {
        seq!["Username already exists"@]
    } else {
        seq![]
    }
}

/// What is wrong with a password and its confirmation.
pub open spec fn password_errors(p: Seq<char>, confirm: Seq<char>) -> Seq<Seq<char>> {
    (if p.len() == 0 {
        seq!["Password is required"@]
    } else if encode_utf8(p).len() < 6 {
        seq!["Password must be at least 6 characters"@]
    } else {
        seq![]
    }) + (if p != confirm {
        seq!["Passwords do not match"@]
    } else {
        seq![]
    })
}

/// What is wrong with a registration form, in the order it is reported.
pub open spec fn register_errors_spec(
    u: Seq<char>,
    taken: bool,
    p: Seq<char>,
    confirm: Seq<char>,
    invite: Seq<char>,
) -> Seq<Seq<char>> {
    username_errors(u, taken) + password_errors(p, confirm) + (if invite.len() == 0 {
        seq!["Invite code is required"@]
    } else {
        seq![]
    })
}

proof fn lemma_other_errors_differ()
    ensures
        "Username is required"@ != "Passwords do not match"@,
        "Username must be at least 3 characters"@ != "Passwords do not match"@,
        "Username already exists"@ != "Passwords do not match"@,
        "Password is required"@ != "Passwords do not match"@,
        "Password must be at least 6 characters"@ != "Passwords do not match"@,
        "Invite code is required"@ != "Passwords do not match"@,
{
    reveal_strlit("Username is required");
    reveal_strlit("Username must be at least 3 characters");
    reveal_strlit("Username already exists");
    reveal_strlit("Password is required");
    reveal_strlit("Password must be at least 6 characters");
    reveal_strlit("Invite code is required");
    reveal_strlit("Passwords do not match");
    let m = "Passwords do not match"@;
    assert(m.len() == 22);
    assert("Username is required"@.len() != m.len());
    assert("Username must be at least 3 characters"@.len() != m.len());
    assert("Username already exists"@.len() != m.len());
    assert("Password is required"@.len() != m.len());
    assert("Password must be at least 6 characters"@.len() != m.len());
    assert("Invite code is required"@.len() != m.len());
}

/// A registration or setup form reports `Passwords do not match` exactly when
/// the password and its confirmation differ, character for character.
pub proof fn lemma_confirmation_checked(
    u: Seq<char>,
    taken: bool,
    p: Seq<char>,
    confirm: Seq<char>,
    invite: Seq<char>,
)
    ensures
        register_errors_spec(u, taken, p, confirm, invite).contains("Passwords do not match"@) <==> p
            != confirm,
        (username_errors(u, false) + password_errors(p, confirm)).contains("Passwords do not match"@)
            <==> p != confirm,
{
    lemma_other_errors_differ();
    let m = "Passwords do not match"@;
    let a = username_errors(u, taken);
    let a0 = username_errors(u, false);
    let b = password_errors(p, confirm);
    let d = (if invite.len() == 0 {
        seq!["Invite code is required"@]
    } else {
        Seq::<Seq<char>>::empty()
    });
    let s = register_errors_spec(u, taken, p, confirm, invite);
    let t = a0 + b;
    assert(s =~= a + b + d);
    if p != confirm {
        assert(s[a.len() + b.len() - 1] == m);
        assert(t[a0.len() + b.len() - 1] == m);
    } else {
        assert forall|i: int| 0 <= i < s.len() implies s[i] != m by {
            if i < a.len() {
                assert(s[i] == a[i]);
            } else if i < a.len() + b.len() {
                assert(s[i] == b[i - a.len()]);
            } else {
                assert(s[i] == d[i - a.len() - b.len()]);
            }
        }
        assert forall|i: int| 0 <= i < t.len() implies t[i] != m by {
            if i < a0.len() {
                assert(t[i] == a0[i]);
            } else {
                assert(t[i] == b[i - a0.len()]);
            }
        }
    }
}

/// Whether the username is long enough for the "already exists" lookup.
pub fn username_needs_lookup(username: &str) -> (r: bool)
    ensures
        r == (username@.len() > 0 && encode_utf8(username@).len() >= 3),
{
    username.as_bytes().len() >= 3
}

fn push_str(v: &mut Vec<String>, s: &str)
    ensures
        strs(*final(v)) == strs(*old(v)).push(s@),
{
    let ghost before = strs(*v);
    v.push(String::from_str(s));
    assert(strs(*v) =~= before.push(s@));
}

fn push_username_errors(errors: &mut Vec<String>, username: &str, taken: bool)
    ensures
        strs(*final(errors)) == strs(*old(errors)) + username_errors(username@, taken),
{
    let ghost before = strs(*errors);
    if username.as_bytes().len() == 0 {
        push_str(errors, "Username is required");
    } else if username.as_bytes().len() < 3 {
        push_str(errors, "Username must be at least 3 characters");
    } else if taken {
        push_str(errors, "Username already exists");
    }
    proof {
        if username@.len() == 0 {
            assert(encode_utf8(username@) =~= Seq::<u8>::empty());
        }
        if encode_utf8(username@).len() == 0 {
            vstd::utf8::encode_utf8_decode_utf8(username@);
            assert(username@.len() == 0);
        }
    }
    assert(strs(*errors) =~= before + username_errors(username@, taken));
}

fn push_password_errors(errors: &mut Vec<String>, password: &str, confirm: &str)
    ensures
        strs(*final(errors)) == strs(*old(errors)) + password_errors(password@, confirm@),
{
    let ghost before = strs(*errors);
    if password.as_bytes().len() == 0 {
        push_str(errors, "Password is required");
    } else if password.as_bytes().len() < 6 {
        push_str(errors, "Password must be at least 6 characters");
    }
    let ghost mid = strs(*errors);
    if !String::from_str(password).eq(&String::from_str(confirm)) {
        push_str(errors, "Passwords do not match");
    }
    proof {
        if password@.len() == 0 {
            assert(encode_utf8(password@) =~= Seq::<u8>::empty());
        }
        if encode_utf8(password@).len() == 0 {
            vstd::utf8::encode_utf8_decode_utf8(password@);
            assert(password@.len() == 0);
        }
    }
    assert(strs(*errors) =~= before + password_errors(password@, confirm@));
}

/// The errors of a registration form, all of them, in order (the username
/// and invite code already trimmed).
pub fn register_errors(
    username: &str,
    taken: bool,
    password: &str,
    confirm: &str,
    invite_code: &str,
) -> (r: Vec<String>)
    ensures
        strs(r) == register_errors_spec(username@, taken, password@, confirm@, invite_code@),
{
    let mut errors: Vec<String> = Vec::new();
    push_username_errors(&mut errors, username, taken);
    push_password_errors(&mut errors, password, confirm);
    let ghost mid = strs(errors);
    if invite_code.as_bytes().len() == 0 {
        push_str(&mut errors, "Invite code is required");
    }
    proof {
        if invite_code@.len() == 0 {
            assert(encode_utf8(invite_code@) =~= Seq::<u8>::empty());
        }
        if encode_utf8(invite_code@).len() == 0 {
            vstd::utf8::encode_utf8_decode_utf8(invite_code@);
            assert(invite_code@.len() == 0);
        }
    }
    assert(strs(errors) =~= register_errors_spec(username@, taken, password@, confirm@, invite_code@));
    errors
}

/// The errors of the first-admin setup form, in order (the username trimmed).
pub fn setup_errors(username: &str, password: &str, confirm: &str) -> (r: Vec<String>)
    ensures
        strs(r) == username_errors(username@, false) + password_errors(password@, confirm@),
{
    let mut errors: Vec<String> = Vec::new();
    push_username_errors(&mut errors, username, false);
    push_password_errors(&mut errors, password, confirm);
    assert(strs(errors) =~= username_errors(username@, false) + password_errors(password@, confirm@));
    errors
}

/// Why an invite code cannot be used: unknown, used, or expired.
pub fn invite_problem(found: bool, used: bool, expired: bool) -> (r: Option<&'static str>)
    ensures
        match r {
            None => found && !used && !expired,
            Some(m) => if !found {
                m@ == "Invalid invite code"@
            } else if used {
                m@ == "Invite code already used"@
            } else {
                expired && m@ == "Invite code has expired"@
            },
        },
{
    if !found {
        Some("Invalid invite code")
    } else if used {
        Some("Invite code already used")
    } else if expired {
        Some("Invite code has expired")
    } else {
        None
    }
}

/// Error messages joined by `, ` (the summary of a refused form).
pub fn join_errors(errors: &Vec<String>) -> (r: String)
    ensures
        r@ == text::join_words(strs(*errors), ", "@),
{
    let mut s = String::new();
    let mut i: usize = 0;
    while i < errors.len()
        invariant
            i <= errors@.len(),
            s@ == text::join_words(strs(*errors).take(i as int), ", "@),
        decreases errors@.len() - i,
    {
        let ghost t = strs(*errors).take(i + 1);
        assert(t.drop_last() =~= strs(*errors).take(i as int));
        if i > 0 {
            s.append(", ");
        }
        s.append(errors[i].as_str());
        proof {
            if i == 0 {
                assert(s@ =~= t[0]);
            } else {
                assert(s@ =~= text::join_words(t.drop_last(), ", "@) + ", "@ + t.last());
            }
        }
        i = i + 1;
    }
    assert(strs(*errors).take(errors@.len() as int) =~= strs(*errors));
    s
}

/// An optional e-mail address, trimmed; empty means none.
pub fn normalize_email(email: Option<String>) -> (r: Option<String>)
    ensures
        match r {
            Some(e) => email is Some && e@ == trim_spec(email->0@) && e@.len() > 0,
            None => email is None || trim_spec(email->0@).len() == 0,
        },
{
    match email {
        None => None,
        Some(e) => {
            let t = trim(e.as_str());
            if t.as_str().is_empty() {
                None
            } else {
                Some(t)
            }
        },
    }
}

/// A new session marks the user online unless the user chose a status that
/// a login must not override (2 and 3).
pub fn login_sets_online(status_type: i64) -> (r: bool)
    ensures
        r == (status_type != 2 && status_type != 3),
{
    status_type != 2 && status_type != 3
}

/// The device description of a session: the `User-Agent`, or `Unknown`.
pub fn device_info(user_agent: Option<String>) -> (r: String)
    ensures
        r@ == match user_agent {
            Some(u) => u@,
            None => "Unknown"@,
        },
{
    match user_agent {
        Some(u) => u,
        None => String::from_str("Unknown"),
    }
}

} // verus!
