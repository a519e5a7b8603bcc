//! Users: looking one up by full id, deleting one, push subscriptions,
//! profile pictures and two-factor settings.

use vstd::prelude::*;
use crate::addr;
use crate::text;

verus! {

/// `username@domain` split at its last `@` (`str::rsplit_once('@')`).
pub fn split_full_id(full_id: &str) -> (r: Option<(String, String)>)
    ensures
        match r {
            Some((u, d)) => addr::split_last(full_id@, '@') == Some((u@, d@)),
            None => addr::split_last(full_id@, '@') is None,
        },
{
    addr::rsplit_once(full_id, '@')
}

/// The webhook a full id names: `webhook-{id}@{domain}` of this server.
pub open spec fn local_webhook_spec(full_id: Seq<char>, domain: Seq<char>) -> Option<Seq<char>> {
    match addr::split_last(full_id, '@') {
        Some((u, d)) => if d == domain && "webhook-"@.is_prefix_of(u) {
            Some(u.skip("webhook-"@.len() as int))
        } else {
            None
        },
        None => None,
    }
}

/// The id of the local webhook a full id names, if it names one.
pub fn local_webhook(full_id: &str, domain: &str) -> (r: Option<String>)
    ensures
        match r {
            Some(id) => local_webhook_spec(full_id@, domain@) == Some(id@),
            None => local_webhook_spec(full_id@, domain@) is None,
        },
{
    match split_full_id(full_id) {
        None => None,
        Some((u, d)) => {
            if !d.eq(&String::from_str(domain)) {
                return None;
            }
            let us = text::chars_of(u.as_str());
            let prefix = text::lit("webhook-");
            if !text::starts_with(&us, &prefix) {
                return None;
            }
            let id = text::slice_chars(&us, prefix.len(), us.len());
            assert(id@ =~= u@.skip("webhook-"@.len() as int));
            Some(text::string_from_chars(&id))
        },
    }
}

/// The username an admin may delete by full id: only users of this server
/// (a bare name is taken as local).
pub open spec fn delete_target_spec(full_id: Seq<char>, domain: Seq<char>) -> Result<
    Seq<char>,
    Seq<char>,
> {
    match addr::split_last(full_id, '@') {
        Some((u, d)) => if d == domain {
            Ok(u)
        } else {
            Err("Cannot delete users on remote servers"@)
        },
        None => Ok(full_id),
    }
}

/// The local username to delete, or why it cannot be.
pub fn delete_target(full_id: &str, domain: &str) -> (r: Result<String, &'static str>)
    ensures
        match r {
            Ok(u) => delete_target_spec(full_id@, domain@) == Ok::<Seq<char>, Seq<char>>(u@),
            Err(m) => delete_target_spec(full_id@, domain@) == Err::<Seq<char>, Seq<char>>(m@),
        },
{
    match split_full_id(full_id) {
        Some((u, d)) => {
            if d.eq(&String::from_str(domain)) {
                Ok(u)
            } else {
                Err("Cannot delete users on remote servers")
            }
        },
        None => Ok(String::from_str(full_id)),
    }
}

/// The answer to deleting (deactivating) a user.
pub fn deactivated_message(username: &str) -> (r: String)
    ensures
        r@ == "User "@ + username@ + " has been deactivated."@,
{
    let mut r = String::from_str("User ");
    r.append(username);
    r.append(" has been deactivated.");
    r
}

/// A push subscription needs a non-empty endpoint and both keys; gives
/// `(endpoint, p256dh, auth)`.
pub fn push_subscription(endpoint: Option<String>, p256dh: Option<String>, auth: Option<String>) -> (r:
    Option<(String, String, String)>)
    ensures
        match r {
            Some((e, p, a)) => endpoint == Some(e) && e@.len() > 0 && p256dh == Some(p) && auth == Some(
                a,
            ),
            None => p256dh is None || auth is None || match endpoint {
                Some(e) => e@.len() == 0,
                None => true,
            },
        },
{
    let e = match endpoint {
        Some(e) => e,
        None => return None,
    };
    match (p256dh, auth) {
        (Some(p), Some(a)) => {
            if e.as_str().is_empty() {
                None
            } else {
                Some((e, p, a))
            }
        },
        _ => None,
    }
}

/// The image types accepted as a profile picture.
pub open spec fn allowed_image(m: Seq<char>) -> bool {
    ||| m == "image/png"@
    ||| m == "image/jpeg"@
    ||| m == "image/jpg"@
    ||| m == "image/gif"@
    ||| m == "image/webp"@
    ||| m == "image/svg+xml"@
}

/// Whether a content type is accepted as a profile picture.
pub fn image_allowed(mimetype: &str) -> (r: bool)
    ensures
        r == allowed_image(mimetype@),
{
    let m = String::from_str(mimetype);
    m.eq(&String::from_str("image/png")) || m.eq(&String::from_str("image/jpeg")) || m.eq(
        &String::from_str("image/jpg"),
    ) || m.eq(&String::from_str("image/gif")) || m.eq(&String::from_str("image/webp")) || m.eq(
        &String::from_str("image/svg+xml"),
    )
}

/// The profile picture URL of a stored upload: the media proxy of this
/// server in front of the upload's own URL (passed as is, not encoded).
pub fn picture_url(domain: &str, name: &str) -> (r: String)
    ensures
        r@ == "http://"@ + domain@ + "/media/proxy?url="@ + "http://"@ + domain@ + "/uploads/"@
            + name@,
{
    let mut r = String::from_str("http://");
    r.append(domain);
    r.append("/media/proxy?url=");
    r.append("http://");
    r.append(domain);
    r.append("/uploads/");
    r.append(name);
    r
}

/// Why two-factor authentication cannot be switched on.
pub fn twofa_enable_refusal(enabled: bool, setup_started: bool) -> (r: Option<&'static str>)
    ensures
        match r {
            None => !enabled && setup_started,
            Some(m) => if enabled {
                m@ == "2FA is already enabled"@
            } else {
                !setup_started && m@ == "2FA setup not initiated. Start setup first."@
            },
        },
{
    if enabled {
        Some("2FA is already enabled")
    } else if !setup_started {
        Some("2FA setup not initiated. Start setup first.")
    } else {
        None
    }
}

/// Why two-factor authentication cannot be switched off.
pub fn twofa_disable_refusal(password_ok: bool, enabled: bool) -> (r: Option<&'static str>)
    ensures
        match r {
            None => password_ok && enabled,
            Some(m) => if !password_ok {
                m@ == "Invalid password"@
            } else {
                !enabled && m@ == "2FA is not enabled"@
            },
        },
{
    if !password_ok {
        Some("Invalid password")
    } else if !enabled {
        Some("2FA is not enabled")
    } else {
        None
    }
}

/// Where a profile is looked up.
pub enum ProfileRoute {
    /// The id has no `@`: no such user.
    NotFound,
    /// A user of this server, by username.
    Local(String),
    /// A user of another server, by domain.
    Remote(String),
}

/// Where the profile of `full_id` comes from: this server's users when its
/// domain (after the last `@`) is this server's, the other server otherwise.
pub fn profile_route(full_id: &str, domain: &str) -> (r: ProfileRoute)
    ensures
        match r {
            ProfileRoute::NotFound => addr::split_last(full_id@, '@') is None,
            ProfileRoute::Local(u) => addr::split_last(full_id@, '@') matches Some((x, d)) && x == u@
                && d == domain@,
            ProfileRoute::Remote(d) => addr::split_last(full_id@, '@') matches Some((_, x)) && x == d@
                && d@ != domain@,
        },
{
    match split_full_id(full_id) {
        None => ProfileRoute::NotFound,
        Some((u, d)) => {
            if d.eq(&String::from_str(domain)) {
                ProfileRoute::Local(u)
            } else {
                ProfileRoute::Remote(d)
            }
        },
    }
}

} // verus!
