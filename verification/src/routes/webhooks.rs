//! Personal webhooks: the URL a webhook is posted to.

use vstd::prelude::*;
use crate::text;

verus! {

/// The URL of a personal webhook: `http://{domain}/webhooks/{id}/{token}`.
pub fn webhook_url(domain: &str, id: &str, token: &str) -> (r: String)
    ensures
        r@ == "http://"@ + domain@ + "/webhooks/"@ + id@ + seq!['/'] + token@,
{
    let mut r = String::from_str("http://");
    r.append(domain);
    r.append("/webhooks/");
    r.append(id);
    text::string_push(&mut r, '/');
    r.append(token);
    r
}

} // verus!
