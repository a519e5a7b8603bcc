//! BSCP user server: the verified core of a federated chat user server.

use vstd::prelude::*;

pub mod addr;
pub mod call;
pub mod keyed;
pub mod codec;
pub mod crypto;
pub mod media;
pub mod modules;
pub mod oidc;
pub mod routes;
pub mod status;
pub mod text;
pub mod util;

verus! {

} // verus!
