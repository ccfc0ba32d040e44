//! Response compression with an in-memory cache of compressed bodies: which
//! coding a client gets, which responses are left alone, what is cached under
//! which key, and how a compression failure reaches the client.

use vstd::prelude::*;

pub mod error_body;
pub mod fairing;
pub mod media;
pub mod negotiation;
pub mod store;

verus! {

} // verus!
