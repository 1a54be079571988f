//! A verified core for an authenticated API: signed bearer tokens, the
//! per-session rotating secrets that back them, time-ordered snowflake
//! identifiers, and the small rules around them.

use vstd::prelude::*;

pub mod b64;
pub mod clock;
pub mod decimal;
pub mod entities;
pub mod password;
pub mod perms;
pub mod response;
pub mod security;
pub mod session;
pub mod snowflake;
pub mod state;
pub mod storage;
pub mod strutil;
pub mod users;
pub mod validate;

verus! {

} // verus!
