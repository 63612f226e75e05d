//! Verified core of a Geometry Dash profile service: reading the bot
//! account's inbox, authenticating accounts by challenge, checking profile
//! updates, and deciding how each failure is answered.

pub mod auth;
pub mod catchers;
pub mod cors;
pub mod external;
pub mod gd;
pub mod profile;
pub mod structs;
pub mod text;
pub mod utils;

use vstd::prelude::*;

verus! {

/// Answer to a CORS preflight request on any path: nothing to do.
pub fn all_options() {
}

} // verus!
