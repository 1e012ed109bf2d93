//! Authentication and session lifecycle: passwordless registration and
//! sign-in with emailed one-time codes, two-factor authentication with
//! time-window codes, email verification, and bearer-token sessions.
//!
//! Time, randomness and ids of the outside world come in as plain numbers:
//! `now` in seconds, entropy and secrets as `u64`.
use vstd::prelude::*;

pub mod code;
pub mod crypto;
pub mod digits;
pub mod error;
pub mod mail;
pub mod pending;
pub mod service;
pub mod session;
pub mod store;
pub mod token;
pub mod two_fa;
pub mod user;

verus! {

} // verus!
