//! Two-factor authentication: time-window codes derived from a per-user secret.
use vstd::prelude::*;
use crate::code::{CODE_LEN, CODE_SPACE};
use crate::crypto::{hmac_sha1, hmac_sha1_of};
use crate::digits::{all_digits, digits_of, place, push_digits, read_digits, value_of};

verus! {

/// Seconds per time window.
pub const TOTP_STEP: u64 = 30;

/// Two-factor state of a user: the secret exists only while setting up or enabled.
#[derive(Clone, Copy, Debug, PartialEq, Eq, Structural)]
pub enum TwoFa {
    Disabled,
    PendingSetup { secret: u64 },
    Enabled { secret: u64 },
}

/// Second factors that a sign-in can ask for.
#[derive(Clone, Copy, Debug, PartialEq, Eq, Structural)]
pub enum TwoFaMethod {
    Totp,
}

/// The six-digit value of an HMAC-SHA1 tag by the dynamic truncation of RFC 4226.
pub open spec fn truncated_value(h: Seq<u8>) -> nat {
    if h.len() == 20 {
        let off = (h[19] % 16) as int;
        ((((h[off] % 128) as nat) * 0x1000000 + (h[off + 1] as nat) * 0x10000 + (h[off + 2] as nat) * 0x100
            + (h[off + 3] as nat)) % (CODE_SPACE as nat)) as nat
    } else {
        0
    }
}

/// The code of window `step` for `secret` (RFC 6238 with HMAC-SHA1 and six digits).
pub open spec fn window_code(secret: u64, step: u64) -> nat {
    truncated_value(hmac_sha1_of(secret, step))
}

/// The code of window `step` for `secret`, as a number.
pub fn window_value(secret: u64, step: u64) -> (r: u64)
    ensures
        r == window_code(secret, step),
        r < CODE_SPACE,
{
    let h = hmac_sha1(secret, step);
    let off: usize = (h[19] % 16) as usize;
    let bin: u64 = ((h[off] % 128) as u64) * 0x1000000 + (h[off + 1] as u64) * 0x10000 + (h[off + 2] as u64) * 0x100
        + (h[off + 3] as u64);
    bin % CODE_SPACE
}

/// The window that time `now` falls in.
pub open spec fn window_of(now: u64) -> u64 {
    (now / TOTP_STEP) as u64
}

/// `presented` is the code of the window of `now`, or of the one just before or after it.
pub open spec fn totp_accepts(secret: u64, presented: Seq<char>, now: u64) -> bool {
    let w = window_of(now);
    let v = value_of(presented, 10);
    &&& presented.len() == CODE_LEN
    &&& all_digits(presented, 10)
    &&& (v == window_code(secret, w)
        || (w >= 1 && v == window_code(secret, (w - 1) as u64))
        || (w < u64::MAX && v == window_code(secret, (w + 1) as u64)))
}

/// The code of window `step` for `secret`, as six digits.
pub fn totp_text(secret: u64, step: u64) -> (r: String)
    ensures
        r@ == digits_of(window_code(secret, step), CODE_LEN as nat, 10),
{
    let mut out = String::new();
    push_digits(&mut out, window_value(secret, step), CODE_LEN, 10);
    assert(out@ =~= digits_of(window_code(secret, step), CODE_LEN as nat, 10));
    out
}

/// Whether `presented` is accepted for `secret` at time `now`.
pub fn totp_check(secret: u64, presented: &str, now: u64) -> (r: bool)
    ensures
        r == totp_accepts(secret, presented@, now),
{
    proof {
        reveal_with_fuel(place, 7);
    }
    let v = match read_digits(presented, CODE_LEN, 10) {
        Some(v) => v,
        None => return false,
    };
    let w = now / TOTP_STEP;
    if v == window_value(secret, w) {
        return true;
    }
    if w >= 1 && v == window_value(secret, w - 1) {
        return true;
    }
    w < u64::MAX && v == window_value(secret, w + 1)
}

} // verus!
