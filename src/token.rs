//! Bearer tokens: a record id and a secret, each as sixteen lower-case hex digits.
use vstd::prelude::*;
use vstd::string::StrSliceExecFns;
use crate::digits::{all_digits, digits_of, lemma_read_rendered, place, push_digits, read_digits, value_of};

verus! {

/// Hex digits for each half of a token.
pub const HALF_LEN: usize = 16;
/// Length of a token.
pub const TOKEN_LEN: usize = 32;

/// The text of the token for record `id` with secret `secret`.
pub open spec fn token_text(id: u64, secret: u64) -> Seq<char> {
    digits_of(id as nat, HALF_LEN as nat, 16) + digits_of(secret as nat, HALF_LEN as nat, 16)
}

/// The id and secret that a token spells, if it is well formed.
pub open spec fn token_parts(t: Seq<char>) -> Option<(u64, u64)> {
    if t.len() == TOKEN_LEN && all_digits(t, 16) {
        Some((
            value_of(t.subrange(0, HALF_LEN as int), 16) as u64,
            value_of(t.subrange(HALF_LEN as int, TOKEN_LEN as int), 16) as u64,
        ))
    } else {
        None
    }
}

/// A token read back into its parts.
#[derive(Clone, Copy, Debug, PartialEq, Eq, Structural)]
pub struct DecodedSessionToken {
    pub session_id: u64,
    pub secret: u64,
}

pub fn encode_token(id: u64, secret: u64) -> (r: String)
    ensures
        r@ == token_text(id, secret),
{
    let mut out = String::new();
    push_digits(&mut out, id, HALF_LEN, 16);
    push_digits(&mut out, secret, HALF_LEN, 16);
    assert(out@ =~= token_text(id, secret));
    out
}

proof fn lemma_place_16() ensures place(HALF_LEN as nat, 16) == u64::MAX + 1 {
    reveal_with_fuel(place, 17);
}

pub fn decode_token(token: &str) -> (r: Option<DecodedSessionToken>)
    ensures
        r is Some <==> token_parts(token@) is Some,
        r matches Some(d) ==> token_parts(token@) == Some((d.session_id, d.secret)),
{
    if token.unicode_len() != TOKEN_LEN {
        return None;
    }
    proof { lemma_place_16(); }
    let ghost t = token@;
    let a = token.substring_char(0, HALF_LEN);
    let b = token.substring_char(HALF_LEN, TOKEN_LEN);
    let ra = read_digits(a, HALF_LEN, 16);
    let rb = read_digits(b, HALF_LEN, 16);
    proof {
        assert(t =~= a@ + b@);
        if ra is Some && rb is Some {
            assert forall|i: int| 0 <= i < t.len() implies (#[trigger] crate::digits::digit_value(t[i], 16)) is Some by {
                if i < 16 { assert(t[i] == a@[i]); } else { assert(t[i] == b@[i - 16]); }
            }
        } else if all_digits(t, 16) {
            assert forall|i: int| 0 <= i < a@.len() implies (#[trigger] crate::digits::digit_value(a@[i], 16)) is Some by {
                assert(t[i] == a@[i]);
            }
            assert forall|i: int| 0 <= i < b@.len() implies (#[trigger] crate::digits::digit_value(b@[i], 16)) is Some by {
                assert(t[i + 16] == b@[i]);
            }
        }
    }
    match (ra, rb) {
        (Some(session_id), Some(secret)) => Some(DecodedSessionToken { session_id, secret }),
        _ => None,
    }
}

/// Decoding an encoded token gives back its id and secret.
pub proof fn lemma_token_round_trip(id: u64, secret: u64)
    ensures
        token_parts(token_text(id, secret)) == Some((id, secret)),
{
    lemma_place_16();
    lemma_read_rendered(id as nat, HALF_LEN as nat, 16);
    lemma_read_rendered(secret as nat, HALF_LEN as nat, 16);
    let a = digits_of(id as nat, HALF_LEN as nat, 16);
    let b = digits_of(secret as nat, HALF_LEN as nat, 16);
    let t = a + b;
    assert(t.subrange(0, 16) =~= a);
    assert(t.subrange(16, 32) =~= b);
    assert forall|i: int| 0 <= i < t.len() implies (#[trigger] crate::digits::digit_value(t[i], 16)) is Some by {
        if i < 16 { assert(t[i] == a[i]); } else { assert(t[i] == b[i - 16]); }
    }
}

} // verus!
