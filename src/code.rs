//! One-time codes: six decimal digits, kept only as a keyed digest, with an
//! expiry time and a cap on failed attempts.
use vstd::prelude::*;
use crate::crypto::{keyed_tag, mac_of, tag_of, tags_equal};
use crate::digits::{all_digits, digits_of, lemma_read_rendered, place, push_digits, read_digits};

verus! {

/// Number of digits in a one-time code.
pub const CODE_LEN: usize = 6;
/// Number of distinct one-time codes (ten to the power `CODE_LEN`).
pub const CODE_SPACE: u64 = 1_000_000;
/// Seconds for which a one-time code stays valid.
pub const CODE_TTL: u64 = 900;
/// Failed attempts after which a challenge is dead.
pub const MAX_ATTEMPTS: u64 = 5;

/// The text of code number `v`: six decimal digits, zeros in front.
pub open spec fn code_text(v: nat) -> Seq<char> {
    digits_of(v, CODE_LEN as nat, 10)
}

/// `presented` is a well-formed code, and the whole tag of its exact text under `key` is `d`.
pub open spec fn code_matches(key: u64, d: [u8; 32], presented: Seq<char>) -> bool {
    &&& presented.len() == CODE_LEN
    &&& all_digits(presented, 10)
    &&& mac_of(key, presented) == d@
}

/// The stored half of a one-time code.
#[derive(Clone, Copy, Debug)]
pub struct Challenge {
    pub digest: [u8; 32],
    pub expires_at: u64,
    pub attempts: u64,
    pub consumed: bool,
}

/// Outcome of presenting a code against a challenge.
#[derive(Clone, Copy, Debug, PartialEq, Eq, Structural)]
pub enum CodeCheck {
    Accepted,
    AlreadyConsumed,
    TooManyAttempts,
    Expired,
    Mismatch,
}

/// A freshly issued code: the plaintext, to be delivered once, and what is stored.
pub struct IssuedCode {
    pub code: String,
    pub challenge: Challenge,
}

/// The code number that `entropy` selects.
pub open spec fn code_number(entropy: u64) -> nat {
    (entropy % CODE_SPACE) as nat
}

/// The challenge stored for the code chosen by `entropy` at time `now`.
pub open spec fn issued_challenge(key: u64, entropy: u64, now: u64) -> Challenge {
    Challenge {
        digest: tag_of(mac_of(key, code_text(code_number(entropy)))),
        expires_at: if now + CODE_TTL <= u64::MAX { (now + CODE_TTL) as u64 } else { u64::MAX },
        attempts: 0,
        consumed: false,
    }
}

/// A challenge that is past its expiry time at `now`.
pub open spec fn is_expired(c: Challenge, now: u64) -> bool {
    now >= c.expires_at
}

/// What presenting a code does: `matches` says whether the code is the right one.
pub open spec fn check_outcome(c: Challenge, matches: bool, now: u64) -> CodeCheck {
    if c.consumed {
        CodeCheck::AlreadyConsumed
    } else if c.attempts >= MAX_ATTEMPTS {
        CodeCheck::TooManyAttempts
    } else if is_expired(c, now) {
        CodeCheck::Expired
    } else if matches {
        CodeCheck::Accepted
    } else {
        CodeCheck::Mismatch
    }
}

/// The challenge after that presentation: consumed on success, one more
/// failed attempt on a mismatch, unchanged otherwise.
pub open spec fn after_check(c: Challenge, matches: bool, now: u64) -> Challenge {
    match check_outcome(c, matches, now) {
        CodeCheck::Accepted => Challenge { consumed: true, ..c },
        CodeCheck::Mismatch => Challenge { attempts: (c.attempts + 1) as u64, ..c },
        _ => c,
    }
}

/// Issues the code that `entropy` selects, valid from `now` for `CODE_TTL` seconds.
pub fn issue(key: u64, entropy: u64, now: u64) -> (r: IssuedCode)
    ensures
        r.code@ == code_text(code_number(entropy)),
        r.challenge == issued_challenge(key, entropy, now),
{
    let v = entropy % CODE_SPACE;
    let mut code = String::new();
    push_digits(&mut code, v, CODE_LEN, 10);
    assert(code@ =~= code_text(v as nat));
    let expires_at = now.saturating_add(CODE_TTL);
    let d = keyed_tag(key, code.as_str());
    IssuedCode {
        code,
        challenge: Challenge { digest: d, expires_at, attempts: 0, consumed: false },
    }
}

/// Whether `presented` is the code behind digest `d`.
pub fn code_is(key: u64, d: [u8; 32], presented: &str) -> (r: bool)
    ensures
        r == code_matches(key, d, presented@),
{
    proof {
        reveal_with_fuel(place, 7);
    }
    match read_digits(presented, CODE_LEN, 10) {
        Some(_) => tags_equal(&keyed_tag(key, presented), &d),
        None => false,
    }
}

/// Presents a code, whose rightness is `matches`, against the challenge at time `now`.
pub fn check_challenge(c: &mut Challenge, matches: bool, now: u64) -> (r: CodeCheck)
    ensures
        r == check_outcome(*old(c), matches, now),
        *final(c) == after_check(*old(c), matches, now),
{
    if c.consumed {
        CodeCheck::AlreadyConsumed
    } else if c.attempts >= MAX_ATTEMPTS {
        CodeCheck::TooManyAttempts
    } else if now >= c.expires_at {
        CodeCheck::Expired
    } else if matches {
        c.consumed = true;
        CodeCheck::Accepted
    } else {
        c.attempts = c.attempts + 1;
        CodeCheck::Mismatch
    }
}

/// Presents `presented` against the challenge at time `now`.
pub fn verify(c: &mut Challenge, key: u64, presented: &str, now: u64) -> (r: CodeCheck)
    ensures
        r == check_outcome(*old(c), code_matches(key, old(c).digest, presented@), now),
        *final(c) == after_check(*old(c), code_matches(key, old(c).digest, presented@), now),
{
    let m = code_is(key, c.digest, presented);
    check_challenge(c, m, now)
}

/// The issued plaintext is accepted by its own challenge before expiry, and
/// presenting it again afterwards finds the challenge already consumed.
pub proof fn lemma_issued_code_accepted_once(key: u64, entropy: u64, now: u64, t1: u64, t2: u64)
    requires
        now <= t1,
        t1 < issued_challenge(key, entropy, now).expires_at,
        mac_of(key, code_text(code_number(entropy))).len() == 32,
    ensures
        ({
            let c = issued_challenge(key, entropy, now);
            let code = code_text(code_number(entropy));
            &&& code_matches(key, c.digest, code)
            &&& check_outcome(c, true, t1) == CodeCheck::Accepted
            &&& check_outcome(after_check(c, true, t1), true, t2) == CodeCheck::AlreadyConsumed
        }),
{
    reveal_with_fuel(place, 7);
    lemma_read_rendered(code_number(entropy), CODE_LEN as nat, 10);
    crate::crypto::lemma_tag_of(mac_of(key, code_text(code_number(entropy))));
}

/// A code is checked by comparing all 32 bytes of the tag of the exact
/// presented text with those kept for the original: a string of another
/// length, or with a character that is not a digit, never passes, and a
/// string whose tag differs from the original's in any byte, the first eight
/// or any other, fails.
pub proof fn lemma_match_is_full_tag_equality(key: u64, original: Seq<char>, presented: Seq<char>)
    requires
        mac_of(key, original).len() == 32,
    ensures
        code_matches(key, tag_of(mac_of(key, original)), presented) <==> {
            &&& presented.len() == CODE_LEN
            &&& all_digits(presented, 10)
            &&& forall|i: int| 0 <= i < 32 ==> #[trigger] mac_of(key, presented)[i] == mac_of(key, original)[i]
            &&& mac_of(key, presented).len() == 32
        },
{
    crate::crypto::lemma_tag_of(mac_of(key, original));
    if mac_of(key, presented).len() == 32 && forall|i: int| 0 <= i < 32 ==> #[trigger] mac_of(key, presented)[i] == mac_of(key, original)[i] {
        assert(mac_of(key, presented) =~= mac_of(key, original));
    }
}

/// Past its expiry time a challenge is never accepted, right code or not.
pub proof fn lemma_expired_never_accepted(c: Challenge, matches: bool, now: u64)
    requires
        is_expired(c, now),
    ensures
        check_outcome(c, matches, now) != CodeCheck::Accepted,
        after_check(c, matches, now) == c,
{
}

/// The challenge after `k` failed presentations at time `now`.
pub open spec fn after_failures(c: Challenge, k: nat, now: u64) -> Challenge
    decreases k,
{
    if k == 0 {
        c
    } else {
        after_check(after_failures(c, (k - 1) as nat, now), false, now)
    }
}

/// After `MAX_ATTEMPTS` failures on a fresh, unexpired challenge, the next
/// presentation fails with `TooManyAttempts`, even with the right code.
pub proof fn lemma_attempt_cap(c: Challenge, now: u64, matches: bool)
    requires
        !c.consumed,
        c.attempts == 0,
        !is_expired(c, now),
    ensures
        check_outcome(after_failures(c, MAX_ATTEMPTS as nat, now), matches, now)
            == CodeCheck::TooManyAttempts,
{
    lemma_failures_count(c, MAX_ATTEMPTS as nat, now);
}

proof fn lemma_failures_count(c: Challenge, k: nat, now: u64)
    requires
        !c.consumed,
        c.attempts == 0,
        !is_expired(c, now),
        k <= MAX_ATTEMPTS,
    ensures
        after_failures(c, k, now) == (Challenge { attempts: k as u64, ..c }),
    decreases k,
{
    if k > 0 {
        lemma_failures_count(c, (k - 1) as nat, now);
    }
}

/// Outcomes of presenting codes, whose rightness is given by `ms`, one after
/// the other against one challenge at time `now`.
pub open spec fn outcomes(c: Challenge, ms: Seq<bool>, now: u64) -> Seq<CodeCheck>
    decreases ms.len(),
{
    if ms.len() == 0 {
        Seq::empty()
    } else {
        seq![check_outcome(c, ms[0], now)] + outcomes(after_check(c, ms[0], now), ms.drop_first(), now)
    }
}

/// A consumed challenge stays consumed and answers every presentation with `AlreadyConsumed`.
pub proof fn lemma_consumed_stays(c: Challenge, ms: Seq<bool>, now: u64)
    requires
        c.consumed,
    ensures
        outcomes(c, ms, now).len() == ms.len(),
        forall|k: int| 0 <= k < ms.len() ==> outcomes(c, ms, now)[k] == CodeCheck::AlreadyConsumed,
    decreases ms.len(),
{
    if ms.len() > 0 {
        lemma_consumed_stays(c, ms.drop_first(), now);
        assert forall|k: int| 0 <= k < ms.len() implies outcomes(c, ms, now)[k] == CodeCheck::AlreadyConsumed by {
            if k > 0 {
                assert(outcomes(c, ms, now)[k] == outcomes(c, ms.drop_first(), now)[k - 1]);
            }
        }
    }
}

/// However many presentations are made against one challenge, at most one is accepted.
pub proof fn lemma_at_most_one_accepted(c: Challenge, ms: Seq<bool>, now: u64)
    ensures
        outcomes(c, ms, now).len() == ms.len(),
        forall|a: int, b: int|
            0 <= a < b < ms.len() && #[trigger] outcomes(c, ms, now)[a] == CodeCheck::Accepted
                ==> #[trigger] outcomes(c, ms, now)[b] == CodeCheck::AlreadyConsumed,
    decreases ms.len(),
{
    if ms.len() > 0 {
        let c1 = after_check(c, ms[0], now);
        let rest = ms.drop_first();
        lemma_at_most_one_accepted(c1, rest, now);
        if check_outcome(c, ms[0], now) == CodeCheck::Accepted {
            lemma_consumed_stays(c1, rest, now);
        }
        assert forall|a: int, b: int|
            0 <= a < b < ms.len() && #[trigger] outcomes(c, ms, now)[a] == CodeCheck::Accepted
                implies #[trigger] outcomes(c, ms, now)[b] == CodeCheck::AlreadyConsumed by {
            assert(outcomes(c, ms, now)[b] == outcomes(c1, rest, now)[b - 1]);
            if a > 0 {
                assert(outcomes(c, ms, now)[a] == outcomes(c1, rest, now)[a - 1]);
            }
        }
    }
}

/// `n` presentations of the right code against a live challenge: the first is
/// accepted and the other `n - 1` find it already consumed.
pub proof fn lemma_one_of_many(c: Challenge, n: nat, now: u64)
    requires
        n >= 1,
        !c.consumed,
        c.attempts < MAX_ATTEMPTS,
        !is_expired(c, now),
    ensures
        ({
            let out = outcomes(c, Seq::new(n, |k: int| true), now);
            &&& out.len() == n
            &&& out[0] == CodeCheck::Accepted
            &&& forall|k: int| 1 <= k < n ==> out[k] == CodeCheck::AlreadyConsumed
        }),
{
    let ms = Seq::new(n, |k: int| true);
    let c1 = after_check(c, true, now);
    lemma_consumed_stays(c1, ms.drop_first(), now);
    let out = outcomes(c, ms, now);
    assert forall|k: int| 1 <= k < n implies out[k] == CodeCheck::AlreadyConsumed by {
        assert(out[k] == outcomes(c1, ms.drop_first(), now)[k - 1]);
    }
}

} // verus!
