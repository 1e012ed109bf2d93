//! The authentication service: registration, sign-in, two-factor
//! authentication, email verification and sessions.
use vstd::prelude::*;
use crate::code::{code_matches, code_number, code_text, issue, issued_challenge, verify, check_challenge, check_outcome, after_check, Challenge, CodeCheck};
use crate::error::AuthError;
use crate::mail::SendEmailChangedEmailInput;
use crate::pending::{
    code_error, supersede_email, supersede_email_changes, supersede_registrations, supersede_sign_ins,
    supersede_user_email_changes, supersede_user_sign_ins, to_error, PendingEmailChange, PendingRegistration,
    PendingSignIn, SignInStage,
};
use crate::session::{anonymous_id, revoke_result, revoked_others, session_user, AnonymousSession, Session, SessionManager, ANONYMOUS_TTL};
use crate::store::{find, ids_distinct, lemma_lookup_bounds, lookup, Keyed};
use crate::token::token_text;
use crate::two_fa::{totp_accepts, totp_check, TwoFa, TwoFaMethod};
use crate::user::{same_email, find_login, login_lookup, email_in_use, has_email, has_username, is_valid_email, is_valid_username, username_in_use, valid_email, valid_username, User};

verus! {

/// The data required to start a registration.
#[derive(Debug)]
pub struct RegisterInput {
    pub email: String,
    pub username: String,
}

/// The data required to complete a registration.
#[derive(Debug)]
pub struct CompleteRegistrationInput {
    pub pending_user_id: u64,
    pub code: String,
}

/// A pending flow that waits for `code`, which goes out by email.
#[derive(Debug)]
pub struct PendingCode {
    pub pending_id: u64,
    pub code: String,
}

/// A completed registration: the new user, signed in.
#[derive(Debug)]
pub struct Registered {
    pub session: Session,
    pub user: User,
    pub token: String,
}

/// The data required to confirm the setup of two-factor authentication.
#[derive(Debug)]
pub struct EnableTwoFaInput {
    pub code: String,
}

/// The data required to disable two-factor authentication.
#[derive(Debug)]
pub struct DisableTwoFaInput {
    pub code: String,
}

/// The data required to revoke a session.
#[derive(Debug)]
pub struct RevokeSessionInput {
    pub session_id: u64,
}

/// The data required to confirm a new email address.
#[derive(Debug)]
pub struct VerifyEmailInput {
    pub pending_email_id: u64,
    pub code: String,
}

/// The data required to start a sign-in.
#[derive(Debug)]
pub struct SignInInput {
    pub email_or_username: String,
}

/// The data required to complete a sign-in with the emailed code.
#[derive(Debug)]
pub struct CompleteSignInInput {
    pub pending_session_id: u64,
    pub code: String,
}

/// The data required to complete a sign-in with the second factor.
#[derive(Debug)]
pub struct CompleteTwoFaChallengeInput {
    pub pending_session_id: u64,
    pub code: String,
}

/// Outcome of a sign-in step: signed in, or a second factor is still owed.
#[derive(Debug)]
pub enum SignedIn {
    Success { session: Session, user: User, token: String },
    TwoFa(TwoFaMethod),
}

pub struct Service {
    /// Secret key under which codes and secrets are digested.
    pub key: u64,
    /// The next id to hand out; every stored id is below it.
    pub next_id: u64,
    pub users: Vec<User>,
    pub registrations: Vec<PendingRegistration>,
    pub sign_ins: Vec<PendingSignIn>,
    pub email_changes: Vec<PendingEmailChange>,
    pub sessions: SessionManager,
}

/// Some user has id `id`.
pub open spec fn has_user(users: Seq<User>, id: u64) -> bool {
    exists|j: int| 0 <= j < users.len() && #[trigger] users[j].id == id
}

/// Why registering `email` and `username` fails, if it does. Whether a full
/// account has the email is not told here: only a caller with the emailed
/// code learns it, when completing.
pub open spec fn register_error(users: Seq<User>, next_id: u64, email: Seq<char>, username: Seq<char>) -> Option<AuthError> {
    if !valid_email(email) || !valid_username(username) {
        Some(AuthError::InvalidInput)
    } else if username_in_use(users, username) {
        Some(AuthError::UsernameTaken)
    } else if next_id == u64::MAX {
        Some(AuthError::Internal)
    } else {
        None
    }
}

/// Where pending registration `id` stands: its index while it can still be
/// completed, else the error that completing it gives.
pub open spec fn registration_state(regs: Seq<PendingRegistration>, id: u64) -> Result<int, AuthError> {
    match lookup(regs, id) {
        None => Err(AuthError::InvalidCode),
        Some(i) => if regs[i].superseded {
            Err(AuthError::InvalidCode)
        } else if regs[i].challenge.consumed {
            Err(AuthError::AlreadyConsumed)
        } else {
            Ok(i)
        },
    }
}

/// Why completing registration `id` fails before its code is looked at, if
/// it does. Whether the email or username is taken is only told to a caller
/// with the right code.
pub open spec fn complete_registration_precheck(s: Service, id: u64) -> Result<int, AuthError> {
    match registration_state(s.registrations@, id) {
        Err(e) => Err(e),
        Ok(i) => if s.next_id >= u64::MAX - 1 { Err(AuthError::Internal) } else { Ok(i) },
    }
}

/// Where pending sign-in `id` stands: its index while it can still be
/// completed, else the error that completing it gives.
pub open spec fn sign_in_state(s: Seq<PendingSignIn>, id: u64) -> Result<int, AuthError> {
    match lookup(s, id) {
        None => Err(AuthError::InvalidCode),
        Some(i) => if s[i].superseded {
            Err(AuthError::InvalidCode)
        } else if s[i].challenge.consumed {
            Err(AuthError::AlreadyConsumed)
        } else {
            Ok(i)
        },
    }
}

/// Why completing sign-in `id` with the emailed code fails before the code is
/// looked at, if it does; else the indices of the sign-in and of its user.
pub open spec fn complete_sign_in_precheck(s: Service, id: u64) -> Result<(int, int), AuthError> {
    match sign_in_state(s.sign_ins@, id) {
        Err(e) => Err(e),
        Ok(i) => if s.sign_ins@[i].stage == SignInStage::AwaitingTwoFa {
            Err(AuthError::TwoFaRequired)
        } else {
            match lookup(s.users@, s.sign_ins@[i].user_id) {
                None => Err(AuthError::NotFound),
                Some(j) => if s.next_id == u64::MAX { Err(AuthError::Internal) } else { Ok((i, j)) },
            }
        },
    }
}

/// Why completing sign-in `id` with the second factor fails before the code
/// is looked at, if it does; else the indices of the sign-in and of its user.
pub open spec fn two_fa_challenge_precheck(s: Service, id: u64) -> Result<(int, int), AuthError> {
    match sign_in_state(s.sign_ins@, id) {
        Err(e) => Err(e),
        Ok(i) => if s.sign_ins@[i].stage == SignInStage::AwaitingCode {
            Err(AuthError::InvalidCode)
        } else {
            match lookup(s.users@, s.sign_ins@[i].user_id) {
                None => Err(AuthError::NotFound),
                Some(j) => if !(s.users@[j].two_fa is Enabled) {
                    Err(AuthError::TwoFaNotEnabled)
                } else if s.next_id == u64::MAX {
                    Err(AuthError::Internal)
                } else {
                    Ok((i, j))
                },
            }
        },
    }
}

/// Where pending email change `id` stands: its index while it can still be
/// completed, else the error that completing it gives.
pub open spec fn verify_email_precheck(s: Service, id: u64) -> Result<int, AuthError> {
    match lookup(s.email_changes@, id) {
        None => Err(AuthError::InvalidCode),
        Some(i) => if s.email_changes@[i].superseded {
            Err(AuthError::InvalidCode)
        } else if s.email_changes@[i].challenge.consumed {
            Err(AuthError::AlreadyConsumed)
        } else {
            Ok(i)
        },
    }
}

/// The error of a failed second-factor check.
pub open spec fn two_fa_error(c: CodeCheck) -> AuthError {
    if c == CodeCheck::Mismatch { AuthError::TwoFaMismatch } else { code_error(c) }
}

/// The secret of an enabled or pending second factor.
pub open spec fn two_fa_secret(t: TwoFa) -> u64 {
    match t {
        TwoFa::Enabled { secret } => secret,
        TwoFa::PendingSetup { secret } => secret,
        TwoFa::Disabled => 0,
    }
}

/// No two users share an email (ignoring ASCII case) or a username.
pub open spec fn users_unique(users: Seq<User>) -> bool {
    forall|i: int, j: int| 0 <= i < j < users.len() ==> {
        &&& !same_email(#[trigger] users[i].email@, #[trigger] users[j].email@)
        &&& users[i].username@ != users[j].username@
    }
}

proof fn lemma_unique_after_email_update(users: Seq<User>, j: int, u: User)
    requires
        users_unique(users),
        0 <= j < users.len(),
        !email_in_use(users, u.email@),
        u.username@ == users[j].username@,
    ensures
        users_unique(users.update(j, u)),
{
    let n = users.update(j, u);
    assert forall|a: int, b: int| 0 <= a < b < n.len() implies {
        &&& !same_email(#[trigger] n[a].email@, #[trigger] n[b].email@)
        &&& n[a].username@ != n[b].username@
    } by {
        let ea = users[a].email@;
        let eb = users[b].email@;
        assert(!same_email(ea, eb) && users[a].username@ != users[b].username@);
        if a == j {
            assert(!same_email(eb, u.email@));
            if same_email(u.email@, eb) {
                assert forall|i: int| 0 <= i < eb.len() implies
                    crate::user::fold_char(#[trigger] eb[i]) == crate::user::fold_char(u.email@[i]) by {
                    assert(crate::user::fold_char(u.email@[i]) == crate::user::fold_char(eb[i]));
                }
            }
        } else if b == j {
            assert(!same_email(ea, u.email@));
        }
    }
}

/// `n` keeps the ids of `o` in place and adds, after them, records whose ids
/// lie in `lo..hi`, all distinct.
pub open spec fn extends_ids<T: crate::store::Keyed>(o: Seq<T>, n: Seq<T>, lo: u64, hi: u64) -> bool {
    &&& n.len() >= o.len()
    &&& forall|k: int| 0 <= k < o.len() ==> #[trigger] n[k].key() == o[k].key()
    &&& forall|k: int| o.len() <= k < n.len() ==> lo <= #[trigger] n[k].key() < hi
    &&& n.len() <= o.len() + 1
}

proof fn lemma_extends_ids<T: crate::store::Keyed>(o: Seq<T>, n: Seq<T>, lo: u64, hi: u64)
    requires
        lo <= hi,
        ids_distinct(o),
        forall|k: int| 0 <= k < o.len() ==> #[trigger] o[k].key() < lo,
        extends_ids(o, n, lo, hi),
    ensures
        ids_distinct(n),
        forall|k: int| 0 <= k < n.len() ==> #[trigger] n[k].key() < hi,
{
    assert forall|i: int, j: int| 0 <= i < j < n.len() implies #[trigger] n[i].key() != #[trigger] n[j].key() by {
        if j < o.len() {
            assert(o[i].key() != o[j].key());
        } else {
            assert(o[i].key() < lo);
        }
    }
    assert forall|k: int| 0 <= k < n.len() implies #[trigger] n[k].key() < hi by {
        if k < o.len() {
            assert(o[k].key() < lo);
        }
    }
}

/// Every id of `o` is still an id in `n`, at the same place.
pub open spec fn users_kept(o: Seq<User>, n: Seq<User>) -> bool {
    &&& n.len() >= o.len()
    &&& forall|k: int| 0 <= k < o.len() ==> #[trigger] n[k].id == o[k].id
}

proof fn lemma_has_user_kept(o: Seq<User>, n: Seq<User>, id: u64)
    requires
        users_kept(o, n),
        has_user(o, id),
    ensures
        has_user(n, id),
{
    let j = choose|j: int| 0 <= j < o.len() && #[trigger] o[j].id == id;
    assert(n[j].id == id);
}

/// Users, pending flows and sessions of `n` keep what `o` had and add at
/// most one record each, with fresh ids, whose users exist: `wf` carries over.
proof fn lemma_wf_step(o: Service, n: Service)
    requires
        o.wf(),
        o.next_id <= n.next_id,
        users_unique(n.users@),
        users_kept(o.users@, n.users@),
        extends_ids(o.users@, n.users@, o.next_id, n.next_id),
        extends_ids(o.registrations@, n.registrations@, o.next_id, n.next_id),
        extends_ids(o.sign_ins@, n.sign_ins@, o.next_id, n.next_id),
        extends_ids(o.email_changes@, n.email_changes@, o.next_id, n.next_id),
        extends_ids(o.sessions.sessions@, n.sessions.sessions@, o.next_id, n.next_id),
        extends_ids(o.sessions.anonymous@, n.sessions.anonymous@, o.next_id, n.next_id),
        forall|k: int| 0 <= k < o.sessions.sessions@.len() ==> #[trigger] n.sessions.sessions@[k].user_id == o.sessions.sessions@[k].user_id,
        forall|k: int| 0 <= k < o.sign_ins@.len() ==> #[trigger] n.sign_ins@[k].user_id == o.sign_ins@[k].user_id,
        forall|k: int| 0 <= k < o.email_changes@.len() ==> #[trigger] n.email_changes@[k].user_id == o.email_changes@[k].user_id,
        forall|k: int| o.sessions.sessions@.len() <= k < n.sessions.sessions@.len() ==> has_user(n.users@, #[trigger] n.sessions.sessions@[k].user_id),
        forall|k: int| o.sign_ins@.len() <= k < n.sign_ins@.len() ==> has_user(n.users@, #[trigger] n.sign_ins@[k].user_id),
        forall|k: int| o.email_changes@.len() <= k < n.email_changes@.len() ==> has_user(n.users@, #[trigger] n.email_changes@[k].user_id),
    ensures
        n.wf(),
{
    lemma_extends_ids(o.users@, n.users@, o.next_id, n.next_id);
    lemma_extends_ids(o.registrations@, n.registrations@, o.next_id, n.next_id);
    lemma_extends_ids(o.sign_ins@, n.sign_ins@, o.next_id, n.next_id);
    lemma_extends_ids(o.email_changes@, n.email_changes@, o.next_id, n.next_id);
    lemma_extends_ids(o.sessions.sessions@, n.sessions.sessions@, o.next_id, n.next_id);
    lemma_extends_ids(o.sessions.anonymous@, n.sessions.anonymous@, o.next_id, n.next_id);
    assert forall|i: int| 0 <= i < n.users@.len() implies #[trigger] n.users@[i].id < n.next_id by {
        assert(n.users@[i].key() < n.next_id);
    }
    assert forall|i: int| 0 <= i < n.registrations@.len() implies #[trigger] n.registrations@[i].id < n.next_id by {
        assert(n.registrations@[i].key() < n.next_id);
    }
    assert forall|i: int| 0 <= i < n.sign_ins@.len() implies #[trigger] n.sign_ins@[i].id < n.next_id by {
        assert(n.sign_ins@[i].key() < n.next_id);
    }
    assert forall|i: int| 0 <= i < n.email_changes@.len() implies #[trigger] n.email_changes@[i].id < n.next_id by {
        assert(n.email_changes@[i].key() < n.next_id);
    }
    assert forall|i: int| 0 <= i < n.sessions.sessions@.len() implies #[trigger] n.sessions.sessions@[i].id < n.next_id by {
        assert(n.sessions.sessions@[i].key() < n.next_id);
    }
    assert forall|i: int| 0 <= i < n.sessions.anonymous@.len() implies #[trigger] n.sessions.anonymous@[i].id < n.next_id by {
        assert(n.sessions.anonymous@[i].key() < n.next_id);
    }
    assert forall|i: int| 0 <= i < n.sessions.sessions@.len() implies has_user(n.users@, #[trigger] n.sessions.sessions@[i].user_id) by {
        if i < o.sessions.sessions@.len() {
            lemma_has_user_kept(o.users@, n.users@, o.sessions.sessions@[i].user_id);
        }
    }
    assert forall|i: int| 0 <= i < n.sign_ins@.len() implies has_user(n.users@, #[trigger] n.sign_ins@[i].user_id) by {
        if i < o.sign_ins@.len() {
            lemma_has_user_kept(o.users@, n.users@, o.sign_ins@[i].user_id);
        }
    }
    assert forall|i: int| 0 <= i < n.email_changes@.len() implies has_user(n.users@, #[trigger] n.email_changes@[i].user_id) by {
        if i < o.email_changes@.len() {
            lemma_has_user_kept(o.users@, n.users@, o.email_changes@[i].user_id);
        }
    }
}

/// In a well-formed service no session, pending sign-in or email change
/// belongs to the id that the next user will get: a user created by
/// `complete_registration` has exactly the one session issued with it.
pub proof fn lemma_next_user_has_nothing(s: Service)
    requires
        s.wf(),
    ensures
        forall|i: int| 0 <= i < s.sessions.sessions@.len() ==> #[trigger] s.sessions.sessions@[i].user_id != s.next_id,
        forall|i: int| 0 <= i < s.sign_ins@.len() ==> #[trigger] s.sign_ins@[i].user_id != s.next_id,
        !has_user(s.users@, s.next_id),
{
    assert forall|i: int| 0 <= i < s.sessions.sessions@.len() implies #[trigger] s.sessions.sessions@[i].user_id != s.next_id by {
        let j = choose|j: int| 0 <= j < s.users@.len() && #[trigger] s.users@[j].id == s.sessions.sessions@[i].user_id;
    }
    assert forall|i: int| 0 <= i < s.sign_ins@.len() implies #[trigger] s.sign_ins@[i].user_id != s.next_id by {
        let j = choose|j: int| 0 <= j < s.users@.len() && #[trigger] s.users@[j].id == s.sign_ins@[i].user_id;
    }
}

/// An expired pending registration never completes, whatever the code: the
/// call that gets past the checks on its state fails on the code, and
/// `complete_registration` then creates neither user nor session.
pub proof fn lemma_expired_registration_fails(s: Service, id: u64, m: bool, now: u64)
    requires
        complete_registration_precheck(s, id) is Ok,
        crate::code::is_expired(s.registrations@[complete_registration_precheck(s, id).unwrap()].challenge, now),
    ensures
        check_outcome(s.registrations@[complete_registration_precheck(s, id).unwrap()].challenge, m, now)
            != CodeCheck::Accepted,
{
}

/// A wrong emailed code leaves the sign-in where it was, one failed attempt
/// further on: calls of `complete_sign_in` with wrong codes chain, and the
/// challenge goes through `after_failures`, up to the attempt cap.
pub proof fn lemma_sign_in_failure_chains(s: Service, t: Service, id: u64, m: bool, now: u64)
    requires
        complete_sign_in_precheck(s, id) is Ok,
        check_outcome(s.sign_ins@[complete_sign_in_precheck(s, id).unwrap().0].challenge, m, now) == CodeCheck::Mismatch,
        t.users@ == s.users@,
        t.next_id == s.next_id,
        t.sign_ins@ == s.sign_ins@.update(
            complete_sign_in_precheck(s, id).unwrap().0,
            PendingSignIn {
                challenge: after_check(s.sign_ins@[complete_sign_in_precheck(s, id).unwrap().0].challenge, m, now),
                ..s.sign_ins@[complete_sign_in_precheck(s, id).unwrap().0]
            },
        ),
    ensures
        complete_sign_in_precheck(t, id) == complete_sign_in_precheck(s, id),
        t.sign_ins@[complete_sign_in_precheck(s, id).unwrap().0].challenge
            == crate::code::after_failures(s.sign_ins@[complete_sign_in_precheck(s, id).unwrap().0].challenge, 1, now),
{
    let i = complete_sign_in_precheck(s, id).unwrap().0;
    let p = s.sign_ins@[i];
    lemma_lookup_bounds(s.sign_ins@, id);
    crate::store::lemma_lookup_update(
        s.sign_ins@, i, PendingSignIn { challenge: after_check(p.challenge, m, now), ..p }, id);
    assert(crate::code::after_failures(p.challenge, 1, now) == after_check(crate::code::after_failures(p.challenge, 0, now), false, now));
}

/// A pending registration that accepts its code is consumed: completing it
/// again, with any code, fails with `AlreadyConsumed`.
pub proof fn lemma_registration_completes_once(regs: Seq<PendingRegistration>, id: u64, m: bool, now: u64)
    requires
        registration_state(regs, id) is Ok,
        check_outcome(regs[registration_state(regs, id).unwrap()].challenge, m, now) == CodeCheck::Accepted,
    ensures
        ({
            let i = registration_state(regs, id).unwrap();
            let p = regs[i];
            registration_state(regs.update(i, PendingRegistration { challenge: after_check(p.challenge, m, now), ..p }), id)
                == Err::<int, AuthError>(AuthError::AlreadyConsumed)
        }),
{
    let i = registration_state(regs, id).unwrap();
    let p = regs[i];
    lemma_lookup_bounds(regs, id);
    crate::store::lemma_lookup_update(regs, i, PendingRegistration { challenge: after_check(p.challenge, m, now), ..p }, id);
}

/// A sign-in of a user with two-factor authentication never yields a session
/// from the emailed code alone: once the code is accepted, completing it
/// with a code again asks for the second factor, and only the second-factor
/// step goes on.
pub proof fn lemma_two_fa_sign_in_needs_challenge(s: Service, t: Service, id: u64, m: bool, now: u64)
    requires
        complete_sign_in_precheck(s, id) is Ok,
        s.sign_ins@[complete_sign_in_precheck(s, id).unwrap().0].two_fa,
        check_outcome(s.sign_ins@[complete_sign_in_precheck(s, id).unwrap().0].challenge, m, now) == CodeCheck::Accepted,
        t.users@ == s.users@,
        t.next_id == s.next_id,
        t.sign_ins@ == s.sign_ins@.update(
            complete_sign_in_precheck(s, id).unwrap().0,
            PendingSignIn { stage: SignInStage::AwaitingTwoFa, ..s.sign_ins@[complete_sign_in_precheck(s, id).unwrap().0] },
        ),
    ensures
        complete_sign_in_precheck(t, id) == Err::<(int, int), AuthError>(AuthError::TwoFaRequired),
        s.users@[complete_sign_in_precheck(s, id).unwrap().1].two_fa is Enabled
            ==> two_fa_challenge_precheck(t, id) == Ok::<(int, int), AuthError>(complete_sign_in_precheck(s, id).unwrap()),
{
    let i = complete_sign_in_precheck(s, id).unwrap().0;
    lemma_lookup_bounds(s.sign_ins@, id);
    crate::store::lemma_lookup_update(
        s.sign_ins@, i, PendingSignIn { stage: SignInStage::AwaitingTwoFa, ..s.sign_ins@[i] }, id);
}

/// After `revoked_others`, no session of the user but the kept one is live,
/// and the sessions of other users are as they were.
pub proof fn lemma_revoked_others_effect(s: Seq<Session>, user_id: u64, keep: Option<u64>)
    ensures
        revoked_others(s, user_id, keep).len() == s.len(),
        forall|i: int| 0 <= i < s.len() && s[i].user_id == user_id && keep != Some(s[i].id)
            ==> (#[trigger] revoked_others(s, user_id, keep)[i]).revoked,
        forall|i: int| 0 <= i < s.len() && (s[i].user_id != user_id || keep == Some(s[i].id))
            ==> #[trigger] revoked_others(s, user_id, keep)[i] == s[i],
{
}

/// What `complete_registration` does: `o` is the service before the call,
/// `n` after it, and `r` what the call returned.
pub open spec fn complete_registration_post(
    o: Service, n: Service, id: u64, code: Seq<char>, secret: u64, now: u64, r: Result<Registered, AuthError>,
) -> bool {
    match complete_registration_precheck(o, id) {
        Err(e) => r == Err::<Registered, AuthError>(e) && n == o,
        Ok(i) => {
            let p = o.registrations@[i];
            let m = code_matches(o.key, p.challenge.digest, code);
            let out = check_outcome(p.challenge, m, now);
            &&& n.registrations@ == o.registrations@.update(
                i, PendingRegistration { challenge: after_check(p.challenge, m, now), ..p })
            &&& n.key == o.key
            &&& n.sign_ins@ == o.sign_ins@
            &&& n.email_changes@ == o.email_changes@
            &&& n.sessions.anonymous@ == o.sessions.anonymous@
            &&& out != CodeCheck::Accepted ==> {
                &&& r == Err::<Registered, AuthError>(code_error(out))
                &&& n.users@ == o.users@
                &&& n.sessions == o.sessions
                &&& n.next_id == o.next_id
            }
            &&& (out == CodeCheck::Accepted && email_in_use(o.users@, p.email@)) ==> {
                &&& r == Err::<Registered, AuthError>(AuthError::EmailTaken)
                &&& n.users@ == o.users@
                &&& n.sessions == o.sessions
                &&& n.next_id == o.next_id
            }
            &&& (out == CodeCheck::Accepted && !email_in_use(o.users@, p.email@)
                && username_in_use(o.users@, p.username@)) ==> {
                &&& r == Err::<Registered, AuthError>(AuthError::UsernameTaken)
                &&& n.users@ == o.users@
                &&& n.sessions == o.sessions
                &&& n.next_id == o.next_id
            }
            &&& (out == CodeCheck::Accepted && !email_in_use(o.users@, p.email@)
                && !username_in_use(o.users@, p.username@)) ==> (r matches Ok(reg) && {
                &&& reg.user == (User { id: o.next_id, email: p.email, username: p.username, two_fa: TwoFa::Disabled })
                &&& reg.session == (Session {
                    id: (o.next_id + 1) as u64,
                    user_id: o.next_id,
                    secret_digest: crate::crypto::tag_of(crate::session::secret_digest_of(o.key, secret)),
                    created_at: now,
                    revoked: false,
                })
                &&& reg.token@ == token_text((o.next_id + 1) as u64, secret)
                &&& n.users@ == o.users@.push(reg.user)
                &&& n.sessions.sessions@ == o.sessions.sessions@.push(reg.session)
                &&& n.next_id == o.next_id + 2
            })
        },
    }
}

proof fn lemma_consumed_registration_stays(
    ss: Seq<Service>, rs: Seq<Result<Registered, AuthError>>, id: u64, code: Seq<char>, secrets: Seq<u64>, now: u64, k: int,
)
    requires
        ss.len() == rs.len() + 1,
        secrets.len() == rs.len(),
        1 <= k <= rs.len(),
        registration_state(ss[1].registrations@, id) == Err::<int, AuthError>(AuthError::AlreadyConsumed),
        forall|j: int| 0 <= j < rs.len() ==> #[trigger] complete_registration_post(ss[j], ss[j + 1], id, code, secrets[j], now, rs[j]),
    ensures
        ss[k] == ss[1],
        forall|j: int| 1 <= j < k ==> #[trigger] rs[j] == Err::<Registered, AuthError>(AuthError::AlreadyConsumed),
    decreases k,
{
    if k > 1 {
        lemma_consumed_registration_stays(ss, rs, id, code, secrets, now, k - 1);
        let j = k - 1;
        assert(complete_registration_post(ss[j], ss[j + 1], id, code, secrets[j], now, rs[j]));
        assert(ss[j + 1] == ss[k]);
    }
}

/// Completions of one live registration with its right code, one after
/// another (the `&mut self` receiver serialises concurrent callers): the
/// first creates exactly one user, the only one with that email, with
/// exactly one session; every later one fails with `AlreadyConsumed` and
/// changes nothing.
pub proof fn lemma_completions_of_one_registration(
    ss: Seq<Service>, rs: Seq<Result<Registered, AuthError>>, id: u64, code: Seq<char>, secrets: Seq<u64>, now: u64,
)
    requires
        rs.len() >= 1,
        ss.len() == rs.len() + 1,
        secrets.len() == rs.len(),
        ss[0].wf(),
        complete_registration_precheck(ss[0], id) is Ok,
        ({
            let p = ss[0].registrations@[complete_registration_precheck(ss[0], id).unwrap()];
            &&& code_matches(ss[0].key, p.challenge.digest, code)
            &&& !crate::code::is_expired(p.challenge, now)
            &&& p.challenge.attempts < crate::code::MAX_ATTEMPTS
            &&& !email_in_use(ss[0].users@, p.email@)
            &&& !username_in_use(ss[0].users@, p.username@)
        }),
        forall|j: int| 0 <= j < rs.len() ==> #[trigger] complete_registration_post(ss[j], ss[j + 1], id, code, secrets[j], now, rs[j]),
    ensures
        rs[0] is Ok,
        ss[1].users@ == ss[0].users@.push(rs[0]->Ok_0.user),
        ss[1].sessions.sessions@ == ss[0].sessions.sessions@.push(rs[0]->Ok_0.session),
        rs[0]->Ok_0.session.user_id == rs[0]->Ok_0.user.id,
        forall|i: int| 0 <= i < ss[1].sessions.sessions@.len() && #[trigger] ss[1].sessions.sessions@[i].user_id == rs[0]->Ok_0.user.id
            ==> i == ss[0].sessions.sessions@.len(),
        forall|i: int| 0 <= i < ss[1].users@.len() && same_email(#[trigger] ss[1].users@[i].email@, rs[0]->Ok_0.user.email@)
            ==> i == ss[0].users@.len(),
        forall|k: int| 1 <= k < rs.len() ==> #[trigger] rs[k] == Err::<Registered, AuthError>(AuthError::AlreadyConsumed),
        forall|k: int| 1 <= k <= rs.len() ==> #[trigger] ss[k] == ss[1],
{
    let i = complete_registration_precheck(ss[0], id).unwrap();
    let p = ss[0].registrations@[i];
    let z: int = 0;
    assert(complete_registration_post(ss[z], ss[z + 1], id, code, secrets[z], now, rs[z]));
    assert(ss[z + 1] == ss[1] && ss[z] == ss[0] && rs[z] == rs[0] && secrets[z] == secrets[0]);
    lemma_next_user_has_nothing(ss[0]);
    lemma_registration_completes_once(ss[0].registrations@, id, true, now);
    assert forall|k: int| 1 <= k <= rs.len() implies #[trigger] ss[k] == ss[1] by {
        lemma_consumed_registration_stays(ss, rs, id, code, secrets, now, k);
    }
    assert forall|k: int| 1 <= k < rs.len() implies #[trigger] rs[k] == Err::<Registered, AuthError>(AuthError::AlreadyConsumed) by {
        lemma_consumed_registration_stays(ss, rs, id, code, secrets, now, k + 1);
    }
    assert forall|i: int| 0 <= i < ss[1].users@.len() && same_email(#[trigger] ss[1].users@[i].email@, rs[0]->Ok_0.user.email@)
        implies i == ss[0].users@.len() by {
        if i < ss[0].users@.len() {
            assert(ss[1].users@[i] == ss[0].users@[i]);
            assert(email_in_use(ss[0].users@, p.email@));
        }
    }
}

/// What `complete_sign_in` does: `o` is the service before the call, `n`
/// after it, and `r` what the call returned.
pub open spec fn complete_sign_in_post(
    o: Service, n: Service, id: u64, code: Seq<char>, secret: u64, now: u64, r: Result<SignedIn, AuthError>,
) -> bool {
    match complete_sign_in_precheck(o, id) {
        Err(e) => r == Err::<SignedIn, AuthError>(e) && n == o,
        Ok((i, j)) => {
            let p = o.sign_ins@[i];
            let m = code_matches(o.key, p.challenge.digest, code);
            let out = check_outcome(p.challenge, m, now);
            &&& n.key == o.key
            &&& n.users@ == o.users@
            &&& n.registrations@ == o.registrations@
            &&& n.email_changes@ == o.email_changes@
            &&& n.sessions.anonymous@ == o.sessions.anonymous@
            &&& out != CodeCheck::Accepted ==> {
                &&& r == Err::<SignedIn, AuthError>(code_error(out))
                &&& n.sign_ins@ == o.sign_ins@.update(
                    i, PendingSignIn { challenge: after_check(p.challenge, m, now), ..p })
                &&& n.sessions == o.sessions
                &&& n.next_id == o.next_id
            }
            &&& (out == CodeCheck::Accepted && p.two_fa) ==> {
                &&& r == Ok::<SignedIn, AuthError>(SignedIn::TwoFa(TwoFaMethod::Totp))
                &&& n.sign_ins@ == o.sign_ins@.update(
                    i, PendingSignIn { stage: SignInStage::AwaitingTwoFa, ..p })
                &&& n.sessions == o.sessions
                &&& n.next_id == o.next_id
            }
            &&& (out == CodeCheck::Accepted && !p.two_fa) ==> (r matches Ok(SignedIn::Success { session, user, token }) && {
                &&& user == o.users@[j]
                &&& session == (Session {
                    id: o.next_id,
                    user_id: p.user_id,
                    secret_digest: crate::crypto::tag_of(crate::session::secret_digest_of(o.key, secret)),
                    created_at: now,
                    revoked: false,
                })
                &&& token@ == token_text(o.next_id, secret)
                &&& n.sign_ins@ == o.sign_ins@.update(
                    i, PendingSignIn { challenge: after_check(p.challenge, m, now), ..p })
                &&& n.sessions.sessions@ == o.sessions.sessions@.push(session)
                &&& n.next_id == o.next_id + 1
            })
        },
    }
}

proof fn lemma_sign_in_failures_step(
    ss: Seq<Service>, rs: Seq<Result<SignedIn, AuthError>>, id: u64, codes: Seq<Seq<char>>, secrets: Seq<u64>, now: u64, k: int,
)
    requires
        ss.len() == rs.len() + 1,
        codes.len() == rs.len(),
        secrets.len() == rs.len(),
        0 <= k <= crate::code::MAX_ATTEMPTS,
        k <= rs.len(),
        complete_sign_in_precheck(ss[0], id) is Ok,
        ss[0].sign_ins@[complete_sign_in_precheck(ss[0], id).unwrap().0].challenge.attempts == 0,
        !crate::code::is_expired(ss[0].sign_ins@[complete_sign_in_precheck(ss[0], id).unwrap().0].challenge, now),
        forall|q: int| 0 <= q < k ==> !code_matches(
            ss[0].key, ss[0].sign_ins@[complete_sign_in_precheck(ss[0], id).unwrap().0].challenge.digest, #[trigger] codes[q]),
        forall|q: int| 0 <= q < rs.len() ==> #[trigger] complete_sign_in_post(ss[q], ss[q + 1], id, codes[q], secrets[q], now, rs[q]),
    ensures
        ({
            let i = complete_sign_in_precheck(ss[0], id).unwrap().0;
            let p = ss[0].sign_ins@[i];
            &&& complete_sign_in_precheck(ss[k], id) == complete_sign_in_precheck(ss[0], id)
            &&& ss[k].sign_ins@[i] == (PendingSignIn { challenge: Challenge { attempts: k as u64, ..p.challenge }, ..p })
            &&& ss[k].key == ss[0].key
            &&& ss[k].sessions == ss[0].sessions
            &&& ss[k].users@ == ss[0].users@
            &&& ss[k].next_id == ss[0].next_id
        }),
        forall|q: int| 0 <= q < k ==> #[trigger] rs[q] == Err::<SignedIn, AuthError>(AuthError::InvalidCode),
    decreases k,
{
    let i = complete_sign_in_precheck(ss[0], id).unwrap().0;
    let p = ss[0].sign_ins@[i];
    if k == 0 {
        assert(p == (PendingSignIn { challenge: Challenge { attempts: 0, ..p.challenge }, ..p }));
    } else {
        lemma_sign_in_failures_step(ss, rs, id, codes, secrets, now, k - 1);
        let q = k - 1;
        assert(complete_sign_in_post(ss[q], ss[q + 1], id, codes[q], secrets[q], now, rs[q]));
        assert(ss[q + 1] == ss[k]);
        assert(!code_matches(ss[0].key, p.challenge.digest, codes[q]));
        let c = ss[q].sign_ins@[i].challenge;
        lemma_lookup_bounds(ss[q].sign_ins@, id);
        assert(check_outcome(c, false, now) == CodeCheck::Mismatch);
        assert(rs[q] == Err::<SignedIn, AuthError>(AuthError::InvalidCode));
        assert(ss[k].sign_ins@ == ss[q].sign_ins@.update(i, PendingSignIn { challenge: after_check(c, false, now), ..ss[q].sign_ins@[i] }));
        assert(ss[k].sign_ins@[i] == (PendingSignIn { challenge: Challenge { attempts: k as u64, ..p.challenge }, ..p }));
        lemma_sign_in_failure_chains(ss[q], ss[k], id, false, now);
        assert(ss[k].sessions == ss[0].sessions);
        assert(ss[k].users@ == ss[0].users@);
    }
}

/// `MAX_ATTEMPTS` wrong emailed codes on one live sign-in, then the right
/// one: every wrong one fails with the generic `InvalidCode`, the right one
/// fails with `TooManyAttempts`, and no session is issued by any of them.
pub proof fn lemma_sign_in_attempt_cap(
    ss: Seq<Service>, rs: Seq<Result<SignedIn, AuthError>>, id: u64, codes: Seq<Seq<char>>, secrets: Seq<u64>, now: u64,
)
    requires
        rs.len() == crate::code::MAX_ATTEMPTS + 1,
        ss.len() == rs.len() + 1,
        codes.len() == rs.len(),
        secrets.len() == rs.len(),
        complete_sign_in_precheck(ss[0], id) is Ok,
        ss[0].sign_ins@[complete_sign_in_precheck(ss[0], id).unwrap().0].challenge.attempts == 0,
        !crate::code::is_expired(ss[0].sign_ins@[complete_sign_in_precheck(ss[0], id).unwrap().0].challenge, now),
        forall|q: int| 0 <= q < crate::code::MAX_ATTEMPTS ==> !code_matches(
            ss[0].key, ss[0].sign_ins@[complete_sign_in_precheck(ss[0], id).unwrap().0].challenge.digest, #[trigger] codes[q]),
        forall|q: int| 0 <= q < rs.len() ==> #[trigger] complete_sign_in_post(ss[q], ss[q + 1], id, codes[q], secrets[q], now, rs[q]),
    ensures
        forall|q: int| 0 <= q < crate::code::MAX_ATTEMPTS ==> #[trigger] rs[q] == Err::<SignedIn, AuthError>(AuthError::InvalidCode),
        rs[crate::code::MAX_ATTEMPTS as int] == Err::<SignedIn, AuthError>(AuthError::TooManyAttempts),
        ss[rs.len() as int].sessions == ss[0].sessions,
{
    let k = crate::code::MAX_ATTEMPTS as int;
    lemma_sign_in_failures_step(ss, rs, id, codes, secrets, now, k);
    assert(complete_sign_in_post(ss[k], ss[k + 1], id, codes[k], secrets[k], now, rs[k]));
}

/// What `sign_in` does: `o` is the service before the call, `n` after
/// it, and `r` what the call returned.
pub open spec fn sign_in_post(
    o: Service, n: Service, login: Seq<char>, code_entropy: u64, now: u64, r: Result<PendingCode, AuthError>,
) -> bool {
    match login_lookup(o.users@, login) {
        None => r == Err::<PendingCode, AuthError>(AuthError::NotFound) && n == o,
        Some(j) => if o.next_id == u64::MAX {
            r == Err::<PendingCode, AuthError>(AuthError::Internal) && n == o
        } else {
            r matches Ok(p) && {
                let u = o.users@[j];
                &&& p.pending_id == o.next_id
                &&& p.code@ == code_text(code_number(code_entropy))
                &&& n.sign_ins@ == supersede_sign_ins(o.sign_ins@, u.id).push(PendingSignIn {
                    id: o.next_id,
                    user_id: u.id,
                    challenge: issued_challenge(o.key, code_entropy, now),
                    two_fa: u.two_fa is Enabled,
                    stage: SignInStage::AwaitingCode,
                    superseded: false,
                })
                &&& n.next_id == o.next_id + 1
                &&& n.key == o.key
                &&& n.users@ == o.users@
                &&& n.registrations@ == o.registrations@
                &&& n.email_changes@ == o.email_changes@
                &&& n.sessions == o.sessions
            }
        },
    }
}

/// What `complete_two_fa_challenge` does: `o` is the service before the call, `n` after
/// it, and `r` what the call returned.
pub open spec fn two_fa_challenge_post(
    o: Service, n: Service, id: u64, code: Seq<char>, secret: u64, now: u64, r: Result<SignedIn, AuthError>,
) -> bool {
    match two_fa_challenge_precheck(o, id) {
        Err(e) => r == Err::<SignedIn, AuthError>(e) && n == o,
        Ok((i, j)) => {
            let p = o.sign_ins@[i];
            let m = totp_accepts(two_fa_secret(o.users@[j].two_fa), code, now);
            let out = check_outcome(p.challenge, m, now);
            &&& n.sign_ins@ == o.sign_ins@.update(
                i, PendingSignIn { challenge: after_check(p.challenge, m, now), ..p })
            &&& n.key == o.key
            &&& n.users@ == o.users@
            &&& n.registrations@ == o.registrations@
            &&& n.email_changes@ == o.email_changes@
            &&& n.sessions.anonymous@ == o.sessions.anonymous@
            &&& out != CodeCheck::Accepted ==> {
                &&& r == Err::<SignedIn, AuthError>(two_fa_error(out))
                &&& n.sessions == o.sessions
                &&& n.next_id == o.next_id
            }
            &&& out == CodeCheck::Accepted ==> (r matches Ok(SignedIn::Success { session, user, token }) && {
                &&& user == o.users@[j]
                &&& session == (Session {
                    id: o.next_id,
                    user_id: p.user_id,
                    secret_digest: crate::crypto::tag_of(crate::session::secret_digest_of(o.key, secret)),
                    created_at: now,
                    revoked: false,
                })
                &&& token@ == token_text(o.next_id, secret)
                &&& n.sessions.sessions@ == o.sessions.sessions@.push(session)
                &&& n.next_id == o.next_id + 1
            })
        },
    }
}

/// With two-factor authentication enabled, a sign-in goes through the
/// second factor: `sign_in`, then `complete_sign_in` with the emailed code,
/// answers `TwoFa` and issues no session; `complete_two_fa_challenge` with a
/// current time-window code then issues the one new session, of that user.
pub proof fn lemma_two_fa_sign_in_chain(
    s0: Service, s1: Service, s2: Service, s3: Service, login: Seq<char>, entropy: u64, now: u64,
    code2: Seq<char>, secret1: u64, secret2: u64,
    r0: Result<PendingCode, AuthError>, r1: Result<SignedIn, AuthError>, r2: Result<SignedIn, AuthError>,
)
    requires
        s0.wf(),
        s0.next_id < u64::MAX - 2,
        now < u64::MAX - crate::code::CODE_TTL,
        login_lookup(s0.users@, login) is Some,
        s0.users@[login_lookup(s0.users@, login).unwrap()].two_fa is Enabled,
        crate::crypto::mac_of(s0.key, code_text(code_number(entropy))).len() == 32,
        totp_accepts(two_fa_secret(s0.users@[login_lookup(s0.users@, login).unwrap()].two_fa), code2, now),
        sign_in_post(s0, s1, login, entropy, now, r0),
        s1.wf(),
        complete_sign_in_post(s1, s2, r0->Ok_0.pending_id, code_text(code_number(entropy)), secret1, now, r1),
        two_fa_challenge_post(s2, s3, r0->Ok_0.pending_id, code2, secret2, now, r2),
    ensures
        r0 is Ok,
        r1 == Ok::<SignedIn, AuthError>(SignedIn::TwoFa(TwoFaMethod::Totp)),
        s1.sessions == s0.sessions,
        s2.sessions == s0.sessions,
        r2 matches Ok(SignedIn::Success { session, user, token })
            && user.id == s0.users@[login_lookup(s0.users@, login).unwrap()].id
            && session.user_id == user.id
            && s3.sessions.sessions@ == s0.sessions.sessions@.push(session),
{
    let j = login_lookup(s0.users@, login).unwrap();
    crate::user::lemma_login_lookup_bounds(s0.users@, login);
    let u = s0.users@[j];
    let id = s0.next_id;
    let i = s1.sign_ins@.len() - 1;
    crate::store::lemma_lookup_push(supersede_sign_ins(s0.sign_ins@, u.id), s1.sign_ins@[i], id);
    assert(s1.sign_ins@.drop_last() =~= supersede_sign_ins(s0.sign_ins@, u.id));
    crate::store::lemma_lookup_distinct(s1.users@, j);
    let c = s1.sign_ins@[i].challenge;
    reveal_with_fuel(crate::digits::place, 7);
    crate::digits::lemma_read_rendered(code_number(entropy), crate::code::CODE_LEN as nat, 10);
    crate::crypto::lemma_tag_of(crate::crypto::mac_of(s0.key, code_text(code_number(entropy))));
    assert(complete_sign_in_precheck(s1, id) == Ok::<(int, int), AuthError>((i, j)));
    assert(code_matches(s1.key, c.digest, code_text(code_number(entropy))));
    assert(check_outcome(c, true, now) == CodeCheck::Accepted);
    lemma_two_fa_sign_in_needs_challenge(s1, s2, id, true, now);
    assert(two_fa_challenge_precheck(s2, id) == Ok::<(int, int), AuthError>((i, j)));
    assert(s2.sign_ins@[i].challenge == c);
}

impl Service {
    pub open spec fn wf(&self) -> bool {
        &&& forall|i: int| 0 <= i < self.users@.len() ==> #[trigger] self.users@[i].id < self.next_id
        &&& forall|i: int| 0 <= i < self.registrations@.len() ==> #[trigger] self.registrations@[i].id < self.next_id
        &&& forall|i: int| 0 <= i < self.sign_ins@.len() ==> #[trigger] self.sign_ins@[i].id < self.next_id
        &&& forall|i: int| 0 <= i < self.email_changes@.len() ==> #[trigger] self.email_changes@[i].id < self.next_id
        &&& forall|i: int| 0 <= i < self.sessions.sessions@.len() ==> #[trigger] self.sessions.sessions@[i].id < self.next_id
        &&& forall|i: int| 0 <= i < self.sessions.anonymous@.len() ==> #[trigger] self.sessions.anonymous@[i].id < self.next_id
        &&& ids_distinct(self.users@)
        &&& ids_distinct(self.registrations@)
        &&& ids_distinct(self.sign_ins@)
        &&& ids_distinct(self.email_changes@)
        &&& ids_distinct(self.sessions.sessions@)
        &&& ids_distinct(self.sessions.anonymous@)
        &&& forall|i: int| 0 <= i < self.sessions.sessions@.len() ==> has_user(self.users@, #[trigger] self.sessions.sessions@[i].user_id)
        &&& forall|i: int| 0 <= i < self.sign_ins@.len() ==> has_user(self.users@, #[trigger] self.sign_ins@[i].user_id)
        &&& forall|i: int| 0 <= i < self.email_changes@.len() ==> has_user(self.users@, #[trigger] self.email_changes@[i].user_id)
        &&& users_unique(self.users@)
    }

    /// An empty service whose digests use `key`.
    pub fn new(key: u64) -> (r: Service)
        ensures
            r.wf(),
            r.key == key,
            r.next_id == 1,
            r.users@.len() == 0,
            r.registrations@.len() == 0,
            r.sign_ins@.len() == 0,
            r.email_changes@.len() == 0,
            r.sessions.sessions@.len() == 0,
            r.sessions.anonymous@.len() == 0,
    {
        Service {
            key,
            next_id: 1,
            users: Vec::new(),
            registrations: Vec::new(),
            sign_ins: Vec::new(),
            email_changes: Vec::new(),
            sessions: SessionManager::new(),
        }
    }

    /// Starts a registration: replaces any earlier pending registration for the
    /// same email and issues the code that `code_entropy` selects.
    pub fn register(&mut self, input: RegisterInput, code_entropy: u64, now: u64) -> (r: Result<PendingCode, AuthError>)
        requires
            old(self).wf(),
        ensures
            final(self).wf(),
            match register_error(old(self).users@, old(self).next_id, input.email@, input.username@) {
                Some(e) => r == Err::<PendingCode, AuthError>(e) && *final(self) == *old(self),
                None => (r matches Ok(p) && {
                    &&& p.pending_id == old(self).next_id
                    &&& p.code@ == code_text(code_number(code_entropy))
                    &&& final(self).registrations@ == supersede_email(old(self).registrations@, input.email@).push(
                        PendingRegistration {
                            id: old(self).next_id,
                            email: input.email,
                            username: input.username,
                            challenge: issued_challenge(old(self).key, code_entropy, now),
                            superseded: false,
                        })
                    &&& final(self).next_id == old(self).next_id + 1
                    &&& final(self).key == old(self).key
                    &&& final(self).users@ == old(self).users@
                    &&& final(self).sign_ins@ == old(self).sign_ins@
                    &&& final(self).email_changes@ == old(self).email_changes@
                    &&& final(self).sessions == old(self).sessions
                }),
            },
    {
        let ghost o: Service = *self;
        if !is_valid_email(input.email.as_str()) || !is_valid_username(input.username.as_str()) {
            return Err(AuthError::InvalidInput);
        }
        if has_username(&self.users, input.username.as_str()) {
            return Err(AuthError::UsernameTaken);
        }
        if self.next_id == u64::MAX {
            return Err(AuthError::Internal);
        }
        let id = self.next_id;
        let issued = issue(self.key, code_entropy, now);
        supersede_registrations(&mut self.registrations, input.email.as_str());
        self.registrations.push(PendingRegistration {
            id,
            email: input.email,
            username: input.username,
            challenge: issued.challenge,
            superseded: false,
        });
        self.next_id = id + 1;
        proof { lemma_wf_step(o, *self); }
        Ok(PendingCode { pending_id: id, code: issued.code })
    }

    /// Completes registration `pending_user_id` with `code`: on success the user
    /// is created and signed in with a session whose secret is `session_secret`.
    pub fn complete_registration(&mut self, input: CompleteRegistrationInput, session_secret: u64, now: u64) -> (r: Result<Registered, AuthError>)
        requires
            old(self).wf(),
        ensures
            final(self).wf(),
            complete_registration_post(*old(self), *final(self), input.pending_user_id, input.code@, session_secret, now, r),
    {
        let ghost o: Service = *self;
        proof { lemma_lookup_bounds(self.registrations@, input.pending_user_id); }
        let i = match find(&self.registrations, input.pending_user_id) {
            None => return Err(AuthError::InvalidCode),
            Some(i) => i,
        };
        if self.registrations[i].superseded {
            return Err(AuthError::InvalidCode);
        }
        if self.registrations[i].challenge.consumed {
            return Err(AuthError::AlreadyConsumed);
        }
        if self.next_id >= u64::MAX - 1 {
            return Err(AuthError::Internal);
        }
        let mut c: Challenge = self.registrations[i].challenge;
        let out = verify(&mut c, self.key, input.code.as_str(), now);
        let p = self.registrations[i].with_challenge(c, self.registrations[i].superseded);
        let user = User { id: self.next_id, email: p.email.clone(), username: p.username.clone(), two_fa: TwoFa::Disabled };
        let email_taken = has_email(&self.users, p.email.as_str());
        let username_taken = has_username(&self.users, p.username.as_str());
        self.registrations.set(i, p);
        match out {
            CodeCheck::Accepted => {
                proof { lemma_wf_step(o, *self); }
                if email_taken {
                    return Err(AuthError::EmailTaken);
                }
                if username_taken {
                    return Err(AuthError::UsernameTaken);
                }
                let user_id = self.next_id;
                let (session, token) = self.sessions.issue(self.key, user_id + 1, user_id, session_secret, now);
                self.users.push(user.duplicate());
                self.next_id = user_id + 2;
                proof {
                    assert(self.users@[self.users@.len() - 1].id == user_id);
                    lemma_wf_step(o, *self);
                }
                Ok(Registered { session, user, token })
            },
            _ => {
                proof { lemma_wf_step(o, *self); }
                Err(to_error(out))
            },
        }
    }

    /// Starts a sign-in of the user that `email_or_username` names: replaces
    /// any earlier pending sign-in of that user and issues an emailed code.
    /// A user with two-factor authentication enabled will owe a second factor too.
    pub fn sign_in(&mut self, input: SignInInput, code_entropy: u64, now: u64) -> (r: Result<PendingCode, AuthError>)
        requires
            old(self).wf(),
        ensures
            final(self).wf(),
            sign_in_post(*old(self), *final(self), input.email_or_username@, code_entropy, now, r),
    {
        let ghost o: Service = *self;
        proof { crate::user::lemma_login_lookup_bounds(self.users@, input.email_or_username@); }
        let j = match find_login(&self.users, input.email_or_username.as_str()) {
            None => return Err(AuthError::NotFound),
            Some(j) => j,
        };
        if self.next_id == u64::MAX {
            return Err(AuthError::Internal);
        }
        let id = self.next_id;
        let user_id = self.users[j].id;
        let two_fa = match self.users[j].two_fa {
            TwoFa::Enabled { .. } => true,
            _ => false,
        };
        let issued = issue(self.key, code_entropy, now);
        supersede_user_sign_ins(&mut self.sign_ins, user_id);
        self.sign_ins.push(PendingSignIn {
            id,
            user_id,
            challenge: issued.challenge,
            two_fa,
            stage: SignInStage::AwaitingCode,
            superseded: false,
        });
        self.next_id = id + 1;
        proof { lemma_wf_step(o, *self); }
        Ok(PendingCode { pending_id: id, code: issued.code })
    }

    /// Completes sign-in `pending_session_id` with the emailed code. Without a
    /// second factor the user is signed in with a session whose secret is
    /// `session_secret`; with one, the sign-in moves on to wait for it.
    pub fn complete_sign_in(&mut self, input: CompleteSignInInput, session_secret: u64, now: u64) -> (r: Result<SignedIn, AuthError>)
        requires
            old(self).wf(),
        ensures
            final(self).wf(),
            complete_sign_in_post(*old(self), *final(self), input.pending_session_id, input.code@, session_secret, now, r),
    {
        let ghost o: Service = *self;
        proof { lemma_lookup_bounds(self.sign_ins@, input.pending_session_id); }
        let i = match find(&self.sign_ins, input.pending_session_id) {
            None => return Err(AuthError::InvalidCode),
            Some(i) => i,
        };
        let p = self.sign_ins[i];
        if p.superseded {
            return Err(AuthError::InvalidCode);
        }
        if p.challenge.consumed {
            return Err(AuthError::AlreadyConsumed);
        }
        if p.stage == SignInStage::AwaitingTwoFa {
            return Err(AuthError::TwoFaRequired);
        }
        proof { lemma_lookup_bounds(self.users@, p.user_id); }
        let j = match find(&self.users, p.user_id) {
            None => return Err(AuthError::NotFound),
            Some(j) => j,
        };
        if self.next_id == u64::MAX {
            return Err(AuthError::Internal);
        }
        let mut c: Challenge = p.challenge;
        let out = verify(&mut c, self.key, input.code.as_str(), now);
        match out {
            CodeCheck::Accepted => {
                if p.two_fa {
                    self.sign_ins.set(i, PendingSignIn { stage: SignInStage::AwaitingTwoFa, ..p });
                    proof { lemma_wf_step(o, *self); }
                    Ok(SignedIn::TwoFa(TwoFaMethod::Totp))
                } else {
                    self.sign_ins.set(i, PendingSignIn { challenge: c, ..p });
                    let id = self.next_id;
                    let (session, token) = self.sessions.issue(self.key, id, p.user_id, session_secret, now);
                    self.next_id = id + 1;
                    proof { lemma_wf_step(o, *self); }
                    Ok(SignedIn::Success { session, user: self.users[j].duplicate(), token })
                }
            },
            _ => {
                self.sign_ins.set(i, PendingSignIn { challenge: c, ..p });
                proof { lemma_wf_step(o, *self); }
                Err(to_error(out))
            },
        }
    }

    /// Completes sign-in `pending_session_id`, which waits for its second
    /// factor, with the time-window `code` of the user's secret; on success
    /// the user is signed in with a session whose secret is `session_secret`.
    pub fn complete_two_fa_challenge(&mut self, input: CompleteTwoFaChallengeInput, session_secret: u64, now: u64) -> (r: Result<SignedIn, AuthError>)
        requires
            old(self).wf(),
        ensures
            final(self).wf(),
            two_fa_challenge_post(*old(self), *final(self), input.pending_session_id, input.code@, session_secret, now, r),
    {
        let ghost o: Service = *self;
        proof { lemma_lookup_bounds(self.sign_ins@, input.pending_session_id); }
        let i = match find(&self.sign_ins, input.pending_session_id) {
            None => return Err(AuthError::InvalidCode),
            Some(i) => i,
        };
        let p = self.sign_ins[i];
        if p.superseded {
            return Err(AuthError::InvalidCode);
        }
        if p.challenge.consumed {
            return Err(AuthError::AlreadyConsumed);
        }
        if p.stage == SignInStage::AwaitingCode {
            return Err(AuthError::InvalidCode);
        }
        proof { lemma_lookup_bounds(self.users@, p.user_id); }
        let j = match find(&self.users, p.user_id) {
            None => return Err(AuthError::NotFound),
            Some(j) => j,
        };
        let secret = match self.users[j].two_fa {
            TwoFa::Enabled { secret } => secret,
            _ => return Err(AuthError::TwoFaNotEnabled),
        };
        if self.next_id == u64::MAX {
            return Err(AuthError::Internal);
        }
        let mut c: Challenge = p.challenge;
        let m = totp_check(secret, input.code.as_str(), now);
        let out = check_challenge(&mut c, m, now);
        self.sign_ins.set(i, PendingSignIn { challenge: c, ..p });
        proof { lemma_wf_step(o, *self); }
        match out {
            CodeCheck::Accepted => {
                let id = self.next_id;
                let (session, token) = self.sessions.issue(self.key, id, p.user_id, session_secret, now);
                self.next_id = id + 1;
                proof { lemma_wf_step(o, *self); }
                Ok(SignedIn::Success { session, user: self.users[j].duplicate(), token })
            },
            CodeCheck::Mismatch => Err(AuthError::TwoFaMismatch),
            _ => Err(to_error(out)),
        }
    }
}

impl Service {
    /// Begins two-factor setup for `user_id` with `secret`, which the user's
    /// authenticator takes over; a setup already under way is restarted.
    pub fn setup_two_fa(&mut self, user_id: u64, secret: u64) -> (r: Result<u64, AuthError>)
        requires
            old(self).wf(),
        ensures
            final(self).wf(),
            match lookup(old(self).users@, user_id) {
                None => r == Err::<u64, AuthError>(AuthError::NotFound) && *final(self) == *old(self),
                Some(j) => if old(self).users@[j].two_fa is Enabled {
                    r == Err::<u64, AuthError>(AuthError::TwoFaAlreadyEnabled) && *final(self) == *old(self)
                } else {
                    &&& r == Ok::<u64, AuthError>(secret)
                    &&& final(self).users@ == old(self).users@.update(
                        j, User { two_fa: TwoFa::PendingSetup { secret }, ..old(self).users@[j] })
                    &&& final(self).key == old(self).key
                    &&& final(self).next_id == old(self).next_id
                    &&& final(self).registrations@ == old(self).registrations@
                    &&& final(self).sign_ins@ == old(self).sign_ins@
                    &&& final(self).email_changes@ == old(self).email_changes@
                    &&& final(self).sessions == old(self).sessions
                },
            },
    {
        let ghost o: Service = *self;
        proof { lemma_lookup_bounds(self.users@, user_id); }
        let j = match find(&self.users, user_id) {
            None => return Err(AuthError::NotFound),
            Some(j) => j,
        };
        if let TwoFa::Enabled { .. } = self.users[j].two_fa {
            return Err(AuthError::TwoFaAlreadyEnabled);
        }
        let mut u = self.users[j].duplicate();
        u.two_fa = TwoFa::PendingSetup { secret };
        self.users.set(j, u);
        proof { lemma_wf_step(o, *self); }
        Ok(secret)
    }

    /// Confirms two-factor setup with a time-window code of the new secret,
    /// enables it, revokes every other session of the user, and supersedes
    /// the user's pending sign-ins, which were started without a second factor.
    pub fn complete_two_fa_setup(&mut self, user_id: u64, current_session: Option<u64>, input: EnableTwoFaInput, now: u64) -> (r: Result<(), AuthError>)
        requires
            old(self).wf(),
        ensures
            final(self).wf(),
            match lookup(old(self).users@, user_id) {
                None => r == Err::<(), AuthError>(AuthError::NotFound) && *final(self) == *old(self),
                Some(j) => match old(self).users@[j].two_fa {
                    TwoFa::PendingSetup { secret } => if !totp_accepts(secret, input.code@, now) {
                        r == Err::<(), AuthError>(AuthError::TwoFaMismatch) && *final(self) == *old(self)
                    } else {
                        &&& r == Ok::<(), AuthError>(())
                        &&& final(self).users@ == old(self).users@.update(
                            j, User { two_fa: TwoFa::Enabled { secret }, ..old(self).users@[j] })
                        &&& final(self).sessions.sessions@ == revoked_others(old(self).sessions.sessions@, user_id, current_session)
                        &&& final(self).sessions.anonymous@ == old(self).sessions.anonymous@
                        &&& final(self).key == old(self).key
                        &&& final(self).next_id == old(self).next_id
                        &&& final(self).registrations@ == old(self).registrations@
                        &&& final(self).sign_ins@ == supersede_sign_ins(old(self).sign_ins@, user_id)
                        &&& final(self).email_changes@ == old(self).email_changes@
                    },
                    _ => r == Err::<(), AuthError>(AuthError::TwoFaNotPending) && *final(self) == *old(self),
                },
            },
    {
        let ghost o: Service = *self;
        proof { lemma_lookup_bounds(self.users@, user_id); }
        let j = match find(&self.users, user_id) {
            None => return Err(AuthError::NotFound),
            Some(j) => j,
        };
        let secret = match self.users[j].two_fa {
            TwoFa::PendingSetup { secret } => secret,
            _ => return Err(AuthError::TwoFaNotPending),
        };
        if !totp_check(secret, input.code.as_str(), now) {
            return Err(AuthError::TwoFaMismatch);
        }
        let mut u = self.users[j].duplicate();
        u.two_fa = TwoFa::Enabled { secret };
        self.users.set(j, u);
        self.sessions.revoke_others(user_id, current_session);
        supersede_user_sign_ins(&mut self.sign_ins, user_id);
        proof { lemma_wf_step(o, *self); }
        Ok(())
    }

    /// Disables two-factor authentication, given a current time-window code,
    /// and revokes every other session of the user.
    pub fn disable_two_fa(&mut self, user_id: u64, current_session: Option<u64>, input: DisableTwoFaInput, now: u64) -> (r: Result<(), AuthError>)
        requires
            old(self).wf(),
        ensures
            final(self).wf(),
            match lookup(old(self).users@, user_id) {
                None => r == Err::<(), AuthError>(AuthError::NotFound) && *final(self) == *old(self),
                Some(j) => match old(self).users@[j].two_fa {
                    TwoFa::Enabled { secret } => if !totp_accepts(secret, input.code@, now) {
                        r == Err::<(), AuthError>(AuthError::TwoFaMismatch) && *final(self) == *old(self)
                    } else {
                        &&& r == Ok::<(), AuthError>(())
                        &&& final(self).users@ == old(self).users@.update(
                            j, User { two_fa: TwoFa::Disabled, ..old(self).users@[j] })
                        &&& final(self).sessions.sessions@ == revoked_others(old(self).sessions.sessions@, user_id, current_session)
                        &&& final(self).sessions.anonymous@ == old(self).sessions.anonymous@
                        &&& final(self).key == old(self).key
                        &&& final(self).next_id == old(self).next_id
                        &&& final(self).registrations@ == old(self).registrations@
                        &&& final(self).sign_ins@ == old(self).sign_ins@
                        &&& final(self).email_changes@ == old(self).email_changes@
                    },
                    _ => r == Err::<(), AuthError>(AuthError::TwoFaNotEnabled) && *final(self) == *old(self),
                },
            },
    {
        let ghost o: Service = *self;
        proof { lemma_lookup_bounds(self.users@, user_id); }
        let j = match find(&self.users, user_id) {
            None => return Err(AuthError::NotFound),
            Some(j) => j,
        };
        let secret = match self.users[j].two_fa {
            TwoFa::Enabled { secret } => secret,
            _ => return Err(AuthError::TwoFaNotEnabled),
        };
        if !totp_check(secret, input.code.as_str(), now) {
            return Err(AuthError::TwoFaMismatch);
        }
        let mut u = self.users[j].duplicate();
        u.two_fa = TwoFa::Disabled;
        self.users.set(j, u);
        self.sessions.revoke_others(user_id, current_session);
        proof { lemma_wf_step(o, *self); }
        Ok(())
    }

    /// Revokes session `session_id` of `actor`; revoking it twice is no error.
    pub fn revoke_session(&mut self, actor: u64, input: RevokeSessionInput) -> (r: Result<(), AuthError>)
        requires
            old(self).wf(),
        ensures
            final(self).wf(),
            r == revoke_result(old(self).sessions.sessions@, actor, input.session_id),
            r is Ok ==> final(self).sessions.sessions@ == old(self).sessions.sessions@.update(
                lookup(old(self).sessions.sessions@, input.session_id).unwrap(),
                Session {
                    revoked: true,
                    ..old(self).sessions.sessions@[lookup(old(self).sessions.sessions@, input.session_id).unwrap()]
                },
            ),
            r is Err ==> final(self).sessions.sessions@ == old(self).sessions.sessions@,
            final(self).sessions.anonymous@ == old(self).sessions.anonymous@,
            final(self).key == old(self).key,
            final(self).next_id == old(self).next_id,
            final(self).users@ == old(self).users@,
            final(self).registrations@ == old(self).registrations@,
            final(self).sign_ins@ == old(self).sign_ins@,
            final(self).email_changes@ == old(self).email_changes@,
    {
        let ghost o: Service = *self;
        proof { lemma_lookup_bounds(self.sessions.sessions@, input.session_id); }
        let r = self.sessions.revoke(actor, input.session_id);
        proof { lemma_wf_step(o, *self); }
        r
    }

    /// Starts a change of `user_id`'s email to `new_email`: replaces any
    /// earlier pending change of that user and issues a code sent to the new address.
    pub fn request_email_change(&mut self, user_id: u64, new_email: String, code_entropy: u64, now: u64) -> (r: Result<PendingCode, AuthError>)
        requires
            old(self).wf(),
        ensures
            final(self).wf(),
            if !valid_email(new_email@) {
                r == Err::<PendingCode, AuthError>(AuthError::InvalidInput) && *final(self) == *old(self)
            } else if lookup(old(self).users@, user_id) is None {
                r == Err::<PendingCode, AuthError>(AuthError::NotFound) && *final(self) == *old(self)
            } else if email_in_use(old(self).users@, new_email@) {
                r == Err::<PendingCode, AuthError>(AuthError::EmailTaken) && *final(self) == *old(self)
            } else if old(self).next_id == u64::MAX {
                r == Err::<PendingCode, AuthError>(AuthError::Internal) && *final(self) == *old(self)
            } else {
                r matches Ok(p) && {
                    &&& p.pending_id == old(self).next_id
                    &&& p.code@ == code_text(code_number(code_entropy))
                    &&& final(self).email_changes@ == supersede_email_changes(old(self).email_changes@, user_id).push(
                        PendingEmailChange {
                            id: old(self).next_id,
                            user_id,
                            new_email,
                            challenge: issued_challenge(old(self).key, code_entropy, now),
                            superseded: false,
                        })
                    &&& final(self).next_id == old(self).next_id + 1
                    &&& final(self).key == old(self).key
                    &&& final(self).users@ == old(self).users@
                    &&& final(self).registrations@ == old(self).registrations@
                    &&& final(self).sign_ins@ == old(self).sign_ins@
                    &&& final(self).sessions == old(self).sessions
                }
            },
    {
        let ghost o: Service = *self;
        if !is_valid_email(new_email.as_str()) {
            return Err(AuthError::InvalidInput);
        }
        proof { lemma_lookup_bounds(self.users@, user_id); }
        let j = match find(&self.users, user_id) {
            None => return Err(AuthError::NotFound),
            Some(j) => j,
        };
        assert(has_user(self.users@, user_id)) by {
            assert(self.users@[j as int].id == user_id);
        }
        if has_email(&self.users, new_email.as_str()) {
            return Err(AuthError::EmailTaken);
        }
        if self.next_id == u64::MAX {
            return Err(AuthError::Internal);
        }
        let id = self.next_id;
        let issued = issue(self.key, code_entropy, now);
        supersede_user_email_changes(&mut self.email_changes, user_id);
        self.email_changes.push(PendingEmailChange { id, user_id, new_email, challenge: issued.challenge, superseded: false });
        self.next_id = id + 1;
        proof { lemma_wf_step(o, *self); }
        Ok(PendingCode { pending_id: id, code: issued.code })
    }

    /// Confirms pending email change `pending_email_id` with its code: the
    /// user's email becomes the new one and every other session of the user
    /// is revoked. The old address comes back, to be told of the change.
    /// Whether the address is taken is only told to a caller with the right code.
    pub fn verify_email(&mut self, current_session: Option<u64>, input: VerifyEmailInput, now: u64) -> (r: Result<SendEmailChangedEmailInput, AuthError>)
        requires
            old(self).wf(),
        ensures
            final(self).wf(),
            match verify_email_precheck(*old(self), input.pending_email_id) {
                Err(e) => r == Err::<SendEmailChangedEmailInput, AuthError>(e) && *final(self) == *old(self),
                Ok(i) => {
                    let p = old(self).email_changes@[i];
                    let m = code_matches(old(self).key, p.challenge.digest, input.code@);
                    let out = check_outcome(p.challenge, m, now);
                    let found = lookup(old(self).users@, p.user_id);
                    let taken = email_in_use(old(self).users@, p.new_email@);
                    &&& final(self).email_changes@ == old(self).email_changes@.update(
                        i, PendingEmailChange { challenge: after_check(p.challenge, m, now), ..p })
                    &&& final(self).key == old(self).key
                    &&& final(self).next_id == old(self).next_id
                    &&& final(self).registrations@ == old(self).registrations@
                    &&& final(self).sign_ins@ == old(self).sign_ins@
                    &&& final(self).sessions.anonymous@ == old(self).sessions.anonymous@
                    &&& (out != CodeCheck::Accepted || found is None || taken) ==> {
                        &&& r == Err::<SendEmailChangedEmailInput, AuthError>(
                            if out != CodeCheck::Accepted {
                                code_error(out)
                            } else if found is None {
                                AuthError::NotFound
                            } else {
                                AuthError::EmailTaken
                            },
                        )
                        &&& final(self).users@ == old(self).users@
                        &&& final(self).sessions == old(self).sessions
                    }
                    &&& (out == CodeCheck::Accepted && found is Some && !taken) ==> (r matches Ok(e) && {
                        let j = found.unwrap();
                        &&& e.email@ == old(self).users@[j].email@
                        &&& e.name@ == old(self).users@[j].username@
                        &&& e.new_email@ == p.new_email@
                        &&& final(self).users@ == old(self).users@.update(
                            j, User { email: p.new_email, ..old(self).users@[j] })
                        &&& final(self).sessions.sessions@ == revoked_others(old(self).sessions.sessions@, p.user_id, current_session)
                    })
                },
            },
    {
        let ghost o: Service = *self;
        proof { lemma_lookup_bounds(self.email_changes@, input.pending_email_id); }
        let i = match find(&self.email_changes, input.pending_email_id) {
            None => return Err(AuthError::InvalidCode),
            Some(i) => i,
        };
        if self.email_changes[i].superseded {
            return Err(AuthError::InvalidCode);
        }
        if self.email_changes[i].challenge.consumed {
            return Err(AuthError::AlreadyConsumed);
        }
        let user_id = self.email_changes[i].user_id;
        let mut c: Challenge = self.email_changes[i].challenge;
        let out = verify(&mut c, self.key, input.code.as_str(), now);
        let taken = has_email(&self.users, self.email_changes[i].new_email.as_str());
        let p = self.email_changes[i].with_challenge(c, false);
        let new_email = p.new_email.clone();
        self.email_changes.set(i, p);
        proof { lemma_wf_step(o, *self); }
        if out != CodeCheck::Accepted {
            return Err(to_error(out));
        }
        proof { lemma_lookup_bounds(self.users@, user_id); }
        let j = match find(&self.users, user_id) {
            None => return Err(AuthError::NotFound),
            Some(j) => j,
        };
        if taken {
            return Err(AuthError::EmailTaken);
        }
        let mut u = self.users[j].duplicate();
        let notice = SendEmailChangedEmailInput {
            email: u.email.clone(),
            name: u.username.clone(),
            new_email: new_email.clone(),
        };
        u.email = new_email;
        self.users.set(j, u);
        self.sessions.revoke_others(user_id, current_session);
        proof {
            lemma_unique_after_email_update(o.users@, j as int, self.users@[j as int]);
            lemma_wf_step(o, *self);
        }
        Ok(notice)
    }

    /// The user whose live session `token` presents.
    pub fn decode_and_validate_session_token(&self, token: String) -> (r: Result<User, AuthError>)
        ensures
            match session_user(self.sessions.sessions@, self.key, token@) {
                None => r == Err::<User, AuthError>(AuthError::InvalidToken),
                Some(uid) => match lookup(self.users@, uid) {
                    None => r == Err::<User, AuthError>(AuthError::InvalidToken),
                    Some(j) => r == Ok::<User, AuthError>(self.users@[j]),
                },
            },
    {
        let uid = match self.sessions.validate(self.key, token.as_str()) {
            None => return Err(AuthError::InvalidToken),
            Some(uid) => uid,
        };
        proof { lemma_lookup_bounds(self.users@, uid); }
        match find(&self.users, uid) {
            None => Err(AuthError::InvalidToken),
            Some(j) => Ok(self.users[j].duplicate()),
        }
    }

    /// Issues an anonymous token, valid for `ANONYMOUS_TTL` seconds from `now`.
    pub fn create_anonymous_token(&mut self, secret: u64, now: u64) -> (r: Result<String, AuthError>)
        requires
            old(self).wf(),
        ensures
            final(self).wf(),
            old(self).next_id == u64::MAX ==> r == Err::<String, AuthError>(AuthError::Internal) && *final(self) == *old(self),
            old(self).next_id < u64::MAX ==> (r matches Ok(t) && {
                &&& t@ == token_text(old(self).next_id, secret)
                &&& final(self).sessions.anonymous@ == old(self).sessions.anonymous@.push(AnonymousSession {
                    id: old(self).next_id,
                    secret_digest: crate::crypto::tag_of(crate::session::secret_digest_of(old(self).key, secret)),
                    expires_at: if now + ANONYMOUS_TTL <= u64::MAX { (now + ANONYMOUS_TTL) as u64 } else { u64::MAX },
                })
                &&& final(self).sessions.sessions@ == old(self).sessions.sessions@
                &&& final(self).next_id == old(self).next_id + 1
                &&& final(self).key == old(self).key
                &&& final(self).users@ == old(self).users@
                &&& final(self).registrations@ == old(self).registrations@
                &&& final(self).sign_ins@ == old(self).sign_ins@
                &&& final(self).email_changes@ == old(self).email_changes@
            }),
    {
        let ghost o: Service = *self;
        if self.next_id == u64::MAX {
            return Err(AuthError::Internal);
        }
        let id = self.next_id;
        let t = self.sessions.issue_anonymous(self.key, id, secret, now);
        self.next_id = id + 1;
        proof { lemma_wf_step(o, *self); }
        Ok(t)
    }

    /// The anonymous id that `token` presents, while it is valid at `now`.
    pub fn decode_and_validate_anonymous_token(&self, token: String, now: u64) -> (r: Result<u64, AuthError>)
        ensures
            match anonymous_id(self.sessions.anonymous@, self.key, token@, now) {
                None => r == Err::<u64, AuthError>(AuthError::InvalidToken),
                Some(id) => r == Ok::<u64, AuthError>(id),
            },
    {
        match self.sessions.validate_anonymous(self.key, token.as_str(), now) {
            None => Err(AuthError::InvalidToken),
            Some(id) => Ok(id),
        }
    }
}

} // verus!
