//! Pending flows: registrations, sign-ins and email changes that wait for a code.
use vstd::prelude::*;
use crate::code::{Challenge, CodeCheck};
use crate::error::AuthError;
use crate::store::Keyed;
use crate::user::same_email;

verus! {

#[derive(Debug)]
pub struct PendingRegistration {
    pub id: u64,
    pub email: String,
    pub username: String,
    pub challenge: Challenge,
    /// A later registration for the same email replaced this one.
    pub superseded: bool,
}

impl Keyed for PendingRegistration {
    open spec fn key(&self) -> u64 {
        self.id
    }

    fn get_key(&self) -> (r: u64) {
        self.id
    }
}

/// Where a sign-in stands: waiting for the emailed code, or for the second factor.
#[derive(Clone, Copy, Debug, PartialEq, Eq, Structural)]
pub enum SignInStage {
    AwaitingCode,
    AwaitingTwoFa,
}

#[derive(Clone, Copy, Debug)]
pub struct PendingSignIn {
    pub id: u64,
    pub user_id: u64,
    pub challenge: Challenge,
    /// The user had two-factor authentication enabled when signing in.
    pub two_fa: bool,
    pub stage: SignInStage,
    /// A later sign-in of the same user replaced this one.
    pub superseded: bool,
}

impl Keyed for PendingSignIn {
    open spec fn key(&self) -> u64 {
        self.id
    }

    fn get_key(&self) -> (r: u64) {
        self.id
    }
}

#[derive(Debug)]
pub struct PendingEmailChange {
    pub id: u64,
    pub user_id: u64,
    pub new_email: String,
    pub challenge: Challenge,
    /// A later email change of the same user replaced this one.
    pub superseded: bool,
}

impl Keyed for PendingEmailChange {
    open spec fn key(&self) -> u64 {
        self.id
    }

    fn get_key(&self) -> (r: u64) {
        self.id
    }
}

/// The error that a failed code check shows the caller: wrong and expired
/// codes look the same.
pub open spec fn code_error(c: CodeCheck) -> AuthError {
    match c {
        CodeCheck::AlreadyConsumed => AuthError::AlreadyConsumed,
        CodeCheck::TooManyAttempts => AuthError::TooManyAttempts,
        _ => AuthError::InvalidCode,
    }
}

pub fn to_error(c: CodeCheck) -> (r: AuthError)
    ensures
        r == code_error(c),
{
    match c {
        CodeCheck::AlreadyConsumed => AuthError::AlreadyConsumed,
        CodeCheck::TooManyAttempts => AuthError::TooManyAttempts,
        _ => AuthError::InvalidCode,
    }
}

/// `regs` with every live registration for `email` marked superseded.
pub open spec fn supersede_email(regs: Seq<PendingRegistration>, email: Seq<char>) -> Seq<PendingRegistration> {
    regs.map_values(|p: PendingRegistration|
        if same_email(p.email@, email) { PendingRegistration { superseded: true, ..p } } else { p })
}

/// `s` with every sign-in of `user_id` marked superseded.
pub open spec fn supersede_sign_ins(s: Seq<PendingSignIn>, user_id: u64) -> Seq<PendingSignIn> {
    s.map_values(|p: PendingSignIn| if p.user_id == user_id { PendingSignIn { superseded: true, ..p } } else { p })
}

/// `s` with every email change of `user_id` marked superseded.
pub open spec fn supersede_email_changes(s: Seq<PendingEmailChange>, user_id: u64) -> Seq<PendingEmailChange> {
    s.map_values(|p: PendingEmailChange|
        if p.user_id == user_id { PendingEmailChange { superseded: true, ..p } } else { p })
}

impl PendingRegistration {
    pub fn with_challenge(&self, challenge: Challenge, superseded: bool) -> (r: PendingRegistration)
        ensures
            r == (PendingRegistration { challenge, superseded, ..*self }),
    {
        PendingRegistration {
            id: self.id,
            email: self.email.clone(),
            username: self.username.clone(),
            challenge,
            superseded,
        }
    }
}

impl PendingEmailChange {
    pub fn with_challenge(&self, challenge: Challenge, superseded: bool) -> (r: PendingEmailChange)
        ensures
            r == (PendingEmailChange { challenge, superseded, ..*self }),
    {
        PendingEmailChange { id: self.id, user_id: self.user_id, new_email: self.new_email.clone(), challenge, superseded }
    }
}

pub fn supersede_registrations(regs: &mut Vec<PendingRegistration>, email: &str)
    ensures
        final(regs)@ == supersede_email(old(regs)@, email@),
{
    let ghost start = regs@;
    let mut i: usize = 0;
    while i < regs.len()
        invariant
            i <= regs@.len(),
            regs@.len() == start.len(),
            start == old(regs)@,
            forall|j: int| 0 <= j < i ==> regs@[j] == supersede_email(start, email@)[j],
            forall|j: int| i <= j < start.len() ==> regs@[j] == start[j],
        decreases start.len() - i,
    {
        if crate::user::emails_equal(regs[i].email.as_str(), email) {
            let p = regs[i].with_challenge(regs[i].challenge, true);
            regs.set(i, p);
        }
        i = i + 1;
    }
    assert(regs@ =~= supersede_email(start, email@));
}

pub fn supersede_user_sign_ins(s: &mut Vec<PendingSignIn>, user_id: u64)
    ensures
        final(s)@ == supersede_sign_ins(old(s)@, user_id),
{
    let ghost start = s@;
    let mut i: usize = 0;
    while i < s.len()
        invariant
            i <= s@.len(),
            s@.len() == start.len(),
            start == old(s)@,
            forall|j: int| 0 <= j < i ==> s@[j] == supersede_sign_ins(start, user_id)[j],
            forall|j: int| i <= j < start.len() ==> s@[j] == start[j],
        decreases start.len() - i,
    {
        let p = s[i];
        if p.user_id == user_id {
            s.set(i, PendingSignIn { superseded: true, ..p });
        }
        i = i + 1;
    }
    assert(s@ =~= supersede_sign_ins(start, user_id));
}

pub fn supersede_user_email_changes(s: &mut Vec<PendingEmailChange>, user_id: u64)
    ensures
        final(s)@ == supersede_email_changes(old(s)@, user_id),
{
    let ghost start = s@;
    let mut i: usize = 0;
    while i < s.len()
        invariant
            i <= s@.len(),
            s@.len() == start.len(),
            start == old(s)@,
            forall|j: int| 0 <= j < i ==> s@[j] == supersede_email_changes(start, user_id)[j],
            forall|j: int| i <= j < start.len() ==> s@[j] == start[j],
        decreases start.len() - i,
    {
        if s[i].user_id == user_id {
            let p = s[i].with_challenge(s[i].challenge, true);
            s.set(i, p);
        }
        i = i + 1;
    }
    assert(s@ =~= supersede_email_changes(start, user_id));
}

} // verus!
