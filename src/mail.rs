//! What the flows hand the mailer: the recipient and the variables of each email.
use vstd::prelude::*;
use crate::error::AuthError;
use crate::service::{PendingCode, Service};
use crate::store::{find, lemma_lookup_bounds, lookup};
use crate::two_fa::{totp_accepts, totp_check, TwoFa};
use crate::user::User;

verus! {

/// The registration email: the code goes to the address being registered.
#[derive(Debug)]
pub struct SendRegisterEmailInput {
    pub email: String,
    pub username: String,
    pub code: String,
}

/// The sign-in email, sent to the user's address.
#[derive(Debug)]
pub struct SendSignInEmailInput {
    pub email: String,
    pub name: String,
    pub code: String,
}

/// The notice sent to the old address once the email has changed.
#[derive(Debug)]
pub struct SendEmailChangedEmailInput {
    pub email: String,
    pub name: String,
    pub new_email: String,
}

/// The verification email, sent to the new address.
#[derive(Debug)]
pub struct SendVerifyEmailEmailInput {
    pub email: String,
    pub name: String,
    pub code: String,
}

/// The data required to delete one's account.
#[derive(Debug)]
pub struct DeleteMyAccountInput {
    pub two_fa_totp_code: Option<String>,
}

pub fn register_email(email: &String, username: &String, pending: &PendingCode) -> (r: SendRegisterEmailInput)
    ensures
        r.email@ == email@,
        r.username@ == username@,
        r.code@ == pending.code@,
{
    SendRegisterEmailInput { email: email.clone(), username: username.clone(), code: pending.code.clone() }
}

pub fn email_changed_email(old_email: &String, user: &User) -> (r: SendEmailChangedEmailInput)
    ensures
        r.email@ == old_email@,
        r.name@ == user.username@,
        r.new_email@ == user.email@,
{
    SendEmailChangedEmailInput { email: old_email.clone(), name: user.username.clone(), new_email: user.email.clone() }
}

impl Service {
    /// The sign-in email for `pending`: to the address of the user signing in.
    pub fn sign_in_email(&self, pending: &PendingCode) -> (r: Option<SendSignInEmailInput>)
        ensures
            match lookup(self.sign_ins@, pending.pending_id) {
                None => r is None,
                Some(i) => match lookup(self.users@, self.sign_ins@[i].user_id) {
                    None => r is None,
                    Some(j) => r matches Some(m) && m.email@ == self.users@[j].email@
                        && m.name@ == self.users@[j].username@ && m.code@ == pending.code@,
                },
            },
    {
        proof { lemma_lookup_bounds(self.sign_ins@, pending.pending_id); }
        let i = match find(&self.sign_ins, pending.pending_id) {
            None => return None,
            Some(i) => i,
        };
        proof { lemma_lookup_bounds(self.users@, self.sign_ins@[i as int].user_id); }
        match find(&self.users, self.sign_ins[i].user_id) {
            None => None,
            Some(j) => Some(SendSignInEmailInput {
                email: self.users[j].email.clone(),
                name: self.users[j].username.clone(),
                code: pending.code.clone(),
            }),
        }
    }

    /// The verification email for `pending`: to the new address.
    pub fn verify_email_email(&self, pending: &PendingCode) -> (r: Option<SendVerifyEmailEmailInput>)
        ensures
            match lookup(self.email_changes@, pending.pending_id) {
                None => r is None,
                Some(i) => match lookup(self.users@, self.email_changes@[i].user_id) {
                    None => r is None,
                    Some(j) => r matches Some(m) && m.email@ == self.email_changes@[i].new_email@
                        && m.name@ == self.users@[j].username@ && m.code@ == pending.code@,
                },
            },
    {
        proof { lemma_lookup_bounds(self.email_changes@, pending.pending_id); }
        let i = match find(&self.email_changes, pending.pending_id) {
            None => return None,
            Some(i) => i,
        };
        proof { lemma_lookup_bounds(self.users@, self.email_changes@[i as int].user_id); }
        match find(&self.users, self.email_changes[i].user_id) {
            None => None,
            Some(j) => Some(SendVerifyEmailEmailInput {
                email: self.email_changes[i].new_email.clone(),
                name: self.users[j].username.clone(),
                code: pending.code.clone(),
            }),
        }
    }

    /// Whether `user_id` may have the account deleted: a user with two-factor
    /// authentication enabled must give a current time-window code.
    pub fn authorize_account_deletion(&self, user_id: u64, input: &DeleteMyAccountInput, now: u64) -> (r: Result<(), AuthError>)
        ensures
            match lookup(self.users@, user_id) {
                None => r == Err::<(), AuthError>(AuthError::NotFound),
                Some(j) => match self.users@[j].two_fa {
                    TwoFa::Enabled { secret } => match input.two_fa_totp_code {
                        None => r == Err::<(), AuthError>(AuthError::TwoFaRequired),
                        Some(c) => if totp_accepts(secret, c@, now) {
                            r == Ok::<(), AuthError>(())
                        } else {
                            r == Err::<(), AuthError>(AuthError::TwoFaMismatch)
                        },
                    },
                    _ => r == Ok::<(), AuthError>(()),
                },
            },
    {
        proof { lemma_lookup_bounds(self.users@, user_id); }
        let j = match find(&self.users, user_id) {
            None => return Err(AuthError::NotFound),
            Some(j) => j,
        };
        match self.users[j].two_fa {
            TwoFa::Enabled { secret } => match &input.two_fa_totp_code {
                None => Err(AuthError::TwoFaRequired),
                Some(c) => if totp_check(secret, c.as_str(), now) {
                    Ok(())
                } else {
                    Err(AuthError::TwoFaMismatch)
                },
            },
            _ => Ok(()),
        }
    }
}

} // verus!
