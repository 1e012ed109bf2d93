//! Sessions: issued on sign-in, presented as bearer tokens, revoked for good.
use vstd::prelude::*;
use crate::crypto::{keyed_tag, lemma_tag_of, mac_of, tag_of, tags_equal};
use crate::digits::{digits_of, push_digits};
use crate::error::AuthError;
use crate::store::{find, lemma_lookup_bounds, lemma_lookup_push, lemma_lookup_update, lookup, Keyed};
use crate::token::{decode_token, encode_token, lemma_token_round_trip, token_parts, token_text};

verus! {

/// Seconds for which an anonymous token stays valid.
pub const ANONYMOUS_TTL: u64 = 3600;

/// The tag kept for a secret: the HMAC-SHA256 tag of its sixteen hex digits.
pub open spec fn secret_digest_of(key: u64, secret: u64) -> Seq<u8> {
    mac_of(key, digits_of(secret as nat, 16, 16))
}

pub fn secret_digest(key: u64, secret: u64) -> (r: [u8; 32])
    ensures
        r@ == secret_digest_of(key, secret),
        r == tag_of(secret_digest_of(key, secret)),
        secret_digest_of(key, secret).len() == 32,
{
    let mut text = String::new();
    push_digits(&mut text, secret, 16, 16);
    assert(text@ =~= digits_of(secret as nat, 16, 16));
    keyed_tag(key, text.as_str())
}

/// A session: only the HMAC-SHA256 tag of its secret is kept.
#[derive(Clone, Copy, Debug)]
pub struct Session {
    pub id: u64,
    pub user_id: u64,
    pub secret_digest: [u8; 32],
    pub created_at: u64,
    pub revoked: bool,
}

impl Keyed for Session {
    open spec fn key(&self) -> u64 {
        self.id
    }

    fn get_key(&self) -> (r: u64) {
        self.id
    }
}

/// A short-lived token holder that is tied to no user.
#[derive(Clone, Copy, Debug)]
pub struct AnonymousSession {
    pub id: u64,
    pub secret_digest: [u8; 32],
    pub expires_at: u64,
}

impl Keyed for AnonymousSession {
    open spec fn key(&self) -> u64 {
        self.id
    }

    fn get_key(&self) -> (r: u64) {
        self.id
    }
}

pub struct SessionManager {
    pub sessions: Vec<Session>,
    pub anonymous: Vec<AnonymousSession>,
}

/// The user whose live session `token` presents, if any. A malformed token,
/// an unknown id, a wrong secret and a revoked session all give `None`.
pub open spec fn session_user(s: Seq<Session>, key: u64, token: Seq<char>) -> Option<u64> {
    match token_parts(token) {
        None => None,
        Some((id, secret)) => match lookup(s, id) {
            None => None,
            Some(i) => if !s[i].revoked && s[i].secret_digest@ == secret_digest_of(key, secret) {
                Some(s[i].user_id)
            } else {
                None
            },
        },
    }
}

/// The anonymous id that `token` presents, if it is known, matches and has not expired at `now`.
pub open spec fn anonymous_id(s: Seq<AnonymousSession>, key: u64, token: Seq<char>, now: u64) -> Option<u64> {
    match token_parts(token) {
        None => None,
        Some((id, secret)) => match lookup(s, id) {
            None => None,
            Some(i) => if now < s[i].expires_at && s[i].secret_digest@ == secret_digest_of(key, secret) {
                Some(s[i].id)
            } else {
                None
            },
        },
    }
}

/// `s` with every session of `user_id` revoked, but the one with id `keep`.
pub open spec fn revoked_others(s: Seq<Session>, user_id: u64, keep: Option<u64>) -> Seq<Session> {
    s.map_values(|x: Session|
        if x.user_id == user_id && keep != Some(x.id) { Session { revoked: true, ..x } } else { x })
}

/// What revoking session `session_id` on behalf of `actor` gives.
pub open spec fn revoke_result(s: Seq<Session>, actor: u64, session_id: u64) -> Result<(), AuthError> {
    match lookup(s, session_id) {
        Some(i) => if s[i].user_id == actor { Ok(()) } else { Err(AuthError::NotFound) },
        None => Err(AuthError::NotFound),
    }
}

impl SessionManager {
    pub fn new() -> (r: SessionManager)
        ensures
            r.sessions@.len() == 0,
            r.anonymous@.len() == 0,
    {
        SessionManager { sessions: Vec::new(), anonymous: Vec::new() }
    }

    /// Stores a session `id` for `user_id` and returns it with its token.
    pub fn issue(&mut self, key: u64, id: u64, user_id: u64, secret: u64, now: u64) -> (r: (Session, String))
        ensures
            r.0 == (Session { id, user_id, secret_digest: tag_of(secret_digest_of(key, secret)), created_at: now, revoked: false }),
            r.1@ == token_text(id, secret),
            final(self).sessions@ == old(self).sessions@.push(r.0),
            final(self).anonymous@ == old(self).anonymous@,
    {
        let s = Session { id, user_id, secret_digest: secret_digest(key, secret), created_at: now, revoked: false };
        self.sessions.push(s);
        (s, encode_token(id, secret))
    }

    /// Stores an anonymous session `id` valid for `ANONYMOUS_TTL` seconds and returns its token.
    pub fn issue_anonymous(&mut self, key: u64, id: u64, secret: u64, now: u64) -> (r: String)
        ensures
            r@ == token_text(id, secret),
            final(self).anonymous@ == old(self).anonymous@.push(AnonymousSession {
                id,
                secret_digest: tag_of(secret_digest_of(key, secret)),
                expires_at: if now + ANONYMOUS_TTL <= u64::MAX { (now + ANONYMOUS_TTL) as u64 } else { u64::MAX },
            }),
            final(self).sessions@ == old(self).sessions@,
    {
        let a = AnonymousSession { id, secret_digest: secret_digest(key, secret), expires_at: now.saturating_add(ANONYMOUS_TTL) };
        self.anonymous.push(a);
        encode_token(id, secret)
    }

    /// The user of the live session that `token` presents.
    pub fn validate(&self, key: u64, token: &str) -> (r: Option<u64>)
        ensures
            r == session_user(self.sessions@, key, token@),
    {
        match decode_token(token) {
            None => None,
            Some(d) => match find(&self.sessions, d.session_id) {
                None => None,
                Some(i) => {
                    proof { lemma_lookup_bounds(self.sessions@, d.session_id); }
                    let s = self.sessions[i];
                    if !s.revoked && tags_equal(&s.secret_digest, &secret_digest(key, d.secret)) {
                        Some(s.user_id)
                    } else {
                        None
                    }
                },
            },
        }
    }

    /// The anonymous id that `token` presents, while it is valid.
    pub fn validate_anonymous(&self, key: u64, token: &str, now: u64) -> (r: Option<u64>)
        ensures
            r == anonymous_id(self.anonymous@, key, token@, now),
    {
        match decode_token(token) {
            None => None,
            Some(d) => match find(&self.anonymous, d.session_id) {
                None => None,
                Some(i) => {
                    proof { lemma_lookup_bounds(self.anonymous@, d.session_id); }
                    let a = self.anonymous[i];
                    if now < a.expires_at && tags_equal(&a.secret_digest, &secret_digest(key, d.secret)) {
                        Some(a.id)
                    } else {
                        None
                    }
                },
            },
        }
    }

    /// Revokes session `session_id` of `actor`; revoking it again is a success too.
    pub fn revoke(&mut self, actor: u64, session_id: u64) -> (r: Result<(), AuthError>)
        ensures
            r == revoke_result(old(self).sessions@, actor, session_id),
            r is Ok ==> final(self).sessions@ == old(self).sessions@.update(
                lookup(old(self).sessions@, session_id).unwrap(),
                Session { revoked: true, ..old(self).sessions@[lookup(old(self).sessions@, session_id).unwrap()] },
            ),
            r is Err ==> final(self).sessions@ == old(self).sessions@,
            final(self).anonymous@ == old(self).anonymous@,
    {
        proof { lemma_lookup_bounds(self.sessions@, session_id); }
        match find(&self.sessions, session_id) {
            None => Err(AuthError::NotFound),
            Some(i) => {
                let s = self.sessions[i];
                if s.user_id != actor {
                    return Err(AuthError::NotFound);
                }
                self.sessions.set(i, Session { revoked: true, ..s });
                Ok(())
            },
        }
    }

    /// Revokes every session of `user_id` but the one with id `keep`.
    pub fn revoke_others(&mut self, user_id: u64, keep: Option<u64>)
        ensures
            final(self).sessions@ == revoked_others(old(self).sessions@, user_id, keep),
            final(self).anonymous@ == old(self).anonymous@,
    {
        let ghost start = self.sessions@;
        let mut i: usize = 0;
        while i < self.sessions.len()
            invariant
                i <= self.sessions@.len(),
                self.sessions@.len() == start.len(),
                self.anonymous@ == old(self).anonymous@,
                start == old(self).sessions@,
                forall|j: int| 0 <= j < i ==> self.sessions@[j] == revoked_others(start, user_id, keep)[j],
                forall|j: int| i <= j < start.len() ==> self.sessions@[j] == start[j],
            decreases start.len() - i,
        {
            let s = self.sessions[i];
            let other = match keep {
                Some(k) => k != s.id,
                None => true,
            };
            if s.user_id == user_id && other {
                self.sessions.set(i, Session { revoked: true, ..s });
            }
            i = i + 1;
        }
        assert(self.sessions@ =~= revoked_others(start, user_id, keep));
    }
}

/// A token issued for a user presents that user's session, as long as the
/// id was not in use; once the session is revoked, the same token presents nothing.
pub proof fn lemma_issue_validate_revoke(s: Seq<Session>, key: u64, id: u64, user_id: u64, secret: u64, now: u64)
    requires
        lookup(s, id) is None,
        secret_digest_of(key, secret).len() == 32,
    ensures
        ({
            let issued = Session { id, user_id, secret_digest: tag_of(secret_digest_of(key, secret)), created_at: now, revoked: false };
            let s1 = s.push(issued);
            let s2 = s1.update(s.len() as int, Session { revoked: true, ..issued });
            &&& session_user(s1, key, token_text(id, secret)) == Some(user_id)
            &&& revoke_result(s1, user_id, id) is Ok
            &&& lookup(s1, id) == Some(s.len() as int)
            &&& session_user(s2, key, token_text(id, secret)) is None
        }),
{
    let issued = Session { id, user_id, secret_digest: tag_of(secret_digest_of(key, secret)), created_at: now, revoked: false };
    let s1 = s.push(issued);
    lemma_token_round_trip(id, secret);
    lemma_tag_of(secret_digest_of(key, secret));
    lemma_lookup_push(s, issued, id);
    lemma_lookup_update(s1, s.len() as int, Session { revoked: true, ..issued }, id);
}

} // verus!
