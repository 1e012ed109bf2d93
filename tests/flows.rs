use bloom_auth::code::{issue, verify, CodeCheck, CODE_TTL, MAX_ATTEMPTS};
use bloom_auth::error::AuthError;
use bloom_auth::mail::{register_email, DeleteMyAccountInput};
use bloom_auth::service::{
    CompleteRegistrationInput, CompleteSignInInput, CompleteTwoFaChallengeInput, DisableTwoFaInput, EnableTwoFaInput,
    RegisterInput, RevokeSessionInput, Service, SignInInput, SignedIn, VerifyEmailInput,
};
use bloom_auth::token::{decode_token, encode_token};
use bloom_auth::crypto::tags_equal;
use bloom_auth::session::secret_digest;
use bloom_auth::two_fa::{totp_check, totp_text, TwoFa, TOTP_STEP};

const KEY: u64 = 0x5eed_1234_abcd_0001;
const T0: u64 = 1_000_000;

fn reg(email: &str, username: &str) -> RegisterInput {
    RegisterInput { email: email.to_string(), username: username.to_string() }
}

fn registered_user(svc: &mut Service, email: &str, username: &str, entropy: u64) -> (u64, u64, String) {
    let p = svc.register(reg(email, username), entropy, T0).unwrap();
    let r = svc
        .complete_registration(CompleteRegistrationInput { pending_user_id: p.pending_id, code: p.code }, 77, T0 + 1)
        .unwrap();
    (r.user.id, r.session.id, r.token)
}

#[test]
fn example_scenario() {
    let mut svc = Service::new(KEY);
    let p = svc.register(reg("a@x.com", "alice"), 123_456_789, T0).unwrap();
    assert_eq!(p.code, "456789");
    assert_eq!(p.code.len(), 6);
    assert!(p.code.chars().all(|c| c.is_ascii_digit()));
    let input = || CompleteRegistrationInput { pending_user_id: p.pending_id, code: p.code.clone() };
    let r = svc.complete_registration(input(), 99, T0 + 10).unwrap();
    assert_eq!(r.user.email, "a@x.com");
    assert_eq!(r.user.username, "alice");
    assert_eq!(r.session.user_id, r.user.id);
    assert_eq!(svc.users.len(), 1);
    assert_eq!(svc.sessions.sessions.len(), 1);
    assert_eq!(svc.complete_registration(input(), 99, T0 + 11).unwrap_err(), AuthError::AlreadyConsumed);
    assert_eq!(svc.users.len(), 1);

    let q = svc.sign_in(SignInInput { email_or_username: "alice".to_string() }, 42, T0 + 20).unwrap();
    assert_eq!(q.code, "000042");
    let wrong = CompleteSignInInput { pending_session_id: q.pending_id, code: "000043".to_string() };
    assert_eq!(svc.complete_sign_in(wrong, 5, T0 + 21).unwrap_err(), AuthError::InvalidCode);
    let s = svc.sign_ins.iter().find(|s| s.id == q.pending_id).unwrap();
    assert_eq!(s.challenge.attempts, 1);
    let right = CompleteSignInInput { pending_session_id: q.pending_id, code: q.code.clone() };
    match svc.complete_sign_in(right, 5, T0 + 22).unwrap() {
        SignedIn::Success { user, session, .. } => {
            assert_eq!(user.username, "alice");
            assert_eq!(session.user_id, user.id);
        }
        SignedIn::TwoFa(_) => panic!("no second factor is enabled"),
    }
}

#[test]
fn completion_creates_one_user_and_one_session() {
    let mut svc = Service::new(KEY);
    let (uid, sid, token) = registered_user(&mut svc, "b@y.org", "bob", 7);
    assert_eq!(svc.users.len(), 1);
    assert_eq!(svc.sessions.sessions.len(), 1);
    assert_eq!(svc.decode_and_validate_session_token(token).unwrap().id, uid);
    assert_eq!(svc.sessions.sessions[0].id, sid);
}

#[test]
fn only_exact_code_verifies() {
    let issued = issue(KEY, 123_456, T0);
    assert_eq!(issued.code, "123456");
    for bad in ["12345", "1234567", "123457", "023456", "12345a", " 123456", ""] {
        let mut c = issued.challenge;
        assert_eq!(verify(&mut c, KEY, bad, T0 + 1), CodeCheck::Mismatch, "{bad}");
    }
    let mut c = issued.challenge;
    assert_eq!(verify(&mut c, KEY, "123456", T0 + 1), CodeCheck::Accepted);
}

#[test]
fn parallel_completions_succeed_once() {
    let mut svc = Service::new(KEY);
    let p = svc.register(reg("c@z.io", "carol"), 31337, T0).unwrap();
    let mut ok = 0;
    let mut consumed = 0;
    for k in 0..8u64 {
        let input = CompleteRegistrationInput { pending_user_id: p.pending_id, code: p.code.clone() };
        match svc.complete_registration(input, k, T0 + 1) {
            Ok(_) => ok += 1,
            Err(AuthError::AlreadyConsumed) => consumed += 1,
            Err(e) => panic!("unexpected {e:?}"),
        }
    }
    assert_eq!(ok, 1);
    assert_eq!(consumed, 7);
}

#[test]
fn expired_code_is_never_accepted() {
    let mut svc = Service::new(KEY);
    let p = svc.register(reg("d@x.com", "dave"), 5, T0).unwrap();
    let input = CompleteRegistrationInput { pending_user_id: p.pending_id, code: p.code.clone() };
    assert_eq!(svc.complete_registration(input, 1, T0 + CODE_TTL).unwrap_err(), AuthError::InvalidCode);
    let input = CompleteRegistrationInput { pending_user_id: p.pending_id, code: p.code.clone() };
    assert_eq!(svc.complete_registration(input, 1, T0 + CODE_TTL + 1000).unwrap_err(), AuthError::InvalidCode);
    assert_eq!(svc.users.len(), 0);
    let input = CompleteRegistrationInput { pending_user_id: p.pending_id, code: p.code.clone() };
    assert!(svc.complete_registration(input, 1, T0 + CODE_TTL - 1).is_ok());
}

#[test]
fn attempt_cap_blocks_right_code() {
    let mut svc = Service::new(KEY);
    let p = svc.register(reg("e@x.com", "erin"), 600_000, T0).unwrap();
    for _ in 0..MAX_ATTEMPTS {
        let input = CompleteRegistrationInput { pending_user_id: p.pending_id, code: "111111".to_string() };
        assert_eq!(svc.complete_registration(input, 1, T0 + 1).unwrap_err(), AuthError::InvalidCode);
    }
    let input = CompleteRegistrationInput { pending_user_id: p.pending_id, code: p.code.clone() };
    assert_eq!(svc.complete_registration(input, 1, T0 + 2).unwrap_err(), AuthError::TooManyAttempts);
}

#[test]
fn session_round_trip_and_revoke() {
    let mut svc = Service::new(KEY);
    let (uid, sid, token) = registered_user(&mut svc, "f@x.com", "frank", 9);
    assert_eq!(svc.decode_and_validate_session_token(token.clone()).unwrap().id, uid);
    assert_eq!(svc.revoke_session(uid + 100, RevokeSessionInput { session_id: sid }), Err(AuthError::NotFound));
    assert_eq!(svc.revoke_session(uid, RevokeSessionInput { session_id: sid }), Ok(()));
    assert_eq!(svc.decode_and_validate_session_token(token.clone()).unwrap_err(), AuthError::InvalidToken);
    assert_eq!(svc.revoke_session(uid, RevokeSessionInput { session_id: sid }), Ok(()));
    let mut forged = token.clone();
    forged.replace_range(31..32, if token.ends_with('0') { "1" } else { "0" });
    assert_eq!(svc.decode_and_validate_session_token(forged).unwrap_err(), AuthError::InvalidToken);
}

#[test]
fn two_fa_enable_sign_in_disable() {
    let mut svc = Service::new(KEY);
    let (uid, sid, token) = registered_user(&mut svc, "g@x.com", "grace", 11);
    let secret = 0xfeed_beef;
    assert_eq!(svc.setup_two_fa(uid, secret), Ok(secret));
    let now = T0 + 100;
    let step = now / TOTP_STEP;
    let far = totp_text(secret, step + 5);
    assert!(!totp_check(secret, &far, now));
    let wrong = EnableTwoFaInput { code: far };
    assert_eq!(svc.complete_two_fa_setup(uid, Some(sid), wrong, now), Err(AuthError::TwoFaMismatch));
    // another session of the same user, to be revoked by enabling
    let q = svc.sign_in(SignInInput { email_or_username: "G@X.com".to_string() }, 1, now).unwrap();
    let other = match svc
        .complete_sign_in(CompleteSignInInput { pending_session_id: q.pending_id, code: q.code }, 2, now)
        .unwrap()
    {
        SignedIn::Success { token, .. } => token,
        SignedIn::TwoFa(_) => panic!("not enabled yet"),
    };
    let code = totp_text(secret, step);
    assert_eq!(svc.complete_two_fa_setup(uid, Some(sid), EnableTwoFaInput { code }, now), Ok(()));
    assert!(matches!(svc.users[0].two_fa, TwoFa::Enabled { .. }));
    assert!(svc.decode_and_validate_session_token(token.clone()).is_ok());
    assert!(svc.decode_and_validate_session_token(other).is_err());

    let q = svc.sign_in(SignInInput { email_or_username: "grace".to_string() }, 3, now).unwrap();
    let again = CompleteTwoFaChallengeInput { pending_session_id: q.pending_id, code: totp_text(secret, step) };
    assert_eq!(svc.complete_two_fa_challenge(again, 4, now).unwrap_err(), AuthError::InvalidCode);
    let first = CompleteSignInInput { pending_session_id: q.pending_id, code: q.code.clone() };
    assert!(matches!(svc.complete_sign_in(first, 4, now).unwrap(), SignedIn::TwoFa(_)));
    let repeat = CompleteSignInInput { pending_session_id: q.pending_id, code: q.code.clone() };
    assert_eq!(svc.complete_sign_in(repeat, 4, now).unwrap_err(), AuthError::TwoFaRequired);
    let challenge = CompleteTwoFaChallengeInput { pending_session_id: q.pending_id, code: totp_text(secret, step + 1) };
    let third = match svc.complete_two_fa_challenge(challenge, 5, now).unwrap() {
        SignedIn::Success { token, .. } => token,
        SignedIn::TwoFa(_) => panic!("second factor was given"),
    };
    let far = totp_text(secret, step + 2);
    assert!(!totp_check(secret, &far, now));
    let input = DisableTwoFaInput { code: far };
    assert_eq!(svc.disable_two_fa(uid, Some(sid), input, now), Err(AuthError::TwoFaMismatch));
    let input = DisableTwoFaInput { code: totp_text(secret, step - 1) };
    assert_eq!(svc.disable_two_fa(uid, Some(sid), input, now), Ok(()));
    assert_eq!(svc.users[0].two_fa, TwoFa::Disabled);
    assert!(svc.decode_and_validate_session_token(token).is_ok());
    assert!(svc.decode_and_validate_session_token(third).is_err());
    let input = DisableTwoFaInput { code: totp_text(secret, step) };
    assert_eq!(svc.disable_two_fa(uid, Some(sid), input, now), Err(AuthError::TwoFaNotEnabled));
}

#[test]
fn registration_input_and_conflicts() {
    let mut svc = Service::new(KEY);
    assert_eq!(svc.register(reg("no-at-sign", "henry"), 1, T0).unwrap_err(), AuthError::InvalidInput);
    assert_eq!(svc.register(reg("h@x.com", "Henry"), 1, T0).unwrap_err(), AuthError::InvalidInput);
    assert_eq!(svc.register(reg("h@x.com", ""), 1, T0).unwrap_err(), AuthError::InvalidInput);
    registered_user(&mut svc, "h@x.com", "henry", 1);
    let again = svc.register(reg("H@X.COM", "other"), 1, T0).unwrap();
    let wrong = CompleteRegistrationInput { pending_user_id: again.pending_id, code: "999999".to_string() };
    assert_eq!(svc.complete_registration(wrong, 1, T0).unwrap_err(), AuthError::InvalidCode);
    let right = CompleteRegistrationInput { pending_user_id: again.pending_id, code: again.code };
    assert_eq!(svc.complete_registration(right, 1, T0).unwrap_err(), AuthError::EmailTaken);
    assert_eq!(svc.register(reg("i@x.com", "henry"), 1, T0).unwrap_err(), AuthError::UsernameTaken);
    assert_eq!(
        svc.sign_in(SignInInput { email_or_username: "nobody".to_string() }, 1, T0).unwrap_err(),
        AuthError::NotFound
    );
}

#[test]
fn new_registration_supersedes_old() {
    let mut svc = Service::new(KEY);
    let old = svc.register(reg("j@x.com", "judy"), 10, T0).unwrap();
    let new = svc.register(reg("J@x.com", "judy2"), 20, T0).unwrap();
    let input = CompleteRegistrationInput { pending_user_id: old.pending_id, code: old.code };
    assert_eq!(svc.complete_registration(input, 1, T0 + 1).unwrap_err(), AuthError::InvalidCode);
    let input = CompleteRegistrationInput { pending_user_id: 9999, code: "000000".to_string() };
    assert_eq!(svc.complete_registration(input, 1, T0 + 1).unwrap_err(), AuthError::InvalidCode);
    let input = CompleteRegistrationInput { pending_user_id: new.pending_id, code: new.code };
    assert_eq!(svc.complete_registration(input, 1, T0 + 1).unwrap().user.username, "judy2");
}

#[test]
fn email_change_flow() {
    let mut svc = Service::new(KEY);
    let (uid, sid, token) = registered_user(&mut svc, "k@x.com", "kim", 3);
    let other = {
        let q = svc.sign_in(SignInInput { email_or_username: "kim".to_string() }, 8, T0 + 5).unwrap();
        match svc.complete_sign_in(CompleteSignInInput { pending_session_id: q.pending_id, code: q.code }, 6, T0 + 5) {
            Ok(SignedIn::Success { token, .. }) => token,
            _ => panic!("sign-in fails"),
        }
    };
    assert_eq!(svc.request_email_change(uid, "bad".to_string(), 1, T0).unwrap_err(), AuthError::InvalidInput);
    assert_eq!(svc.request_email_change(uid, "K@x.com".to_string(), 1, T0).unwrap_err(), AuthError::EmailTaken);
    let p = svc.request_email_change(uid, "kim@new.org".to_string(), 4242, T0 + 10).unwrap();
    let mail = svc.verify_email_email(&p).unwrap();
    assert_eq!(mail.email, "kim@new.org");
    assert_eq!(mail.code, "004242");
    let wrong = VerifyEmailInput { pending_email_id: p.pending_id, code: "004243".to_string() };
    assert_eq!(svc.verify_email(Some(sid), wrong, T0 + 11).unwrap_err(), AuthError::InvalidCode);
    let right = || VerifyEmailInput { pending_email_id: p.pending_id, code: p.code.clone() };
    let notice = svc.verify_email(Some(sid), right(), T0 + 12).unwrap();
    assert_eq!((notice.email.as_str(), notice.name.as_str(), notice.new_email.as_str()), ("k@x.com", "kim", "kim@new.org"));
    assert_eq!(svc.users[0].email, "kim@new.org");
    assert!(svc.decode_and_validate_session_token(token).is_ok());
    assert!(svc.decode_and_validate_session_token(other).is_err());
    assert_eq!(svc.verify_email(Some(sid), right(), T0 + 13).unwrap_err(), AuthError::AlreadyConsumed);
}

#[test]
fn token_encoding_is_exact() {
    let t = encode_token(0x1f, 0xabc);
    assert_eq!(t, "000000000000001f0000000000000abc");
    let d = decode_token(&t).unwrap();
    assert_eq!((d.session_id, d.secret), (0x1f, 0xabc));
    let max = encode_token(u64::MAX, 0);
    assert_eq!(max, "ffffffffffffffff0000000000000000");
    assert!(decode_token("000000000000001f0000000000000ab").is_none());
    assert!(decode_token("000000000000001f0000000000000abC").is_none());
    assert!(decode_token("000000000000001f0000000000000abcd").is_none());
}

#[test]
fn anonymous_token_expires() {
    let mut svc = Service::new(KEY);
    let t = svc.create_anonymous_token(555, T0).unwrap();
    let id = svc.decode_and_validate_anonymous_token(t.clone(), T0 + 10).unwrap();
    assert_eq!(id, 1);
    assert_eq!(
        svc.decode_and_validate_anonymous_token(t.clone(), T0 + bloom_auth::session::ANONYMOUS_TTL),
        Err(AuthError::InvalidToken)
    );
    assert_eq!(svc.decode_and_validate_anonymous_token(encode_token(id, 556), T0), Err(AuthError::InvalidToken));
    assert!(svc.decode_and_validate_session_token(t).is_err());
}

#[test]
fn mail_payloads_and_account_deletion() {
    let mut svc = Service::new(KEY);
    let email = "l@x.com".to_string();
    let name = "lee".to_string();
    let p = svc.register(RegisterInput { email: email.clone(), username: name.clone() }, 77, T0).unwrap();
    let m = register_email(&email, &name, &p);
    assert_eq!((m.email.as_str(), m.username.as_str(), m.code.as_str()), ("l@x.com", "lee", "000077"));
    let r = svc
        .complete_registration(CompleteRegistrationInput { pending_user_id: p.pending_id, code: p.code }, 1, T0)
        .unwrap();
    let q = svc.sign_in(SignInInput { email_or_username: "lee".to_string() }, 12, T0).unwrap();
    let m = svc.sign_in_email(&q).unwrap();
    assert_eq!((m.email.as_str(), m.name.as_str(), m.code.as_str()), ("l@x.com", "lee", "000012"));
    let none = DeleteMyAccountInput { two_fa_totp_code: None };
    assert_eq!(svc.authorize_account_deletion(r.user.id, &none, T0), Ok(()));
    svc.setup_two_fa(r.user.id, 4).unwrap();
    svc.complete_two_fa_setup(r.user.id, None, EnableTwoFaInput { code: totp_text(4, T0 / TOTP_STEP) }, T0).unwrap();
    assert_eq!(svc.authorize_account_deletion(r.user.id, &none, T0), Err(AuthError::TwoFaRequired));
    let ok = DeleteMyAccountInput { two_fa_totp_code: Some(totp_text(4, T0 / TOTP_STEP)) };
    assert_eq!(svc.authorize_account_deletion(r.user.id, &ok, T0), Ok(()));
    assert_eq!(svc.authorize_account_deletion(999, &ok, T0), Err(AuthError::NotFound));
}

#[test]
fn two_fa_state_errors_and_id_exhaustion() {
    let mut svc = Service::new(KEY);
    let (uid, _, _) = registered_user(&mut svc, "m@x.com", "mia", 2);
    let code = EnableTwoFaInput { code: totp_text(8, T0 / TOTP_STEP) };
    assert_eq!(svc.complete_two_fa_setup(uid, None, code, T0), Err(AuthError::TwoFaNotPending));
    assert_eq!(svc.setup_two_fa(uid + 50, 8), Err(AuthError::NotFound));
    svc.setup_two_fa(uid, 8).unwrap();
    svc.complete_two_fa_setup(uid, None, EnableTwoFaInput { code: totp_text(8, T0 / TOTP_STEP) }, T0).unwrap();
    assert_eq!(svc.setup_two_fa(uid, 9), Err(AuthError::TwoFaAlreadyEnabled));

    svc.next_id = u64::MAX;
    assert_eq!(svc.register(reg("n@x.com", "nora"), 1, T0).unwrap_err(), AuthError::Internal);
    assert_eq!(svc.create_anonymous_token(1, T0), Err(AuthError::Internal));
    assert_eq!(svc.registrations.len(), 1);
}

#[test]
fn keyed_hashes_match_known_values() {
    // HMAC-SHA1 time-window codes as RFC 6238 computes them, keyed by the secret's bytes
    assert_eq!(totp_text(0x3132_3334_3536_3738, 1), "149148");
    assert_eq!(totp_text(0xfeed_beef, 0), "936589");
    assert_eq!(totp_text(4, T0 / TOTP_STEP), "557574");
    // HMAC-SHA256 over the secret's sixteen hex digits, all 32 bytes
    assert_eq!(hex(&secret_digest(KEY, 77)), "e9909042ce7134c9eaff6aaf65398377f31bab121eb9738709f520cbaa1c6b20");
    let issued = issue(KEY, 123_456, T0);
    assert_eq!(hex(&issued.challenge.digest), "08c1c9373f2b830d179d38697eb183d1162dfbd9070179263cbebd98eba45a9c");
}

fn hex(b: &[u8]) -> String {
    b.iter().map(|x| format!("{x:02x}")).collect()
}

#[test]
fn tag_differing_after_eighth_byte_is_rejected() {
    let a = secret_digest(KEY, 77);
    let mut b = a;
    b[31] ^= 1;
    assert!(tags_equal(&a, &a));
    assert!(!tags_equal(&a, &b));
    let mut svc = Service::new(KEY);
    let t = svc.create_anonymous_token(77, T0).unwrap();
    svc.sessions.anonymous[0].secret_digest[20] ^= 0x80;
    assert_eq!(svc.decode_and_validate_anonymous_token(t, T0), Err(AuthError::InvalidToken));
}

#[test]
fn conflicts_are_told_only_to_the_right_code() {
    let mut svc = Service::new(KEY);
    let first = svc.register(reg("o@x.com", "olga"), 1, T0).unwrap();
    let second = svc.register(reg("p@x.com", "olga"), 2, T0).unwrap();
    let done = CompleteRegistrationInput { pending_user_id: first.pending_id, code: first.code };
    svc.complete_registration(done, 3, T0 + 1).unwrap();
    let wrong = CompleteRegistrationInput { pending_user_id: second.pending_id, code: "999999".to_string() };
    assert_eq!(svc.complete_registration(wrong, 3, T0 + 1).unwrap_err(), AuthError::InvalidCode);
    let right = CompleteRegistrationInput { pending_user_id: second.pending_id, code: second.code.clone() };
    assert_eq!(svc.complete_registration(right, 3, T0 + 1).unwrap_err(), AuthError::UsernameTaken);
    assert_eq!(svc.users.len(), 1);
}

#[test]
fn enabling_two_fa_supersedes_pending_sign_ins() {
    let mut svc = Service::new(KEY);
    let (uid, _, _) = registered_user(&mut svc, "q@x.com", "quinn", 4);
    let q = svc.sign_in(SignInInput { email_or_username: "quinn".to_string() }, 5, T0).unwrap();
    svc.setup_two_fa(uid, 6).unwrap();
    svc.complete_two_fa_setup(uid, None, EnableTwoFaInput { code: totp_text(6, T0 / TOTP_STEP) }, T0).unwrap();
    let input = CompleteSignInInput { pending_session_id: q.pending_id, code: q.code };
    assert_eq!(svc.complete_sign_in(input, 7, T0).unwrap_err(), AuthError::InvalidCode);
}
