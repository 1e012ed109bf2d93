//! Users and the rules on their emails and usernames.
use vstd::prelude::*;
use vstd::string::StrSliceExecFns;
use crate::store::Keyed;
use crate::two_fa::TwoFa;

verus! {

/// Longest accepted email, in characters.
pub const EMAIL_MAX_LEN: usize = 254;
/// Longest accepted username, in characters.
pub const USERNAME_MAX_LEN: usize = 32;

#[derive(Debug)]
pub struct User {
    pub id: u64,
    pub email: String,
    pub username: String,
    pub two_fa: TwoFa,
}

impl Keyed for User {
    open spec fn key(&self) -> u64 {
        self.id
    }

    fn get_key(&self) -> (r: u64) {
        self.id
    }
}

impl User {
    /// A copy of this user.
    pub fn duplicate(&self) -> (r: User)
        ensures
            r == *self,
    {
        User { id: self.id, email: self.email.clone(), username: self.username.clone(), two_fa: self.two_fa }
    }
}

/// The character with ASCII upper case folded to lower case.
pub open spec fn fold_char(c: char) -> char {
    if 'A' <= c && c <= 'Z' {
        ((c as u8) + 32) as u8 as char
    } else {
        c
    }
}

/// Emails are compared without regard to ASCII case.
pub open spec fn same_email(a: Seq<char>, b: Seq<char>) -> bool {
    a.len() == b.len() && forall|i: int| 0 <= i < a.len() ==> fold_char(#[trigger] a[i]) == fold_char(b[i])
}

/// An email: an `@` with text on both sides, no spaces, at most `EMAIL_MAX_LEN` characters.
pub open spec fn valid_email(e: Seq<char>) -> bool {
    &&& e.len() <= EMAIL_MAX_LEN
    &&& forall|i: int| 0 <= i < e.len() ==> #[trigger] e[i] != ' '
    &&& exists|i: int| 0 < i < e.len() - 1 && #[trigger] e[i] == '@'
}

pub open spec fn username_char(c: char) -> bool {
    ('a' <= c && c <= 'z') || ('0' <= c && c <= '9') || c == '_'
}

/// A username: one to `USERNAME_MAX_LEN` lower-case letters, digits or underscores.
pub open spec fn valid_username(u: Seq<char>) -> bool {
    &&& 1 <= u.len() <= USERNAME_MAX_LEN
    &&& forall|i: int| 0 <= i < u.len() ==> username_char(#[trigger] u[i])
}

pub open spec fn email_in_use(users: Seq<User>, e: Seq<char>) -> bool {
    exists|i: int| 0 <= i < users.len() && same_email(#[trigger] users[i].email@, e)
}

pub open spec fn username_in_use(users: Seq<User>, u: Seq<char>) -> bool {
    exists|i: int| 0 <= i < users.len() && #[trigger] users[i].username@ == u
}

/// `login` names this user, by email or by username.
pub open spec fn names_user(u: User, login: Seq<char>) -> bool {
    same_email(u.email@, login) || u.username@ == login
}

/// Index of the last user that `login` names.
pub open spec fn login_lookup(users: Seq<User>, login: Seq<char>) -> Option<int>
    decreases users.len(),
{
    if users.len() == 0 {
        None
    } else if names_user(users.last(), login) {
        Some(users.len() - 1)
    } else {
        login_lookup(users.drop_last(), login)
    }
}

pub proof fn lemma_login_lookup_bounds(users: Seq<User>, login: Seq<char>)
    ensures
        login_lookup(users, login) matches Some(i) ==> 0 <= i < users.len() && names_user(users[i], login),
        login_lookup(users, login) is None ==> forall|j: int| 0 <= j < users.len() ==> !names_user(#[trigger] users[j], login),
    decreases users.len(),
{
    if users.len() > 0 {
        lemma_login_lookup_bounds(users.drop_last(), login);
        assert forall|j: int| 0 <= j < users.len() - 1 implies users[j] == users.drop_last()[j] by {}
    }
}

pub fn fold(c: char) -> (r: char)
    ensures
        r == fold_char(c),
{
    if 'A' <= c && c <= 'Z' {
        (c as u8 + 32) as char
    } else {
        c
    }
}

pub fn emails_equal(a: &str, b: &str) -> (r: bool)
    ensures
        r == same_email(a@, b@),
{
    let n = a.unicode_len();
    if n != b.unicode_len() {
        return false;
    }
    let mut i: usize = 0;
    while i < n
        invariant
            n == a@.len(),
            n == b@.len(),
            i <= n,
            forall|j: int| 0 <= j < i ==> fold_char(#[trigger] a@[j]) == fold_char(b@[j]),
        decreases n - i,
    {
        if fold(a.get_char(i)) != fold(b.get_char(i)) {
            return false;
        }
        i = i + 1;
    }
    true
}

pub fn same_text(a: &str, b: &str) -> (r: bool)
    ensures
        r == (a@ == b@),
{
    let n = a.unicode_len();
    if n != b.unicode_len() {
        return false;
    }
    let mut i: usize = 0;
    while i < n
        invariant
            n == a@.len(),
            n == b@.len(),
            i <= n,
            forall|j: int| 0 <= j < i ==> #[trigger] a@[j] == b@[j],
        decreases n - i,
    {
        if a.get_char(i) != b.get_char(i) {
            return false;
        }
        i = i + 1;
    }
    assert(a@ =~= b@);
    true
}

pub fn is_valid_email(e: &str) -> (r: bool)
    ensures
        r == valid_email(e@),
{
    let n = e.unicode_len();
    if n > EMAIL_MAX_LEN {
        return false;
    }
    let mut at = false;
    let mut i: usize = 0;
    while i < n
        invariant
            n == e@.len(),
            i <= n,
            forall|j: int| 0 <= j < i ==> #[trigger] e@[j] != ' ',
            at <==> exists|j: int| 0 < j < e@.len() - 1 && j < i && #[trigger] e@[j] == '@',
        decreases n - i,
    {
        let c = e.get_char(i);
        if c == ' ' {
            return false;
        }
        if c == '@' && i > 0 && i + 1 < n {
            at = true;
        }
        i = i + 1;
    }
    at
}

pub fn is_valid_username(u: &str) -> (r: bool)
    ensures
        r == valid_username(u@),
{
    let n = u.unicode_len();
    if n < 1 || n > USERNAME_MAX_LEN {
        return false;
    }
    let mut i: usize = 0;
    while i < n
        invariant
            n == u@.len(),
            i <= n,
            forall|j: int| 0 <= j < i ==> username_char(#[trigger] u@[j]),
        decreases n - i,
    {
        let c = u.get_char(i);
        if !(('a' <= c && c <= 'z') || ('0' <= c && c <= '9') || c == '_') {
            return false;
        }
        i = i + 1;
    }
    true
}

pub fn has_email(users: &Vec<User>, e: &str) -> (r: bool)
    ensures
        r == email_in_use(users@, e@),
{
    let mut i: usize = 0;
    while i < users.len()
        invariant
            i <= users@.len(),
            forall|j: int| 0 <= j < i ==> !same_email(#[trigger] users@[j].email@, e@),
        decreases users@.len() - i,
    {
        if emails_equal(users[i].email.as_str(), e) {
            return true;
        }
        i = i + 1;
    }
    false
}

pub fn has_username(users: &Vec<User>, u: &str) -> (r: bool)
    ensures
        r == username_in_use(users@, u@),
{
    let mut i: usize = 0;
    while i < users.len()
        invariant
            i <= users@.len(),
            forall|j: int| 0 <= j < i ==> #[trigger] users@[j].username@ != u@,
        decreases users@.len() - i,
    {
        if same_text(users[i].username.as_str(), u) {
            return true;
        }
        i = i + 1;
    }
    false
}

/// Finds the last user that `login` names.
pub fn find_login(users: &Vec<User>, login: &str) -> (r: Option<usize>)
    ensures
        r matches Some(i) ==> login_lookup(users@, login@) == Some(i as int),
        r is None ==> login_lookup(users@, login@) is None,
{
    let mut i: usize = users.len();
    assert(users@.subrange(0, i as int) =~= users@);
    while i > 0
        invariant
            i <= users@.len(),
            login_lookup(users@, login@) == login_lookup(users@.subrange(0, i as int), login@),
        decreases i,
    {
        let ghost s = users@.subrange(0, i as int);
        assert(s.drop_last() =~= users@.subrange(0, i - 1));
        let u = &users[i - 1];
        if emails_equal(u.email.as_str(), login) || same_text(u.username.as_str(), login) {
            return Some(i - 1);
        }
        i = i - 1;
    }
    assert(users@.subrange(0, 0) =~= Seq::<User>::empty());
    None
}

} // verus!
