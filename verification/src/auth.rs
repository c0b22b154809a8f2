//! Sessions, the login check, the access gate and password hashing.

use vstd::prelude::*;
use argon2::password_hash::phc::PasswordHash;
use argon2::password_hash::{PasswordHasher, PasswordVerifier};
use argon2::Argon2;
use crate::text::{self, chars_of, string_from};

verus! {

/// Data stored (encrypted) inside the `session` cookie.
#[derive(Clone, Debug)]
pub struct SessionData {
    pub user_id: String,
    pub username: String,
}

/// A request that carries a valid session.
pub struct AuthUser(pub SessionData);

/// A request that may or may not carry a valid session.
pub struct OptionalAuthUser(pub Option<SessionData>);

// ---------------------------------------------------------------------------
// Credentials
// ---------------------------------------------------------------------------

/// Compares two strings without stopping at the first difference: every
/// position up to the longer length is looked at, whatever the strings hold.
pub fn constant_time_eq(a: &str, b: &str) -> (r: bool)
    ensures
        r == (a@ == b@),
{
    let x = chars_of(a);
    let y = chars_of(b);
    let n = if x.len() < y.len() {
        y.len()
    } else {
        x.len()
    };
    let mut diff: u32 = if x.len() == y.len() {
        0
    } else {
        1
    };
    let mut i: usize = 0;
    while i < n
        invariant
            i <= n,
            n == (if x@.len() < y@.len() {
                y@.len()
            } else {
                x@.len()
            }),
            x@ == a@,
            y@ == b@,
            (diff == 0) == (x@.len() == y@.len() && forall|k: int| 0 <= k < i ==> x@[k] == y@[k]),
        decreases n - i,
    {
        let c: u32 = if i < x.len() {
            x[i] as u32
        } else {
            0
        };
        let d: u32 = if i < y.len() {
            y[i] as u32
        } else {
            0
        };
        let step = c ^ d;
        proof {
            assert((step == 0) == (c == d)) by (bit_vector)
                requires
                    step == c ^ d,
            ;
            assert(((diff | step) == 0) == (diff == 0 && step == 0)) by (bit_vector);
            if x@.len() == y@.len() {
                vstd::utf8::char_u32_cast(x@[i as int], c);
                vstd::utf8::char_u32_cast(y@[i as int], d);
                assert((c == d) == (x@[i as int] == y@[i as int]));
            }
        }
        diff = diff | step;
        i = i + 1;
    }
    proof {
        if diff == 0 {
            assert(x@ =~= y@);
        }
    }
    diff == 0
}

/// Position of the first configured `(username, password)` pair matching both.
pub open spec fn first_match(users: Seq<(String, String)>, username: Seq<char>, password: Seq<char>) -> Option<int> {
    if exists|i: int| 0 <= i < users.len() && #[trigger] users[i].0@ == username && users[i].1@ == password {
        Some(
            choose|i: int|
                0 <= i < users.len() && users[i].0@ == username && users[i].1@ == password && forall|j: int|
                    0 <= j < i ==> !(#[trigger] users[j].0@ == username && users[j].1@ == password),
        )
    } else {
        None
    }
}

/// The account a login form matches: the first configured pair whose
/// username and password both equal the submitted ones. Every pair is
/// compared, also after a match.
pub fn find_user(users: &[(String, String)], username: &str, password: &str) -> (r: Option<usize>)
    ensures
        match r {
            Some(i) => i < users@.len() && users@[i as int].0@ == username@ && users@[i as int].1@ == password@
                && forall|j: int| 0 <= j < i ==> !(#[trigger] users@[j].0@ == username@ && users@[j].1@ == password@),
            None => forall|i: int| 0 <= i < users@.len() ==> !(#[trigger] users@[i].0@ == username@ && users@[i].1@ == password@),
        },
{
    let mut found: Option<usize> = None;
    let mut i: usize = 0;
    while i < users.len()
        invariant
            i <= users@.len(),
            match found {
                Some(j) => j < i && users@[j as int].0@ == username@ && users@[j as int].1@ == password@
                    && forall|k: int| 0 <= k < j ==> !(#[trigger] users@[k].0@ == username@ && users@[k].1@ == password@),
                None => forall|k: int| 0 <= k < i ==> !(#[trigger] users@[k].0@ == username@ && users@[k].1@ == password@),
            },
        decreases users@.len() - i,
    {
        let u = constant_time_eq(users[i].0.as_str(), username);
        let p = constant_time_eq(users[i].1.as_str(), password);
        if u && p && found.is_none() {
            found = Some(i);
        }
        i = i + 1;
    }
    found
}

/// One `LINK_REVIEW_USER{n}` / `LINK_REVIEW_USER{n}_PASS` pair as read from the
/// environment: an account when both are set and the username is not empty;
/// otherwise the list of accounts ends here.
pub fn user_pair(username: Option<String>, password: Option<String>) -> (r: Option<(String, String)>)
    ensures
        match r {
            Some((u, p)) => username == Some(u) && password == Some(p) && u@.len() > 0,
            None => !(username is Some && password is Some && username->0@.len() > 0),
        },
{
    match (username, password) {
        (Some(u), Some(p)) => {
            if u.as_str().is_empty() {
                None
            } else {
                Some((u, p))
            }
        },
        _ => None,
    }
}

// ---------------------------------------------------------------------------
// The access gate
// ---------------------------------------------------------------------------

/// What the access gate does with a request.
#[derive(Clone, Copy, Debug, PartialEq, Eq, Structural)]
pub enum AccessDecision {
    /// The access cookie is valid: serve the request.
    Allow,
    /// The `?key=` parameter is right: serve the request and grant the cookie.
    AllowAndGrant,
    /// Neither: answer 404.
    NotFound,
}

pub open spec fn spec_access_decision(cookie: Option<Seq<char>>, key_param: Option<Seq<char>>, access_key: Seq<char>) -> AccessDecision {
    if cookie == Some(access_key) {
        AccessDecision::Allow
    } else if key_param == Some(access_key) {
        AccessDecision::AllowAndGrant
    } else {
        AccessDecision::NotFound
    }
}

/// Gate for everything under the base path: a valid access cookie lets the
/// request through, else a `?key=` parameter equal to the access key lets it
/// through and grants the cookie, else the answer is 404.
pub fn access_decision(cookie: Option<&str>, key_param: Option<&str>, access_key: &str) -> (r: AccessDecision)
    ensures
        r == spec_access_decision(
            match cookie {
                Some(c) => Some(c@),
                None => None,
            },
            match key_param {
                Some(k) => Some(k@),
                None => None,
            },
            access_key@,
        ),
{
    let key = chars_of(access_key);
    let cookie_ok = match cookie {
        Some(c) => {
            let v = chars_of(c);
            text::chars_eq(v.as_slice(), key.as_slice())
        },
        None => false,
    };
    if cookie_ok {
        return AccessDecision::Allow;
    }
    let param_ok = match key_param {
        Some(k) => {
            let v = chars_of(k);
            text::chars_eq(v.as_slice(), key.as_slice())
        },
        None => false,
    };
    if param_ok {
        AccessDecision::AllowAndGrant
    } else {
        AccessDecision::NotFound
    }
}

/// Law: a request carrying the access cookie, whose value is the access key, is
/// let through, whatever its `?key=` says.
pub proof fn lemma_granted_cookie_passes(access_key: Seq<char>, key_param: Option<Seq<char>>)
    ensures
        spec_access_decision(Some(access_key), key_param, access_key) == AccessDecision::Allow,
{
}

/// Law: a request is answered 404 exactly when it carries neither the access key
/// in its cookie nor in its `?key=` parameter.
pub proof fn lemma_gate_hides_without_key(cookie: Option<Seq<char>>, key_param: Option<Seq<char>>, access_key: Seq<char>)
    ensures
        (spec_access_decision(cookie, key_param, access_key) == AccessDecision::NotFound) <==> (cookie != Some(
            access_key,
        ) && key_param != Some(access_key)),
{
}

// ---------------------------------------------------------------------------
// Password hashing (argon2)
// ---------------------------------------------------------------------------

/// Whether argon2 accepts `password` against the PHC string `hash`: the string
/// parses as a password hash and re-deriving it from the password with its salt
/// and parameters gives the same output.
pub uninterp spec fn argon2_accepts(password: Seq<char>, hash: Seq<char>) -> bool;

/// `PasswordHash::new(hash)` then `Argon2::default().verify_password(..)`: the
/// result is argon2's verdict on the pair, false when `hash` does not parse. A
/// PHC string starts with `$` and its first field names the algorithm, which
/// argon2 takes only as `argon2d`, `argon2i` or `argon2id`; so a hash that does
/// not start with `$argon2` is refused. Which other strings are refused, and
/// that no other password is accepted against a hash, are left unsaid.
#[verifier::external_body]
pub fn verify_password(password: &str, hash: &str) -> (r: bool)
    ensures
        r == argon2_accepts(password@, hash@),
        r ==> text::starts_with(hash@, "$argon2"@),
{
    match PasswordHash::new(hash) {
        Ok(parsed) => Argon2::default().verify_password(password.as_bytes(), &parsed).is_ok(),
        Err(_) => false,
    }
}

/// `Argon2::default().hash_password(..)` as a PHC string, with a fresh random salt
/// from the system's RNG; `None` when argon2 refuses (a password longer than
/// `u32::MAX` bytes, or a failing RNG). The string records the algorithm, version,
/// parameters and salt that produced it, from which `verify_password` re-derives
/// the hash, so argon2 accepts the password against it; it starts with `$argon2id`,
/// the default algorithm. What the string is beyond that is left unsaid: it
/// depends on the salt.
#[verifier::external_body]
pub fn hash_password(password: &str) -> (h: Option<String>)
    ensures
        h matches Some(s) ==> argon2_accepts(password@, s@) && text::starts_with(s@, "$argon2id"@),
{
    match Argon2::default().hash_password(password.as_bytes()) {
        Ok(parsed) => Some(parsed.to_string()),
        Err(_) => None,
    }
}

} // verus!
