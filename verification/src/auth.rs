//! Passwords and the decision whether a request is let in.

use vstd::prelude::*;
use crate::user::User;

verus! {

/// The error of `bcrypt::hash` and `bcrypt::verify`, carried through as it
/// is.
#[verifier::external_type_specification]
#[verifier::external_body]
pub struct ExBcryptError(bcrypt::BcryptError);

/// The cost with which passwords are hashed.
pub const COST: u32 = 12;

/// What `bcrypt::verify` says of a password and a hash: `Some(true)` where
/// the hash is one of the password, `Some(false)` where it is a hash of
/// something else, and `None` where it is no hash at all.
pub uninterp spec fn bcrypt_verdict(password: Seq<char>, hash: Seq<char>) -> Option<bool>;

/// Calls `bcrypt::verify`. The outside function splits the hash into cost,
/// salt and digest, hashes the password with that cost and salt, and
/// compares the digests; what it returns depends on the two texts alone. A
/// text that is not sixty characters long is refused before anything is
/// computed.
#[verifier::external_body]
fn bcrypt_verify(password: &str, hash: &str) -> (verdict: Result<bool, bcrypt::BcryptError>)
    ensures
        match verdict {
            Ok(v) => bcrypt_verdict(password@, hash@) == Some(v),
            Err(_) => bcrypt_verdict(password@, hash@) is None,
        },
        hash@.len() != 60 ==> verdict is Err,
{
    bcrypt::verify(password, hash)
}

/// Calls `bcrypt::hash`. The outside function draws a random salt, so the
/// hash differs from call to call; what holds of every hash that it
/// returns is that `bcrypt::verify` accepts the password for it, since it
/// reads cost and salt back from the hash and computes the same digest.
#[verifier::external_body]
fn bcrypt_hash(password: &str, cost: u32) -> (hash: Result<String, bcrypt::BcryptError>)
    ensures
        hash matches Ok(h) ==> bcrypt_verdict(password@, h@) == Some(true),
{
    bcrypt::hash(password, cost)
}

/// Whether the encoded value is a hash of the password.
pub open spec fn verifies(password: Seq<char>, encoded_value: Seq<char>) -> bool {
    bcrypt_verdict(password, encoded_value) == Some(true)
}

/// Hashes a password. Where no hash can be had, the result is the text
/// `Failed to encode`, which is the hash of no password.
pub fn encode(password: String) -> (encoded: String)
    ensures
        verifies(password@, encoded@) || encoded@ == "Failed to encode"@,
{
    match bcrypt_hash(password.as_str(), COST) {
        Ok(v) => v,
        Err(_) => "Failed to encode".to_owned(),
    }
}

/// Whether the encoded value is a hash of the password. A value that is
/// no hash at all is the hash of no password.
pub fn verify(password: &str, encoded_value: &str) -> (valid: bool)
    ensures
        valid == verifies(password@, encoded_value@),
        encoded_value@.len() != 60 ==> !valid,
{
    match bcrypt_verify(password, encoded_value) {
        Ok(v) => v,
        Err(_) => false,
    }
}

/// What a request says of who sends it.
#[derive(Debug)]
pub struct AuthMiddlewareData {
    pub email: String,
    pub password_plain: String,
}

impl AuthMiddlewareData {
    /// What a request says of who sends it, from the name and the
    /// password of its authorization header. A header without a password
    /// stands for the empty password.
    pub fn from_header(username: String, password: Option<String>) -> (data: AuthMiddlewareData)
        ensures
            data.email == username,
            data.password_plain@ == match password {
                Some(p) => p@,
                None => Seq::<char>::empty(),
            },
    {
        AuthMiddlewareData {
            email: username,
            password_plain: match password {
                Some(v) => v,
                None => String::new(),
            },
        }
    }
}

/// The password hash that is stored for a user; the empty text where none
/// is.
pub open spec fn stored_hash(user: User) -> Seq<char> {
    match user.password {
        Some(p) => p@,
        None => Seq::empty(),
    }
}

/// Whether the password of the request is the one whose hash is stored
/// for the user. A user without a stored hash is never let in.
pub fn is_authenticated(auth: &AuthMiddlewareData, user: &User) -> (authenticated: bool)
    ensures
        authenticated == verifies(auth.password_plain@, stored_hash(*user)),
        user.password is None ==> !authenticated,
{
    match &user.password {
        Some(p) => verify(auth.password_plain.as_str(), p.as_str()),
        None => {
            proof {
                reveal_strlit("");
                assert(""@ =~= Seq::<char>::empty());
            }
            verify(auth.password_plain.as_str(), "")
        },
    }
}

/// Calls `str::starts_with` with a text as the pattern: whether the
/// pattern is the beginning of the text.
#[verifier::external_body]
fn starts_with(text: &str, pattern: &str) -> (starts: bool)
    ensures
        starts == pattern@.is_prefix_of(text@),
{
    text.starts_with(pattern)
}

/// Whether a request is let in without a password: its user agent begins
/// with the token of the service.
pub fn skips_auth(user_agent: Option<&str>, service_token: &str) -> (skips: bool)
    ensures
        skips == match user_agent {
            Some(agent) => service_token@.is_prefix_of(agent@),
            None => false,
        },
{
    match user_agent {
        Some(agent) => starts_with(agent, service_token),
        None => false,
    }
}

/// Whether a request is let in: it comes from the service itself, or from
/// a user who is authenticated, for a project that exists.
pub fn admits(skips_auth: bool, authenticated: bool, project_exists: bool) -> (admitted: bool)
    ensures
        admitted == (skips_auth || (authenticated && project_exists)),
{
    skips_auth || (authenticated && project_exists)
}

} // verus!
