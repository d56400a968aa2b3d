use vstd::prelude::*;
use bcrypt::BcryptError;
use crate::models::{NewUser, NewUserWithEncryptedPassword, User};
use crate::text::{parse_i32, spec_parse_i32};

verus! {

/// What bcrypt reports when it cannot hash or cannot read a hash.
#[verifier::external_type_specification]
#[verifier::external_body]
pub struct ExBcryptError(BcryptError);

/// The user who may enter outcomes and start a recalculation.
pub const ADMIN_USER_ID: i32 = 1;

/// Whether the user may enter outcomes and start a recalculation.
pub fn is_admin(user: &User) -> (admin: bool)
    ensures
        admin == (user.user_id == ADMIN_USER_ID),
{
    user.user_id == ADMIN_USER_ID
}

/// Nobody is logged in.
#[derive(Clone, Copy, Debug, PartialEq, Eq, Structural)]
pub struct Unauthenticated;

/// The id of the user that a session names: the session's text read as a
/// number. `Unauthenticated` without a session, or with one that is no number.
pub fn session_user_id(identity: Option<&str>) -> (res: Result<i32, Unauthenticated>)
    ensures
        match identity {
            Some(text) => match spec_parse_i32(text@) {
                Some(user_id) => res == Ok::<i32, Unauthenticated>(user_id),
                None => res is Err,
            },
            None => res is Err,
        },
{
    match identity {
        Some(text) => match parse_i32(text) {
            Some(user_id) => Ok(user_id),
            None => Err(Unauthenticated),
        },
        None => Err(Unauthenticated),
    }
}

/// What `bcrypt::verify` makes of a password and a stored hash: whether the
/// password is the one that was hashed, or `None` where bcrypt gives an error
/// instead, because the hash cannot be taken apart or names a cost or a salt
/// that bcrypt does not take.
pub uninterp spec fn bcrypt_verdict(password: Seq<char>, hash: Seq<char>) -> Option<bool>;

/// `bcrypt::verify`: hashes the password with the cost and the salt of the
/// stored hash and tells whether the same hash comes out. The result depends
/// on the two texts alone, and is spoken of as `bcrypt_verdict`.
#[verifier::external_body]
fn bcrypt_verify(password: &str, hash: &str) -> (res: Result<bool, BcryptError>)
    ensures
        res is Ok ==> bcrypt_verdict(password@, hash@) == Some(res.unwrap()),
        res is Err ==> bcrypt_verdict(password@, hash@) is None,
{
    bcrypt::verify(password, hash)
}

/// `bcrypt::hash`: a hash of the password under a salt that the system's
/// random source gives. Which hash comes out is left open; what is believed
/// of it is that `bcrypt::verify` finds the same password behind it, as it
/// hashes with the cost and the salt that the hash carries.
#[verifier::external_body]
fn bcrypt_hash(password: &str, cost: u32) -> (res: Result<String, BcryptError>)
    ensures
        res is Ok ==> bcrypt_verdict(password@, res.unwrap()@) == Some(true),
{
    bcrypt::hash(password, cost)
}

/// The cost at which passwords are hashed: the one that bcrypt proposes.
pub const HASH_COST: u32 = 12;

/// Why a login was turned down.
#[derive(Clone, Copy, Debug, PartialEq, Eq, Structural)]
pub enum LoginError {
    /// No user has this name.
    UserNotFound,
    /// The stored hash of the password is none that bcrypt can check against.
    UnreadableHash,
    /// The password is not the user's.
    WrongPassword,
}

/// What becomes of a login once the password was held against the stored
/// hash: the user's id where it is the user's password, and an error else.
pub fn login_decision(user_id: i32, verdict: Option<bool>) -> (res: Result<i32, LoginError>)
    ensures
        res == match verdict {
            Some(true) => Ok::<i32, LoginError>(user_id),
            Some(false) => Err::<i32, LoginError>(LoginError::WrongPassword),
            None => Err::<i32, LoginError>(LoginError::UnreadableHash),
        },
{
    match verdict {
        Some(true) => Ok(user_id),
        Some(false) => Err(LoginError::WrongPassword),
        None => Err(LoginError::UnreadableHash),
    }
}

/// Whether the password is the one behind the stored hash; `None` where the
/// hash is none that bcrypt can check against.
pub fn password_matches(password: &str, stored_hash: &str) -> (verdict: Option<bool>)
    ensures
        verdict == bcrypt_verdict(password@, stored_hash@),
{
    match bcrypt_verify(password, stored_hash) {
        Ok(matches) => Some(matches),
        Err(_) => None,
    }
}

/// A login with a password, against the user of that name, if there is one:
/// `UserNotFound` without a user, else what `login_decision` makes of the
/// password and the user's stored hash.
pub fn check_login(user: Option<&User>, password: &str) -> (res: Result<i32, LoginError>)
    ensures
        res == match user {
            Some(user) => match bcrypt_verdict(password@, user.encrypted_password@) {
                Some(true) => Ok::<i32, LoginError>(user.user_id),
                Some(false) => Err::<i32, LoginError>(LoginError::WrongPassword),
                None => Err::<i32, LoginError>(LoginError::UnreadableHash),
            },
            None => Err::<i32, LoginError>(LoginError::UserNotFound),
        },
{
    match user {
        Some(user) => login_decision(
            user.user_id,
            password_matches(password, user.encrypted_password.as_str()),
        ),
        None => Err(LoginError::UserNotFound),
    }
}

/// The password could not be hashed.
#[derive(Clone, Copy, Debug, PartialEq, Eq, Structural)]
pub struct HashingFailed;

impl<'a> NewUser<'a> {
    /// The same user with the password hashed at `HASH_COST`: `with_hash` of
    /// what bcrypt gives. Whether it gives a hash is up to the system's random
    /// source; where it does, the password is the one behind the hash.
    pub fn encrypt(self) -> (res: Result<NewUserWithEncryptedPassword<'a>, HashingFailed>)
        ensures
            res is Ok ==> {
                &&& res.unwrap().email@ == self.email@
                &&& res.unwrap().login@ == self.login@
                &&& res.unwrap().display_name == self.display_name
                &&& res.unwrap().slack_handle == self.slack_handle
                &&& bcrypt_verdict(self.password@, res.unwrap().encrypted_password@) == Some(
                    true,
                )
            },
    {
        let hashed = match bcrypt_hash(self.password, HASH_COST) {
            Ok(hash) => Some(hash),
            Err(_) => None,
        };
        self.with_hash(hashed)
    }

    /// What becomes of the user once hashing the password has ended: with a
    /// hash, the same user with the hash in place of the password and every
    /// other field as it was; without one, `HashingFailed`.
    pub fn with_hash(self, hashed: Option<String>) -> (res: Result<
        NewUserWithEncryptedPassword<'a>,
        HashingFailed,
    >)
        ensures
            match hashed {
                Some(hash) => {
                    &&& res is Ok
                    &&& res.unwrap().email@ == self.email@
                    &&& res.unwrap().login@ == self.login@
                    &&& res.unwrap().display_name == self.display_name
                    &&& res.unwrap().encrypted_password@ == hash@
                    &&& res.unwrap().slack_handle == self.slack_handle
                },
                None => res is Err,
            },
    {
        match hashed {
            Some(encrypted_password) => Ok(
                NewUserWithEncryptedPassword {
                    email: self.email,
                    login: self.login,
                    display_name: self.display_name,
                    encrypted_password,
                    slack_handle: self.slack_handle,
                },
            ),
            None => Err(HashingFailed),
        }
    }
}

/// What a visitor entered to register.
#[derive(Clone, Debug)]
pub struct RegistrationForm {
    pub username: String,
    pub name: String,
    pub password: String,
}

/// The user that a registration asks for: the name entered serves as e-mail
/// address and as login.
pub fn new_user_from<'a>(form: &'a RegistrationForm) -> (user: NewUser<'a>)
    ensures
        user.email@ == form.username@,
        user.login@ == form.username@,
        user.display_name is Some && user.display_name.unwrap()@ == form.name@,
        user.password@ == form.password@,
        user.slack_handle is None,
{
    NewUser {
        email: form.username.as_str(),
        login: form.username.as_str(),
        display_name: Some(form.name.as_str()),
        password: form.password.as_str(),
        slack_handle: None,
    }
}

} // verus!
