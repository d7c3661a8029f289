//! Password login: the stored salt and hash of an account against a
//! submitted password.

use vstd::prelude::*;
use crate::error::Error;
use vstd::string::StringSliceAdditionalSpecFns;

verus! {

/// The code of a failed login.
pub const LOGIN_FAILED_CODE: i32 = 401;

/// Whether hashing `pwd` with `salt` under Argon2's `Config::original()`, at
/// the length of `hash`, gives `hash`.
pub uninterp spec fn argon2_verifies(pwd: Seq<u8>, salt: Seq<u8>, hash: Seq<u8>) -> bool;

/// The lengths that Argon2 accepts under that configuration: a salt
/// of at least 8 bytes, a hash of at least 4, and nothing over `u32::MAX`.
pub open spec fn argon2_accepts(pwd: Seq<u8>, salt: Seq<u8>, hash: Seq<u8>) -> bool {
    &&& 8 <= salt.len() <= 0xFFFF_FFFF
    &&& 4 <= hash.len() <= 0xFFFF_FFFF
    &&& pwd.len() <= 0xFFFF_FFFF
}

/// Relies on `argon2::verify_raw` with `Config::original()` (Argon2i, t=3,
/// m=4096, the default of earlier releases): `Ok(b)` where `b`
/// says whether the hash of `pwd` with `salt` equals `hash`, whenever the
/// lengths pass the checks of its `Context::new`; an error (here `None`)
/// otherwise.
#[verifier::external_body]
fn verify_password(pwd: &[u8], salt: &[u8], hash: &[u8]) -> (r: Option<bool>)
    ensures
        r matches Some(b) ==> b == argon2_verifies(pwd@, salt@, hash@),
        argon2_accepts(pwd@, salt@, hash@) ==> r is Some,
{
    argon2::verify_raw(pwd, salt, hash, &argon2::Config::original()).ok()
}

/// The salt and hash stored for an account.
pub struct Credential {
    pub salt: Vec<u8>,
    pub password_hashed: Vec<u8>,
}

/// The message of a login whose account does not exist.
pub open spec fn unknown_id_message() -> Seq<char> {
    "找不到 ID"@
}

/// The message of a login with a wrong password.
pub open spec fn wrong_password_message() -> Seq<char> {
    "密碼錯誤"@
}

/// Whether `r` is the logic error with this message and the login code.
pub open spec fn is_login_failure(r: Result<(), Error>, message: Seq<char>) -> bool {
    r matches Err(Error::LogicError { msg, key }) && msg@ == message && key == LOGIN_FAILED_CODE
}

/// The outcome of a login, given whether the account was found and what the
/// password check said (`None` when it could not run).
pub fn login_outcome(found: bool, verified: Option<bool>) -> (r: Result<(), Error>)
    ensures
        !found ==> is_login_failure(r, unknown_id_message()),
        found && verified == Some(true) ==> r is Ok,
        found && verified == Some(false) ==> is_login_failure(r, wrong_password_message()),
        found && verified is None ==> r matches Err(Error::InternalError { source: None, .. }),
{
    if !found {
        return Err(Error::new_logic("找不到 ID", LOGIN_FAILED_CODE));
    }
    match verified {
        Some(true) => Ok(()),
        Some(false) => Err(Error::new_logic("密碼錯誤", LOGIN_FAILED_CODE)),
        None => Err(Error::internal_without_source("密碼驗證無法執行")),
    }
}

/// Checks `password` against the credential stored for the account, if one
/// was found.
pub fn login(user: Option<&Credential>, password: &str) -> (r: Result<(), Error>)
    ensures
        user is None ==> is_login_failure(r, unknown_id_message()),
        user matches Some(u) ==> {
            &&& r is Ok ==> argon2_verifies(password.spec_bytes(), u.salt@, u.password_hashed@)
            &&& !argon2_verifies(password.spec_bytes(), u.salt@, u.password_hashed@) ==> r is Err
            &&& r matches Err(Error::LogicError { .. }) ==> is_login_failure(
                r,
                wrong_password_message(),
            )
            &&& argon2_accepts(password.spec_bytes(), u.salt@, u.password_hashed@) ==> {
                &&& argon2_verifies(password.spec_bytes(), u.salt@, u.password_hashed@) ==> r is Ok
                &&& !argon2_verifies(password.spec_bytes(), u.salt@, u.password_hashed@)
                    ==> is_login_failure(r, wrong_password_message())
            }
        },
{
    match user {
        None => login_outcome(false, None),
        Some(u) => {
            let verified = verify_password(
                password.as_bytes(),
                u.salt.as_slice(),
                u.password_hashed.as_slice(),
            );
            login_outcome(true, verified)
        },
    }
}

} // verus!
