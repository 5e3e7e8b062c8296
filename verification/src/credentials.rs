//! Credential checks for login and signup.
//!
//! The caller owns the credential store; it reads the stored password hash
//! for an email (or finds none) and hands it in as plain bytes.  The
//! decisions — whom to let in, whom to refuse, and with which message —
//! live here.

use crate::errors::BackendError;
use vstd::prelude::*;
use vstd::utf8::encode_utf8;

verus! {

/// A user's login form: the email and the client-side hash of the
/// password.
#[derive(Debug, Clone, PartialEq, Eq)]
pub struct UserCredentials {
    pub email: String,
    pub password_hash: String,
}

fn bytes_eq(a: &[u8], b: &[u8]) -> (r: bool)
    ensures
        r == (a@ == b@),
{
    if a.len() != b.len() {
        proof {
            if a@ == b@ {
                assert(a@.len() == b@.len());
            }
        }
        return false;
    }
    let n = a.len();
    let mut i: usize = 0;
    while i < n
        invariant
            n == a@.len(),
            n == b@.len(),
            i <= n,
            forall|j: int| 0 <= j < i ==> a@[j] == b@[j],
        decreases n - i,
    {
        if a[i] != b[i] {
            proof {
                if a@ == b@ {
                    assert(a@[i as int] == b@[i as int]);
                }
            }
            return false;
        }
        i = i + 1;
    }
    proof {
        assert(a@ =~= b@);
    }
    true
}

/// Checks a login attempt: `stored_password` is what the credential store
/// holds for the attempt's email — `None` when the email is not registered.
/// The attempt succeeds exactly when a stored password exists and equals
/// the supplied hash, byte for byte.
pub fn login(stored_password: Option<Vec<u8>>, creds: &UserCredentials) -> (r: Result<
    (),
    BackendError,
>)
    ensures
        match stored_password {
            None => (r matches Err(BackendError::EmailExists(m)) && m@
                == "Username does not exist"@),
            Some(p) => {
                if p@ == encode_utf8(creds.password_hash@) {
                    r is Ok
                } else {
                    r matches Err(BackendError::EmailExists(m)) && m@ == "Incorrect password"@
                }
            },
        },
{
    match stored_password {
        None => Err(BackendError::EmailExists("Username does not exist".to_owned())),
        Some(p) => {
            let supplied = creds.password_hash.as_str().as_bytes();
            if bytes_eq(p.as_slice(), supplied) {
                Ok(())
            } else {
                Err(BackendError::EmailExists("Incorrect password".to_owned()))
            }
        },
    }
}

/// Decides a signup: `email_taken` is whether the credential store already
/// holds the email.  A taken email is refused; otherwise the caller may
/// store the new credentials.
pub fn signup(email_taken: bool) -> (r: Result<(), BackendError>)
    ensures
        email_taken ==> (r matches Err(BackendError::EmailExists(m)) && m@
            == "Email already exists"@),
        !email_taken ==> r is Ok,
{
    if email_taken {
        Err(BackendError::EmailExists("Email already exists".to_owned()))
    } else {
        Ok(())
    }
}

} // verus!
