//! The records exchanged with the identity service.
use vstd::prelude::*;

verus! {

/// The expiry that `Claims::new` stamps; `Claims::with_expiry` takes another.
pub const CLAIMS_EXPIRY: u64 = 1000000000000;

/// A sign-up or sign-in request.
#[derive(Debug)]
pub struct UserRequest {
    pub username: String,
    pub password: String,
}

/// The id of a created user.
#[derive(Debug)]
pub struct UserResponse {
    pub id: String,
}

/// The token handed out on sign-in.
#[derive(Debug)]
pub struct SigninResponse {
    pub token: String,
}

/// The claims of a token: its subject and its expiry.
#[derive(Debug)]
pub struct Claims {
    pub sub: String,
    pub exp: u64,
}

impl Claims {
    /// Claims for subject `sub` with the default expiry.
    pub fn new(sub: String) -> (r: Claims)
        ensures
            r.sub@ == sub@,
            r.exp == CLAIMS_EXPIRY,
    {
        Claims::with_expiry(sub, CLAIMS_EXPIRY)
    }

    /// Claims for subject `sub` expiring at `exp`, as the deployment decides.
    pub fn with_expiry(sub: String, exp: u64) -> (r: Claims)
        ensures
            r.sub@ == sub@,
            r.exp == exp,
    {
        Claims { sub, exp }
    }
}

} // verus!
