//! What a login token says of its bearer.

use vstd::prelude::*;
use vstd::std_specs::convert::FromSpecImpl;

verus! {

/// The seconds for which a token is good: a day.
pub const TOKEN_LIFETIME: i64 = 86400;

/// The claims that a token carries.
#[derive(Debug)]
pub struct Claims {
    pub sub: i32,
    pub name: String,
    pub company: String,
    pub exp: usize,
}

/// The bearer of a token, as the rest of the system knows them.
#[derive(Debug)]
pub struct SlimUser {
    pub id: i32,
    pub email: String,
    pub company: String,
}

impl From<Claims> for SlimUser {
    fn from(claims: Claims) -> (res: SlimUser) {
        SlimUser { id: claims.sub, email: claims.name, company: claims.company }
    }
}

impl FromSpecImpl<Claims> for SlimUser {
    open spec fn obeys_from_spec() -> bool {
        true
    }

    open spec fn from_spec(claims: Claims) -> SlimUser {
        SlimUser { id: claims.sub, email: claims.name, company: claims.company }
    }
}

impl Claims {
    /// The claims of a token issued at `now`, in seconds since the epoch, for
    /// the account `id`: the token expires a day later.
    pub fn with_email(id: i32, email: &str, company: &str, now: i64) -> (res: Claims)
        requires
            0 <= now + TOKEN_LIFETIME <= i64::MAX,
            now + TOKEN_LIFETIME <= usize::MAX,
        ensures
            res.sub == id,
            res.name@ == email@,
            res.company@ == company@,
            res.exp == now + TOKEN_LIFETIME,
    {
        Claims {
            sub: id,
            name: email.to_owned(),
            company: company.to_owned(),
            exp: (now + TOKEN_LIFETIME) as usize,
        }
    }
}

} // verus!
