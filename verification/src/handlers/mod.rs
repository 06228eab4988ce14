//! What stands between a request and the store: the token that a request must
//! carry in its header, and the ways in which a request can fail to show who
//! sends it.

use crate::utils::jwt::SlimUser;
use vstd::prelude::*;

verus! {

/// The user that a request was shown to come from.
pub type LoggedUser = SlimUser;

/// Why a request was not let through.
#[derive(Debug, Clone, Copy, PartialEq, Eq, Structural)]
pub enum TokenFailure {
    /// The request has no token header.
    NoToken,
    /// The token header is not hexadecimal text.
    Undecodable,
    /// The token is not one that this server issued, or has run out.
    NotVerified,
    /// The request carries no identity.
    NoIdentity,
}

/// The lower-case hexadecimal digit for a value below sixteen.
pub open spec fn hex_digit(value: int) -> u8 {
    if value < 10 {
        (48 + value) as u8
    } else {
        (87 + value) as u8
    }
}

/// The value of a hexadecimal digit, in either case; `None` for any other
/// byte.
pub open spec fn hex_value(digit: u8) -> Option<int> {
    if 48 <= digit <= 57 {
        Some(digit - 48)
    } else if 97 <= digit <= 102 {
        Some(digit - 87)
    } else if 65 <= digit <= 70 {
        Some(digit - 55)
    } else {
        None
    }
}

/// Bytes as hexadecimal text: two lower-case digits for each byte, the high
/// half first.
pub open spec fn hex_encoded(data: Seq<u8>) -> Seq<u8> {
    Seq::new(
        2 * data.len(),
        |i: int|
            hex_digit(
                if i % 2 == 0 {
                    data[i / 2] as int / 16
                } else {
                    data[i / 2] as int % 16
                },
            ),
    )
}

/// The bytes that hexadecimal text stands for; `None` where the text has an
/// odd length or holds a byte that is no hexadecimal digit.
pub open spec fn hex_decoded(text: Seq<u8>) -> Option<Seq<u8>> {
    if text.len() % 2 == 0 && forall|i: int| 0 <= i < text.len() ==> hex_value(#[trigger] text[i]) is Some {
        Some(
            Seq::new(
                text.len() / 2,
                |i: int| (hex_value(text[2 * i])->Some_0 * 16 + hex_value(text[2 * i + 1])->Some_0) as u8,
            ),
        )
    } else {
        None
    }
}

/// `hex::encode`: writes each byte as two lower-case hexadecimal digits, the
/// high half first. The text is handed on as its bytes.
#[verifier::external_body]
fn hex_encode(data: &Vec<u8>) -> (res: Vec<u8>)
    ensures
        res@ == hex_encoded(data@),
{
    hex::encode(data).into_bytes()
}

/// `hex::decode`: reads two hexadecimal digits of either case into each byte,
/// and fails on text of odd length and on any other byte.
#[verifier::external_body]
fn hex_decode(text: &Vec<u8>) -> (res: Option<Vec<u8>>)
    ensures
        match hex_decoded(text@) {
            Some(data) => res is Some && res->Some_0@ == data,
            None => res is None,
        },
{
    hex::decode(text).ok()
}

/// Decoding what was encoded gives the bytes back.
pub proof fn decoding_undoes_encoding(data: Seq<u8>)
    ensures
        hex_decoded(hex_encoded(data)) == Some(data),
{
    let text = hex_encoded(data);
    assert forall|i: int| 0 <= i < text.len() implies hex_value(#[trigger] text[i]) is Some by {
        let half: int = if i % 2 == 0 {
            data[i / 2] as int / 16
        } else {
            data[i / 2] as int % 16
        };
        assert(0 <= half < 16);
        assert(text[i] == hex_digit(half));
    }
    let back = hex_decoded(text)->Some_0;
    assert forall|i: int| 0 <= i < data.len() implies back[i] == data[i] by {
        let high: int = data[i] as int / 16;
        let low: int = data[i] as int % 16;
        assert((2 * i) % 2 == 0 && (2 * i) / 2 == i);
        assert((2 * i + 1) % 2 == 1 && (2 * i + 1) / 2 == i);
        assert(text[2 * i] == hex_digit(high));
        assert(text[2 * i + 1] == hex_digit(low));
        assert(hex_value(hex_digit(high)) == Some(high));
        assert(hex_value(hex_digit(low)) == Some(low));
        assert(high * 16 + low == data[i]);
    }
    assert(back =~= data);
}

impl TokenFailure {
    /// The status with which the request is answered: 400 where the token is
    /// missing or unreadable, 401 where the sender is not shown.
    pub fn status(&self) -> (res: u16)
        ensures
            res == match *self {
                TokenFailure::NoToken => 400u16,
                TokenFailure::Undecodable => 400u16,
                TokenFailure::NotVerified => 401u16,
                TokenFailure::NoIdentity => 401u16,
            },
    {
        match self {
            TokenFailure::NoToken => 400,
            TokenFailure::Undecodable => 400,
            TokenFailure::NotVerified => 401,
            TokenFailure::NoIdentity => 401,
        }
    }

    /// The message with which the request is answered.
    pub fn message(&self) -> (res: &'static str)
        ensures
            res@ == match *self {
                TokenFailure::NoToken => "No token provided"@,
                TokenFailure::Undecodable => "An Error ocurred decoding the token"@,
                TokenFailure::NotVerified => "can't verify token"@,
                TokenFailure::NoIdentity => "can't obtain token"@,
            },
    {
        match self {
            TokenFailure::NoToken => "No token provided",
            TokenFailure::Undecodable => "An Error ocurred decoding the token",
            TokenFailure::NotVerified => "can't verify token",
            TokenFailure::NoIdentity => "can't obtain token",
        }
    }
}

/// The value of the token header for a token: the token in hexadecimal.
pub fn token_header(token: &Vec<u8>) -> (res: Vec<u8>)
    ensures
        res@ == hex_encoded(token@),
{
    hex_encode(token)
}

/// The token that a request carries, read from the value of its token
/// header: `NoToken` where the request has no such header, `Undecodable`
/// where the value is not hexadecimal text.
pub fn header_token(header: Option<&Vec<u8>>) -> (res: Result<Vec<u8>, TokenFailure>)
    ensures
        match header {
            None => res == Err::<Vec<u8>, TokenFailure>(TokenFailure::NoToken),
            Some(value) => match hex_decoded(value@) {
                Some(token) => res is Ok && res->Ok_0@ == token,
                None => res == Err::<Vec<u8>, TokenFailure>(TokenFailure::Undecodable),
            },
        },
{
    match header {
        None => Err(TokenFailure::NoToken),
        Some(value) => match hex_decode(value) {
            Some(token) => Ok(token),
            None => Err(TokenFailure::Undecodable),
        },
    }
}

/// What a request comes to once its token has been read: the outcome of the
/// token's verification and the identity that the request carries decide.
/// The failure of an earlier step wins over that of a later one.
pub fn judge_token(token: Result<Vec<u8>, TokenFailure>, verified: bool, identity: Option<String>) -> (res:
    Result<String, TokenFailure>)
    ensures
        match token {
            Err(failure) => res == Err::<String, TokenFailure>(failure),
            Ok(_) => if !verified {
                res == Err::<String, TokenFailure>(TokenFailure::NotVerified)
            } else {
                match identity {
                    Some(text) => res == Ok::<String, TokenFailure>(text),
                    None => res == Err::<String, TokenFailure>(TokenFailure::NoIdentity),
                }
            },
        },
{
    match token {
        Err(failure) => Err(failure),
        Ok(_) => {
            if !verified {
                Err(TokenFailure::NotVerified)
            } else {
                match identity {
                    Some(text) => Ok(text),
                    None => Err(TokenFailure::NoIdentity),
                }
            }
        },
    }
}

} // verus!
