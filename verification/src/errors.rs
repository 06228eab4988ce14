//! The failures that the store's operations report.

use crate::models::sale_state::{transition_message, IllegalTransition};
use vstd::prelude::*;
use vstd::std_specs::convert::FromSpecImpl;
use vstd::string::*;

verus! {

/// The error type of the `bcrypt` crate, carried through unopened.
#[verifier::external_type_specification]
#[verifier::external_body]
pub struct ExBcryptError(bcrypt::BcryptError);

/// Why an operation on the store did not succeed.
#[derive(Debug)]
pub enum MyStoreError {
    /// Hashing or checking a password failed inside `bcrypt`.
    HashError(bcrypt::BcryptError),
    /// A password and its confirmation differ.
    PasswordNotMatch(String),
    /// A password is empty or is not the account's password.
    WrongPassword(String),
    /// A form that must name an existing row carries no id.
    MissingId,
    /// The row is absent, or belongs to another owner, or is a sale that has
    /// left `Draft`: the three are not told apart.
    NotFound,
    /// The sale's state does not accept the event.
    IllegalTransition(IllegalTransition),
    /// A change was asked of a sale that is no longer in `Draft`.
    MutationForbidden,
    /// A step of a reconciliation batch failed; nothing of the batch was kept.
    ReconciliationError,
    /// A uniqueness rule of the store would be broken, or no id is left.
    ConstraintViolation,
}

impl From<bcrypt::BcryptError> for MyStoreError {
    fn from(error: bcrypt::BcryptError) -> (res: MyStoreError) {
        MyStoreError::HashError(error)
    }
}

impl FromSpecImpl<bcrypt::BcryptError> for MyStoreError {
    open spec fn obeys_from_spec() -> bool {
        true
    }

    open spec fn from_spec(error: bcrypt::BcryptError) -> MyStoreError {
        MyStoreError::HashError(error)
    }
}

/// The text of each error that carries none of its own and is not a rejected
/// transition.
pub open spec fn fixed_message(error: MyStoreError) -> Seq<char> {
    match error {
        MyStoreError::MissingId => "missing id"@,
        MyStoreError::NotFound => "Record not found"@,
        MyStoreError::MutationForbidden => "Only a draft sale can be changed"@,
        MyStoreError::ReconciliationError => "The changes could not be applied; nothing was saved"@,
        MyStoreError::ConstraintViolation => "A uniqueness or reference rule was violated"@,
        _ => Seq::<char>::empty(),
    }
}

/// `<BcryptError as Display>::fmt` through `to_string`: the text `bcrypt`
/// gives for its error. Nothing is claimed of the text.
#[verifier::external_body]
fn hash_error_text(error: &bcrypt::BcryptError) -> (res: String) {
    error.to_string()
}

impl MyStoreError {
    /// The message shown to the caller. Each kind has a text of its own; the
    /// text of a hashing failure is the one `bcrypt` gives.
    pub fn message(&self) -> (res: String)
        ensures
            match *self {
                MyStoreError::HashError(_) => true,
                MyStoreError::PasswordNotMatch(text) => res@ == text@,
                MyStoreError::WrongPassword(text) => res@ == text@,
                MyStoreError::IllegalTransition(rejected) => res@ == transition_message(
                    rejected.from,
                    rejected.event,
                ),
                _ => res@ == fixed_message(*self),
            },
    {
        match self {
            MyStoreError::HashError(error) => hash_error_text(error),
            MyStoreError::PasswordNotMatch(text) => text.clone(),
            MyStoreError::WrongPassword(text) => text.clone(),
            MyStoreError::MissingId => String::from_str("missing id"),
            MyStoreError::NotFound => String::from_str("Record not found"),
            MyStoreError::IllegalTransition(rejected) => rejected.message(),
            MyStoreError::MutationForbidden => String::from_str("Only a draft sale can be changed"),
            MyStoreError::ReconciliationError => String::from_str(
                "The changes could not be applied; nothing was saved",
            ),
            MyStoreError::ConstraintViolation => String::from_str(
                "A uniqueness or reference rule was violated",
            ),
        }
    }
}

/// The kinds of error whose text is fixed.
pub open spec fn has_fixed_message(error: MyStoreError) -> bool {
    error is MissingId || error is NotFound || error is MutationForbidden
        || error is ReconciliationError || error is ConstraintViolation
}

/// A caller can tell the kinds of error apart by their text: two kinds with a
/// fixed text have different texts, and none of them reads like a rejected
/// transition.
pub proof fn messages_are_distinct(a: MyStoreError, b: MyStoreError, rejected: IllegalTransition)
    requires
        has_fixed_message(a),
        has_fixed_message(b),
    ensures
        fixed_message(a) == fixed_message(b) ==> (a is MissingId <==> b is MissingId) && (a
            is NotFound <==> b is NotFound) && (a is MutationForbidden <==> b is MutationForbidden)
            && (a is ReconciliationError <==> b is ReconciliationError),
        fixed_message(a) != transition_message(rejected.from, rejected.event),
{
    reveal_strlit("missing id");
    reveal_strlit("Record not found");
    reveal_strlit("Only a draft sale can be changed");
    reveal_strlit("The changes could not be applied; nothing was saved");
    reveal_strlit("A uniqueness or reference rule was violated");
    reveal_strlit("You can't ");
    assert("missing id"@.len() == 10);
    assert("Record not found"@.len() == 16);
    assert("Only a draft sale can be changed"@.len() == 32);
    assert("The changes could not be applied; nothing was saved"@.len() == 51);
    assert("A uniqueness or reference rule was violated"@.len() == 43);
    let text = transition_message(rejected.from, rejected.event);
    assert("You can't "@.len() == 10);
    assert(text[0] == "You can't "@[0]);
    assert(text[0] == 'Y');
    assert(fixed_message(a)[0] != 'Y');
}

} // verus!
