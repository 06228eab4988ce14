//! Accounts: registration and login.

use crate::errors::MyStoreError;
use crate::models::Timestamp;
use crate::store::{push_keeps_ids, Row, Store, TableView};
use vstd::prelude::*;
use vstd::string::*;

verus! {

/// An account.
#[derive(Debug)]
pub struct User {
    pub id: i32,
    pub email: String,
    pub company: String,
    pub password: String,
    pub created_at: Timestamp,
}

/// An account that has no id yet.
#[derive(Debug)]
pub struct NewUser {
    pub email: String,
    pub company: String,
    pub password: String,
    pub created_at: Timestamp,
}

/// What a person submits to open an account.
#[derive(Debug)]
pub struct RegisterUser {
    pub email: String,
    pub company: String,
    pub password: String,
    pub password_confirmation: String,
}

/// What a person submits to log in.
#[derive(Debug)]
pub struct AuthUser {
    pub email: String,
    pub password: String,
}

impl Row for User {
    open spec fn row_id(&self) -> i32 {
        self.id
    }

    fn id_of(&self) -> (res: i32) {
        self.id
    }
}

/// What `bcrypt::verify` answers for a password and a stored hash: whether
/// they match, or `None` where it reports an error.
pub uninterp spec fn bcrypt_verify(password: Seq<char>, hash: Seq<char>) -> Option<bool>;

/// `bcrypt::verify`: checks a password against a stored hash. The answer
/// depends on the two texts alone. A stored text that is not 60 characters
/// long is no bcrypt hash and is reported as an error.
#[verifier::external_body]
fn verify_password(password: &String, hash: &String) -> (res: Result<bool, bcrypt::BcryptError>)
    ensures
        res is Ok <==> bcrypt_verify(password@, hash@) is Some,
        res is Ok ==> res->Ok_0 == bcrypt_verify(password@, hash@)->Some_0,
        hash@.len() != 60 ==> res is Err,
{
    bcrypt::verify(password, hash)
}

/// `bcrypt::hash` with `bcrypt::DEFAULT_COST`: hashes a password under a salt
/// drawn at random, so two calls on one password differ. A hash is 60
/// characters long.
#[verifier::external_body]
fn hash_with_default_cost(plain: &String) -> (res: Result<String, bcrypt::BcryptError>)
    ensures
        res is Ok ==> res->Ok_0@.len() == 60,
{
    bcrypt::hash(plain, bcrypt::DEFAULT_COST)
}

/// The last account with the email, in the table's order.
pub open spec fn last_with_email(users: Seq<User>, email: Seq<char>) -> Option<User>
    decreases users.len(),
{
    if users.len() == 0 {
        None
    } else if users.last().email@ == email {
        Some(users.last())
    } else {
        last_with_email(users.drop_last(), email)
    }
}

impl User {
    /// A copy of the row.
    pub fn duplicate(&self) -> (res: User)
        ensures
            res == *self,
    {
        User {
            id: self.id,
            email: self.email.clone(),
            company: self.company.clone(),
            password: self.password.clone(),
            created_at: self.created_at,
        }
    }

    /// The hash under which a password is stored. Hashing draws a salt at
    /// random, so the hash is not determined by the password; it is 60
    /// characters long. A failure inside `bcrypt` comes back as `HashError`.
    pub fn hash_password(plain: String) -> (res: Result<String, MyStoreError>)
        ensures
            res is Ok ==> res->Ok_0@.len() == 60,
            res is Err ==> res->Err_0 is HashError,
    {
        match hash_with_default_cost(&plain) {
            Ok(hash) => Ok(hash),
            Err(error) => Err(MyStoreError::HashError(error)),
        }
    }

    /// Adds an account to the store under the store's next id.
    /// `ConstraintViolation`, with the store unchanged, where no id is left.
    pub fn insert(connection: &mut Store, new_user: NewUser) -> (res: Result<User, MyStoreError>)
        requires
            old(connection).wf(),
        ensures
            final(connection).wf(),
            ({
                let before = old(connection).users@;
                if before.next_id == i32::MAX {
                    &&& res is Err
                    &&& res->Err_0 is ConstraintViolation
                    &&& *final(connection) == *old(connection)
                } else {
                    &&& res is Ok
                    &&& res->Ok_0 == (User {
                        id: before.next_id,
                        email: new_user.email,
                        company: new_user.company,
                        password: new_user.password,
                        created_at: new_user.created_at,
                    })
                    &&& final(connection).users@ == (TableView {
                        rows: before.rows.push(res->Ok_0),
                        next_id: (before.next_id + 1) as i32,
                    })
                    &&& *final(connection) == (Store {
                        users: final(connection).users,
                        ..*old(connection)
                    })
                }
            }),
    {
        let id = connection.users.next_id;
        if id == i32::MAX {
            return Err(MyStoreError::ConstraintViolation);
        }
        let row = User {
            id,
            email: new_user.email,
            company: new_user.company,
            password: new_user.password,
            created_at: new_user.created_at,
        };
        let user = row.duplicate();
        proof {
            push_keeps_ids(connection.users@, row);
        }
        connection.users.rows.push(row);
        connection.users.next_id = id + 1;
        Ok(user)
    }

    /// Opens an account: hashes the password and adds the account to the
    /// store, with `created_at` as the moment of creation. The stored password
    /// is the hash, never the password itself.
    ///
    /// Whether hashing succeeds is for `bcrypt` to say. Where it fails the
    /// result is `HashError`; where no id is left it is `ConstraintViolation`;
    /// on either the store is as it was.
    pub fn create(register_user: RegisterUser, connection: &mut Store, created_at: Timestamp) -> (res:
        Result<User, MyStoreError>)
        requires
            old(connection).wf(),
        ensures
            final(connection).wf(),
            old(connection).users@.next_id == i32::MAX ==> res is Err,
            res is Err ==> (res->Err_0 is HashError || res->Err_0 is ConstraintViolation)
                && *final(connection) == *old(connection),
            res is Ok ==> {
                &&& res->Ok_0.id == old(connection).users@.next_id
                &&& res->Ok_0.email == register_user.email
                &&& res->Ok_0.company == register_user.company
                &&& res->Ok_0.password@.len() == 60
                &&& res->Ok_0.created_at == created_at
                &&& final(connection).users@ == (TableView {
                    rows: old(connection).users@.rows.push(res->Ok_0),
                    next_id: (old(connection).users@.next_id + 1) as i32,
                })
                &&& *final(connection) == (Store {
                    users: final(connection).users,
                    ..*old(connection)
                })
            },
    {
        let password = match User::hash_password(register_user.password) {
            Ok(hash) => hash,
            Err(error) => {
                return Err(error);
            },
        };
        User::insert(
            connection,
            NewUser {
                email: register_user.email,
                company: register_user.company,
                password,
                created_at,
            },
        )
    }
}

impl RegisterUser {
    /// Checks what was submitted: the password and its confirmation must be
    /// equal and the password must not be empty. What passes comes back
    /// unchanged.
    pub fn validates(self) -> (res: Result<RegisterUser, MyStoreError>)
        ensures
            self.password@ == self.password_confirmation@ && self.password@.len() > 0 ==> res
                == Ok::<RegisterUser, MyStoreError>(self),
            self.password@ != self.password_confirmation@ ==> res is Err
                && res->Err_0 is PasswordNotMatch && res->Err_0->PasswordNotMatch_0@
                == "Password and Password Confirmation does not match"@,
            self.password@ == self.password_confirmation@ && self.password@.len() == 0 ==> res is Err
                && res->Err_0 is WrongPassword && res->Err_0->WrongPassword_0@
                == "Wrong Password, check it is not empty"@,
    {
        let password_are_equal = self.password == self.password_confirmation;
        let password_not_empty = !self.password.as_str().is_empty();
        if password_are_equal && password_not_empty {
            Ok(self)
        } else if !password_are_equal {
            Err(
                MyStoreError::PasswordNotMatch(
                    String::from_str("Password and Password Confirmation does not match"),
                ),
            )
        } else {
            Err(MyStoreError::WrongPassword(String::from_str("Wrong Password, check it is not empty")))
        }
    }
}

impl AuthUser {
    /// Decides a login from the account found for the email and the answer of
    /// the password check: the account where the password matches,
    /// `WrongPassword` where it does not, `HashError` where the check itself
    /// failed.
    pub fn judge(user: User, checked: Result<bool, bcrypt::BcryptError>) -> (res: Result<
        User,
        MyStoreError,
    >)
        ensures
            match checked {
                Ok(true) => res == Ok::<User, MyStoreError>(user),
                Ok(false) => res matches Err(MyStoreError::WrongPassword(text)) && text@
                    == "Wrong password, check again please"@,
                Err(error) => res matches Err(MyStoreError::HashError(e)) && e == error,
            },
    {
        match checked {
            Ok(true) => Ok(user),
            Ok(false) => Err(
                MyStoreError::WrongPassword(String::from_str("Wrong password, check again please")),
            ),
            Err(error) => Err(MyStoreError::HashError(error)),
        }
    }

    /// Logs in: finds the last account with the email and checks the password
    /// against its stored hash.
    ///
    /// `NotFound` where no account has the email; `HashError` where the stored
    /// text cannot be checked; `WrongPassword` where the password does not
    /// match; otherwise the account.
    pub fn login(&self, connection: &Store) -> (res: Result<User, MyStoreError>)
        ensures
            match last_with_email(connection.users@.rows, self.email@) {
                None => res is Err && res->Err_0 is NotFound,
                Some(user) => match bcrypt_verify(self.password@, user.password@) {
                    None => res is Err && res->Err_0 is HashError,
                    Some(true) => res == Ok::<User, MyStoreError>(user),
                    Some(false) => res matches Err(MyStoreError::WrongPassword(text)) && text@
                        == "Wrong password, check again please"@,
                },
            },
            last_with_email(connection.users@.rows, self.email@) matches Some(user)
                && user.password@.len() != 60 ==> res is Err && res->Err_0 is HashError,
    {
        let users = &connection.users.rows;
        let mut i: usize = users.len();
        proof {
            assert(users@.take(i as int) =~= users@);
        }
        while i > 0
            invariant
                i <= users.len(),
                users@ == connection.users@.rows,
                last_with_email(users@, self.email@) == last_with_email(
                    users@.take(i as int),
                    self.email@,
                ),
            decreases i,
        {
            proof {
                assert(users@.take(i as int).drop_last() =~= users@.take(i - 1));
            }
            if users[i - 1].email == self.email {
                let user = users[i - 1].duplicate();
                let checked = verify_password(&self.password, &user.password);
                return AuthUser::judge(user, checked);
            }
            i -= 1;
        }
        proof {
            assert(users@.take(0).len() == 0);
        }
        Err(MyStoreError::NotFound)
    }
}

} // verus!
