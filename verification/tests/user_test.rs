use mystore::errors::MyStoreError;
use mystore::models::user::{AuthUser, NewUser, RegisterUser, User};
use mystore::models::Timestamp;
use mystore::store::Store;
use mystore::utils::jwt::{Claims, SlimUser, TOKEN_LIFETIME};

const HASH_OF_PASSWORD: &str = "$2a$04$UuTkLRZZ6QofpDOlMz32MuuxEHA43WOemOYHPz6.SjsVsyO1tDU96";

fn moment() -> Timestamp {
    Timestamp { secs: 1_573_516_800, nanos: 0 }
}

fn register(password: &str, confirmation: &str) -> RegisterUser {
    RegisterUser {
        email: "jhon@doe.com".to_string(),
        company: "My own personal enterprise".to_string(),
        password: password.to_string(),
        password_confirmation: confirmation.to_string(),
    }
}

fn account(email: &str, stored_password: &str) -> NewUser {
    NewUser {
        email: email.to_string(),
        company: "My own personal enterprise".to_string(),
        password: stored_password.to_string(),
        created_at: moment(),
    }
}

fn auth(email: &str, password: &str) -> AuthUser {
    AuthUser { email: email.to_string(), password: password.to_string() }
}

#[test]
fn a_good_registration_comes_back_unchanged() {
    let checked = register("12345678", "12345678").validates().unwrap();
    assert_eq!(checked.email, "jhon@doe.com");
    assert_eq!(checked.company, "My own personal enterprise");
    assert_eq!(checked.password, "12345678");
    assert_eq!(checked.password_confirmation, "12345678");
}

#[test]
fn passwords_that_differ_are_refused() {
    match register("12345678", "1234567").validates() {
        Err(MyStoreError::PasswordNotMatch(text)) => {
            assert_eq!(text, "Password and Password Confirmation does not match");
        }
        _ => panic!("the registration was not refused"),
    }
    assert!(matches!(register("", "x").validates(), Err(MyStoreError::PasswordNotMatch(_))));
    assert!(matches!(register("x", "").validates(), Err(MyStoreError::PasswordNotMatch(_))));
}

#[test]
fn an_empty_password_is_refused() {
    match register("", "").validates() {
        Err(MyStoreError::WrongPassword(text)) => {
            assert_eq!(text, "Wrong Password, check it is not empty");
        }
        _ => panic!("the registration was not refused"),
    }
}

#[test]
fn login_checks_the_password_against_the_stored_hash() {
    let mut store = Store::new();
    let stored = User::insert(&mut store, account("jhon@doe.com", HASH_OF_PASSWORD)).unwrap();
    assert_eq!(stored.id, 1);

    let user = auth("jhon@doe.com", "password").login(&store).unwrap();
    assert_eq!(user.id, 1);
    assert_eq!(user.email, "jhon@doe.com");
    assert_eq!(user.password, HASH_OF_PASSWORD);
    assert_eq!(user.created_at, moment());

    match auth("jhon@doe.com", "wrong").login(&store) {
        Err(MyStoreError::WrongPassword(text)) => {
            assert_eq!(text, "Wrong password, check again please");
        }
        _ => panic!("the login was not refused"),
    }
    match auth("jhon@doe.com", HASH_OF_PASSWORD).login(&store) {
        Err(MyStoreError::WrongPassword(_)) => {}
        _ => panic!("the stored hash was taken for the password"),
    }
    assert!(matches!(auth("jane@doe.com", "password").login(&store), Err(MyStoreError::NotFound)));
    assert!(matches!(auth("", "password").login(&Store::new()), Err(MyStoreError::NotFound)));
}

#[test]
fn a_stored_text_that_is_no_hash_is_a_hash_error() {
    let mut store = Store::new();
    User::insert(&mut store, account("jhon@doe.com", "12345678")).unwrap();
    let result = auth("jhon@doe.com", "12345678").login(&store);
    match result {
        Err(error @ MyStoreError::HashError(_)) => assert!(!error.message().is_empty()),
        _ => panic!("a password stored in the clear was accepted"),
    }
}

#[test]
fn the_last_account_with_the_email_is_the_one_that_logs_in() {
    let mut store = Store::new();
    User::insert(&mut store, account("jhon@doe.com", "not a hash")).unwrap();
    User::insert(&mut store, account("jane@doe.com", HASH_OF_PASSWORD)).unwrap();
    User::insert(&mut store, account("jhon@doe.com", HASH_OF_PASSWORD)).unwrap();
    User::insert(&mut store, account("jane@doe.com", "not a hash")).unwrap();
    assert_eq!(auth("jhon@doe.com", "password").login(&store).unwrap().id, 3);
    assert!(matches!(
        auth("jane@doe.com", "password").login(&store),
        Err(MyStoreError::HashError(_))
    ));
}

#[test]
fn a_created_account_stores_a_hash_that_its_password_opens() {
    let mut store = Store::new();
    let checked = register("12345678", "12345678").validates().unwrap();
    let user = User::create(checked, &mut store, moment()).unwrap();
    assert_eq!(user.id, 1);
    assert_eq!(user.email, "jhon@doe.com");
    assert_eq!(user.company, "My own personal enterprise");
    assert_eq!(user.created_at, moment());
    assert_ne!(user.password, "12345678");
    assert_eq!(user.password.chars().count(), 60);
    assert!(user.password.starts_with("$2b$12$"));
    assert_eq!(store.users.rows.len(), 1);
    assert_eq!(store.users.rows[0].password, user.password);
    assert_eq!(store.users.next_id, 2);

    assert_eq!(auth("jhon@doe.com", "12345678").login(&store).unwrap().id, 1);
}

#[test]
fn hashing_twice_gives_two_hashes() {
    let a = User::hash_password("12345678".to_string()).unwrap();
    let b = User::hash_password("12345678".to_string()).unwrap();
    assert_eq!(a.len(), 60);
    assert_eq!(b.len(), 60);
    assert_ne!(a, b);
    assert_ne!(a, "12345678");
}

#[test]
fn no_account_without_an_id() {
    let mut store = Store::new();
    store.users.next_id = i32::MAX;
    let refused = User::insert(&mut store, account("jhon@doe.com", HASH_OF_PASSWORD));
    assert!(matches!(refused, Err(MyStoreError::ConstraintViolation)));
    assert!(store.users.rows.is_empty());
}

#[test]
fn a_hash_error_becomes_a_store_error() {
    let error = bcrypt::verify("password", "short").unwrap_err();
    let text = error.to_string();
    let converted = MyStoreError::from(error);
    assert!(matches!(converted, MyStoreError::HashError(_)));
    assert_eq!(converted.message(), text);
}

#[test]
fn claims_expire_a_day_after_they_are_issued() {
    assert_eq!(TOKEN_LIFETIME, 24 * 60 * 60);
    let claims = Claims::with_email(7, "jhon@doe.com", "My own personal enterprise", 1_573_516_800);
    assert_eq!(claims.sub, 7);
    assert_eq!(claims.name, "jhon@doe.com");
    assert_eq!(claims.company, "My own personal enterprise");
    assert_eq!(claims.exp, 1_573_603_200);
    let user = SlimUser::from(claims);
    assert_eq!(user.id, 7);
    assert_eq!(user.email, "jhon@doe.com");
    assert_eq!(user.company, "My own personal enterprise");
}
