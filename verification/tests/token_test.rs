use mystore::handlers::{header_token, judge_token, token_header, TokenFailure};
use mystore::models::price::{Price, PriceProduct};
use mystore::store::{ids_consistent, table_of, Store};

#[test]
fn a_token_is_sent_as_lower_case_hexadecimal() {
    assert_eq!(token_header(&vec![1, 2, 3, 15, 16]), b"0102030f10".to_vec());
    assert_eq!(token_header(&b"Hello world!".to_vec()), b"48656c6c6f20776f726c6421".to_vec());
    assert_eq!(token_header(&vec![0x00, 0x9a, 0xff]), b"009aff".to_vec());
    assert!(token_header(&vec![]).is_empty());
}

#[test]
fn a_header_is_read_back_in_either_case() {
    let value = b"48656c6c6f20776f726c6421".to_vec();
    assert_eq!(header_token(Some(&value)), Ok(b"Hello world!".to_vec()));
    assert_eq!(header_token(Some(&b"f9b4ca".to_vec())), Ok(vec![0xf9, 0xb4, 0xca]));
    assert_eq!(header_token(Some(&b"F9B4CA".to_vec())), Ok(vec![0xf9, 0xb4, 0xca]));
    assert_eq!(header_token(Some(&b"f9B4Ca".to_vec())), Ok(vec![0xf9, 0xb4, 0xca]));
    assert_eq!(header_token(Some(&vec![])), Ok(vec![]));
}

#[test]
fn what_is_sent_is_what_is_read() {
    let all: Vec<u8> = (0..=255).collect();
    assert_eq!(header_token(Some(&token_header(&all))), Ok(all));
}

#[test]
fn a_missing_or_unreadable_header_is_refused() {
    assert_eq!(header_token(None), Err(TokenFailure::NoToken));
    assert_eq!(header_token(Some(&b"123".to_vec())), Err(TokenFailure::Undecodable));
    assert_eq!(header_token(Some(&b"foo".to_vec())), Err(TokenFailure::Undecodable));
    assert_eq!(header_token(Some(&b"0g".to_vec())), Err(TokenFailure::Undecodable));
    assert_eq!(header_token(Some(&b" 0".to_vec())), Err(TokenFailure::Undecodable));
    assert_eq!(header_token(Some(&vec![0xc3, 0xa9])), Err(TokenFailure::Undecodable));
}

#[test]
fn the_first_failure_decides() {
    let token = || Ok(vec![1u8, 2, 3]);
    let identity = || Some("bearer".to_string());
    assert_eq!(judge_token(token(), true, identity()), Ok("bearer".to_string()));
    assert_eq!(judge_token(token(), true, None), Err(TokenFailure::NoIdentity));
    assert_eq!(judge_token(token(), false, identity()), Err(TokenFailure::NotVerified));
    assert_eq!(judge_token(token(), false, None), Err(TokenFailure::NotVerified));
    for failure in [TokenFailure::NoToken, TokenFailure::Undecodable] {
        assert_eq!(judge_token(Err(failure), true, identity()), Err(failure));
        assert_eq!(judge_token(Err(failure), false, None), Err(failure));
    }
}

#[test]
fn failures_have_a_status_and_a_message() {
    assert_eq!(TokenFailure::NoToken.status(), 400);
    assert_eq!(TokenFailure::Undecodable.status(), 400);
    assert_eq!(TokenFailure::NotVerified.status(), 401);
    assert_eq!(TokenFailure::NoIdentity.status(), 401);
    assert_eq!(TokenFailure::NoToken.message(), "No token provided");
    assert_eq!(TokenFailure::Undecodable.message(), "An Error ocurred decoding the token");
    assert_eq!(TokenFailure::NotVerified.message(), "can't verify token");
    assert_eq!(TokenFailure::NoIdentity.message(), "can't obtain token");
}

fn price(id: i32) -> Price {
    Price { id, name: "Normal".to_string(), user_id: 1 }
}

#[test]
fn a_table_of_loaded_rows_counts_on_from_the_greatest_id() {
    let table = table_of(vec![price(3), price(9), price(4)]).unwrap();
    assert_eq!(table.next_id, 10);
    assert_eq!(table.rows.len(), 3);
    assert_eq!(table.rows[1], price(9));
    assert!(ids_consistent(&table));

    let empty = table_of(Vec::<PriceProduct>::new()).unwrap();
    assert_eq!(empty.next_id, 1);
    assert_eq!(table_of(vec![price(-7)]).unwrap().next_id, 1);
    assert_eq!(table_of(vec![price(0)]).unwrap().next_id, 1);
    assert_eq!(table_of(vec![price(1)]).unwrap().next_id, 2);
    assert_eq!(table_of(vec![price(i32::MAX - 1)]).unwrap().next_id, i32::MAX);
    assert!(table_of(vec![price(1), price(i32::MAX), price(2)]).is_none());

    let twice = table_of(vec![price(3), price(3)]).unwrap();
    assert!(!ids_consistent(&twice));
    let mut store = Store::new();
    store.prices = twice;
    assert!(!store.is_consistent());
}
