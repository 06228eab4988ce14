//! The rows of the store and the operations on them. Every operation acts for
//! one caller, whose id scopes all that it reads and writes.

pub mod price;
pub mod price_laws;
pub mod product;
pub mod sale;
pub mod sale_product;
pub mod sale_state;
pub mod user;

use crate::store::Store;
use vstd::prelude::*;

verus! {

/// A quantity that the store keeps as the bit pattern of a double-precision
/// number. The store moves such values and never computes with them.
#[derive(Debug, Clone, Copy, PartialEq, Eq, Structural)]
pub struct Float64 {
    pub bits: u64,
}

/// A calendar date, by its year, month and day.
#[derive(Debug, Clone, Copy, PartialEq, Eq, Structural)]
pub struct SaleDate {
    pub year: i32,
    pub month: u32,
    pub day: u32,
}

/// A moment, by its seconds since the epoch and the nanoseconds within the
/// second.
#[derive(Debug, Clone, Copy, PartialEq, Eq, Structural)]
pub struct Timestamp {
    pub secs: i64,
    pub nanos: u32,
}

/// A copy of an optional text.
pub fn copy_text(text: &Option<String>) -> (res: Option<String>)
    ensures
        res == *text,
{
    match text {
        Some(t) => Some(t.clone()),
        None => None,
    }
}

/// What an operation acts with: the caller's id and the store.
#[derive(Debug)]
pub struct Context {
    pub user_id: i32,
    pub conn: Store,
}

/// The context of a caller who has logged in.
pub fn create_context(logged_user_id: i32, pg_pool: Store) -> (res: Context)
    ensures
        res.user_id == logged_user_id,
        res.conn == pg_pool,
{
    Context { user_id: logged_user_id, conn: pg_pool }
}

} // verus!
