//! The relational store that every operation works on: one table per kind of
//! row, each with the counter from which it allots ids.

use crate::models::price::{keys_consistent, unique_keys, Price, PriceProduct};
use crate::models::product::Product;
use crate::models::sale::Sale;
use crate::models::sale_product::SaleProduct;
use crate::models::user::User;
use vstd::prelude::*;

verus! {

/// A table: its rows in the order in which they were inserted, and the id that
/// the next inserted row will get.
#[derive(Debug)]
pub struct Table<R> {
    pub rows: Vec<R>,
    pub next_id: i32,
}

/// What a table holds, as a mathematical value.
pub struct TableView<R> {
    pub rows: Seq<R>,
    pub next_id: i32,
}

impl<R> View for Table<R> {
    type V = TableView<R>;

    open spec fn view(&self) -> TableView<R> {
        TableView { rows: self.rows@, next_id: self.next_id }
    }
}

/// A row of a table: it has an id.
pub trait Row {
    /// The row's id.
    spec fn row_id(&self) -> i32;

    /// The row's id.
    fn id_of(&self) -> (res: i32)
        ensures
            res == self.row_id(),
    ;
}

/// The whole store.
#[derive(Debug)]
pub struct Store {
    pub users: Table<User>,
    pub prices: Table<Price>,
    pub products: Table<Product>,
    pub prices_products: Table<PriceProduct>,
    pub sales: Table<Sale>,
    pub sale_products: Table<SaleProduct>,
}

/// The rule of every table: the ids of its rows are distinct and lie below the
/// counter, so that the id allotted next is new.
pub open spec fn ids_wf<R: Row>(t: TableView<R>) -> bool {
    &&& forall|i: int| 0 <= i < t.rows.len() ==> (#[trigger] t.rows[i]).row_id() < t.next_id
    &&& forall|i: int, j: int|
        0 <= i < j < t.rows.len() ==> (#[trigger] t.rows[i]).row_id() != (
        #[trigger] t.rows[j]).row_id()
}

/// `part` is made of rows of `whole`, in the order they have there: its row
/// `k` is the row `picks[k]` of `whole`.
pub open spec fn selection<R>(part: Seq<R>, whole: Seq<R>, picks: Seq<int>) -> bool {
    &&& part.len() == picks.len()
    &&& forall|k: int|
        0 <= k < picks.len() ==> 0 <= #[trigger] picks[k] < whole.len() && part[k]
            == whole[picks[k]]
    &&& forall|a: int, b: int|
        0 <= a < b < picks.len() ==> (#[trigger] picks[a]) < (#[trigger] picks[b])
}

/// The counter of a table that holds the rows: one above the greatest id, and
/// 1 where there is no row or no positive id.
pub open spec fn counter_for<R: Row>(rows: Seq<R>) -> int
    decreases rows.len(),
{
    if rows.len() == 0 {
        1
    } else {
        let before = counter_for(rows.drop_last());
        if rows.last().row_id() >= before {
            rows.last().row_id() + 1
        } else {
            before
        }
    }
}

/// Rows selected from a table that keeps the rule on ids keep it.
pub proof fn selection_keeps_ids<R: Row>(part: TableView<R>, whole: TableView<R>, picks: Seq<int>)
    requires
        ids_wf(whole),
        selection(part.rows, whole.rows, picks),
        part.next_id == whole.next_id,
    ensures
        ids_wf(part),
{
    assert forall|i: int| 0 <= i < part.rows.len() implies (#[trigger] part.rows[i]).row_id()
        < part.next_id by {
        assert(part.rows[i] == whole.rows[picks[i]]);
    }
    assert forall|i: int, j: int| 0 <= i < j < part.rows.len() implies (
    #[trigger] part.rows[i]).row_id() != (#[trigger] part.rows[j]).row_id() by {
        assert(part.rows[i] == whole.rows[picks[i]]);
        assert(part.rows[j] == whole.rows[picks[j]]);
        assert(picks[i] < picks[j]);
    }
}

/// Taking a row out keeps the rule on ids.
pub proof fn remove_keeps_ids<R: Row>(t: TableView<R>, k: int)
    requires
        ids_wf(t),
        0 <= k < t.rows.len(),
    ensures
        ids_wf(TableView { rows: t.rows.remove(k), ..t }),
{
    let after = t.rows.remove(k);
    assert forall|i: int| 0 <= i < after.len() implies (#[trigger] after[i]).row_id()
        < t.next_id by {
        let src = if i < k { i } else { i + 1 };
        assert(after[i] == t.rows[src]);
    }
    assert forall|i: int, j: int| 0 <= i < j < after.len() implies (#[trigger] after[i]).row_id()
        != (#[trigger] after[j]).row_id() by {
        let si = if i < k { i } else { i + 1 };
        let sj = if j < k { j } else { j + 1 };
        assert(after[i] == t.rows[si]);
        assert(after[j] == t.rows[sj]);
        assert(t.rows[si].row_id() != t.rows[sj].row_id());
    }
}

/// Adding a row under the table's next id keeps the rule on ids.
pub proof fn push_keeps_ids<R: Row>(t: TableView<R>, row: R)
    requires
        ids_wf(t),
        row.row_id() == t.next_id,
        t.next_id < i32::MAX,
    ensures
        ids_wf(TableView { rows: t.rows.push(row), next_id: (t.next_id + 1) as i32 }),
{
    let after = t.rows.push(row);
    assert forall|i: int| 0 <= i < after.len() implies (#[trigger] after[i]).row_id() < t.next_id
        + 1 by {
        if i < t.rows.len() {
            assert(after[i] == t.rows[i]);
            assert(t.rows[i].row_id() < t.next_id);
        }
    }
    assert forall|i: int, j: int| 0 <= i < j < after.len() implies (#[trigger] after[i]).row_id()
        != (#[trigger] after[j]).row_id() by {
        assert(after[i] == t.rows[i]);
        assert(t.rows[i].row_id() < t.next_id);
        if j < t.rows.len() {
            assert(after[j] == t.rows[j]);
            assert(t.rows[i].row_id() != t.rows[j].row_id());
        }
    }
}

/// Replacing a row by one with the same id keeps the rule on ids.
pub proof fn update_keeps_ids<R: Row>(t: TableView<R>, k: int, row: R)
    requires
        ids_wf(t),
        0 <= k < t.rows.len(),
        row.row_id() == t.rows[k].row_id(),
    ensures
        ids_wf(TableView { rows: t.rows.update(k, row), ..t }),
{
    let after = t.rows.update(k, row);
    assert forall|i: int| 0 <= i < after.len() implies (#[trigger] after[i]).row_id()
        < t.next_id by {
        assert(after[i].row_id() == t.rows[i].row_id());
    }
    assert forall|i: int, j: int| 0 <= i < j < after.len() implies (#[trigger] after[i]).row_id()
        != (#[trigger] after[j]).row_id() by {
        assert(after[i].row_id() == t.rows[i].row_id());
        assert(after[j].row_id() == t.rows[j].row_id());
    }
}

/// The counter lies above every id.
pub proof fn counter_is_above<R: Row>(rows: Seq<R>)
    ensures
        counter_for(rows) >= 1,
        forall|i: int| 0 <= i < rows.len() ==> (#[trigger] rows[i]).row_id() < counter_for(rows),
    decreases rows.len(),
{
    if rows.len() > 0 {
        counter_is_above(rows.drop_last());
        assert forall|i: int| 0 <= i < rows.len() implies (#[trigger] rows[i]).row_id()
            < counter_for(rows) by {
            if i < rows.len() - 1 {
                assert(rows.drop_last()[i] == rows[i]);
            }
        }
    }
}

/// The counter for the first rows is at most the counter for all of them.
pub proof fn counter_grows<R: Row>(rows: Seq<R>, k: int)
    requires
        0 <= k <= rows.len(),
    ensures
        counter_for(rows.take(k)) <= counter_for(rows),
    decreases rows.len(),
{
    if k == rows.len() {
        assert(rows.take(k) =~= rows);
    } else {
        assert(rows.drop_last().take(k) =~= rows.take(k));
        counter_grows(rows.drop_last(), k);
    }
}

impl<R> Table<R> {
    /// An empty table whose first row will get the id 1.
    pub fn new() -> (res: Self)
        ensures
            res@.rows.len() == 0,
            res@.next_id == 1,
    {
        Table { rows: Vec::new(), next_id: 1 }
    }
}

/// Whether a table keeps the rule on ids.
pub fn ids_consistent<R: Row>(table: &Table<R>) -> (res: bool)
    ensures
        res == ids_wf(table@),
{
    let n = table.rows.len();
    let mut i: usize = 0;
    while i < n
        invariant
            i <= n,
            n == table.rows.len(),
            forall|a: int| 0 <= a < i ==> (#[trigger] table@.rows[a]).row_id() < table@.next_id,
            forall|a: int, b: int|
                0 <= a < b < i ==> (#[trigger] table@.rows[a]).row_id() != (
                #[trigger] table@.rows[b]).row_id(),
        decreases n - i,
    {
        let id = table.rows[i].id_of();
        if id >= table.next_id {
            assert(!(table@.rows[i as int].row_id() < table@.next_id));
            return false;
        }
        let mut j: usize = 0;
        while j < i
            invariant
                j <= i,
                i < n,
                n == table.rows.len(),
                id == table@.rows[i as int].row_id(),
                forall|a: int| 0 <= a < j ==> (#[trigger] table@.rows[a]).row_id() != id,
            decreases i - j,
        {
            if table.rows[j].id_of() == id {
                assert(table@.rows[j as int].row_id() == table@.rows[i as int].row_id());
                return false;
            }
            j += 1;
        }
        i += 1;
    }
    true
}

/// A table of rows that come from elsewhere, with the counter set above their
/// ids. `None` where a row has the greatest id there is, so that no counter
/// fits.
pub fn table_of<R: Row>(rows: Vec<R>) -> (res: Option<Table<R>>)
    ensures
        match res {
            Some(table) => {
                &&& table@.rows == rows@
                &&& table@.next_id == counter_for(rows@)
                &&& forall|i: int|
                    0 <= i < rows@.len() ==> (#[trigger] rows@[i]).row_id() < table@.next_id
            },
            None => counter_for(rows@) > i32::MAX,
        },
{
    proof {
        counter_is_above(rows@);
    }
    let mut next: i32 = 1;
    let mut i: usize = 0;
    while i < rows.len()
        invariant
            i <= rows.len(),
            next == counter_for(rows@.take(i as int)),
        decreases rows.len() - i,
    {
        proof {
            assert(rows@.take(i + 1).drop_last() =~= rows@.take(i as int));
        }
        let id = rows[i].id_of();
        if id >= next {
            if id == i32::MAX {
                proof {
                    counter_grows(rows@, i + 1);
                }
                return None;
            }
            next = id + 1;
        }
        i += 1;
    }
    proof {
        assert(rows@.take(i as int) =~= rows@);
    }
    Some(Table { rows, next_id: next })
}

impl Store {
    /// The store's invariant: in every table the ids are distinct and below the
    /// table's counter, and no two price links share a price and a product.
    pub open spec fn wf(&self) -> bool {
        &&& ids_wf(self.users@)
        &&& ids_wf(self.prices@)
        &&& ids_wf(self.products@)
        &&& ids_wf(self.prices_products@)
        &&& unique_keys(self.prices_products@.rows)
        &&& ids_wf(self.sales@)
        &&& ids_wf(self.sale_products@)
    }

    /// A store with no rows.
    pub fn new() -> (res: Self)
        ensures
            res.wf(),
            res.users@.rows.len() == 0,
            res.prices@.rows.len() == 0,
            res.products@.rows.len() == 0,
            res.prices_products@.rows.len() == 0,
            res.sales@.rows.len() == 0,
            res.sale_products@.rows.len() == 0,
            res.users@.next_id == 1,
            res.prices@.next_id == 1,
            res.products@.next_id == 1,
            res.prices_products@.next_id == 1,
            res.sales@.next_id == 1,
            res.sale_products@.next_id == 1,
    {
        Store {
            users: Table::new(),
            prices: Table::new(),
            products: Table::new(),
            prices_products: Table::new(),
            sales: Table::new(),
            sale_products: Table::new(),
        }
    }

    /// Whether the store keeps its invariant. Rows that were not written by
    /// the store's own operations are to be checked before they are used.
    pub fn is_consistent(&self) -> (res: bool)
        ensures
            res == self.wf(),
    {
        ids_consistent(&self.users) && ids_consistent(&self.prices) && ids_consistent(
            &self.products,
        ) && ids_consistent(&self.prices_products) && keys_consistent(&self.prices_products)
            && ids_consistent(&self.sales) && ids_consistent(&self.sale_products)
    }
}

} // verus!
