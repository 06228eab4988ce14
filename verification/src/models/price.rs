//! Price tiers, and the links that say what a product costs under a tier.

use crate::errors::MyStoreError;
use crate::models::Context;
use crate::store::{
    ids_wf, push_keeps_ids, remove_keeps_ids, selection, selection_keeps_ids, update_keeps_ids, Row,
    Store, Table, TableView,
};
use vstd::prelude::*;

verus! {

/// A named price tier of one owner.
#[derive(Debug, Clone, PartialEq)]
pub struct Price {
    pub id: i32,
    pub name: String,
    pub user_id: i32,
}

/// The fields of a price tier as a caller submits them.
#[derive(Debug, Clone, PartialEq)]
pub struct FormPrice {
    pub id: Option<i32>,
    pub name: Option<String>,
    pub user_id: Option<i32>,
}

/// The price tiers of one owner.
#[derive(Debug, Clone)]
pub struct ListPrice {
    pub data: Vec<Price>,
}

/// A link: the product costs `amount` under the price tier.
#[derive(Debug, Clone, Copy, PartialEq, Eq)]
pub struct PriceProduct {
    pub id: i32,
    pub price_id: i32,
    pub product_id: i32,
    pub user_id: i32,
    pub amount: Option<i32>,
}

/// A link together with the price tier it points to.
#[derive(Debug, Clone)]
pub struct FullPriceProduct {
    pub price_product: PriceProduct,
    pub price: Price,
}

/// The fields of a link as a caller submits them.
#[derive(Debug, Clone, Copy, PartialEq, Eq)]
pub struct FormPriceProduct {
    pub id: Option<i32>,
    pub price_id: i32,
    pub product_id: Option<i32>,
    pub user_id: Option<i32>,
    pub amount: Option<i32>,
}

/// One change record: a link to keep (to insert or to update), or, where
/// `to_delete` is set and the link's id is given, a link to remove.
#[derive(Debug, Clone, Copy)]
pub struct PriceProductToUpdate {
    pub price_product: FormPriceProduct,
    pub to_delete: bool,
}

/// What a change record asks for: to keep a link, with the fields to write,
/// or to delete the link of the given id.
#[derive(Debug, Clone, Copy, PartialEq, Eq)]
pub enum Change {
    Keep(FormPriceProduct),
    Delete(i32),
}

/// The change records of one reconciliation, in the order submitted.
#[derive(Debug, Clone)]
pub struct FormPriceProductsToUpdate {
    pub data: Vec<PriceProductToUpdate>,
}

impl Row for Price {
    open spec fn row_id(&self) -> i32 {
        self.id
    }

    fn id_of(&self) -> (res: i32) {
        self.id
    }
}

impl Row for PriceProduct {
    open spec fn row_id(&self) -> i32 {
        self.id
    }

    fn id_of(&self) -> (res: i32) {
        self.id
    }
}

/// The row at `i` is the price tier `id` and belongs to `owner`.
pub open spec fn price_at(rows: Seq<Price>, i: int, owner: i32, id: i32) -> bool {
    0 <= i < rows.len() && rows[i].id == id && rows[i].user_id == owner
}

/// The price tier `id` as `owner` sees it: a tier of another owner is as
/// absent as one that does not exist.
pub open spec fn find_price(rows: Seq<Price>, owner: i32, id: i32) -> Option<Price> {
    if exists|i: int| price_at(rows, i, owner, id) {
        Some(rows[choose|i: int| price_at(rows, i, owner, id)])
    } else {
        None
    }
}

/// The price tiers of `owner`, in the table's order.
pub open spec fn owned_prices(prices: Seq<Price>, owner: i32) -> Seq<Price>
    decreases prices.len(),
{
    if prices.len() == 0 {
        prices
    } else {
        let before = owned_prices(prices.drop_last(), owner);
        if prices.last().user_id == owner {
            before.push(prices.last())
        } else {
            before
        }
    }
}

/// No two links join the same price tier to the same product.
pub open spec fn unique_keys(rows: Seq<PriceProduct>) -> bool {
    forall|i: int, j: int|
        0 <= i < j < rows.len() ==> !((#[trigger] rows[i]).price_id == (#[trigger] rows[j]).price_id
            && rows[i].product_id == rows[j].product_id)
}

/// The row at `i` is the link `id` and belongs to `owner`.
pub open spec fn link_at(rows: Seq<PriceProduct>, i: int, owner: i32, id: i32) -> bool {
    0 <= i < rows.len() && rows[i].id == id && rows[i].user_id == owner
}

/// The row at `i` links the price tier to the product.
pub open spec fn key_at(rows: Seq<PriceProduct>, i: int, price_id: i32, product_id: i32) -> bool {
    0 <= i < rows.len() && rows[i].price_id == price_id && rows[i].product_id == product_id
}

/// The table after `owner` deletes the link `id`: without that row where the
/// owner has it, and as it was where the id is absent or another owner's.
pub open spec fn delete_link(t: TableView<PriceProduct>, owner: i32, id: i32) -> TableView<
    PriceProduct,
> {
    if exists|i: int| link_at(t.rows, i, owner, id) {
        TableView { rows: t.rows.remove(choose|i: int| link_at(t.rows, i, owner, id)), ..t }
    } else {
        t
    }
}

/// The table and the written row after `owner` writes `amount` for the pair of
/// `price_id` and `product_id`. A row with that pair has its amount replaced
/// and keeps its id; where there is none, a new row gets the table's next id.
/// `None` where the pair's row belongs to another owner, or no id is left.
pub open spec fn upsert_link(
    t: TableView<PriceProduct>,
    owner: i32,
    product_id: i32,
    price_id: i32,
    amount: Option<i32>,
) -> Option<(TableView<PriceProduct>, PriceProduct)> {
    if exists|i: int| key_at(t.rows, i, price_id, product_id) {
        let i = choose|i: int| key_at(t.rows, i, price_id, product_id);
        if t.rows[i].user_id == owner {
            let row = PriceProduct { amount, ..t.rows[i] };
            Some((TableView { rows: t.rows.update(i, row), ..t }, row))
        } else {
            None
        }
    } else if t.next_id < i32::MAX {
        let row = PriceProduct { id: t.next_id, price_id, product_id, user_id: owner, amount };
        Some((TableView { rows: t.rows.push(row), next_id: (t.next_id + 1) as i32 }, row))
    } else {
        None
    }
}

/// The table after the deletions among `records`, each made in turn.
pub open spec fn apply_deletions(
    t: TableView<PriceProduct>,
    owner: i32,
    records: Seq<PriceProductToUpdate>,
) -> TableView<PriceProduct>
    decreases records.len(),
{
    if records.len() == 0 {
        t
    } else {
        let before = apply_deletions(t, owner, records.drop_last());
        let last = records.last();
        if last.is_deletion() {
            delete_link(before, owner, last.price_product.id->Some_0)
        } else {
            before
        }
    }
}

/// The table after the records to keep among `records` are written in turn for
/// the product, and the rows written, in that order. `None` as soon as one
/// write fails.
pub open spec fn apply_upserts(
    t: TableView<PriceProduct>,
    owner: i32,
    product_id: i32,
    records: Seq<PriceProductToUpdate>,
) -> Option<(TableView<PriceProduct>, Seq<PriceProduct>)>
    decreases records.len(),
{
    if records.len() == 0 {
        Some((t, Seq::<PriceProduct>::empty()))
    } else {
        match apply_upserts(t, owner, product_id, records.drop_last()) {
            None => None,
            Some((before, rows)) => {
                let last = records.last();
                if last.is_deletion() {
                    Some((before, rows))
                } else {
                    match upsert_link(
                        before,
                        owner,
                        product_id,
                        last.price_product.price_id,
                        last.price_product.amount,
                    ) {
                        None => None,
                        Some((after, row)) => Some((after, rows.push(row))),
                    }
                }
            },
        }
    }
}

/// Each link with its price tier as `owner` sees it, or `None` where one of
/// the links points to a tier that the owner does not have.
pub open spec fn attach_prices(prices: Seq<Price>, owner: i32, rows: Seq<PriceProduct>) -> Option<
    Seq<FullPriceProduct>,
> {
    if forall|i: int| 0 <= i < rows.len() ==> find_price(prices, owner, (#[trigger] rows[i]).price_id) is Some {
        Some(
            Seq::new(
                rows.len(),
                |i: int|
                    FullPriceProduct {
                        price_product: rows[i],
                        price: find_price(prices, owner, rows[i].price_id)->Some_0,
                    },
            ),
        )
    } else {
        None
    }
}

/// A whole reconciliation: the deletions, the writes, and the price tier of
/// each written row. It gives the new table and the enriched rows in the order
/// written, or `None` where a write or a lookup fails.
pub open spec fn reconcile(
    t: TableView<PriceProduct>,
    prices: Seq<Price>,
    owner: i32,
    product_id: i32,
    records: Seq<PriceProductToUpdate>,
) -> Option<(TableView<PriceProduct>, Seq<FullPriceProduct>)> {
    match apply_upserts(apply_deletions(t, owner, records), owner, product_id, records) {
        None => None,
        Some((after, rows)) => match attach_prices(prices, owner, rows) {
            None => None,
            Some(full) => Some((after, full)),
        },
    }
}

/// The link points to the price tier `price_id` or to the product
/// `product_id`, where one is given.
pub open spec fn link_refers(link: PriceProduct, price_id: Option<i32>, product_id: Option<i32>) -> bool {
    price_id == Some(link.price_id) || product_id == Some(link.product_id)
}

/// The links that are left when those of the price tier, or of the product,
/// go.
pub open spec fn links_without(
    links: Seq<PriceProduct>,
    price_id: Option<i32>,
    product_id: Option<i32>,
) -> Seq<PriceProduct>
    decreases links.len(),
{
    if links.len() == 0 {
        links
    } else {
        let before = links_without(links.drop_last(), price_id, product_id);
        if link_refers(links.last(), price_id, product_id) {
            before
        } else {
            before.push(links.last())
        }
    }
}

/// Where ids are distinct, a row that matches is the one that `find_price`
/// gives.
pub proof fn find_price_is_at(t: TableView<Price>, i: int, owner: i32, id: i32)
    requires
        ids_wf(t),
        price_at(t.rows, i, owner, id),
    ensures
        (choose|j: int| price_at(t.rows, j, owner, id)) == i,
        find_price(t.rows, owner, id) == Some(t.rows[i]),
{
    let j = choose|j: int| price_at(t.rows, j, owner, id);
    if j < i {
        assert(t.rows[j].row_id() != t.rows[i].row_id());
    } else if i < j {
        assert(t.rows[i].row_id() != t.rows[j].row_id());
    }
}

/// Where ids are distinct, deleting the link at a matching index is what
/// `delete_link` describes.
pub proof fn delete_link_is_at(t: TableView<PriceProduct>, i: int, owner: i32, id: i32)
    requires
        ids_wf(t),
        link_at(t.rows, i, owner, id),
    ensures
        delete_link(t, owner, id) == (TableView { rows: t.rows.remove(i), ..t }),
{
    let j = choose|j: int| link_at(t.rows, j, owner, id);
    if j < i {
        assert(t.rows[j].row_id() != t.rows[i].row_id());
    } else if i < j {
        assert(t.rows[i].row_id() != t.rows[j].row_id());
    }
}

/// Where no two links share a pair, a row with the pair is the one that
/// `upsert_link` writes to.
pub proof fn key_is_at(rows: Seq<PriceProduct>, i: int, price_id: i32, product_id: i32)
    requires
        unique_keys(rows),
        key_at(rows, i, price_id, product_id),
    ensures
        (choose|j: int| key_at(rows, j, price_id, product_id)) == i,
{
    let j = choose|j: int| key_at(rows, j, price_id, product_id);
    if j < i {
        assert(!(rows[j].price_id == rows[i].price_id && rows[j].product_id == rows[i].product_id));
    } else if i < j {
        assert(!(rows[i].price_id == rows[j].price_id && rows[i].product_id == rows[j].product_id));
    }
}

/// A deletion keeps the table's rules.
pub proof fn delete_link_keeps_rules(t: TableView<PriceProduct>, owner: i32, id: i32)
    requires
        ids_wf(t),
        unique_keys(t.rows),
    ensures
        ids_wf(delete_link(t, owner, id)),
        unique_keys(delete_link(t, owner, id).rows),
{
    if exists|i: int| link_at(t.rows, i, owner, id) {
        let k = choose|i: int| link_at(t.rows, i, owner, id);
        let after = t.rows.remove(k);
        assert forall|i: int| 0 <= i < after.len() implies (#[trigger] after[i]).row_id()
            < t.next_id by {
            let src = if i < k { i } else { i + 1 };
            assert(after[i] == t.rows[src]);
        }
        assert forall|i: int, j: int| 0 <= i < j < after.len() implies (#[trigger] after[i]).row_id()
            != (#[trigger] after[j]).row_id() && !(after[i].price_id == after[j].price_id
            && after[i].product_id == after[j].product_id) by {
            let si = if i < k { i } else { i + 1 };
            let sj = if j < k { j } else { j + 1 };
            assert(after[i] == t.rows[si]);
            assert(after[j] == t.rows[sj]);
            assert(t.rows[si].row_id() != t.rows[sj].row_id());
        }
    }
}

/// A write keeps the table's rules.
pub proof fn upsert_link_keeps_rules(
    t: TableView<PriceProduct>,
    owner: i32,
    product_id: i32,
    price_id: i32,
    amount: Option<i32>,
)
    requires
        ids_wf(t),
        unique_keys(t.rows),
        upsert_link(t, owner, product_id, price_id, amount) is Some,
    ensures
        ids_wf(upsert_link(t, owner, product_id, price_id, amount)->Some_0.0),
        unique_keys(upsert_link(t, owner, product_id, price_id, amount)->Some_0.0.rows),
{
    let after = upsert_link(t, owner, product_id, price_id, amount)->Some_0.0;
    if exists|i: int| key_at(t.rows, i, price_id, product_id) {
        let k = choose|i: int| key_at(t.rows, i, price_id, product_id);
        assert forall|i: int| 0 <= i < after.rows.len() implies (#[trigger] after.rows[i]).row_id()
            < after.next_id by {
            assert(after.rows[i].id == t.rows[i].row_id());
        }
        assert forall|i: int, j: int| 0 <= i < j < after.rows.len() implies (
        #[trigger] after.rows[i]).row_id() != (#[trigger] after.rows[j]).row_id() && !(
        after.rows[i].price_id == after.rows[j].price_id && after.rows[i].product_id
            == after.rows[j].product_id) by {
            assert(after.rows[i].id == t.rows[i].row_id());
            assert(after.rows[j].id == t.rows[j].row_id());
            assert(after.rows[i].price_id == t.rows[i].price_id);
            assert(after.rows[j].price_id == t.rows[j].price_id);
        }
    } else {
        let n = t.rows.len() as int;
        assert forall|i: int| 0 <= i < after.rows.len() implies (#[trigger] after.rows[i]).row_id()
            < after.next_id by {
            if i < n {
                assert(after.rows[i] == t.rows[i]);
                assert(t.rows[i].row_id() < t.next_id);
            }
        }
        assert forall|i: int, j: int| 0 <= i < j < after.rows.len() implies (
        #[trigger] after.rows[i]).row_id() != (#[trigger] after.rows[j]).row_id() && !(
        after.rows[i].price_id == after.rows[j].price_id && after.rows[i].product_id
            == after.rows[j].product_id) by {
            assert(after.rows[i] == t.rows[i]);
            assert(t.rows[i].row_id() < t.next_id);
            if j < n {
                assert(after.rows[j] == t.rows[j]);
                assert(t.rows[i].row_id() != t.rows[j].row_id());
            } else {
                assert(!key_at(t.rows, i, price_id, product_id));
            }
        }
    }
}

/// Links selected from a table in which no two share a pair: no two of them
/// share one.
pub proof fn selection_keeps_keys(part: Seq<PriceProduct>, whole: Seq<PriceProduct>, picks: Seq<int>)
    requires
        unique_keys(whole),
        selection(part, whole, picks),
    ensures
        unique_keys(part),
{
    assert forall|i: int, j: int| 0 <= i < j < part.len() implies !((#[trigger] part[i]).price_id
        == (#[trigger] part[j]).price_id && part[i].product_id == part[j].product_id) by {
        assert(part[i] == whole[picks[i]]);
        assert(part[j] == whole[picks[j]]);
        assert(picks[i] < picks[j]);
    }
}

/// A batch whose first records cannot be written cannot be written as a whole.
pub proof fn failed_prefix_fails(
    t: TableView<PriceProduct>,
    owner: i32,
    product_id: i32,
    records: Seq<PriceProductToUpdate>,
    k: int,
)
    requires
        0 <= k <= records.len(),
        apply_upserts(t, owner, product_id, records.take(k)) is None,
    ensures
        apply_upserts(t, owner, product_id, records) is None,
    decreases records.len(),
{
    if k == records.len() {
        assert(records.take(k) =~= records);
    } else {
        assert(records.drop_last().take(k) =~= records.take(k));
        failed_prefix_fails(t, owner, product_id, records.drop_last(), k);
    }
}

/// The index of the price tier `id` of `owner`, if the table has it.
pub fn price_position(table: &Table<Price>, owner: i32, id: i32) -> (res: Option<usize>)
    ensures
        match res {
            Some(i) => price_at(table@.rows, i as int, owner, id),
            None => forall|i: int| !price_at(table@.rows, i, owner, id),
        },
{
    let mut i: usize = 0;
    while i < table.rows.len()
        invariant
            i <= table.rows.len(),
            forall|k: int| 0 <= k < i ==> !price_at(table@.rows, k, owner, id),
        decreases table.rows.len() - i,
    {
        if table.rows[i].id == id && table.rows[i].user_id == owner {
            return Some(i);
        }
        i += 1;
    }
    None
}

/// The index of the link `id` of `owner`, if the table has it.
pub fn link_position(table: &Table<PriceProduct>, owner: i32, id: i32) -> (res: Option<usize>)
    ensures
        match res {
            Some(i) => link_at(table@.rows, i as int, owner, id),
            None => forall|i: int| !link_at(table@.rows, i, owner, id),
        },
{
    let mut i: usize = 0;
    while i < table.rows.len()
        invariant
            i <= table.rows.len(),
            forall|k: int| 0 <= k < i ==> !link_at(table@.rows, k, owner, id),
        decreases table.rows.len() - i,
    {
        if table.rows[i].id == id && table.rows[i].user_id == owner {
            return Some(i);
        }
        i += 1;
    }
    None
}

/// The index of the link between the price tier and the product, if the table
/// has one.
pub fn key_position(table: &Table<PriceProduct>, price_id: i32, product_id: i32) -> (res: Option<
    usize,
>)
    ensures
        match res {
            Some(i) => key_at(table@.rows, i as int, price_id, product_id),
            None => forall|i: int| !key_at(table@.rows, i, price_id, product_id),
        },
{
    let mut i: usize = 0;
    while i < table.rows.len()
        invariant
            i <= table.rows.len(),
            forall|k: int| 0 <= k < i ==> !key_at(table@.rows, k, price_id, product_id),
        decreases table.rows.len() - i,
    {
        if table.rows[i].price_id == price_id && table.rows[i].product_id == product_id {
            return Some(i);
        }
        i += 1;
    }
    None
}

/// A copy of the link table.
pub fn copy_links(table: &Table<PriceProduct>) -> (res: Table<PriceProduct>)
    ensures
        res@ == table@,
{
    let mut rows: Vec<PriceProduct> = Vec::new();
    let mut i: usize = 0;
    while i < table.rows.len()
        invariant
            i <= table.rows.len(),
            rows@ == table.rows@.take(i as int),
        decreases table.rows.len() - i,
    {
        rows.push(table.rows[i]);
        assert(table.rows@.take(i + 1) =~= table.rows@.take(i as int).push(table.rows@[i as int]));
        i += 1;
    }
    assert(table.rows@.take(i as int) =~= table.rows@);
    Table { rows, next_id: table.next_id }
}

/// Whether no two links of the table share a pair of price tier and product.
pub fn keys_consistent(table: &Table<PriceProduct>) -> (res: bool)
    ensures
        res == unique_keys(table@.rows),
{
    let n = table.rows.len();
    let mut i: usize = 0;
    while i < n
        invariant
            i <= n,
            n == table.rows.len(),
            forall|a: int, b: int|
                0 <= a < b < i ==> !((#[trigger] table@.rows[a]).price_id == (
                #[trigger] table@.rows[b]).price_id && table@.rows[a].product_id
                    == table@.rows[b].product_id),
        decreases n - i,
    {
        let link = table.rows[i];
        let mut j: usize = 0;
        while j < i
            invariant
                j <= i,
                i < n,
                n == table.rows.len(),
                link == table@.rows[i as int],
                forall|a: int|
                    0 <= a < j ==> !((#[trigger] table@.rows[a]).price_id == link.price_id
                        && table@.rows[a].product_id == link.product_id),
            decreases i - j,
        {
            if table.rows[j].price_id == link.price_id && table.rows[j].product_id
                == link.product_id {
                assert(table@.rows[j as int].price_id == table@.rows[i as int].price_id);
                return false;
            }
            j += 1;
        }
        i += 1;
    }
    true
}

/// Removes the links of the price tier, or of the product, whichever is
/// given.
pub fn drop_links(table: &mut Table<PriceProduct>, price_id: Option<i32>, product_id: Option<i32>)
    requires
        ids_wf(old(table)@),
        unique_keys(old(table)@.rows),
    ensures
        final(table)@ == (TableView {
            rows: links_without(old(table)@.rows, price_id, product_id),
            ..old(table)@
        }),
        ids_wf(final(table)@),
        unique_keys(final(table)@.rows),
{
    let mut kept: Vec<PriceProduct> = Vec::new();
    let ghost mut picks: Seq<int> = Seq::empty();
    let mut i: usize = 0;
    while i < table.rows.len()
        invariant
            i <= table.rows.len(),
            *table == *old(table),
            kept@ == links_without(table@.rows.take(i as int), price_id, product_id),
            selection(kept@, table@.rows, picks),
            forall|k: int| 0 <= k < picks.len() ==> #[trigger] picks[k] < i,
        decreases table.rows.len() - i,
    {
        let link = table.rows[i];
        proof {
            assert(table@.rows.take(i + 1).drop_last() =~= table@.rows.take(i as int));
        }
        let of_price = match price_id {
            Some(id) => id == link.price_id,
            None => false,
        };
        let of_product = match product_id {
            Some(id) => id == link.product_id,
            None => false,
        };
        if !(of_price || of_product) {
            kept.push(link);
            proof {
                picks = picks.push(i as int);
            }
        }
        i += 1;
    }
    proof {
        assert(table@.rows.take(i as int) =~= table@.rows);
        selection_keeps_ids(TableView { rows: kept@, next_id: table.next_id }, table@, picks);
        selection_keeps_keys(kept@, table@.rows, picks);
    }
    table.rows = kept;
}

impl Price {
    /// A copy of the row.
    pub fn duplicate(&self) -> (res: Price)
        ensures
            res == *self,
    {
        Price { id: self.id, name: self.name.clone(), user_id: self.user_id }
    }

    /// The caller's price tier `price_id`, or `NotFound` where the caller has
    /// none with that id.
    pub fn find(context: &Context, price_id: i32) -> (res: Result<Price, MyStoreError>)
        requires
            context.conn.wf(),
        ensures
            match find_price(context.conn.prices@.rows, context.user_id, price_id) {
                Some(price) => res is Ok && res->Ok_0 == price,
                None => res is Err && res->Err_0 is NotFound,
            },
    {
        match price_position(&context.conn.prices, context.user_id, price_id) {
            Some(i) => {
                proof {
                    find_price_is_at(context.conn.prices@, i as int, context.user_id, price_id);
                }
                Ok(context.conn.prices.rows[i].duplicate())
            },
            None => Err(MyStoreError::NotFound),
        }
    }

    /// The caller's price tiers, in the order the store holds them.
    pub fn list(context: &Context) -> (res: ListPrice)
        ensures
            res.data@ == owned_prices(context.conn.prices@.rows, context.user_id),
    {
        let prices = &context.conn.prices.rows;
        let mut data: Vec<Price> = Vec::new();
        let mut i: usize = 0;
        while i < prices.len()
            invariant
                i <= prices.len(),
                prices@ == context.conn.prices@.rows,
                data@ == owned_prices(prices@.take(i as int), context.user_id),
            decreases prices.len() - i,
        {
            proof {
                assert(prices@.take(i + 1).drop_last() =~= prices@.take(i as int));
            }
            if prices[i].user_id == context.user_id {
                data.push(prices[i].duplicate());
            }
            i += 1;
        }
        proof {
            assert(prices@.take(i as int) =~= prices@);
        }
        ListPrice { data }
    }

    /// Creates a price tier for the caller under the store's next id: the
    /// owner and the id never come from the form. `ConstraintViolation`, with
    /// the store unchanged, where the form gives no name or no id is left.
    pub fn create(context: &mut Context, form: FormPrice) -> (res: Result<Price, MyStoreError>)
        requires
            old(context).conn.wf(),
        ensures
            final(context).conn.wf(),
            final(context).user_id == old(context).user_id,
            ({
                let before = old(context).conn;
                if form.name is None || before.prices@.next_id == i32::MAX {
                    &&& res is Err
                    &&& res->Err_0 is ConstraintViolation
                    &&& *final(context) == *old(context)
                } else {
                    &&& res is Ok
                    &&& res->Ok_0 == (Price {
                        id: before.prices@.next_id,
                        name: form.name->Some_0,
                        user_id: old(context).user_id,
                    })
                    &&& final(context).conn.prices@ == (TableView {
                        rows: before.prices@.rows.push(res->Ok_0),
                        next_id: (before.prices@.next_id + 1) as i32,
                    })
                    &&& final(context).conn == (Store { prices: final(context).conn.prices, ..before })
                }
            }),
    {
        let id = context.conn.prices.next_id;
        if id == i32::MAX {
            return Err(MyStoreError::ConstraintViolation);
        }
        let name = match form.name {
            Some(name) => name,
            None => {
                return Err(MyStoreError::ConstraintViolation);
            },
        };
        let row = Price { id, name, user_id: context.user_id };
        let price = row.duplicate();
        proof {
            push_keeps_ids(context.conn.prices@, row);
        }
        context.conn.prices.rows.push(row);
        context.conn.prices.next_id = id + 1;
        Ok(price)
    }

    /// Renames the caller's price tier that the form names; a form without a
    /// name leaves the tier as it is. `MissingId` where the form names no
    /// tier, `NotFound` where the caller has none of that id; on either the
    /// store is as it was.
    pub fn update(context: &mut Context, form: FormPrice) -> (res: Result<Price, MyStoreError>)
        requires
            old(context).conn.wf(),
        ensures
            final(context).conn.wf(),
            final(context).user_id == old(context).user_id,
            ({
                let before = old(context).conn;
                let owner = old(context).user_id;
                if form.id is None {
                    &&& res is Err
                    &&& res->Err_0 is MissingId
                    &&& *final(context) == *old(context)
                } else if find_price(before.prices@.rows, owner, form.id->Some_0) is None {
                    &&& res is Err
                    &&& res->Err_0 is NotFound
                    &&& *final(context) == *old(context)
                } else {
                    let at = choose|i: int| price_at(before.prices@.rows, i, owner, form.id->Some_0);
                    &&& res is Ok
                    &&& res->Ok_0 == (Price {
                        name: if form.name is Some {
                            form.name->Some_0
                        } else {
                            before.prices@.rows[at].name
                        },
                        ..before.prices@.rows[at]
                    })
                    &&& final(context).conn.prices@ == (TableView {
                        rows: before.prices@.rows.update(at, res->Ok_0),
                        ..before.prices@
                    })
                    &&& final(context).conn == (Store { prices: final(context).conn.prices, ..before })
                }
            }),
    {
        let owner = context.user_id;
        let price_id = match form.id {
            Some(id) => id,
            None => {
                return Err(MyStoreError::MissingId);
            },
        };
        let at = match price_position(&context.conn.prices, owner, price_id) {
            Some(i) => i,
            None => {
                return Err(MyStoreError::NotFound);
            },
        };
        proof {
            find_price_is_at(context.conn.prices@, at as int, owner, price_id);
        }
        let current = &context.conn.prices.rows[at];
        let row = Price {
            id: current.id,
            name: match form.name {
                Some(name) => name,
                None => current.name.clone(),
            },
            user_id: current.user_id,
        };
        let price = row.duplicate();
        proof {
            update_keeps_ids(context.conn.prices@, at as int, row);
        }
        context.conn.prices.rows.set(at, row);
        Ok(price)
    }

    /// Removes the caller's price tier `price_id` together with the links that
    /// point to it, and answers `true`. Where the caller has no such tier
    /// nothing changes, and the answer is `true` as well.
    pub fn destroy(context: &mut Context, price_id: i32) -> (res: bool)
        requires
            old(context).conn.wf(),
        ensures
            res,
            final(context).conn.wf(),
            final(context).user_id == old(context).user_id,
            ({
                let before = old(context).conn;
                let owner = old(context).user_id;
                if find_price(before.prices@.rows, owner, price_id) is None {
                    *final(context) == *old(context)
                } else {
                    let at = choose|i: int| price_at(before.prices@.rows, i, owner, price_id);
                    &&& final(context).conn.prices@ == (TableView {
                        rows: before.prices@.rows.remove(at),
                        ..before.prices@
                    })
                    &&& final(context).conn.prices_products@ == (TableView {
                        rows: links_without(before.prices_products@.rows, Some(price_id), None),
                        ..before.prices_products@
                    })
                    &&& final(context).conn == (Store {
                        prices: final(context).conn.prices,
                        prices_products: final(context).conn.prices_products,
                        ..before
                    })
                }
            }),
    {
        let owner = context.user_id;
        let at = match price_position(&context.conn.prices, owner, price_id) {
            Some(i) => i,
            None => {
                return true;
            },
        };
        proof {
            find_price_is_at(context.conn.prices@, at as int, owner, price_id);
            remove_keeps_ids(context.conn.prices@, at as int);
        }
        context.conn.prices.rows.remove(at);
        drop_links(&mut context.conn.prices_products, Some(price_id), None);
        true
    }
}

impl PriceProduct {
    /// Deletes the link `id` where `owner` has it, and says whether a row was
    /// removed. An id that is absent or another owner's changes nothing.
    pub fn delete_owned(table: &mut Table<PriceProduct>, owner: i32, id: i32) -> (removed: bool)
        requires
            ids_wf(old(table)@),
            unique_keys(old(table)@.rows),
        ensures
            final(table)@ == delete_link(old(table)@, owner, id),
            removed == (exists|i: int| link_at(old(table)@.rows, i, owner, id)),
            ids_wf(final(table)@),
            unique_keys(final(table)@.rows),
    {
        proof {
            delete_link_keeps_rules(table@, owner, id);
        }
        match link_position(table, owner, id) {
            Some(i) => {
                proof {
                    delete_link_is_at(table@, i as int, owner, id);
                }
                table.rows.remove(i);
                true
            },
            None => false,
        }
    }

    /// Writes `amount` for the pair of `price_id` and `product_id` on behalf
    /// of `owner`, and gives the row as written; `None`, with the table
    /// unchanged, where the pair's row is another owner's or no id is left.
    pub fn upsert(
        table: &mut Table<PriceProduct>,
        owner: i32,
        product_id: i32,
        price_id: i32,
        amount: Option<i32>,
    ) -> (res: Option<PriceProduct>)
        requires
            ids_wf(old(table)@),
            unique_keys(old(table)@.rows),
        ensures
            match upsert_link(old(table)@, owner, product_id, price_id, amount) {
                Some((after, row)) => res == Some(row) && final(table)@ == after,
                None => res is None && final(table)@ == old(table)@,
            },
            ids_wf(final(table)@),
            unique_keys(final(table)@.rows),
    {
        proof {
            if upsert_link(table@, owner, product_id, price_id, amount) is Some {
                upsert_link_keeps_rules(table@, owner, product_id, price_id, amount);
            }
        }
        match key_position(table, price_id, product_id) {
            Some(i) => {
                proof {
                    key_is_at(table@.rows, i as int, price_id, product_id);
                }
                let found = table.rows[i];
                if found.user_id == owner {
                    let row = PriceProduct {
                        id: found.id,
                        price_id: found.price_id,
                        product_id: found.product_id,
                        user_id: found.user_id,
                        amount,
                    };
                    table.rows.set(i, row);
                    Some(row)
                } else {
                    None
                }
            },
            None => {
                if table.next_id < i32::MAX {
                    let row = PriceProduct {
                        id: table.next_id,
                        price_id,
                        product_id,
                        user_id: owner,
                        amount,
                    };
                    table.rows.push(row);
                    table.next_id = table.next_id + 1;
                    Some(row)
                } else {
                    None
                }
            },
        }
    }
}

impl PriceProductToUpdate {
    /// Whether the record asks for a deletion: it is flagged and names a link.
    #[verifier::when_used_as_spec(is_deletion_spec)]
    pub fn is_deletion(&self) -> (res: bool)
        ensures
            res == self.is_deletion(),
    {
        self.to_delete && self.price_product.id.is_some()
    }

    /// Whether the record asks for a deletion.
    pub open spec fn is_deletion_spec(&self) -> bool {
        self.to_delete && self.price_product.id is Some
    }

    /// What the record asks for. A record flagged for deletion that names no
    /// link is a record to keep.
    pub fn change(&self) -> (res: Change)
        ensures
            res == if self.is_deletion() {
                Change::Delete(self.price_product.id->Some_0)
            } else {
                Change::Keep(self.price_product)
            },
    {
        match self.price_product.id {
            Some(id) if self.to_delete => Change::Delete(id),
            _ => Change::Keep(self.price_product),
        }
    }

    /// Reconciles the links of the product `param_product_id` with `records`,
    /// for the caller of `context`, as one unit.
    ///
    /// First every record flagged for deletion that names a link removes that
    /// link, if the caller has it. Then every other record writes its amount
    /// for its price tier and the product: the owner and the product of a
    /// written row come from the call, never from the record. Last, every
    /// written row is joined to its price tier as the caller sees it. The rows
    /// come back in the order written. Where a write or a join fails the
    /// result is `ReconciliationError` and the store is as it was.
    pub fn batch_update(
        context: &mut Context,
        records: FormPriceProductsToUpdate,
        param_product_id: i32,
    ) -> (res: Result<Vec<FullPriceProduct>, MyStoreError>)
        requires
            old(context).conn.wf(),
        ensures
            final(context).conn.wf(),
            final(context).user_id == old(context).user_id,
            match reconcile(
                old(context).conn.prices_products@,
                old(context).conn.prices@.rows,
                old(context).user_id,
                param_product_id,
                records.data@,
            ) {
                Some((after, full)) => {
                    &&& res is Ok
                    &&& res->Ok_0@ == full
                    &&& final(context).conn.prices_products@ == after
                    &&& final(context).conn == (Store {
                        prices_products: final(context).conn.prices_products,
                        ..old(context).conn
                    })
                },
                None => {
                    &&& res is Err
                    &&& res->Err_0 is ReconciliationError
                    &&& *final(context) == *old(context)
                },
            },
    {
        let owner = context.user_id;
        let ghost start = context.conn.prices_products@;
        let ghost all = records.data@;
        let n = records.data.len();
        let mut work = copy_links(&context.conn.prices_products);
        let mut i: usize = 0;
        while i < n
            invariant
                i <= n,
                n == records.data.len(),
                all == records.data@,
                *context == *old(context),
                context.conn.wf(),
                ids_wf(work@),
                unique_keys(work@.rows),
                work@ == apply_deletions(start, owner, all.take(i as int)),
            decreases n - i,
        {
            let record = records.data[i];
            proof {
                assert(all.take(i + 1).drop_last() =~= all.take(i as int));
            }
            match record.change() {
                Change::Delete(id) => {
                    PriceProduct::delete_owned(&mut work, owner, id);
                },
                Change::Keep(_) => {},
            }
            i += 1;
        }
        proof {
            assert(all.take(n as int) =~= all);
        }
        let ghost mid = work@;
        let mut rows: Vec<PriceProduct> = Vec::new();
        i = 0;
        while i < n
            invariant
                i <= n,
                n == records.data.len(),
                all == records.data@,
                *context == *old(context),
                context.conn.wf(),
                owner == context.user_id,
                start == context.conn.prices_products@,
                mid == apply_deletions(start, owner, all),
                ids_wf(work@),
                unique_keys(work@.rows),
                apply_upserts(mid, owner, param_product_id, all.take(i as int)) == Some(
                    (work@, rows@),
                ),
            decreases n - i,
        {
            let record = records.data[i];
            proof {
                assert(all.take(i + 1).drop_last() =~= all.take(i as int));
            }
            match record.change() {
                Change::Keep(fields) => {
                    match PriceProduct::upsert(
                        &mut work,
                        owner,
                        param_product_id,
                        fields.price_id,
                        fields.amount,
                    ) {
                        Some(row) => {
                            rows.push(row);
                        },
                        None => {
                            proof {
                                failed_prefix_fails(mid, owner, param_product_id, all, i + 1);
                            }
                            return Err(MyStoreError::ReconciliationError);
                        },
                    }
                },
                Change::Delete(_) => {},
            }
            i += 1;
        }
        proof {
            assert(all.take(n as int) =~= all);
        }
        let mut full: Vec<FullPriceProduct> = Vec::new();
        let mut k: usize = 0;
        while k < rows.len()
            invariant
                k <= rows.len(),
                context.conn.wf(),
                *context == *old(context),
                owner == context.user_id,
                all == records.data@,
                start == context.conn.prices_products@,
                mid == apply_deletions(start, owner, all),
                apply_upserts(mid, owner, param_product_id, all) == Some((work@, rows@)),
                ids_wf(work@),
                unique_keys(work@.rows),
                full@.len() == k,
                forall|j: int|
                    0 <= j < k ==> find_price(
                        context.conn.prices@.rows,
                        owner,
                        (#[trigger] rows@[j]).price_id,
                    ) is Some,
                forall|j: int|
                    0 <= j < k ==> (#[trigger] full@[j]) == (FullPriceProduct {
                        price_product: rows@[j],
                        price: find_price(context.conn.prices@.rows, owner, rows@[j].price_id)->Some_0,
                    }),
            decreases rows.len() - k,
        {
            let row = rows[k];
            match price_position(&context.conn.prices, owner, row.price_id) {
                Some(at) => {
                    proof {
                        find_price_is_at(context.conn.prices@, at as int, owner, row.price_id);
                    }
                    full.push(
                        FullPriceProduct {
                            price_product: row,
                            price: context.conn.prices.rows[at].duplicate(),
                        },
                    );
                },
                None => {
                    assert(find_price(context.conn.prices@.rows, owner, rows@[k as int].price_id) is None);
                    return Err(MyStoreError::ReconciliationError);
                },
            }
            k += 1;
        }
        proof {
            assert(full@ =~= attach_prices(context.conn.prices@.rows, owner, rows@)->Some_0);
        }
        context.conn.prices_products = work;
        Ok(full)
    }
}

} // verus!
