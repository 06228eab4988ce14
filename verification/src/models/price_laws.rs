//! What holds of the reconciliation of price links whatever the table and the
//! records: the table's rules are kept, and a second run of the same records
//! repeats the first.

use crate::models::price::{
    apply_deletions, apply_upserts, attach_prices, delete_link, delete_link_keeps_rules,
    failed_prefix_fails, find_price, key_at, key_is_at, link_at, reconcile, unique_keys,
    upsert_link, upsert_link_keeps_rules, Price, PriceProduct, PriceProductToUpdate,
};
use crate::store::{ids_wf, TableView};
use vstd::prelude::*;

verus! {

/// Two rows are the same link: they differ at most in the amount.
pub open spec fn same_link(a: PriceProduct, b: PriceProduct) -> bool {
    a.id == b.id && a.price_id == b.price_id && a.product_id == b.product_id && a.user_id
        == b.user_id
}

/// The owner has the link `id`.
pub open spec fn has_link(rows: Seq<PriceProduct>, owner: i32, id: i32) -> bool {
    exists|i: int| link_at(rows, i, owner, id)
}

/// The links that belong to anyone but `owner`, in the table's order.
pub open spec fn links_of_others(rows: Seq<PriceProduct>, owner: i32) -> Seq<PriceProduct>
    decreases rows.len(),
{
    if rows.len() == 0 {
        rows
    } else {
        let before = links_of_others(rows.drop_last(), owner);
        if rows.last().user_id != owner {
            before.push(rows.last())
        } else {
            before
        }
    }
}

/// How the table of a second run, part of the way through, stands to the
/// table of the first run at the same point and to the table the first run
/// ended with: it has the final table's rows, each with the amount it had at
/// this point of the first run or with its final amount.
pub open spec fn rerun_inv(
    early: TableView<PriceProduct>,
    again: TableView<PriceProduct>,
    fin: TableView<PriceProduct>,
) -> bool {
    &&& again.next_id == fin.next_id
    &&& again.rows.len() == fin.rows.len()
    &&& early.rows.len() <= fin.rows.len()
    &&& forall|i: int|
        0 <= i < fin.rows.len() ==> same_link(#[trigger] again.rows[i], fin.rows[i])
    &&& forall|i: int|
        0 <= i < early.rows.len() ==> (#[trigger] again.rows[i]).amount == early.rows[i].amount
            || again.rows[i].amount == fin.rows[i].amount
    &&& forall|i: int|
        early.rows.len() <= i < fin.rows.len() ==> #[trigger] again.rows[i] == fin.rows[i]
}

/// The deletions of a batch keep the table's rules.
pub proof fn deletions_keep_rules(
    t: TableView<PriceProduct>,
    owner: i32,
    records: Seq<PriceProductToUpdate>,
)
    requires
        ids_wf(t),
        unique_keys(t.rows),
    ensures
        ids_wf(apply_deletions(t, owner, records)),
        unique_keys(apply_deletions(t, owner, records).rows),
    decreases records.len(),
{
    if records.len() > 0 {
        deletions_keep_rules(t, owner, records.drop_last());
        let before = apply_deletions(t, owner, records.drop_last());
        if records.last().is_deletion() {
            delete_link_keeps_rules(before, owner, records.last().price_product.id->Some_0);
        }
    }
}

/// The writes of a batch keep the table's rules.
pub proof fn upserts_keep_rules(
    t: TableView<PriceProduct>,
    owner: i32,
    product_id: i32,
    records: Seq<PriceProductToUpdate>,
)
    requires
        ids_wf(t),
        unique_keys(t.rows),
        apply_upserts(t, owner, product_id, records) is Some,
    ensures
        ids_wf(apply_upserts(t, owner, product_id, records)->Some_0.0),
        unique_keys(apply_upserts(t, owner, product_id, records)->Some_0.0.rows),
    decreases records.len(),
{
    if records.len() > 0 {
        upserts_keep_rules(t, owner, product_id, records.drop_last());
        let before = apply_upserts(t, owner, product_id, records.drop_last())->Some_0.0;
        let last = records.last();
        if !last.is_deletion() {
            upsert_link_keeps_rules(
                before,
                owner,
                product_id,
                last.price_product.price_id,
                last.price_product.amount,
            );
        }
    }
}

/// Reconciliation never leaves two links for one pair of price tier and
/// product, and never two rows with one id.
pub proof fn reconcile_keeps_rules(
    t: TableView<PriceProduct>,
    prices: Seq<Price>,
    owner: i32,
    product_id: i32,
    records: Seq<PriceProductToUpdate>,
)
    requires
        ids_wf(t),
        unique_keys(t.rows),
        reconcile(t, prices, owner, product_id, records) is Some,
    ensures
        ids_wf(reconcile(t, prices, owner, product_id, records)->Some_0.0),
        unique_keys(reconcile(t, prices, owner, product_id, records)->Some_0.0.rows),
{
    deletions_keep_rules(t, owner, records);
    upserts_keep_rules(apply_deletions(t, owner, records), owner, product_id, records);
}

/// Taking out a link of `owner` leaves the links of the others as they are.
pub proof fn others_after_remove(rows: Seq<PriceProduct>, owner: i32, k: int)
    requires
        0 <= k < rows.len(),
        rows[k].user_id == owner,
    ensures
        links_of_others(rows.remove(k), owner) == links_of_others(rows, owner),
    decreases rows.len(),
{
    if k == rows.len() - 1 {
        assert(rows.remove(k) =~= rows.drop_last());
    } else {
        let after = rows.remove(k);
        assert(after.drop_last() =~= rows.drop_last().remove(k));
        assert(after.last() == rows.last());
        others_after_remove(rows.drop_last(), owner, k);
    }
}

/// Replacing a link of `owner` by a link of `owner` leaves the links of the
/// others as they are.
pub proof fn others_after_update(rows: Seq<PriceProduct>, owner: i32, k: int, row: PriceProduct)
    requires
        0 <= k < rows.len(),
        rows[k].user_id == owner,
        row.user_id == owner,
    ensures
        links_of_others(rows.update(k, row), owner) == links_of_others(rows, owner),
    decreases rows.len(),
{
    let after = rows.update(k, row);
    if k == rows.len() - 1 {
        assert(after.drop_last() =~= rows.drop_last());
    } else {
        assert(after.drop_last() =~= rows.drop_last().update(k, row));
        assert(after.last() == rows.last());
        others_after_update(rows.drop_last(), owner, k, row);
    }
}

/// The deletions of a batch leave the links of the others as they are.
pub proof fn deletions_leave_others(
    t: TableView<PriceProduct>,
    owner: i32,
    records: Seq<PriceProductToUpdate>,
)
    ensures
        links_of_others(apply_deletions(t, owner, records).rows, owner) == links_of_others(
            t.rows,
            owner,
        ),
    decreases records.len(),
{
    if records.len() > 0 {
        deletions_leave_others(t, owner, records.drop_last());
        let before = apply_deletions(t, owner, records.drop_last());
        let last = records.last();
        if last.is_deletion() {
            let id = last.price_product.id->Some_0;
            if exists|i: int| link_at(before.rows, i, owner, id) {
                let k = choose|i: int| link_at(before.rows, i, owner, id);
                others_after_remove(before.rows, owner, k);
            }
        }
    }
}

/// The writes of a batch leave the links of the others as they are.
pub proof fn upserts_leave_others(
    t: TableView<PriceProduct>,
    owner: i32,
    product_id: i32,
    records: Seq<PriceProductToUpdate>,
)
    requires
        apply_upserts(t, owner, product_id, records) is Some,
    ensures
        links_of_others(apply_upserts(t, owner, product_id, records)->Some_0.0.rows, owner)
            == links_of_others(t.rows, owner),
    decreases records.len(),
{
    if records.len() > 0 {
        upserts_leave_others(t, owner, product_id, records.drop_last());
        let before = apply_upserts(t, owner, product_id, records.drop_last())->Some_0.0;
        let last = records.last();
        if !last.is_deletion() {
            let price_id = last.price_product.price_id;
            let amount = last.price_product.amount;
            if exists|i: int| key_at(before.rows, i, price_id, product_id) {
                let k = choose|i: int| key_at(before.rows, i, price_id, product_id);
                others_after_update(
                    before.rows,
                    owner,
                    k,
                    PriceProduct { amount, ..before.rows[k] },
                );
            } else {
                let row = PriceProduct {
                    id: before.next_id,
                    price_id,
                    product_id,
                    user_id: owner,
                    amount,
                };
                assert(before.rows.push(row).drop_last() =~= before.rows);
            }
        }
    }
}

/// Every row that the writes of a batch give back is the caller's and the
/// product's.
pub proof fn written_rows_are_owned(
    t: TableView<PriceProduct>,
    owner: i32,
    product_id: i32,
    records: Seq<PriceProductToUpdate>,
)
    requires
        apply_upserts(t, owner, product_id, records) is Some,
    ensures
        forall|k: int|
            0 <= k < apply_upserts(t, owner, product_id, records)->Some_0.1.len() ==> {
                let row = #[trigger] apply_upserts(t, owner, product_id, records)->Some_0.1[k];
                row.user_id == owner && row.product_id == product_id
            },
    decreases records.len(),
{
    if records.len() > 0 {
        written_rows_are_owned(t, owner, product_id, records.drop_last());
        let rows_before = apply_upserts(t, owner, product_id, records.drop_last())->Some_0.1;
        let rows = apply_upserts(t, owner, product_id, records)->Some_0.1;
        assert forall|k: int| 0 <= k < rows.len() implies (#[trigger] rows[k]).user_id == owner
            && rows[k].product_id == product_id by {
            if k < rows_before.len() {
                assert(rows[k] == rows_before[k]);
            }
        }
    }
}

/// Reconciliation is scoped to its caller: whatever the records say, the
/// links of every other owner are after it what they were before it, and
/// every link it gives back is the caller's and the product's.
pub proof fn reconcile_is_scoped_to_owner(
    t: TableView<PriceProduct>,
    prices: Seq<Price>,
    owner: i32,
    product_id: i32,
    records: Seq<PriceProductToUpdate>,
)
    requires
        reconcile(t, prices, owner, product_id, records) is Some,
    ensures
        links_of_others(reconcile(t, prices, owner, product_id, records)->Some_0.0.rows, owner)
            == links_of_others(t.rows, owner),
        forall|k: int|
            0 <= k < reconcile(t, prices, owner, product_id, records)->Some_0.1.len() ==> {
                let full = #[trigger] reconcile(t, prices, owner, product_id, records)->Some_0.1[k];
                &&& full.price_product.user_id == owner
                &&& full.price_product.product_id == product_id
                &&& full.price.user_id == owner
                &&& full.price.id == full.price_product.price_id
            },
{
    let mid = apply_deletions(t, owner, records);
    deletions_leave_others(t, owner, records);
    upserts_leave_others(mid, owner, product_id, records);
    let rows = apply_upserts(mid, owner, product_id, records)->Some_0.1;
    written_rows_are_owned(mid, owner, product_id, records);
    let full = attach_prices(prices, owner, rows)->Some_0;
    assert forall|k: int| 0 <= k < full.len() implies {
        &&& (#[trigger] full[k]).price_product.user_id == owner
        &&& full[k].price_product.product_id == product_id
        &&& full[k].price.user_id == owner
        &&& full[k].price.id == full[k].price_product.price_id
    } by {
        assert(rows[k].user_id == owner);
        assert(find_price(prices, owner, rows[k].price_id) is Some);
    }
}

/// A batch that can be written can be written up to any of its records.
pub proof fn prefix_succeeds(
    t: TableView<PriceProduct>,
    owner: i32,
    product_id: i32,
    records: Seq<PriceProductToUpdate>,
    k: int,
)
    requires
        0 <= k <= records.len(),
        apply_upserts(t, owner, product_id, records) is Some,
    ensures
        apply_upserts(t, owner, product_id, records.take(k)) is Some,
{
    if apply_upserts(t, owner, product_id, records.take(k)) is None {
        failed_prefix_fails(t, owner, product_id, records, k);
    }
}

/// What one write does: it gives the index of the written row. Every other
/// row is as before; the written row either replaces the row of the same link
/// or is new and last.
pub proof fn upsert_step(
    t: TableView<PriceProduct>,
    owner: i32,
    product_id: i32,
    price_id: i32,
    amount: Option<i32>,
) -> (at: int)
    requires
        unique_keys(t.rows),
        upsert_link(t, owner, product_id, price_id, amount) is Some,
    ensures
        ({
            let (after, row) = upsert_link(t, owner, product_id, price_id, amount)->Some_0;
            &&& 0 <= at <= t.rows.len()
            &&& at < after.rows.len()
            &&& after.rows.len() == if at < t.rows.len() {
                t.rows.len()
            } else {
                t.rows.len() + 1
            }
            &&& after.rows[at] == row
            &&& row.price_id == price_id
            &&& row.product_id == product_id
            &&& row.user_id == owner
            &&& row.amount == amount
            &&& at < t.rows.len() ==> same_link(t.rows[at], row)
            &&& forall|i: int| 0 <= i < t.rows.len() && i != at ==> after.rows[i] == t.rows[i]
        }),
{
    if exists|i: int| key_at(t.rows, i, price_id, product_id) {
        choose|i: int| key_at(t.rows, i, price_id, product_id)
    } else {
        t.rows.len() as int
    }
}

/// Through the writes of a batch every row stays where it is and stays the
/// same link: only amounts change and new rows are added at the end.
pub proof fn upserts_keep_links(
    t: TableView<PriceProduct>,
    owner: i32,
    product_id: i32,
    records: Seq<PriceProductToUpdate>,
    k: int,
)
    requires
        ids_wf(t),
        unique_keys(t.rows),
        0 <= k <= records.len(),
        apply_upserts(t, owner, product_id, records) is Some,
    ensures
        apply_upserts(t, owner, product_id, records.take(k)) is Some,
        ({
            let early = apply_upserts(t, owner, product_id, records.take(k))->Some_0.0;
            let late = apply_upserts(t, owner, product_id, records)->Some_0.0;
            &&& early.rows.len() <= late.rows.len()
            &&& early.next_id <= late.next_id
            &&& forall|i: int|
                0 <= i < early.rows.len() ==> same_link(#[trigger] early.rows[i], late.rows[i])
        }),
    decreases records.len(),
{
    if k == records.len() {
        assert(records.take(k) =~= records);
    } else {
        let init = records.drop_last();
        assert(init.take(k) =~= records.take(k));
        upserts_keep_links(t, owner, product_id, init, k);
        upserts_keep_rules(t, owner, product_id, init);
        let early = apply_upserts(t, owner, product_id, records.take(k))->Some_0.0;
        let before = apply_upserts(t, owner, product_id, init)->Some_0.0;
        let late = apply_upserts(t, owner, product_id, records)->Some_0.0;
        let last = records.last();
        if !last.is_deletion() {
            let at = upsert_step(
                before,
                owner,
                product_id,
                last.price_product.price_id,
                last.price_product.amount,
            );
            assert forall|i: int| 0 <= i < early.rows.len() implies same_link(
                #[trigger] early.rows[i],
                late.rows[i],
            ) by {
                assert(same_link(early.rows[i], before.rows[i]));
            }
        }
    }
}

/// Writing the first `k` records again, on the table that the whole batch
/// left, gives the rows that they gave the first time.
pub proof fn rerun_prefix(
    t: TableView<PriceProduct>,
    owner: i32,
    product_id: i32,
    records: Seq<PriceProductToUpdate>,
    k: int,
)
    requires
        ids_wf(t),
        unique_keys(t.rows),
        0 <= k <= records.len(),
        apply_upserts(t, owner, product_id, records) is Some,
    ensures
        ({
            let fin = apply_upserts(t, owner, product_id, records)->Some_0.0;
            let first = apply_upserts(t, owner, product_id, records.take(k));
            let second = apply_upserts(fin, owner, product_id, records.take(k));
            &&& first is Some
            &&& second is Some
            &&& second->Some_0.1 == first->Some_0.1
            &&& rerun_inv(first->Some_0.0, second->Some_0.0, fin)
        }),
    decreases k,
{
    let fin = apply_upserts(t, owner, product_id, records)->Some_0.0;
    upserts_keep_links(t, owner, product_id, records, k);
    upserts_keep_rules(t, owner, product_id, records);
    if k == 0 {
        assert(records.take(0).len() == 0);
    } else {
        rerun_prefix(t, owner, product_id, records, k - 1);
        let pre = records.take(k);
        assert(pre.drop_last() =~= records.take(k - 1));
        assert(pre.last() == records[k - 1]);
        prefix_succeeds(t, owner, product_id, records, k - 1);
        upserts_keep_rules(t, owner, product_id, records.take(k - 1));
        let early = apply_upserts(t, owner, product_id, records.take(k - 1))->Some_0.0;
        let again = apply_upserts(fin, owner, product_id, records.take(k - 1))->Some_0.0;
        let record = records[k - 1];
        if !record.is_deletion() {
            let price_id = record.price_product.price_id;
            let amount = record.price_product.amount;
            let at = upsert_step(early, owner, product_id, price_id, amount);
            let (next, row) = upsert_link(early, owner, product_id, price_id, amount)->Some_0;
            assert(apply_upserts(t, owner, product_id, pre)->Some_0.0 == next);
            assert(same_link(next.rows[at], fin.rows[at]));
            assert(same_link(again.rows[at], fin.rows[at]));
            assert(key_at(again.rows, at, price_id, product_id));
            assert forall|i: int, j: int| 0 <= i < j < again.rows.len() implies !((
            #[trigger] again.rows[i]).price_id == (#[trigger] again.rows[j]).price_id
                && again.rows[i].product_id == again.rows[j].product_id) by {
                assert(same_link(again.rows[i], fin.rows[i]));
                assert(same_link(again.rows[j], fin.rows[j]));
                assert(!(fin.rows[i].price_id == fin.rows[j].price_id && fin.rows[i].product_id
                    == fin.rows[j].product_id));
            }
            key_is_at(again.rows, at, price_id, product_id);
            let (renext, rerow) = upsert_link(again, owner, product_id, price_id, amount)->Some_0;
            assert(rerow == row);
            assert(renext.rows == again.rows.update(at, rerow));
            assert forall|i: int| 0 <= i < fin.rows.len() implies same_link(
                #[trigger] renext.rows[i],
                fin.rows[i],
            ) by {
                assert(same_link(again.rows[i], fin.rows[i]));
            }
            assert forall|i: int| 0 <= i < next.rows.len() implies (
            #[trigger] renext.rows[i]).amount == next.rows[i].amount || renext.rows[i].amount
                == fin.rows[i].amount by {
                if i != at {
                    assert(again.rows[i].amount == early.rows[i].amount || again.rows[i].amount
                        == fin.rows[i].amount);
                }
            }
            assert forall|i: int| next.rows.len() <= i < fin.rows.len() implies (
            #[trigger] renext.rows[i]) == fin.rows[i] by {
                assert(again.rows[i] == fin.rows[i]);
            }
        }
    }
}

/// Deletions that name no row of the table leave it as it is.
pub proof fn deletions_without_match(
    t: TableView<PriceProduct>,
    owner: i32,
    records: Seq<PriceProductToUpdate>,
)
    requires
        forall|k: int|
            0 <= k < records.len() && (#[trigger] records[k]).is_deletion() ==> !has_link(
                t.rows,
                owner,
                records[k].price_product.id->Some_0,
            ),
    ensures
        apply_deletions(t, owner, records) == t,
    decreases records.len(),
{
    if records.len() > 0 {
        let init = records.drop_last();
        assert forall|k: int|
            0 <= k < init.len() && (#[trigger] init[k]).is_deletion() implies !has_link(
            t.rows,
            owner,
            init[k].price_product.id->Some_0,
        ) by {
            assert(init[k] == records[k]);
        }
        deletions_without_match(t, owner, init);
        let last = records.last();
        assert(last == records[records.len() - 1]);
        if last.is_deletion() {
            assert(delete_link(t, owner, last.price_product.id->Some_0) == t);
        }
    }
}

/// Reconciling the same records a second time is idempotent: where the first
/// run succeeds, a second run on the table it left leaves that table as it is
/// and gives the same enriched rows.
///
/// The one case set aside is a record that asks to delete a link which the
/// first run itself created: a second run would remove it and create it anew
/// under another id.
pub proof fn reconcile_is_idempotent(
    t: TableView<PriceProduct>,
    prices: Seq<Price>,
    owner: i32,
    product_id: i32,
    records: Seq<PriceProductToUpdate>,
)
    requires
        ids_wf(t),
        unique_keys(t.rows),
        reconcile(t, prices, owner, product_id, records) is Some,
        forall|k: int|
            0 <= k < records.len() && (#[trigger] records[k]).is_deletion() ==> !has_link(
                reconcile(t, prices, owner, product_id, records)->Some_0.0.rows,
                owner,
                records[k].price_product.id->Some_0,
            ),
    ensures
        reconcile(
            reconcile(t, prices, owner, product_id, records)->Some_0.0,
            prices,
            owner,
            product_id,
            records,
        ) == reconcile(t, prices, owner, product_id, records),
{
    let mid = apply_deletions(t, owner, records);
    let (fin, rows) = apply_upserts(mid, owner, product_id, records)->Some_0;
    deletions_keep_rules(t, owner, records);
    deletions_without_match(fin, owner, records);
    rerun_prefix(mid, owner, product_id, records, records.len() as int);
    assert(records.take(records.len() as int) =~= records);
    let again = apply_upserts(fin, owner, product_id, records)->Some_0.0;
    assert forall|i: int| 0 <= i < fin.rows.len() implies again.rows[i] == fin.rows[i] by {
        assert(same_link(again.rows[i], fin.rows[i]));
        assert(again.rows[i].amount == fin.rows[i].amount);
    }
    assert(again.rows =~= fin.rows);
}

} // verus!
