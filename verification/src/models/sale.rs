//! Sales: a bill with its line items, and the operations that create, change,
//! read and remove it.

use crate::errors::MyStoreError;
use crate::models::product::{find_product, product_is_at, product_position, Product};
use crate::models::sale_product::{
    copy_lines, joined_lines, line_from, line_slots, line_with, lines_without_sale, load_lines,
    FormSaleProducts, FullFormSaleProduct, FullSaleProduct, SaleProduct,
};
use crate::models::sale_state::{transition, Event, IllegalTransition, SaleState};
use crate::models::{copy_text, Context, Float64, SaleDate};
use crate::store::{
    ids_wf, push_keeps_ids, remove_keeps_ids, selection, selection_keeps_ids, update_keeps_ids, Row,
    Store, Table, TableView,
};
use vstd::prelude::*;

verus! {

/// A sale of one owner.
#[derive(Debug, Clone, PartialEq)]
pub struct Sale {
    pub id: i32,
    pub user_id: i32,
    pub sale_date: SaleDate,
    pub total: Float64,
    pub bill_number: Option<String>,
    pub state: SaleState,
}

/// The fields of a sale as a caller submits them.
#[derive(Debug, Clone, PartialEq)]
pub struct FormSale {
    pub id: Option<i32>,
    pub sale_date: Option<SaleDate>,
    pub user_id: Option<i32>,
    pub total: Option<Float64>,
    pub bill_number: Option<String>,
    pub state: Option<SaleState>,
}

/// A sale with its line items, each with its product.
#[derive(Debug, Clone)]
pub struct FullSale {
    pub sale: Sale,
    pub sale_products: Vec<FullSaleProduct>,
}

/// A submitted sale with its submitted line items.
#[derive(Debug, Clone)]
pub struct FullFormSale {
    pub sale: FormSale,
    pub sale_products: Vec<FullFormSaleProduct>,
}

/// Sales with their line items.
#[derive(Debug, Clone)]
pub struct ListSale {
    pub data: Vec<FullSale>,
}

impl Row for Sale {
    open spec fn row_id(&self) -> i32 {
        self.id
    }

    fn id_of(&self) -> (res: i32) {
        self.id
    }
}

/// The row at `i` is the sale `id` and belongs to `owner`.
pub open spec fn sale_at(rows: Seq<Sale>, i: int, owner: i32, id: i32) -> bool {
    0 <= i < rows.len() && rows[i].id == id && rows[i].user_id == owner
}

/// The row at `i` is the sale `id`, belongs to `owner` and is a draft.
pub open spec fn draft_at(rows: Seq<Sale>, i: int, owner: i32, id: i32) -> bool {
    sale_at(rows, i, owner, id) && rows[i].state == SaleState::Draft
}

/// The sale `id` as `owner` sees it: a sale of another owner is as absent as
/// one that does not exist.
pub open spec fn find_sale(rows: Seq<Sale>, owner: i32, id: i32) -> Option<Sale> {
    if exists|i: int| sale_at(rows, i, owner, id) {
        Some(rows[choose|i: int| sale_at(rows, i, owner, id)])
    } else {
        None
    }
}

/// The sale that a submitted form describes, for `owner` and under `id`. It
/// is a draft and the owner's, whatever the form says of the state, the owner
/// and the id. `None` where the form lacks the date or the total.
pub open spec fn sale_from(form: FormSale, owner: i32, id: i32) -> Option<Sale> {
    if form.sale_date is Some && form.total is Some {
        Some(
            Sale {
                id,
                user_id: owner,
                sale_date: form.sale_date->Some_0,
                total: form.total->Some_0,
                bill_number: form.bill_number,
                state: SaleState::Draft,
            },
        )
    } else {
        None
    }
}

/// The row after the date, the total and the bill number that the form gives
/// have replaced its own. The id, the owner and the state stay.
pub open spec fn sale_with(row: Sale, form: FormSale) -> Sale {
    Sale {
        id: row.id,
        user_id: row.user_id,
        sale_date: if form.sale_date is Some {
            form.sale_date->Some_0
        } else {
            row.sale_date
        },
        total: if form.total is Some {
            form.total->Some_0
        } else {
            row.total
        },
        bill_number: if form.bill_number is Some {
            form.bill_number
        } else {
            row.bill_number
        },
        state: row.state,
    }
}

/// A submitted line item can be inserted for `owner`: it is complete and its
/// product is one of the owner's.
pub open spec fn line_ready(products: Seq<Product>, owner: i32, form: FullFormSaleProduct) -> bool {
    line_from(form.sale_product, 0, 0) is Some && find_product(
        products,
        owner,
        form.sale_product.product_id->Some_0,
    ) is Some
}

/// The line items that a new sale gets, each with its product: the form `k`
/// becomes the line item `first_id + k` of the sale. `None` where a form is
/// not ready or the ids do not suffice.
pub open spec fn new_lines(
    products: Seq<Product>,
    owner: i32,
    sale_id: i32,
    first_id: i32,
    forms: Seq<FullFormSaleProduct>,
) -> Option<Seq<FullSaleProduct>> {
    if first_id + forms.len() <= i32::MAX && forall|k: int|
        0 <= k < forms.len() ==> line_ready(products, owner, #[trigger] forms[k]) {
        Some(
            Seq::new(
                forms.len(),
                |k: int|
                    FullSaleProduct {
                        sale_product: line_from(
                            forms[k].sale_product,
                            sale_id,
                            (first_id + k) as i32,
                        )->Some_0,
                        product: find_product(
                            products,
                            owner,
                            forms[k].sale_product.product_id->Some_0,
                        )->Some_0,
                    },
            ),
        )
    } else {
        None
    }
}

/// The line items of enriched rows.
pub open spec fn bare_lines(full: Seq<FullSaleProduct>) -> Seq<SaleProduct> {
    Seq::new(full.len(), |k: int| full[k].sale_product)
}

/// The table of line items after the submitted line items have been applied
/// to the sale's own, and the rows written, each with its product: the form
/// `k` rewrites the line item at `slots[k]`. `None` where there are more
/// forms than the sale has line items, or a form names no product, or names
/// one that `owner` does not have.
pub open spec fn rewrite_lines(
    lines: Seq<SaleProduct>,
    products: Seq<Product>,
    owner: i32,
    slots: Seq<int>,
    forms: Seq<FullFormSaleProduct>,
) -> Option<(Seq<SaleProduct>, Seq<FullSaleProduct>)>
    decreases forms.len(),
{
    if forms.len() == 0 {
        Some((lines, Seq::<FullSaleProduct>::empty()))
    } else {
        match rewrite_lines(lines, products, owner, slots, forms.drop_last()) {
            None => None,
            Some((before, full)) => {
                let k = forms.len() - 1;
                let form = forms.last().sale_product;
                if k < slots.len() && form.product_id is Some && find_product(
                    products,
                    owner,
                    form.product_id->Some_0,
                ) is Some {
                    let row = line_with(before[slots[k]], form);
                    Some(
                        (
                            before.update(slots[k], row),
                            full.push(
                                FullSaleProduct {
                                    sale_product: row,
                                    product: find_product(products, owner, form.product_id->Some_0)->Some_0,
                                },
                            ),
                        ),
                    )
                } else {
                    None
                }
            },
        }
    }
}

/// The sale is one of `owner`'s and passes the filter: it has the date that
/// the filter gives, if it gives one, and the bill number, if it gives one.
pub open spec fn sale_matches(sale: Sale, owner: i32, search: Option<FormSale>) -> bool {
    &&& sale.user_id == owner
    &&& search is Some && search->Some_0.sale_date is Some ==> sale.sale_date
        == search->Some_0.sale_date->Some_0
    &&& search is Some && search->Some_0.bill_number is Some ==> sale.bill_number is Some
        && sale.bill_number->Some_0@ == search->Some_0.bill_number->Some_0@
}

/// The sales of `owner` that pass the filter, in the table's order.
pub open spec fn matching_sales(sales: Seq<Sale>, owner: i32, search: Option<FormSale>) -> Seq<
    Sale,
>
    decreases sales.len(),
{
    if sales.len() == 0 {
        sales
    } else {
        let before = matching_sales(sales.drop_last(), owner, search);
        if sale_matches(sales.last(), owner, search) {
            before.push(sales.last())
        } else {
            before
        }
    }
}

/// The first `limit` of the sales of `owner` that pass the filter; none where
/// the limit is below one.
pub open spec fn listed_sales(
    sales: Seq<Sale>,
    owner: i32,
    search: Option<FormSale>,
    limit: i32,
) -> Seq<Sale> {
    let all = matching_sales(sales, owner, search);
    if limit <= 0 {
        Seq::<Sale>::empty()
    } else if limit >= all.len() {
        all
    } else {
        all.take(limit as int)
    }
}

/// Where ids are distinct, a row that matches is the only one that does.
pub proof fn sale_is_at(t: TableView<Sale>, i: int, owner: i32, id: i32)
    requires
        ids_wf(t),
        sale_at(t.rows, i, owner, id),
    ensures
        (choose|j: int| sale_at(t.rows, j, owner, id)) == i,
        find_sale(t.rows, owner, id) == Some(t.rows[i]),
        draft_at(t.rows, i, owner, id) ==> (choose|j: int| draft_at(t.rows, j, owner, id)) == i,
        !draft_at(t.rows, i, owner, id) ==> forall|j: int| !draft_at(t.rows, j, owner, id),
{
    let j = choose|j: int| sale_at(t.rows, j, owner, id);
    if j < i {
        assert(t.rows[j].row_id() != t.rows[i].row_id());
    } else if i < j {
        assert(t.rows[i].row_id() != t.rows[j].row_id());
    }
    assert forall|k: int| sale_at(t.rows, k, owner, id) implies k == i by {
        if k < i {
            assert(t.rows[k].row_id() != t.rows[i].row_id());
        } else if i < k {
            assert(t.rows[i].row_id() != t.rows[k].row_id());
        }
    }
}

/// Line items of which the first cannot be rewritten cannot be rewritten as a
/// whole.
pub proof fn failed_rewrite_fails(
    lines: Seq<SaleProduct>,
    products: Seq<Product>,
    owner: i32,
    slots: Seq<int>,
    forms: Seq<FullFormSaleProduct>,
    k: int,
)
    requires
        0 <= k <= forms.len(),
        rewrite_lines(lines, products, owner, slots, forms.take(k)) is None,
    ensures
        rewrite_lines(lines, products, owner, slots, forms) is None,
    decreases forms.len(),
{
    if k == forms.len() {
        assert(forms.take(k) =~= forms);
    } else {
        assert(forms.drop_last().take(k) =~= forms.take(k));
        failed_rewrite_fails(lines, products, owner, slots, forms.drop_last(), k);
    }
}

/// The matching sales among the first rows of a table are the first of the
/// matching sales of the whole table.
pub proof fn matching_prefix(sales: Seq<Sale>, owner: i32, search: Option<FormSale>, i: int)
    requires
        0 <= i <= sales.len(),
    ensures
        matching_sales(sales.take(i), owner, search).len() <= matching_sales(
            sales,
            owner,
            search,
        ).len(),
        matching_sales(sales.take(i), owner, search) == matching_sales(sales, owner, search).take(
            matching_sales(sales.take(i), owner, search).len() as int,
        ),
    decreases sales.len(),
{
    let all = matching_sales(sales, owner, search);
    if i == sales.len() {
        assert(sales.take(i) =~= sales);
        assert(all.take(all.len() as int) =~= all);
    } else {
        let init = sales.drop_last();
        assert(init.take(i) =~= sales.take(i));
        matching_prefix(init, owner, search, i);
        let part = matching_sales(sales.take(i), owner, search);
        let most = matching_sales(init, owner, search);
        assert(all.take(part.len() as int) =~= most.take(part.len() as int));
    }
}

/// The index of the sale `id` of `owner`, if the table has it.
pub fn sale_position(table: &Table<Sale>, owner: i32, id: i32) -> (res: Option<usize>)
    ensures
        match res {
            Some(i) => sale_at(table@.rows, i as int, owner, id),
            None => forall|i: int| !sale_at(table@.rows, i, owner, id),
        },
{
    let mut i: usize = 0;
    while i < table.rows.len()
        invariant
            i <= table.rows.len(),
            forall|k: int| 0 <= k < i ==> !sale_at(table@.rows, k, owner, id),
        decreases table.rows.len() - i,
    {
        if table.rows[i].id == id && table.rows[i].user_id == owner {
            return Some(i);
        }
        i += 1;
    }
    None
}

impl Sale {
    /// A copy of the row.
    pub fn duplicate(&self) -> (res: Sale)
        ensures
            res == *self,
    {
        Sale {
            id: self.id,
            user_id: self.user_id,
            sale_date: self.sale_date,
            total: self.total,
            bill_number: copy_text(&self.bill_number),
            state: self.state,
        }
    }

    /// Whether the sale may still be changed or removed: only a draft may.
    pub fn is_draft(&self) -> (res: bool)
        ensures
            res == (self.state == SaleState::Draft),
    {
        match self.state {
            SaleState::Draft => true,
            _ => false,
        }
    }

    /// Whether the sale is one of `owner`'s and passes the filter.
    pub fn matches(&self, owner: i32, search: &Option<FormSale>) -> (res: bool)
        ensures
            res == sale_matches(*self, owner, *search),
    {
        if self.user_id != owner {
            return false;
        }
        match search {
            None => true,
            Some(filter) => {
                let date_fits = match filter.sale_date {
                    Some(date) => self.sale_date == date,
                    None => true,
                };
                let number_fits = match &filter.bill_number {
                    Some(number) => match &self.bill_number {
                        Some(own) => *own == *number,
                        None => false,
                    },
                    None => true,
                };
                date_fits && number_fits
            },
        }
    }

    /// The guard of every change to a sale: `Ok` where the caller's sale
    /// `sale_id` is a draft, `MutationForbidden` where it has left `Draft`,
    /// `NotFound` where the caller has no such sale.
    pub fn check_mutable(context: &Context, sale_id: i32) -> (res: Result<(), MyStoreError>)
        requires
            context.conn.wf(),
        ensures
            match find_sale(context.conn.sales@.rows, context.user_id, sale_id) {
                None => res is Err && res->Err_0 is NotFound,
                Some(sale) => if sale.state == SaleState::Draft {
                    res is Ok
                } else {
                    res is Err && res->Err_0 is MutationForbidden
                },
            },
    {
        match sale_position(&context.conn.sales, context.user_id, sale_id) {
            Some(i) => {
                proof {
                    sale_is_at(context.conn.sales@, i as int, context.user_id, sale_id);
                }
                if context.conn.sales.rows[i].is_draft() {
                    Ok(())
                } else {
                    Err(MyStoreError::MutationForbidden)
                }
            },
            None => Err(MyStoreError::NotFound),
        }
    }

    /// Creates a sale for the caller together with its line items, as one unit.
    /// The sale is a draft, is the caller's and gets the store's next id,
    /// whatever the form says; every line item belongs to the new sale and is
    /// joined to its product as the caller sees it.
    ///
    /// `ConstraintViolation` where the form lacks the date or the total, or no
    /// id is left for the sale; `ReconciliationError` where a line item is
    /// incomplete, its product is not one of the caller's, or the ids for the
    /// line items do not suffice. On either the store is as it was.
    pub fn create(context: &mut Context, form: FormSale, form_sale_products: FormSaleProducts) -> (res:
        Result<FullSale, MyStoreError>)
        requires
            old(context).conn.wf(),
        ensures
            final(context).conn.wf(),
            final(context).user_id == old(context).user_id,
            ({
                let before = old(context).conn;
                let owner = old(context).user_id;
                let id = before.sales@.next_id;
                if sale_from(form, owner, id) is None || id == i32::MAX {
                    &&& res is Err
                    &&& res->Err_0 is ConstraintViolation
                    &&& *final(context) == *old(context)
                } else {
                    match new_lines(
                        before.products@.rows,
                        owner,
                        id,
                        before.sale_products@.next_id,
                        form_sale_products.data@,
                    ) {
                        None => {
                            &&& res is Err
                            &&& res->Err_0 is ReconciliationError
                            &&& *final(context) == *old(context)
                        },
                        Some(full) => {
                            &&& res is Ok
                            &&& res->Ok_0.sale == sale_from(form, owner, id)->Some_0
                            &&& res->Ok_0.sale_products@ == full
                            &&& final(context).conn.sales@ == (TableView {
                                rows: before.sales@.rows.push(res->Ok_0.sale),
                                next_id: (id + 1) as i32,
                            })
                            &&& final(context).conn.sale_products@ == (TableView {
                                rows: before.sale_products@.rows + bare_lines(full),
                                next_id: (before.sale_products@.next_id + full.len()) as i32,
                            })
                            &&& final(context).conn == (Store {
                                sales: final(context).conn.sales,
                                sale_products: final(context).conn.sale_products,
                                ..before
                            })
                        },
                    }
                }
            }),
    {
        let owner = context.user_id;
        let id = context.conn.sales.next_id;
        if id == i32::MAX {
            return Err(MyStoreError::ConstraintViolation);
        }
        let (sale_date, total) = match (form.sale_date, form.total) {
            (Some(sale_date), Some(total)) => (sale_date, total),
            _ => {
                return Err(MyStoreError::ConstraintViolation);
            },
        };
        let row = Sale {
            id,
            user_id: owner,
            sale_date,
            total,
            bill_number: form.bill_number,
            state: SaleState::Draft,
        };
        let first = context.conn.sale_products.next_id;
        let ghost forms = form_sale_products.data@;
        let n = form_sale_products.data.len();
        let mut next = first;
        let mut full: Vec<FullSaleProduct> = Vec::new();
        let mut k: usize = 0;
        while k < n
            invariant
                k <= n,
                n == form_sale_products.data.len(),
                forms == form_sale_products.data@,
                *context == *old(context),
                context.conn.wf(),
                owner == context.user_id,
                first == context.conn.sale_products.next_id,
                id == context.conn.sales.next_id,
                id < i32::MAX,
                sale_from(form, owner, id) is Some,
                next == first + k,
                full@.len() == k,
                forall|j: int|
                    0 <= j < k ==> line_ready(context.conn.products@.rows, owner, #[trigger] forms[j]),
                forall|j: int|
                    0 <= j < k ==> (#[trigger] full@[j]) == (FullSaleProduct {
                        sale_product: line_from(
                            forms[j].sale_product,
                            id,
                            (first + j) as i32,
                        )->Some_0,
                        product: find_product(
                            context.conn.products@.rows,
                            owner,
                            forms[j].sale_product.product_id->Some_0,
                        )->Some_0,
                    }),
            decreases n - k,
        {
            if next == i32::MAX {
                return Err(MyStoreError::ReconciliationError);
            }
            let line = match form_sale_products.data[k].sale_product.to_line(id, next) {
                Some(line) => line,
                None => {
                    assert(!line_ready(context.conn.products@.rows, owner, forms[k as int]));
                    return Err(MyStoreError::ReconciliationError);
                },
            };
            let at = match product_position(&context.conn.products, owner, line.product_id) {
                Some(at) => at,
                None => {
                    assert(!line_ready(context.conn.products@.rows, owner, forms[k as int]));
                    return Err(MyStoreError::ReconciliationError);
                },
            };
            proof {
                product_is_at(context.conn.products@, at as int, owner, line.product_id);
            }
            full.push(
                FullSaleProduct {
                    sale_product: line,
                    product: context.conn.products.rows[at].duplicate(),
                },
            );
            next = next + 1;
            k += 1;
        }
        proof {
            assert(full@ =~= new_lines(context.conn.products@.rows, owner, id, first, forms)->Some_0);
            push_keeps_ids(context.conn.sales@, row);
        }
        let sale = row.duplicate();
        context.conn.sales.rows.push(row);
        context.conn.sales.next_id = id + 1;
        let ghost lines_before = context.conn.sale_products@.rows;
        let mut j: usize = 0;
        while j < n
            invariant
                j <= n,
                n == full@.len(),
                first + n <= i32::MAX,
                context.user_id == old(context).user_id,
                ids_wf(context.conn.sale_products@),
                context.conn.sale_products@.next_id == first + j,
                context.conn.sale_products@.rows =~= lines_before + bare_lines(full@).take(j as int),
                forall|i: int| 0 <= i < n ==> (#[trigger] full@[i]).sale_product.id == first + i,
                context.conn == (Store {
                    sale_products: context.conn.sale_products,
                    sales: context.conn.sales,
                    ..old(context).conn
                }),
                context.conn.sales@ == (TableView {
                    rows: old(context).conn.sales@.rows.push(sale),
                    next_id: (id + 1) as i32,
                }),
                ids_wf(context.conn.sales@),
            decreases n - j,
        {
            let line = full[j].sale_product;
            proof {
                push_keeps_ids(context.conn.sale_products@, line);
                assert(bare_lines(full@).take(j + 1) =~= bare_lines(full@).take(j as int).push(line));
            }
            context.conn.sale_products.rows.push(line);
            context.conn.sale_products.next_id = context.conn.sale_products.next_id + 1;
            j += 1;
        }
        proof {
            assert(bare_lines(full@).take(n as int) =~= bare_lines(full@));
        }
        Ok(FullSale { sale, sale_products: full })
    }

    /// Changes the caller's draft sale that the form names, and its line
    /// items, as one unit. The date, the total and the bill number that the
    /// form gives replace the sale's; its id, owner and state stay. The
    /// submitted line items are applied in order to the sale's own line items
    /// in the order the store holds them: each replaces the fields it gives,
    /// never the line item's id or sale, and is joined to the product it
    /// names as the caller sees it.
    ///
    /// `MissingId` where the form names no sale; `NotFound` where the caller
    /// has no draft sale of that id; `ReconciliationError` where there are
    /// more submitted line items than the sale has, or one names no product or
    /// a product that is not the caller's. On each the store is as it was.
    pub fn update(context: &mut Context, form: FormSale, form_sale_products: FormSaleProducts) -> (res:
        Result<FullSale, MyStoreError>)
        requires
            old(context).conn.wf(),
        ensures
            final(context).conn.wf(),
            final(context).user_id == old(context).user_id,
            ({
                let before = old(context).conn;
                let owner = old(context).user_id;
                if form.id is None {
                    &&& res is Err
                    &&& res->Err_0 is MissingId
                    &&& *final(context) == *old(context)
                } else if !exists|i: int| draft_at(before.sales@.rows, i, owner, form.id->Some_0) {
                    &&& res is Err
                    &&& res->Err_0 is NotFound
                    &&& *final(context) == *old(context)
                } else {
                    let at = choose|i: int| draft_at(before.sales@.rows, i, owner, form.id->Some_0);
                    match rewrite_lines(
                        before.sale_products@.rows,
                        before.products@.rows,
                        owner,
                        line_slots(before.sale_products@.rows, form.id->Some_0),
                        form_sale_products.data@,
                    ) {
                        None => {
                            &&& res is Err
                            &&& res->Err_0 is ReconciliationError
                            &&& *final(context) == *old(context)
                        },
                        Some((lines, full)) => {
                            &&& res is Ok
                            &&& res->Ok_0.sale == sale_with(before.sales@.rows[at], form)
                            &&& res->Ok_0.sale_products@ == full
                            &&& final(context).conn.sales@ == (TableView {
                                rows: before.sales@.rows.update(at, res->Ok_0.sale),
                                ..before.sales@
                            })
                            &&& final(context).conn.sale_products@ == (TableView {
                                rows: lines,
                                ..before.sale_products@
                            })
                            &&& final(context).conn == (Store {
                                sales: final(context).conn.sales,
                                sale_products: final(context).conn.sale_products,
                                ..before
                            })
                        },
                    }
                }
            }),
            form.id is Some && find_sale(
                old(context).conn.sales@.rows,
                old(context).user_id,
                form.id->Some_0,
            ) is Some && find_sale(
                old(context).conn.sales@.rows,
                old(context).user_id,
                form.id->Some_0,
            )->Some_0.state != SaleState::Draft ==> res is Err && res->Err_0 is NotFound
                && *final(context) == *old(context),
    {
        let owner = context.user_id;
        let sale_id = match form.id {
            Some(id) => id,
            None => {
                return Err(MyStoreError::MissingId);
            },
        };
        let at = match sale_position(&context.conn.sales, owner, sale_id) {
            Some(i) => i,
            None => {
                return Err(MyStoreError::NotFound);
            },
        };
        proof {
            sale_is_at(context.conn.sales@, at as int, owner, sale_id);
        }
        if !context.conn.sales.rows[at].is_draft() {
            return Err(MyStoreError::NotFound);
        }
        let ghost lines = context.conn.sale_products@.rows;
        let mut slots: Vec<usize> = Vec::new();
        let mut i: usize = 0;
        while i < context.conn.sale_products.rows.len()
            invariant
                i <= context.conn.sale_products.rows.len(),
                *context == *old(context),
                lines == context.conn.sale_products@.rows,
                slots@.len() == line_slots(lines.take(i as int), sale_id).len(),
                forall|k: int|
                    0 <= k < slots@.len() ==> (#[trigger] slots@[k]) as int == line_slots(
                        lines.take(i as int),
                        sale_id,
                    )[k] && slots@[k] < i,
            decreases context.conn.sale_products.rows.len() - i,
        {
            proof {
                assert(lines.take(i + 1).drop_last() =~= lines.take(i as int));
            }
            if context.conn.sale_products.rows[i].sale_id == sale_id {
                slots.push(i);
            }
            i += 1;
        }
        proof {
            assert(lines.take(i as int) =~= lines);
        }
        let ghost places = line_slots(lines, sale_id);
        let ghost forms = form_sale_products.data@;
        let n = form_sale_products.data.len();
        let mut work = copy_lines(&context.conn.sale_products);
        let mut full: Vec<FullSaleProduct> = Vec::new();
        let mut k: usize = 0;
        while k < n
            invariant
                k <= n,
                n == form_sale_products.data.len(),
                forms == form_sale_products.data@,
                *context == *old(context),
                context.conn.wf(),
                owner == context.user_id,
                form.id == Some(sale_id),
                draft_at(context.conn.sales@.rows, at as int, owner, sale_id),
                lines == context.conn.sale_products@.rows,
                places == line_slots(lines, sale_id),
                slots@.len() == places.len(),
                forall|j: int|
                    0 <= j < slots@.len() ==> (#[trigger] slots@[j]) as int == places[j]
                        && slots@[j] < lines.len(),
                ids_wf(work@),
                work@.next_id == context.conn.sale_products@.next_id,
                work@.rows.len() == lines.len(),
                rewrite_lines(lines, context.conn.products@.rows, owner, places, forms.take(k as int))
                    == Some((work@.rows, full@)),
            decreases n - k,
        {
            proof {
                assert(forms.take(k + 1).drop_last() =~= forms.take(k as int));
            }
            let item = form_sale_products.data[k].sale_product;
            let product_at = match item.product_id {
                Some(product_id) if k < slots.len() => product_position(
                    &context.conn.products,
                    owner,
                    product_id,
                ),
                _ => None,
            };
            let found = match product_at {
                Some(found) => found,
                None => {
                    proof {
                        failed_rewrite_fails(
                            lines,
                            context.conn.products@.rows,
                            owner,
                            places,
                            forms,
                            k + 1,
                        );
                    }
                    return Err(MyStoreError::ReconciliationError);
                },
            };
            proof {
                product_is_at(
                    context.conn.products@,
                    found as int,
                    owner,
                    item.product_id->Some_0,
                );
            }
            let slot = slots[k];
            let row = item.apply_to(work.rows[slot]);
            proof {
                update_keeps_ids(work@, slot as int, row);
            }
            work.rows.set(slot, row);
            full.push(
                FullSaleProduct {
                    sale_product: row,
                    product: context.conn.products.rows[found].duplicate(),
                },
            );
            k += 1;
        }
        proof {
            assert(forms.take(n as int) =~= forms);
        }
        let current = &context.conn.sales.rows[at];
        let row = Sale {
            id: current.id,
            user_id: current.user_id,
            sale_date: match form.sale_date {
                Some(date) => date,
                None => current.sale_date,
            },
            total: match form.total {
                Some(total) => total,
                None => current.total,
            },
            bill_number: match form.bill_number {
                Some(number) => Some(number),
                None => copy_text(&current.bill_number),
            },
            state: current.state,
        };
        let sale = row.duplicate();
        proof {
            update_keeps_ids(context.conn.sales@, at as int, row);
        }
        context.conn.sales.rows.set(at, row);
        context.conn.sale_products = work;
        Ok(FullSale { sale, sale_products: full })
    }

    /// Applies `event` to the caller's sale `sale_id` and keeps the new state.
    /// The sale need not be a draft.
    ///
    /// `NotFound` where the caller has no such sale; `IllegalTransition`, with
    /// the sale's state and the event, where the transition table has no row
    /// for them. On either the store is as it was. Otherwise the answer is
    /// `true` and only the sale's state has changed.
    pub fn set_state(context: &mut Context, sale_id: i32, event: Event) -> (res: Result<
        bool,
        MyStoreError,
    >)
        requires
            old(context).conn.wf(),
        ensures
            final(context).conn.wf(),
            final(context).user_id == old(context).user_id,
            ({
                let before = old(context).conn;
                let owner = old(context).user_id;
                match find_sale(before.sales@.rows, owner, sale_id) {
                    None => {
                        &&& res is Err
                        &&& res->Err_0 is NotFound
                        &&& *final(context) == *old(context)
                    },
                    Some(sale) => match transition(sale.state, event) {
                        None => {
                            &&& res is Err
                            &&& res->Err_0 == MyStoreError::IllegalTransition(
                                (IllegalTransition { from: sale.state, event }),
                            )
                            &&& *final(context) == *old(context)
                        },
                        Some(target) => {
                            let at = choose|i: int| sale_at(before.sales@.rows, i, owner, sale_id);
                            &&& res == Ok::<bool, MyStoreError>(true)
                            &&& final(context).conn.sales@ == (TableView {
                                rows: before.sales@.rows.update(at, (Sale { state: target, ..sale })),
                                ..before.sales@
                            })
                            &&& final(context).conn == (Store {
                                sales: final(context).conn.sales,
                                ..before
                            })
                        },
                    },
                }
            }),
    {
        let owner = context.user_id;
        let at = match sale_position(&context.conn.sales, owner, sale_id) {
            Some(i) => i,
            None => {
                return Err(MyStoreError::NotFound);
            },
        };
        proof {
            sale_is_at(context.conn.sales@, at as int, owner, sale_id);
        }
        let current = &context.conn.sales.rows[at];
        let target = match current.state.next(event) {
            Ok(target) => target,
            Err(rejected) => {
                return Err(MyStoreError::IllegalTransition(rejected));
            },
        };
        let row = Sale {
            id: current.id,
            user_id: current.user_id,
            sale_date: current.sale_date,
            total: current.total,
            bill_number: copy_text(&current.bill_number),
            state: target,
        };
        proof {
            update_keeps_ids(context.conn.sales@, at as int, row);
        }
        context.conn.sales.rows.set(at, row);
        Ok(true)
    }

    /// Removes the caller's sale `sale_id` together with its line items, if the
    /// sale is a draft, and says whether it did. A sale that is not a draft,
    /// is another owner's or does not exist is left alone, with the store as
    /// it was and the answer `false`.
    pub fn destroy(context: &mut Context, sale_id: i32) -> (res: bool)
        requires
            old(context).conn.wf(),
        ensures
            final(context).conn.wf(),
            final(context).user_id == old(context).user_id,
            ({
                let before = old(context).conn;
                let owner = old(context).user_id;
                if exists|i: int| draft_at(before.sales@.rows, i, owner, sale_id) {
                    let at = choose|i: int| draft_at(before.sales@.rows, i, owner, sale_id);
                    &&& res
                    &&& final(context).conn.sales@ == (TableView {
                        rows: before.sales@.rows.remove(at),
                        ..before.sales@
                    })
                    &&& final(context).conn.sale_products@ == (TableView {
                        rows: lines_without_sale(before.sale_products@.rows, sale_id),
                        ..before.sale_products@
                    })
                    &&& final(context).conn == (Store {
                        sales: final(context).conn.sales,
                        sale_products: final(context).conn.sale_products,
                        ..before
                    })
                } else {
                    &&& !res
                    &&& *final(context) == *old(context)
                }
            }),
            find_sale(old(context).conn.sales@.rows, old(context).user_id, sale_id) is Some
                && find_sale(
                old(context).conn.sales@.rows,
                old(context).user_id,
                sale_id,
            )->Some_0.state != SaleState::Draft ==> !res && *final(context) == *old(context),
    {
        let owner = context.user_id;
        let at = match sale_position(&context.conn.sales, owner, sale_id) {
            Some(i) => i,
            None => {
                return false;
            },
        };
        proof {
            sale_is_at(context.conn.sales@, at as int, owner, sale_id);
        }
        if !context.conn.sales.rows[at].is_draft() {
            return false;
        }
        proof {
            remove_keeps_ids(context.conn.sales@, at as int);
        }
        let mut kept: Vec<SaleProduct> = Vec::new();
        let ghost mut picks: Seq<int> = Seq::empty();
        let mut i: usize = 0;
        while i < context.conn.sale_products.rows.len()
            invariant
                i <= context.conn.sale_products.rows.len(),
                *context == *old(context),
                kept@ == lines_without_sale(context.conn.sale_products@.rows.take(i as int), sale_id),
                selection(kept@, context.conn.sale_products@.rows, picks),
                forall|k: int| 0 <= k < picks.len() ==> #[trigger] picks[k] < i,
            decreases context.conn.sale_products.rows.len() - i,
        {
            let line = context.conn.sale_products.rows[i];
            proof {
                let rows = context.conn.sale_products@.rows;
                assert(rows.take(i + 1).drop_last() =~= rows.take(i as int));
            }
            if line.sale_id != sale_id {
                kept.push(line);
                proof {
                    picks = picks.push(i as int);
                }
            }
            i += 1;
        }
        proof {
            let rows = context.conn.sale_products@.rows;
            assert(rows.take(i as int) =~= rows);
            selection_keeps_ids(
                TableView { rows: kept@, next_id: context.conn.sale_products.next_id },
                context.conn.sale_products@,
                picks,
            );
        }
        context.conn.sales.rows.remove(at);
        context.conn.sale_products.rows = kept;
        true
    }

    /// The caller's sale `sale_id` with its line items and their products, or
    /// `NotFound` where the caller has no such sale.
    pub fn show(context: &Context, sale_id: i32) -> (res: Result<FullSale, MyStoreError>)
        requires
            context.conn.wf(),
        ensures
            match find_sale(context.conn.sales@.rows, context.user_id, sale_id) {
                Some(sale) => {
                    &&& res is Ok
                    &&& res->Ok_0.sale == sale
                    &&& res->Ok_0.sale_products@ == joined_lines(
                        context.conn.sale_products@.rows,
                        context.conn.products@.rows,
                        context.user_id,
                        sale_id,
                    )
                },
                None => res is Err && res->Err_0 is NotFound,
            },
    {
        match sale_position(&context.conn.sales, context.user_id, sale_id) {
            Some(i) => {
                proof {
                    sale_is_at(context.conn.sales@, i as int, context.user_id, sale_id);
                }
                let sale = context.conn.sales.rows[i].duplicate();
                let sale_products = load_lines(context, sale_id);
                Ok(FullSale { sale, sale_products })
            },
            None => Err(MyStoreError::NotFound),
        }
    }

    /// The caller's sales that pass the filter, at most `limit` of them, in
    /// the order the store holds them, each with its line items and their
    /// products.
    pub fn list(context: &Context, search: Option<FormSale>, limit: i32) -> (res: ListSale)
        requires
            context.conn.wf(),
        ensures
            ({
                let listed = listed_sales(context.conn.sales@.rows, context.user_id, search, limit);
                &&& res.data@.len() == listed.len()
                &&& forall|k: int|
                    0 <= k < listed.len() ==> (#[trigger] res.data@[k]).sale == listed[k]
                        && res.data@[k].sale_products@ == joined_lines(
                        context.conn.sale_products@.rows,
                        context.conn.products@.rows,
                        context.user_id,
                        listed[k].id,
                    )
            }),
    {
        let owner = context.user_id;
        let sales = &context.conn.sales.rows;
        let mut data: Vec<FullSale> = Vec::new();
        if limit <= 0 {
            return ListSale { data };
        }
        let ghost mut found: Seq<Sale> = Seq::empty();
        let mut i: usize = 0;
        let mut left: i32 = limit;
        while i < sales.len() && left > 0
            invariant
                i <= sales.len(),
                context.conn.wf(),
                owner == context.user_id,
                sales@ == context.conn.sales@.rows,
                0 <= left <= limit,
                found == matching_sales(sales@.take(i as int), owner, search),
                data@.len() == found.len(),
                found.len() == limit - left,
                forall|k: int|
                    0 <= k < found.len() ==> (#[trigger] data@[k]).sale == found[k]
                        && data@[k].sale_products@ == joined_lines(
                        context.conn.sale_products@.rows,
                        context.conn.products@.rows,
                        owner,
                        found[k].id,
                    ),
            decreases sales.len() - i,
        {
            proof {
                assert(sales@.take(i + 1).drop_last() =~= sales@.take(i as int));
            }
            if sales[i].matches(owner, &search) {
                let sale = sales[i].duplicate();
                let sale_products = load_lines(context, sale.id);
                data.push(FullSale { sale, sale_products });
                proof {
                    found = found.push(sales@[i as int]);
                }
                left = left - 1;
            }
            i += 1;
        }
        proof {
            matching_prefix(sales@, owner, search, i as int);
            if i == sales.len() {
                assert(sales@.take(i as int) =~= sales@);
            }
        }
        ListSale { data }
    }
}

} // verus!
