//! Products and their prices.

use crate::errors::MyStoreError;
use crate::models::price::{
    drop_links, find_price, find_price_is_at, links_without, price_position, reconcile,
    FormPriceProductsToUpdate, FullPriceProduct, Price, PriceProduct, PriceProductToUpdate,
};
use crate::models::{copy_text, Context, Float64};
use crate::store::{
    ids_wf, push_keeps_ids, remove_keeps_ids, update_keeps_ids, Row, Store, Table, TableView,
};
use vstd::prelude::*;

verus! {

/// A product of one owner.
#[derive(Debug, Clone, PartialEq)]
pub struct Product {
    pub id: i32,
    pub name: String,
    pub stock: Float64,
    pub cost: Option<i32>,
    pub description: Option<String>,
    pub user_id: i32,
}

/// The fields of a product as a caller submits them.
#[derive(Debug, Clone, PartialEq)]
pub struct FormProduct {
    pub id: Option<i32>,
    pub name: Option<String>,
    pub stock: Option<Float64>,
    pub cost: Option<i32>,
    pub description: Option<String>,
    pub user_id: Option<i32>,
}

/// A product with its links, each with its price tier.
#[derive(Debug, Clone)]
pub struct FullProduct {
    pub product: Product,
    pub price_products: Vec<FullPriceProduct>,
}

/// Products with their links.
#[derive(Debug, Clone)]
pub struct ListProduct {
    pub data: Vec<FullProduct>,
}

impl Row for Product {
    open spec fn row_id(&self) -> i32 {
        self.id
    }

    fn id_of(&self) -> (res: i32) {
        self.id
    }
}

/// The row at `i` is the product `id` and belongs to `owner`.
pub open spec fn product_at(rows: Seq<Product>, i: int, owner: i32, id: i32) -> bool {
    0 <= i < rows.len() && rows[i].id == id && rows[i].user_id == owner
}

/// The product `id` as `owner` sees it: a product of another owner is as
/// absent as one that does not exist.
pub open spec fn find_product(rows: Seq<Product>, owner: i32, id: i32) -> Option<Product> {
    if exists|i: int| product_at(rows, i, owner, id) {
        Some(rows[choose|i: int| product_at(rows, i, owner, id)])
    } else {
        None
    }
}

/// Where ids are distinct, a row that matches is the only one that does.
pub proof fn product_is_at(t: TableView<Product>, i: int, owner: i32, id: i32)
    requires
        ids_wf(t),
        product_at(t.rows, i, owner, id),
    ensures
        (choose|j: int| product_at(t.rows, j, owner, id)) == i,
        find_product(t.rows, owner, id) == Some(t.rows[i]),
{
    let j = choose|j: int| product_at(t.rows, j, owner, id);
    if j < i {
        assert(t.rows[j].row_id() != t.rows[i].row_id());
    } else if i < j {
        assert(t.rows[i].row_id() != t.rows[j].row_id());
    }
}

/// The product that a submitted form describes, for `owner` and under `id`:
/// the owner and the id never come from the form. `None` where the form lacks
/// the name or the stock.
pub open spec fn product_from(form: FormProduct, owner: i32, id: i32) -> Option<Product> {
    if form.name is Some && form.stock is Some {
        Some(
            Product {
                id,
                name: form.name->Some_0,
                stock: form.stock->Some_0,
                cost: form.cost,
                description: form.description,
                user_id: owner,
            },
        )
    } else {
        None
    }
}

/// The row after the fields that the form gives have replaced its own. The id
/// and the owner stay.
pub open spec fn product_with(row: Product, form: FormProduct) -> Product {
    Product {
        id: row.id,
        name: if form.name is Some {
            form.name->Some_0
        } else {
            row.name
        },
        stock: if form.stock is Some {
            form.stock->Some_0
        } else {
            row.stock
        },
        cost: if form.cost is Some {
            form.cost
        } else {
            row.cost
        },
        description: if form.description is Some {
            form.description
        } else {
            row.description
        },
        user_id: row.user_id,
    }
}

/// The links of the product that belong to `owner`, in the table's order, each
/// with its price tier as the owner sees it. A link whose tier the owner does
/// not have is left out.
pub open spec fn joined_links(
    links: Seq<PriceProduct>,
    prices: Seq<Price>,
    owner: i32,
    product_id: i32,
) -> Seq<FullPriceProduct>
    decreases links.len(),
{
    if links.len() == 0 {
        Seq::<FullPriceProduct>::empty()
    } else {
        let before = joined_links(links.drop_last(), prices, owner, product_id);
        let last = links.last();
        if last.product_id == product_id && last.user_id == owner && find_price(
            prices,
            owner,
            last.price_id,
        ) is Some {
            before.push(
                FullPriceProduct {
                    price_product: last,
                    price: find_price(prices, owner, last.price_id)->Some_0,
                },
            )
        } else {
            before
        }
    }
}

/// The products of `owner`, in the table's order.
pub open spec fn owned_products(products: Seq<Product>, owner: i32) -> Seq<Product>
    decreases products.len(),
{
    if products.len() == 0 {
        products
    } else {
        let before = owned_products(products.drop_last(), owner);
        if products.last().user_id == owner {
            before.push(products.last())
        } else {
            before
        }
    }
}

/// The first `limit` of the products of `owner`; none where the limit is
/// below one.
pub open spec fn listed_products(products: Seq<Product>, owner: i32, limit: i32) -> Seq<Product> {
    let all = owned_products(products, owner);
    if limit <= 0 {
        Seq::<Product>::empty()
    } else if limit >= all.len() {
        all
    } else {
        all.take(limit as int)
    }
}

/// The owner's products among the first rows of a table are the first of the
/// owner's products in the whole table.
pub proof fn owned_prefix(products: Seq<Product>, owner: i32, i: int)
    requires
        0 <= i <= products.len(),
    ensures
        owned_products(products.take(i), owner).len() <= owned_products(products, owner).len(),
        owned_products(products.take(i), owner) == owned_products(products, owner).take(
            owned_products(products.take(i), owner).len() as int,
        ),
    decreases products.len(),
{
    let all = owned_products(products, owner);
    if i == products.len() {
        assert(products.take(i) =~= products);
        assert(all.take(all.len() as int) =~= all);
    } else {
        let init = products.drop_last();
        assert(init.take(i) =~= products.take(i));
        owned_prefix(init, owner, i);
        let part = owned_products(products.take(i), owner);
        let most = owned_products(init, owner);
        assert(all.take(part.len() as int) =~= most.take(part.len() as int));
    }
}

/// The index of the product `id` of `owner`, if the table has it.
pub fn product_position(table: &Table<Product>, owner: i32, id: i32) -> (res: Option<usize>)
    ensures
        match res {
            Some(i) => product_at(table@.rows, i as int, owner, id),
            None => forall|i: int| !product_at(table@.rows, i, owner, id),
        },
{
    let mut i: usize = 0;
    while i < table.rows.len()
        invariant
            i <= table.rows.len(),
            forall|k: int| 0 <= k < i ==> !product_at(table@.rows, k, owner, id),
        decreases table.rows.len() - i,
    {
        if table.rows[i].id == id && table.rows[i].user_id == owner {
            return Some(i);
        }
        i += 1;
    }
    None
}

/// The links of the caller's product `product_id` with their price tiers.
pub fn load_links(context: &Context, product_id: i32) -> (res: Vec<FullPriceProduct>)
    requires
        context.conn.wf(),
    ensures
        res@ == joined_links(
            context.conn.prices_products@.rows,
            context.conn.prices@.rows,
            context.user_id,
            product_id,
        ),
{
    let owner = context.user_id;
    let links = &context.conn.prices_products.rows;
    let mut out: Vec<FullPriceProduct> = Vec::new();
    let mut i: usize = 0;
    while i < links.len()
        invariant
            i <= links.len(),
            context.conn.wf(),
            owner == context.user_id,
            links@ == context.conn.prices_products@.rows,
            out@ == joined_links(links@.take(i as int), context.conn.prices@.rows, owner, product_id),
        decreases links.len() - i,
    {
        let link = links[i];
        proof {
            assert(links@.take(i + 1).drop_last() =~= links@.take(i as int));
        }
        if link.product_id == product_id && link.user_id == owner {
            match price_position(&context.conn.prices, owner, link.price_id) {
                Some(at) => {
                    proof {
                        find_price_is_at(context.conn.prices@, at as int, owner, link.price_id);
                    }
                    out.push(
                        FullPriceProduct {
                            price_product: link,
                            price: context.conn.prices.rows[at].duplicate(),
                        },
                    );
                },
                None => {},
            }
        }
        i += 1;
    }
    proof {
        assert(links@.take(i as int) =~= links@);
    }
    out
}

impl Product {
    /// A copy of the row.
    pub fn duplicate(&self) -> (res: Product)
        ensures
            res == *self,
    {
        Product {
            id: self.id,
            name: self.name.clone(),
            stock: self.stock,
            cost: self.cost,
            description: copy_text(&self.description),
            user_id: self.user_id,
        }
    }

    /// The caller's products, at most `limit` of them, in the order the store
    /// holds them, each with its links and their price tiers.
    pub fn list(context: &Context, limit: i32) -> (res: ListProduct)
        requires
            context.conn.wf(),
        ensures
            ({
                let listed = listed_products(context.conn.products@.rows, context.user_id, limit);
                &&& res.data@.len() == listed.len()
                &&& forall|k: int|
                    0 <= k < listed.len() ==> (#[trigger] res.data@[k]).product == listed[k]
                        && res.data@[k].price_products@ == joined_links(
                        context.conn.prices_products@.rows,
                        context.conn.prices@.rows,
                        context.user_id,
                        listed[k].id,
                    )
            }),
    {
        let owner = context.user_id;
        let products = &context.conn.products.rows;
        let mut data: Vec<FullProduct> = Vec::new();
        if limit <= 0 {
            return ListProduct { data };
        }
        let ghost mut found: Seq<Product> = Seq::empty();
        let mut i: usize = 0;
        let mut left: i32 = limit;
        while i < products.len() && left > 0
            invariant
                i <= products.len(),
                context.conn.wf(),
                owner == context.user_id,
                products@ == context.conn.products@.rows,
                0 <= left <= limit,
                found == owned_products(products@.take(i as int), owner),
                data@.len() == found.len(),
                found.len() == limit - left,
                forall|k: int|
                    0 <= k < found.len() ==> (#[trigger] data@[k]).product == found[k]
                        && data@[k].price_products@ == joined_links(
                        context.conn.prices_products@.rows,
                        context.conn.prices@.rows,
                        owner,
                        found[k].id,
                    ),
            decreases products.len() - i,
        {
            proof {
                assert(products@.take(i + 1).drop_last() =~= products@.take(i as int));
            }
            if products[i].user_id == owner {
                let product = products[i].duplicate();
                let price_products = load_links(context, product.id);
                data.push(FullProduct { product, price_products });
                proof {
                    found = found.push(products@[i as int]);
                }
                left = left - 1;
            }
            i += 1;
        }
        proof {
            owned_prefix(products@, owner, i as int);
            if i == products.len() {
                assert(products@.take(i as int) =~= products@);
            }
        }
        ListProduct { data }
    }

    /// Creates a product for the caller and reconciles its price links, as one
    /// unit. The product gets the store's next id and the caller as owner,
    /// whatever the form says.
    ///
    /// `ConstraintViolation` where the form lacks the name or the stock, or no
    /// id is left; `ReconciliationError` where the links cannot be reconciled.
    /// On either the store is as it was.
    pub fn create(context: &mut Context, form: FormProduct, prices: FormPriceProductsToUpdate) -> (res:
        Result<FullProduct, MyStoreError>)
        requires
            old(context).conn.wf(),
        ensures
            final(context).conn.wf(),
            final(context).user_id == old(context).user_id,
            ({
                let before = old(context).conn;
                let owner = old(context).user_id;
                let id = before.products@.next_id;
                if product_from(form, owner, id) is None || id == i32::MAX {
                    &&& res is Err
                    &&& res->Err_0 is ConstraintViolation
                    &&& *final(context) == *old(context)
                } else {
                    match reconcile(
                        before.prices_products@,
                        before.prices@.rows,
                        owner,
                        id,
                        prices.data@,
                    ) {
                        None => {
                            &&& res is Err
                            &&& res->Err_0 is ReconciliationError
                            &&& *final(context) == *old(context)
                        },
                        Some((links, full)) => {
                            &&& res is Ok
                            &&& res->Ok_0.product == product_from(form, owner, id)->Some_0
                            &&& res->Ok_0.price_products@ == full
                            &&& final(context).conn.products@ == (TableView {
                                rows: before.products@.rows.push(res->Ok_0.product),
                                next_id: (id + 1) as i32,
                            })
                            &&& final(context).conn.prices_products@ == links
                            &&& final(context).conn == (Store {
                                products: final(context).conn.products,
                                prices_products: final(context).conn.prices_products,
                                ..before
                            })
                        },
                    }
                }
            }),
    {
        let owner = context.user_id;
        let id = context.conn.products.next_id;
        if id == i32::MAX {
            return Err(MyStoreError::ConstraintViolation);
        }
        let (name, stock) = match (form.name, form.stock) {
            (Some(name), Some(stock)) => (name, stock),
            _ => {
                return Err(MyStoreError::ConstraintViolation);
            },
        };
        let row = Product {
            id,
            name,
            stock,
            cost: form.cost,
            description: form.description,
            user_id: owner,
        };
        let price_products = match PriceProductToUpdate::batch_update(context, prices, id) {
            Ok(full) => full,
            Err(_) => {
                return Err(MyStoreError::ReconciliationError);
            },
        };
        let product = row.duplicate();
        proof {
            push_keeps_ids(context.conn.products@, row);
        }
        context.conn.products.rows.push(row);
        context.conn.products.next_id = id + 1;
        Ok(FullProduct { product, price_products })
    }

    /// Changes the caller's product that the form names and reconciles its
    /// price links, as one unit. The fields that the form gives replace the
    /// row's; the id and the owner stay.
    ///
    /// `MissingId` where the form names no product; `NotFound` where the caller
    /// has no product of that id; `ReconciliationError` where the links cannot
    /// be reconciled. On each the store is as it was.
    pub fn update(context: &mut Context, form: FormProduct, prices: FormPriceProductsToUpdate) -> (res:
        Result<FullProduct, MyStoreError>)
        requires
            old(context).conn.wf(),
        ensures
            final(context).conn.wf(),
            final(context).user_id == old(context).user_id,
            ({
                let before = old(context).conn;
                let owner = old(context).user_id;
                if form.id is None {
                    &&& res is Err
                    &&& res->Err_0 is MissingId
                    &&& *final(context) == *old(context)
                } else if find_product(before.products@.rows, owner, form.id->Some_0) is None {
                    &&& res is Err
                    &&& res->Err_0 is NotFound
                    &&& *final(context) == *old(context)
                } else {
                    let at = choose|i: int| product_at(before.products@.rows, i, owner, form.id->Some_0);
                    match reconcile(
                        before.prices_products@,
                        before.prices@.rows,
                        owner,
                        form.id->Some_0,
                        prices.data@,
                    ) {
                        None => {
                            &&& res is Err
                            &&& res->Err_0 is ReconciliationError
                            &&& *final(context) == *old(context)
                        },
                        Some((links, full)) => {
                            &&& res is Ok
                            &&& res->Ok_0.product == product_with(before.products@.rows[at], form)
                            &&& res->Ok_0.price_products@ == full
                            &&& final(context).conn.products@ == (TableView {
                                rows: before.products@.rows.update(at, res->Ok_0.product),
                                ..before.products@
                            })
                            &&& final(context).conn.prices_products@ == links
                            &&& final(context).conn == (Store {
                                products: final(context).conn.products,
                                prices_products: final(context).conn.prices_products,
                                ..before
                            })
                        },
                    }
                }
            }),
    {
        let owner = context.user_id;
        let product_id = match form.id {
            Some(id) => id,
            None => {
                return Err(MyStoreError::MissingId);
            },
        };
        let at = match product_position(&context.conn.products, owner, product_id) {
            Some(i) => i,
            None => {
                return Err(MyStoreError::NotFound);
            },
        };
        proof {
            product_is_at(context.conn.products@, at as int, owner, product_id);
        }
        let price_products = match PriceProductToUpdate::batch_update(context, prices, product_id) {
            Ok(full) => full,
            Err(_) => {
                return Err(MyStoreError::ReconciliationError);
            },
        };
        let current = &context.conn.products.rows[at];
        let row = Product {
            id: current.id,
            name: match form.name {
                Some(name) => name,
                None => current.name.clone(),
            },
            stock: match form.stock {
                Some(stock) => stock,
                None => current.stock,
            },
            cost: match form.cost {
                Some(cost) => Some(cost),
                None => current.cost,
            },
            description: match form.description {
                Some(text) => Some(text),
                None => copy_text(&current.description),
            },
            user_id: current.user_id,
        };
        let product = row.duplicate();
        proof {
            update_keeps_ids(context.conn.products@, at as int, row);
        }
        context.conn.products.rows.set(at, row);
        Ok(FullProduct { product, price_products })
    }

    /// Removes the caller's product `id` together with its price links, and
    /// answers `true`. Where the caller has no such product nothing changes,
    /// and the answer is `true` as well.
    pub fn destroy(context: &mut Context, id: i32) -> (res: bool)
        requires
            old(context).conn.wf(),
        ensures
            res,
            final(context).conn.wf(),
            final(context).user_id == old(context).user_id,
            ({
                let before = old(context).conn;
                let owner = old(context).user_id;
                if find_product(before.products@.rows, owner, id) is None {
                    *final(context) == *old(context)
                } else {
                    let at = choose|i: int| product_at(before.products@.rows, i, owner, id);
                    &&& final(context).conn.products@ == (TableView {
                        rows: before.products@.rows.remove(at),
                        ..before.products@
                    })
                    &&& final(context).conn.prices_products@ == (TableView {
                        rows: links_without(before.prices_products@.rows, None, Some(id)),
                        ..before.prices_products@
                    })
                    &&& final(context).conn == (Store {
                        products: final(context).conn.products,
                        prices_products: final(context).conn.prices_products,
                        ..before
                    })
                }
            }),
    {
        let owner = context.user_id;
        let at = match product_position(&context.conn.products, owner, id) {
            Some(i) => i,
            None => {
                return true;
            },
        };
        proof {
            product_is_at(context.conn.products@, at as int, owner, id);
            remove_keeps_ids(context.conn.products@, at as int);
        }
        context.conn.products.rows.remove(at);
        drop_links(&mut context.conn.prices_products, None, Some(id));
        true
    }

    /// The caller's product `product_id` with its links and their price tiers,
    /// or `NotFound` where the caller has no such product.
    pub fn show(context: &Context, product_id: i32) -> (res: Result<FullProduct, MyStoreError>)
        requires
            context.conn.wf(),
        ensures
            match find_product(context.conn.products@.rows, context.user_id, product_id) {
                Some(product) => {
                    &&& res is Ok
                    &&& res->Ok_0.product == product
                    &&& res->Ok_0.price_products@ == joined_links(
                        context.conn.prices_products@.rows,
                        context.conn.prices@.rows,
                        context.user_id,
                        product_id,
                    )
                },
                None => res is Err && res->Err_0 is NotFound,
            },
    {
        match product_position(&context.conn.products, context.user_id, product_id) {
            Some(i) => {
                proof {
                    product_is_at(context.conn.products@, i as int, context.user_id, product_id);
                }
                let product = context.conn.products.rows[i].duplicate();
                let price_products = load_links(context, product_id);
                Ok(FullProduct { product, price_products })
            },
            None => Err(MyStoreError::NotFound),
        }
    }
}

} // verus!
