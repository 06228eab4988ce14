//! The line items of a sale.

use crate::models::product::{
    find_product, product_is_at, product_position, FormProduct, Product,
};
use crate::models::{Context, Float64};
use crate::store::{Row, Table};
use vstd::prelude::*;

verus! {

/// A line item: so much of a product, sold within one sale.
#[derive(Debug, Clone, Copy, PartialEq, Eq)]
pub struct SaleProduct {
    pub id: i32,
    pub product_id: i32,
    pub sale_id: i32,
    pub amount: Float64,
    pub discount: i32,
    pub tax: i32,
    pub price: i32,
    pub total: Float64,
}

/// A line item together with its product.
#[derive(Debug, Clone)]
pub struct FullSaleProduct {
    pub sale_product: SaleProduct,
    pub product: Product,
}

/// The fields of a line item as a caller submits them.
#[derive(Debug, Clone, Copy, PartialEq, Eq)]
pub struct FormSaleProduct {
    pub id: Option<i32>,
    pub product_id: Option<i32>,
    pub sale_id: Option<i32>,
    pub amount: Option<Float64>,
    pub discount: Option<i32>,
    pub tax: Option<i32>,
    pub price: Option<i32>,
    pub total: Option<Float64>,
}

/// A submitted line item with the submitted fields of its product.
#[derive(Debug, Clone)]
pub struct FullFormSaleProduct {
    pub sale_product: FormSaleProduct,
    pub product: FormProduct,
}

/// The submitted line items of one sale, in order.
#[derive(Debug, Clone)]
pub struct FormSaleProducts {
    pub data: Vec<FullFormSaleProduct>,
}

impl Row for SaleProduct {
    open spec fn row_id(&self) -> i32 {
        self.id
    }

    fn id_of(&self) -> (res: i32) {
        self.id
    }
}

/// The line item that a submitted form describes, within the sale `sale_id`
/// and under `id`: neither comes from the form. `None` where the form lacks
/// the product, the amount, the discount, the tax, the price or the total.
pub open spec fn line_from(form: FormSaleProduct, sale_id: i32, id: i32) -> Option<SaleProduct> {
    if form.product_id is Some && form.amount is Some && form.discount is Some && form.tax is Some
        && form.price is Some && form.total is Some {
        Some(
            SaleProduct {
                id,
                product_id: form.product_id->Some_0,
                sale_id,
                amount: form.amount->Some_0,
                discount: form.discount->Some_0,
                tax: form.tax->Some_0,
                price: form.price->Some_0,
                total: form.total->Some_0,
            },
        )
    } else {
        None
    }
}

/// The line item after the fields that the form gives have replaced its own.
/// The id and the sale stay.
pub open spec fn line_with(row: SaleProduct, form: FormSaleProduct) -> SaleProduct {
    SaleProduct {
        id: row.id,
        product_id: if form.product_id is Some {
            form.product_id->Some_0
        } else {
            row.product_id
        },
        sale_id: row.sale_id,
        amount: if form.amount is Some {
            form.amount->Some_0
        } else {
            row.amount
        },
        discount: if form.discount is Some {
            form.discount->Some_0
        } else {
            row.discount
        },
        tax: if form.tax is Some {
            form.tax->Some_0
        } else {
            row.tax
        },
        price: if form.price is Some {
            form.price->Some_0
        } else {
            row.price
        },
        total: if form.total is Some {
            form.total->Some_0
        } else {
            row.total
        },
    }
}

/// The line items of the sale, in the table's order, each with its product as
/// `owner` sees it. A line item whose product the owner does not have is left
/// out.
pub open spec fn joined_lines(
    lines: Seq<SaleProduct>,
    products: Seq<Product>,
    owner: i32,
    sale_id: i32,
) -> Seq<FullSaleProduct>
    decreases lines.len(),
{
    if lines.len() == 0 {
        Seq::<FullSaleProduct>::empty()
    } else {
        let before = joined_lines(lines.drop_last(), products, owner, sale_id);
        let last = lines.last();
        if last.sale_id == sale_id && find_product(products, owner, last.product_id) is Some {
            before.push(
                FullSaleProduct {
                    sale_product: last,
                    product: find_product(products, owner, last.product_id)->Some_0,
                },
            )
        } else {
            before
        }
    }
}

/// The line items that are left when those of the sale go.
pub open spec fn lines_without_sale(lines: Seq<SaleProduct>, sale_id: i32) -> Seq<SaleProduct>
    decreases lines.len(),
{
    if lines.len() == 0 {
        lines
    } else {
        let before = lines_without_sale(lines.drop_last(), sale_id);
        if lines.last().sale_id == sale_id {
            before
        } else {
            before.push(lines.last())
        }
    }
}

/// The places of the sale's line items in the table, in ascending order.
pub open spec fn line_slots(lines: Seq<SaleProduct>, sale_id: i32) -> Seq<int>
    decreases lines.len(),
{
    if lines.len() == 0 {
        Seq::<int>::empty()
    } else {
        let before = line_slots(lines.drop_last(), sale_id);
        if lines.last().sale_id == sale_id {
            before.push(lines.len() - 1)
        } else {
            before
        }
    }
}

impl FormSaleProduct {
    /// The line item that the form describes, within the sale `sale_id` and
    /// under `id`.
    pub fn to_line(&self, sale_id: i32, id: i32) -> (res: Option<SaleProduct>)
        ensures
            res == line_from(*self, sale_id, id),
    {
        match (self.product_id, self.amount, self.discount, self.tax, self.price, self.total) {
            (Some(product_id), Some(amount), Some(discount), Some(tax), Some(price), Some(total)) => {
                Some(SaleProduct { id, product_id, sale_id, amount, discount, tax, price, total })
            },
            _ => None,
        }
    }

    /// The line item `row` with the fields that the form gives.
    pub fn apply_to(&self, row: SaleProduct) -> (res: SaleProduct)
        ensures
            res == line_with(row, *self),
    {
        SaleProduct {
            id: row.id,
            product_id: match self.product_id {
                Some(v) => v,
                None => row.product_id,
            },
            sale_id: row.sale_id,
            amount: match self.amount {
                Some(v) => v,
                None => row.amount,
            },
            discount: match self.discount {
                Some(v) => v,
                None => row.discount,
            },
            tax: match self.tax {
                Some(v) => v,
                None => row.tax,
            },
            price: match self.price {
                Some(v) => v,
                None => row.price,
            },
            total: match self.total {
                Some(v) => v,
                None => row.total,
            },
        }
    }
}

/// The line items of the sale `sale_id` with their products, for the caller.
pub fn load_lines(context: &Context, sale_id: i32) -> (res: Vec<FullSaleProduct>)
    requires
        context.conn.wf(),
    ensures
        res@ == joined_lines(
            context.conn.sale_products@.rows,
            context.conn.products@.rows,
            context.user_id,
            sale_id,
        ),
{
    let owner = context.user_id;
    let lines = &context.conn.sale_products.rows;
    let mut out: Vec<FullSaleProduct> = Vec::new();
    let mut i: usize = 0;
    while i < lines.len()
        invariant
            i <= lines.len(),
            context.conn.wf(),
            owner == context.user_id,
            lines@ == context.conn.sale_products@.rows,
            out@ == joined_lines(lines@.take(i as int), context.conn.products@.rows, owner, sale_id),
        decreases lines.len() - i,
    {
        let line = lines[i];
        proof {
            assert(lines@.take(i + 1).drop_last() =~= lines@.take(i as int));
        }
        if line.sale_id == sale_id {
            match product_position(&context.conn.products, owner, line.product_id) {
                Some(at) => {
                    proof {
                        product_is_at(context.conn.products@, at as int, owner, line.product_id);
                    }
                    out.push(
                        FullSaleProduct {
                            sale_product: line,
                            product: context.conn.products.rows[at].duplicate(),
                        },
                    );
                },
                None => {},
            }
        }
        i += 1;
    }
    proof {
        assert(lines@.take(i as int) =~= lines@);
    }
    out
}

/// A copy of the table of line items.
pub fn copy_lines(table: &Table<SaleProduct>) -> (res: Table<SaleProduct>)
    ensures
        res@ == table@,
{
    let mut rows: Vec<SaleProduct> = Vec::new();
    let mut i: usize = 0;
    while i < table.rows.len()
        invariant
            i <= table.rows.len(),
            rows@ == table.rows@.take(i as int),
        decreases table.rows.len() - i,
    {
        rows.push(table.rows[i]);
        assert(table.rows@.take(i + 1) =~= table.rows@.take(i as int).push(table.rows@[i as int]));
        i += 1;
    }
    assert(table.rows@.take(i as int) =~= table.rows@);
    Table { rows, next_id: table.next_id }
}

} // verus!
