use mystore::errors::MyStoreError;
use mystore::models::price::{
    Change, FormPrice, FormPriceProduct, FormPriceProductsToUpdate, FullPriceProduct, Price,
    PriceProduct, PriceProductToUpdate,
};
use mystore::models::product::{FormProduct, Product};
use mystore::models::{create_context, Context, Float64};
use mystore::store::Store;

fn quantity(value: f64) -> Float64 {
    Float64 { bits: value.to_bits() }
}

fn form_price(name: &str) -> FormPrice {
    FormPrice { id: None, name: Some(name.to_string()), user_id: None }
}

fn form_product(name: &str, stock: f64, cost: i32, description: &str) -> FormProduct {
    FormProduct {
        id: None,
        name: Some(name.to_string()),
        stock: Some(quantity(stock)),
        cost: Some(cost),
        description: Some(description.to_string()),
        user_id: None,
    }
}

fn keep(price_id: i32, amount: i32) -> PriceProductToUpdate {
    PriceProductToUpdate {
        to_delete: false,
        price_product: FormPriceProduct {
            id: None,
            product_id: None,
            user_id: None,
            price_id,
            amount: Some(amount),
        },
    }
}

fn delete(link_id: i32, price_id: i32) -> PriceProductToUpdate {
    PriceProductToUpdate {
        to_delete: true,
        price_product: FormPriceProduct {
            id: Some(link_id),
            product_id: None,
            user_id: None,
            price_id,
            amount: None,
        },
    }
}

fn records(data: Vec<PriceProductToUpdate>) -> FormPriceProductsToUpdate {
    FormPriceProductsToUpdate { data }
}

fn none() -> FormPriceProductsToUpdate {
    records(vec![])
}

fn pairs(rows: &[FullPriceProduct]) -> Vec<(String, Option<i32>)> {
    rows.iter().map(|r| (r.price.name.clone(), r.price_product.amount)).collect()
}

fn links(context: &Context) -> Vec<PriceProduct> {
    context.conn.prices_products.rows.clone()
}

/// A caller with the price tiers "Discount" and "Normal".
fn shop(user_id: i32) -> (Context, i32, i32) {
    let mut context = create_context(user_id, Store::new());
    let discount = Price::create(&mut context, form_price("Discount")).unwrap();
    let normal = Price::create(&mut context, form_price("Normal")).unwrap();
    (context, discount.id, normal.id)
}

#[test]
fn product_test_test() {
    let (mut context, discount, normal) = shop(1);
    let all_prices = records(vec![keep(discount, 10), keep(normal, 15)]);

    let shoe = Product::create(
        &mut context,
        form_product("Shoe", 10.4, 1892, "not just your regular shoes, this one will make you jump"),
        all_prices.clone(),
    )
    .unwrap();
    let hat = Product::create(
        &mut context,
        form_product("Hat", 15.0, 2045, "Just a regular hat"),
        all_prices.clone(),
    )
    .unwrap();
    let pants = Product::create(
        &mut context,
        form_product("Pants", 25.0, 3025, "beautiful black pants that will make you look thin"),
        all_prices.clone(),
    )
    .unwrap();

    let shown = Product::show(&context, shoe.product.id).unwrap();
    assert_eq!(shown.product, shoe.product);
    assert_eq!(
        pairs(&shown.price_products),
        vec![("Discount".to_string(), Some(10)), ("Normal".to_string(), Some(15))]
    );

    let updated_hat = FormProduct {
        id: None,
        name: Some("Hat".to_string()),
        stock: Some(quantity(30.0)),
        cost: Some(3025),
        description: Some(
            "A hat with particular color, a dark black shining and beautiful".to_string(),
        ),
        user_id: None,
    };
    let refused = Product::update(&mut context, updated_hat, all_prices.clone());
    assert!(matches!(refused, Err(MyStoreError::MissingId)));

    assert!(Product::destroy(&mut context, pants.product.id));
    assert!(matches!(Product::show(&context, pants.product.id), Err(MyStoreError::NotFound)));
    assert!(links(&context).iter().all(|l| l.product_id != pants.product.id));
    assert_eq!(links(&context).len(), 4);

    let listed = Product::list(&context, 10);
    assert_eq!(listed.data.len(), 2);
    let listed_hat = &listed.data[1];
    assert_eq!(listed_hat.product.id, hat.product.id);
    assert_eq!(listed_hat.product.name, "Hat");
    assert_eq!(listed_hat.product.cost, Some(2045));
    assert_eq!(listed_hat.product.description, Some("Just a regular hat".to_string()));
    assert_eq!(listed_hat.product.stock, quantity(15.0));
    assert_eq!(
        pairs(&listed_hat.price_products),
        vec![("Discount".to_string(), Some(10)), ("Normal".to_string(), Some(15))]
    );
}

#[test]
fn reconcile_hat_then_delete_discount_and_raise_normal() {
    let (mut context, discount, normal) = shop(1);
    let hat = Product::create(
        &mut context,
        form_product("Hat", 15.0, 2045, "Just a regular hat"),
        records(vec![keep(discount, 10), keep(normal, 15)]),
    )
    .unwrap();
    assert_eq!(hat.price_products.len(), 2);
    let discount_link = hat.price_products[0].price_product;
    let normal_link = hat.price_products[1].price_product;
    assert_eq!(discount_link.amount, Some(10));
    assert_eq!(normal_link.amount, Some(15));

    let result = PriceProductToUpdate::batch_update(
        &mut context,
        records(vec![delete(discount_link.id, discount), keep(normal, 20)]),
        hat.product.id,
    )
    .unwrap();
    assert_eq!(pairs(&result), vec![("Normal".to_string(), Some(20))]);
    assert_eq!(result[0].price_product.id, normal_link.id);

    let expected = PriceProduct {
        id: normal_link.id,
        price_id: normal,
        product_id: hat.product.id,
        user_id: 1,
        amount: Some(20),
    };
    assert_eq!(links(&context), vec![expected]);
    let shown = Product::show(&context, hat.product.id).unwrap();
    assert_eq!(pairs(&shown.price_products), vec![("Normal".to_string(), Some(20))]);
}

#[test]
fn reconciling_twice_changes_nothing() {
    let (mut context, discount, normal) = shop(1);
    let hat = Product::create(
        &mut context,
        form_product("Hat", 15.0, 2045, "Just a regular hat"),
        records(vec![keep(discount, 10)]),
    )
    .unwrap();
    let old_link = hat.price_products[0].price_product.id;
    let batch = records(vec![
        keep(normal, 15),
        delete(old_link, discount),
        keep(normal, 20),
        delete(9999, normal),
        keep(discount, 7),
    ]);

    let first = PriceProductToUpdate::batch_update(&mut context, batch.clone(), hat.product.id)
        .unwrap();
    let after_first = links(&context);
    let counter = context.conn.prices_products.next_id;
    let second = PriceProductToUpdate::batch_update(&mut context, batch.clone(), hat.product.id)
        .unwrap();

    assert_eq!(links(&context), after_first);
    assert_eq!(context.conn.prices_products.next_id, counter);
    assert_eq!(first.len(), 3);
    assert_eq!(second.len(), 3);
    for (a, b) in first.iter().zip(second.iter()) {
        assert_eq!(a.price_product, b.price_product);
        assert_eq!(a.price, b.price);
    }
    assert_eq!(
        pairs(&first),
        vec![
            ("Normal".to_string(), Some(15)),
            ("Normal".to_string(), Some(20)),
            ("Discount".to_string(), Some(7)),
        ]
    );
    assert_eq!(after_first.len(), 2);
    assert!(context.conn.is_consistent());
}

#[test]
fn deleting_what_the_batch_itself_creates_is_the_one_case_that_repeats_differently() {
    let (mut context, discount, _normal) = shop(1);
    let batch = records(vec![delete(1, discount), keep(discount, 10)]);
    let first = PriceProductToUpdate::batch_update(&mut context, batch.clone(), 5).unwrap();
    assert_eq!(first[0].price_product.id, 1);
    let second = PriceProductToUpdate::batch_update(&mut context, batch.clone(), 5).unwrap();
    assert_eq!(second[0].price_product.id, 2);
    assert_eq!(second[0].price_product.amount, Some(10));
    assert_eq!(links(&context).len(), 1);
    assert!(context.conn.is_consistent());
}

#[test]
fn rows_come_back_in_the_order_written_and_deletions_do_not() {
    let (mut context, discount, normal) = shop(1);
    let result = PriceProductToUpdate::batch_update(
        &mut context,
        records(vec![keep(normal, 15), delete(1, discount), keep(discount, 10)]),
        5,
    )
    .unwrap();
    assert_eq!(
        pairs(&result),
        vec![("Normal".to_string(), Some(15)), ("Discount".to_string(), Some(10))]
    );
    assert_eq!(result[0].price_product.id, 1);
    assert_eq!(result[1].price_product.id, 2);
    assert_eq!(result[0].price_product.product_id, 5);
    assert_eq!(result[0].price_product.user_id, 1);
}

#[test]
fn one_failing_record_leaves_the_store_untouched() {
    let (mut context, discount, normal) = shop(1);
    let hat = Product::create(
        &mut context,
        form_product("Hat", 15.0, 2045, "Just a regular hat"),
        records(vec![keep(discount, 10), keep(normal, 15)]),
    )
    .unwrap();
    let before = links(&context);
    let counter = context.conn.prices_products.next_id;
    let old_link = hat.price_products[0].price_product.id;

    let no_such_price = 4711;
    let result = PriceProductToUpdate::batch_update(
        &mut context,
        records(vec![delete(old_link, discount), keep(normal, 99), keep(no_such_price, 1)]),
        hat.product.id,
    );
    assert!(matches!(result, Err(MyStoreError::ReconciliationError)));
    assert_eq!(links(&context), before);
    assert_eq!(context.conn.prices_products.next_id, counter);
    assert_eq!(context.conn.prices.rows.len(), 2);
    assert_eq!(context.conn.products.rows.len(), 1);
}

#[test]
fn a_product_is_not_created_when_its_links_fail() {
    let (mut context, discount, _normal) = shop(1);
    let result = Product::create(
        &mut context,
        form_product("Hat", 15.0, 2045, "Just a regular hat"),
        records(vec![keep(discount, 10), keep(4711, 1)]),
    );
    assert!(matches!(result, Err(MyStoreError::ReconciliationError)));
    assert!(context.conn.products.rows.is_empty());
    assert!(context.conn.prices_products.rows.is_empty());
    assert_eq!(context.conn.products.next_id, 1);
}

#[test]
fn owner_and_product_of_a_link_come_from_the_call() {
    let (mut context, discount, _normal) = shop(1);
    let forged = PriceProductToUpdate {
        to_delete: false,
        price_product: FormPriceProduct {
            id: Some(77),
            product_id: Some(900),
            user_id: Some(2),
            price_id: discount,
            amount: Some(3),
        },
    };
    let result =
        PriceProductToUpdate::batch_update(&mut context, records(vec![forged]), 5).unwrap();
    let link = result[0].price_product;
    assert_eq!(link.id, 1);
    assert_eq!(link.product_id, 5);
    assert_eq!(link.user_id, 1);
    assert_eq!(link.price_id, discount);
    assert_eq!(link.amount, Some(3));
}

#[test]
fn a_flag_without_an_id_is_a_record_to_keep() {
    let (mut context, discount, _normal) = shop(1);
    let flagged = PriceProductToUpdate {
        to_delete: true,
        price_product: FormPriceProduct {
            id: None,
            product_id: None,
            user_id: None,
            price_id: discount,
            amount: Some(3),
        },
    };
    assert!(!flagged.is_deletion());
    assert!(delete(1, discount).is_deletion());
    assert!(!keep(discount, 1).is_deletion());
    assert_eq!(flagged.change(), Change::Keep(flagged.price_product));
    assert_eq!(delete(1, discount).change(), Change::Delete(1));
    assert_eq!(keep(discount, 1).change(), Change::Keep(keep(discount, 1).price_product));
    let result =
        PriceProductToUpdate::batch_update(&mut context, records(vec![flagged]), 5).unwrap();
    assert_eq!(pairs(&result), vec![("Discount".to_string(), Some(3))]);
}

#[test]
fn other_owners_are_out_of_reach() {
    let (first, discount, _normal) = shop(1);
    let mut theirs = create_context(1, first.conn);
    let made = PriceProductToUpdate::batch_update(&mut theirs, records(vec![keep(discount, 10)]), 5)
        .unwrap();
    let their_link = made[0].price_product;

    let mut mine = create_context(2, theirs.conn);
    assert!(matches!(Price::find(&mine, discount), Err(MyStoreError::NotFound)));
    assert!(Price::list(&mine).data.is_empty());

    let before = links(&mine);
    let removed =
        PriceProductToUpdate::batch_update(&mut mine, records(vec![delete(their_link.id, discount)]), 5)
            .unwrap();
    assert!(removed.is_empty());
    assert_eq!(links(&mine), before);

    let taken = PriceProductToUpdate::batch_update(&mut mine, records(vec![keep(discount, 1)]), 5);
    assert!(matches!(taken, Err(MyStoreError::ReconciliationError)));
    assert_eq!(links(&mine), before);

    assert!(Price::destroy(&mut mine, discount));
    assert_eq!(mine.conn.prices.rows.len(), 2);
    let renamed = Price::update(
        &mut mine,
        FormPrice { id: Some(discount), name: Some("Mine".to_string()), user_id: None },
    );
    assert!(matches!(renamed, Err(MyStoreError::NotFound)));
}

#[test]
fn direct_link_operations() {
    let mut store = Store::new();
    let table = &mut store.prices_products;
    let a = PriceProduct::upsert(table, 7, 3, 4, Some(10)).unwrap();
    assert_eq!(
        a,
        PriceProduct { id: 1, price_id: 4, product_id: 3, user_id: 7, amount: Some(10) }
    );
    let b = PriceProduct::upsert(table, 7, 3, 4, None).unwrap();
    assert_eq!(b, PriceProduct { id: 1, price_id: 4, product_id: 3, user_id: 7, amount: None });
    assert_eq!(table.rows.len(), 1);
    assert_eq!(PriceProduct::upsert(table, 8, 3, 4, Some(1)), None);
    let c = PriceProduct::upsert(table, 8, 3, 5, Some(1)).unwrap();
    assert_eq!(c.id, 2);
    assert!(!PriceProduct::delete_owned(table, 8, 1));
    assert!(!PriceProduct::delete_owned(table, 7, 2));
    assert!(PriceProduct::delete_owned(table, 7, 1));
    assert!(!PriceProduct::delete_owned(table, 7, 1));
    assert_eq!(table.rows, vec![c]);
    assert_eq!(table.next_id, 3);
}

#[test]
fn no_id_left_for_a_link() {
    let mut store = Store::new();
    store.prices_products.next_id = i32::MAX;
    assert_eq!(PriceProduct::upsert(&mut store.prices_products, 7, 3, 4, Some(10)), None);
    assert!(store.prices_products.rows.is_empty());
    store.prices_products.next_id = i32::MAX - 1;
    let last = PriceProduct::upsert(&mut store.prices_products, 7, 3, 4, Some(10)).unwrap();
    assert_eq!(last.id, i32::MAX - 1);
    assert_eq!(store.prices_products.next_id, i32::MAX);
}

#[test]
fn price_tiers() {
    let (mut context, discount, normal) = shop(1);
    assert_eq!(discount, 1);
    assert_eq!(normal, 2);
    let found = Price::find(&context, normal).unwrap();
    assert_eq!(found, Price { id: 2, name: "Normal".to_string(), user_id: 1 });
    assert!(matches!(Price::find(&context, 3), Err(MyStoreError::NotFound)));

    let forged = FormPrice { id: Some(40), name: Some("Retail".to_string()), user_id: Some(9) };
    let retail = Price::create(&mut context, forged).unwrap();
    assert_eq!(retail, Price { id: 3, name: "Retail".to_string(), user_id: 1 });

    let nameless = Price::create(&mut context, FormPrice { id: None, name: None, user_id: None });
    assert!(matches!(nameless, Err(MyStoreError::ConstraintViolation)));

    let renamed = Price::update(
        &mut context,
        FormPrice { id: Some(discount), name: Some("Sale".to_string()), user_id: Some(9) },
    )
    .unwrap();
    assert_eq!(renamed, Price { id: 1, name: "Sale".to_string(), user_id: 1 });
    let kept = Price::update(&mut context, FormPrice { id: Some(normal), name: None, user_id: None })
        .unwrap();
    assert_eq!(kept.name, "Normal");
    let unnamed = Price::update(&mut context, form_price("X"));
    assert!(matches!(unnamed, Err(MyStoreError::MissingId)));

    let names: Vec<String> = Price::list(&context).data.iter().map(|p| p.name.clone()).collect();
    assert_eq!(names, vec!["Sale", "Normal", "Retail"]);

    PriceProductToUpdate::batch_update(
        &mut context,
        records(vec![keep(discount, 1), keep(normal, 2)]),
        5,
    )
    .unwrap();
    assert!(Price::destroy(&mut context, discount));
    assert!(Price::destroy(&mut context, discount));
    let left = links(&context);
    assert_eq!(left.len(), 1);
    assert_eq!(left[0].price_id, normal);
    let names: Vec<String> = Price::list(&context).data.iter().map(|p| p.name.clone()).collect();
    assert_eq!(names, vec!["Normal", "Retail"]);
}

#[test]
fn product_fields() {
    let (mut context, discount, _normal) = shop(1);
    let forged = FormProduct {
        id: Some(50),
        name: Some("Hat".to_string()),
        stock: Some(quantity(15.0)),
        cost: None,
        description: None,
        user_id: Some(9),
    };
    let hat = Product::create(&mut context, forged, none()).unwrap().product;
    assert_eq!(hat.id, 1);
    assert_eq!(hat.user_id, 1);
    assert_eq!(hat.cost, None);
    assert_eq!(hat.stock.bits, 15.0f64.to_bits());

    let nameless = FormProduct { name: None, ..form_product("x", 1.0, 1, "x") };
    assert!(matches!(
        Product::create(&mut context, nameless, none()),
        Err(MyStoreError::ConstraintViolation)
    ));
    let stockless = FormProduct { stock: None, ..form_product("x", 1.0, 1, "x") };
    assert!(matches!(
        Product::create(&mut context, stockless, none()),
        Err(MyStoreError::ConstraintViolation)
    ));

    let change = FormProduct {
        id: Some(hat.id),
        name: None,
        stock: Some(quantity(30.0)),
        cost: Some(3025),
        description: None,
        user_id: Some(9),
    };
    let changed = Product::update(&mut context, change, records(vec![keep(discount, 10)])).unwrap();
    assert_eq!(changed.product.name, "Hat");
    assert_eq!(changed.product.stock, quantity(30.0));
    assert_eq!(changed.product.cost, Some(3025));
    assert_eq!(changed.product.user_id, 1);
    assert_eq!(pairs(&changed.price_products), vec![("Discount".to_string(), Some(10))]);
    assert_eq!(Product::show(&context, hat.id).unwrap().product, changed.product);

    let failing = FormProduct { id: Some(hat.id), ..form_product("Cap", 1.0, 1, "x") };
    let result = Product::update(&mut context, failing, records(vec![keep(4711, 1)]));
    assert!(matches!(result, Err(MyStoreError::ReconciliationError)));
    assert_eq!(Product::show(&context, hat.id).unwrap().product.name, "Hat");

    let absent = FormProduct { id: Some(99), ..form_product("Cap", 1.0, 1, "x") };
    assert!(matches!(Product::update(&mut context, absent, none()), Err(MyStoreError::NotFound)));
    assert!(Product::destroy(&mut context, 99));
    assert_eq!(context.conn.products.rows.len(), 1);
}

#[test]
fn listing_products_respects_owner_and_limit() {
    let (mut context, _discount, _normal) = shop(1);
    for name in ["A", "B", "C"] {
        Product::create(&mut context, form_product(name, 1.0, 1, "x"), none()).unwrap();
    }
    let names = |limit: i32, context: &Context| -> Vec<String> {
        Product::list(context, limit).data.iter().map(|p| p.product.name.clone()).collect()
    };
    assert_eq!(names(2, &context), vec!["A", "B"]);
    assert_eq!(names(3, &context), vec!["A", "B", "C"]);
    assert_eq!(names(10, &context), vec!["A", "B", "C"]);
    assert!(names(0, &context).is_empty());
    assert!(names(-1, &context).is_empty());
    let other = create_context(2, context.conn);
    assert!(names(10, &other).is_empty());
}

#[test]
fn a_store_that_breaks_its_rules_is_told_apart() {
    let (mut context, discount, normal) = shop(1);
    PriceProductToUpdate::batch_update(
        &mut context,
        records(vec![keep(discount, 1), keep(normal, 2)]),
        5,
    )
    .unwrap();
    let mut store = context.conn;
    assert!(store.is_consistent());
    assert!(Store::new().is_consistent());

    store.prices_products.rows[1].price_id = discount;
    assert!(!store.is_consistent());
    store.prices_products.rows[1].price_id = normal;
    assert!(store.is_consistent());

    store.prices.rows[1].id = store.prices.rows[0].id;
    assert!(!store.is_consistent());
    store.prices.rows[1].id = 2;
    assert!(store.is_consistent());

    store.prices.next_id = 2;
    assert!(!store.is_consistent());
}
