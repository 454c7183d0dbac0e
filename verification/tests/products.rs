use storefront_catalog::handlers::{get_products, ProductQuery};
use storefront_catalog::models::{Category, EntityId, Price, Product, Timestamp};
use storefront_catalog::response::{StatusCode, StoreError};

fn category(id: u128, slug: &str, is_active: bool) -> Category {
    Category {
        id: EntityId { bits: id },
        name: slug.to_uppercase(),
        slug: slug.to_string(),
        description: None,
        icon_url: None,
        display_order: 0,
        is_active,
        created_at: Timestamp { micros: 0 },
        updated_at: Timestamp { micros: 0 },
    }
}

fn product(id: u128, category_id: u128, display_order: i32, is_active: bool, created_at: i64) -> Product {
    Product {
        id: EntityId { bits: id },
        category_id: EntityId { bits: category_id },
        name: format!("Product {}", id),
        slug: format!("product-{}", id),
        description: None,
        price: Price { bits: 9.99f64.to_bits() },
        image_url: None,
        platform: None,
        version: None,
        is_premium: false,
        is_active,
        display_order,
        created_at: Timestamp { micros: created_at },
        updated_at: Timestamp { micros: created_at },
    }
}

fn ids(rows: &[Product]) -> Vec<u128> {
    rows.iter().map(|p| p.id.bits).collect()
}

fn tables() -> (Vec<Product>, Vec<Category>) {
    let categories = vec![category(100, "games", true), category(200, "tools", false), category(300, "empty", true)];
    let products = vec![
        product(1, 100, 2, true, 10),
        product(2, 200, 1, true, 10),
        product(3, 100, 1, true, 30),
        product(4, 100, 1, false, 40),
        product(5, 200, 1, true, 20),
        product(6, 200, 0, false, 50),
    ];
    (products, categories)
}

fn query(category: Option<&str>) -> ProductQuery {
    ProductQuery { category: category.map(|s| s.to_string()) }
}

#[test]
fn without_a_category_every_active_product_is_listed() {
    let out = get_products(Ok(tables()), query(None)).unwrap();
    assert_eq!(ids(&out), vec![3, 5, 2, 1]);
    assert!(out.iter().all(|p| p.is_active));
}

#[test]
fn with_a_category_only_its_active_products_are_listed() {
    let out = get_products(Ok(tables()), query(Some("games"))).unwrap();
    assert_eq!(ids(&out), vec![3, 1]);
}

#[test]
fn an_inactive_category_still_lists_its_active_products() {
    let out = get_products(Ok(tables()), query(Some("tools"))).unwrap();
    assert_eq!(ids(&out), vec![5, 2]);
}

#[test]
fn an_unknown_or_empty_category_lists_nothing() {
    assert_eq!(get_products(Ok(tables()), query(Some("nothing"))).unwrap().len(), 0);
    assert_eq!(get_products(Ok(tables()), query(Some("empty"))).unwrap().len(), 0);
    assert_eq!(get_products(Ok(tables()), query(Some(""))).unwrap().len(), 0);
    assert_eq!(get_products(Ok(tables()), query(Some("Games"))).unwrap().len(), 0);
}

#[test]
fn the_full_listing_is_the_union_over_the_categories() {
    let mut all = ids(&get_products(Ok(tables()), query(None)).unwrap());
    let mut union: Vec<u128> = Vec::new();
    for slug in ["games", "tools", "empty"] {
        union.extend(ids(&get_products(Ok(tables()), query(Some(slug))).unwrap()));
    }
    all.sort();
    union.sort();
    assert_eq!(all, union);
}

#[test]
fn of_two_products_with_one_display_order_the_newer_comes_first() {
    let categories = vec![category(100, "games", true)];
    let products = vec![product(1, 100, 1, true, 1_000), product(2, 100, 1, true, 2_000)];
    let out = get_products(Ok((products, categories)), query(None)).unwrap();
    assert_eq!(ids(&out), vec![2, 1]);
}

#[test]
fn a_product_without_its_category_is_listed_only_without_a_filter() {
    let categories = vec![category(100, "games", true)];
    let products = vec![product(1, 999, 0, true, 0)];
    let all = get_products(Ok((products.clone(), categories.clone())), query(None)).unwrap();
    assert_eq!(ids(&all), vec![1]);
    let filtered = get_products(Ok((products, categories)), query(Some("games"))).unwrap();
    assert_eq!(filtered.len(), 0);
}

#[test]
fn listed_products_keep_every_field() {
    let mut row = product(7, 100, 4, true, 77);
    row.description = Some("A thing".to_string());
    row.image_url = Some("http://x/7.png".to_string());
    row.platform = Some("linux".to_string());
    row.version = Some("1.2.3".to_string());
    row.is_premium = true;
    row.price = Price { bits: 0.1f64.to_bits() };
    let out = get_products(Ok((vec![row], vec![category(100, "games", true)])), query(Some("games"))).unwrap();
    assert_eq!(out.len(), 1);
    assert_eq!(out[0].id, EntityId { bits: 7 });
    assert_eq!(out[0].category_id, EntityId { bits: 100 });
    assert_eq!(out[0].name, "Product 7");
    assert_eq!(out[0].slug, "product-7");
    assert_eq!(out[0].description.as_deref(), Some("A thing"));
    assert_eq!(f64::from_bits(out[0].price.bits), 0.1);
    assert_eq!(out[0].image_url.as_deref(), Some("http://x/7.png"));
    assert_eq!(out[0].platform.as_deref(), Some("linux"));
    assert_eq!(out[0].version.as_deref(), Some("1.2.3"));
    assert!(out[0].is_premium);
    assert_eq!(out[0].display_order, 4);
    assert_eq!(out[0].created_at, Timestamp { micros: 77 });
}

#[test]
fn a_failing_store_is_a_server_failure_for_products() {
    assert_eq!(get_products(Err(StoreError::Unavailable), query(None)).err(), Some(StatusCode::InternalServerError));
    assert_eq!(get_products(Err(StoreError::Unavailable), query(Some("games"))).err(), Some(StatusCode::InternalServerError));
}
