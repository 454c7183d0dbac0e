use storefront_catalog::handlers::{create_banner, create_product, delete_product, get_banners, get_products, ProductQuery};
use storefront_catalog::models::{
    CreateBannerRequest, CreateCategoryRequest, CreateProductRequest, DeleteProductRequest, EntityId, Price, Timestamp,
};
use storefront_catalog::response::{status_of, store_failure, Created, Deleted, StatusCode, StoreError};
use storefront_catalog::store::Catalog;

fn id(bits: u128) -> EntityId {
    EntityId { bits }
}

fn at(micros: i64) -> Timestamp {
    Timestamp { micros }
}

fn category_request(slug: &str) -> CreateCategoryRequest {
    CreateCategoryRequest { name: slug.to_uppercase(), slug: slug.to_string(), description: None, icon_url: None }
}

fn product_request(category_id: u128, slug: &str, display_order: Option<i32>) -> CreateProductRequest {
    CreateProductRequest {
        category_id: id(category_id),
        name: format!("Name of {}", slug),
        slug: slug.to_string(),
        description: Some("described".to_string()),
        price: Price { bits: 19.5f64.to_bits() },
        image_url: None,
        platform: Some("web".to_string()),
        version: None,
        display_order,
    }
}

fn banner_request(display_order: Option<i32>) -> CreateBannerRequest {
    CreateBannerRequest {
        image_url: "http://x/img.png".to_string(),
        title: None,
        description: None,
        link_url: None,
        display_order,
    }
}

#[test]
fn an_insert_is_answered_with_success_and_the_identifier() {
    assert_eq!(create_product(Ok(id(42))), Ok(Created { success: true, id: id(42) }));
    assert_eq!(create_banner(Ok(id(43))), Ok(Created { success: true, id: id(43) }));
}

#[test]
fn a_refused_insert_is_a_server_failure() {
    for error in [StoreError::UniqueViolation, StoreError::ForeignKeyViolation, StoreError::Unavailable] {
        assert_eq!(create_product(Err(error)), Err(StatusCode::InternalServerError));
        assert_eq!(create_banner(Err(error)), Err(StatusCode::InternalServerError));
        assert_eq!(delete_product(Err(error)), Err(StatusCode::InternalServerError));
        assert_eq!(store_failure(error), StatusCode::InternalServerError);
    }
}

#[test]
fn a_delete_is_a_success_however_many_rows_it_deleted() {
    assert_eq!(delete_product(Ok(0)), Ok(Deleted { success: true }));
    assert_eq!(delete_product(Ok(1)), Ok(Deleted { success: true }));
    assert_eq!(delete_product(Ok(u64::MAX)), Ok(Deleted { success: true }));
}

#[test]
fn an_answer_is_sent_with_success_and_a_failure_with_its_status() {
    assert_eq!(status_of(&create_product(Ok(id(1)))).as_u16(), 200);
    assert_eq!(status_of(&delete_product(Ok(0))).as_u16(), 200);
    assert_eq!(status_of(&get_banners(Ok(Vec::new()))).as_u16(), 200);
    assert_eq!(status_of(&create_banner(Err(StoreError::Unavailable))).as_u16(), 500);
    assert_eq!(status_of(&get_banners(Err(StoreError::Unavailable))).as_u16(), 500);
}

#[test]
fn statuses_have_their_numbers() {
    assert_eq!(StatusCode::Success.as_u16(), 200);
    assert_eq!(StatusCode::InternalServerError.as_u16(), 500);
}

#[test]
fn a_display_order_left_out_is_zero() {
    assert_eq!(product_request(1, "a", None).display_order_or_default(), 0);
    assert_eq!(product_request(1, "a", Some(7)).display_order_or_default(), 7);
    assert_eq!(product_request(1, "a", Some(-3)).display_order_or_default(), -3);
    assert_eq!(banner_request(None).display_order_or_default(), 0);
    assert_eq!(banner_request(Some(2)).display_order_or_default(), 2);
    assert_eq!(banner_request(Some(i32::MIN)).display_order_or_default(), i32::MIN);
}

#[test]
fn a_product_created_without_display_order_is_stored_with_zero() {
    let mut store = Catalog::new();
    store.insert_category(id(1), at(0), category_request("games")).unwrap();
    let inserted = store.insert_product(id(10), at(5), product_request(1, "chess", None));
    assert_eq!(create_product(inserted), Ok(Created { success: true, id: id(10) }));
    assert_eq!(store.products.len(), 1);
    assert_eq!(store.products[0].display_order, 0);
}

#[test]
fn a_created_banner_is_stored_as_requested_and_not_active() {
    let mut store = Catalog::new();
    let inserted = store.insert_banner(id(77), at(1_000), banner_request(Some(2)));
    assert_eq!(create_banner(inserted), Ok(Created { success: true, id: id(77) }));
    assert_eq!(store.banners.len(), 1);
    let row = &store.banners[0];
    assert_eq!(row.id, id(77));
    assert_eq!(row.image_url, "http://x/img.png");
    assert_eq!(row.title, None);
    assert_eq!(row.description, None);
    assert_eq!(row.link_url, None);
    assert_eq!(row.display_order, 2);
    assert!(!row.is_active);
    assert_eq!(row.created_at, at(1_000));
    assert_eq!(row.updated_at, at(1_000));
    assert_eq!(get_banners(Ok(store.banners.clone())).unwrap().len(), 0);
}

#[test]
fn a_created_banner_is_listed_once_it_is_active() {
    let mut store = Catalog::new();
    let mut req = banner_request(Some(4));
    req.title = Some("Title".to_string());
    req.description = Some("Text".to_string());
    req.link_url = Some("http://x/go".to_string());
    let created = create_banner(store.insert_banner(id(5), at(9), req)).unwrap();
    store.banners[0].is_active = true;
    let out = get_banners(Ok(store.banners.clone())).unwrap();
    assert_eq!(out.len(), 1);
    assert_eq!(out[0].id, created.id);
    assert_eq!(out[0].image_url, "http://x/img.png");
    assert_eq!(out[0].title.as_deref(), Some("Title"));
    assert_eq!(out[0].description.as_deref(), Some("Text"));
    assert_eq!(out[0].link_url.as_deref(), Some("http://x/go"));
    assert_eq!(out[0].display_order, 4);
}

#[test]
fn a_created_product_is_listed_once_it_is_active() {
    let mut store = Catalog::new();
    store.insert_category(id(1), at(0), category_request("games")).unwrap();
    let created = create_product(store.insert_product(id(10), at(5), product_request(1, "chess", Some(3)))).unwrap();
    assert_eq!(created.id, id(10));
    let before = get_products(Ok((store.products.clone(), store.categories.clone())), ProductQuery { category: None }).unwrap();
    assert_eq!(before.len(), 0);
    store.products[0].is_active = true;
    for category in [None, Some("games".to_string())] {
        let out = get_products(Ok((store.products.clone(), store.categories.clone())), ProductQuery { category }).unwrap();
        assert_eq!(out.len(), 1);
        assert_eq!(out[0].id, created.id);
        assert_eq!(out[0].category_id, id(1));
        assert_eq!(out[0].name, "Name of chess");
        assert_eq!(out[0].slug, "chess");
        assert_eq!(out[0].description.as_deref(), Some("described"));
        assert_eq!(f64::from_bits(out[0].price.bits), 19.5);
        assert_eq!(out[0].image_url, None);
        assert_eq!(out[0].platform.as_deref(), Some("web"));
        assert_eq!(out[0].version, None);
        assert!(!out[0].is_premium);
        assert_eq!(out[0].display_order, 3);
        assert_eq!(out[0].created_at, at(5));
        assert_eq!(out[0].updated_at, at(5));
    }
}

#[test]
fn deleting_a_product_that_does_not_exist_changes_nothing() {
    let mut store = Catalog::new();
    store.insert_category(id(1), at(0), category_request("games")).unwrap();
    store.insert_product(id(10), at(5), product_request(1, "chess", None)).unwrap();
    store.insert_product(id(11), at(6), product_request(1, "go", None)).unwrap();
    let req = DeleteProductRequest { id: id(999) };
    let deleted = store.delete_product(req);
    assert_eq!(deleted, 0);
    assert_eq!(delete_product(Ok(deleted)), Ok(Deleted { success: true }));
    assert_eq!(store.products.len(), 2);
    assert_eq!(store.products[0].id, id(10));
    assert_eq!(store.products[1].id, id(11));
    assert_eq!(store.categories.len(), 1);
}

#[test]
fn deleting_a_product_removes_that_row_alone() {
    let mut store = Catalog::new();
    store.insert_category(id(1), at(0), category_request("games")).unwrap();
    store.insert_product(id(10), at(5), product_request(1, "chess", None)).unwrap();
    store.insert_product(id(11), at(6), product_request(1, "go", None)).unwrap();
    store.insert_product(id(12), at(7), product_request(1, "shogi", None)).unwrap();
    assert_eq!(store.delete_product(DeleteProductRequest { id: id(11) }), 1);
    assert_eq!(store.products.iter().map(|p| p.id.bits).collect::<Vec<u128>>(), vec![10, 12]);
    assert!(!store.has_product(id(11)));
    assert_eq!(store.delete_product(DeleteProductRequest { id: id(11) }), 0);
    assert_eq!(store.products.len(), 2);
}

#[test]
fn the_store_refuses_what_its_schema_forbids() {
    let mut store = Catalog::new();
    assert_eq!(store.insert_product(id(10), at(5), product_request(1, "chess", None)), Err(StoreError::ForeignKeyViolation));
    assert_eq!(store.insert_category(id(1), at(0), category_request("games")), Ok(id(1)));
    assert_eq!(store.insert_category(id(1), at(0), category_request("other")), Err(StoreError::UniqueViolation));
    assert_eq!(store.insert_category(id(2), at(0), category_request("games")), Err(StoreError::UniqueViolation));
    assert_eq!(store.insert_product(id(10), at(5), product_request(1, "chess", None)), Ok(id(10)));
    assert_eq!(store.insert_product(id(10), at(5), product_request(1, "go", None)), Err(StoreError::UniqueViolation));
    assert_eq!(store.insert_product(id(11), at(5), product_request(1, "chess", None)), Err(StoreError::UniqueViolation));
    assert_eq!(store.insert_product(id(11), at(5), product_request(9, "chess", None)), Err(StoreError::UniqueViolation));
    assert_eq!(store.insert_product(id(11), at(5), product_request(9, "go", None)), Err(StoreError::ForeignKeyViolation));
    assert_eq!(store.insert_banner(id(10), at(5), banner_request(None)), Ok(id(10)));
    assert_eq!(store.insert_banner(id(10), at(6), banner_request(None)), Err(StoreError::UniqueViolation));
    assert_eq!(store.categories.len(), 1);
    assert_eq!(store.products.len(), 1);
    assert_eq!(store.banners.len(), 1);
}

#[test]
fn the_store_finds_its_rows() {
    let mut store = Catalog::new();
    assert!(!store.has_category(id(1)));
    store.insert_category(id(1), at(0), category_request("games")).unwrap();
    store.insert_product(id(10), at(5), product_request(1, "chess", None)).unwrap();
    store.insert_banner(id(20), at(5), banner_request(None)).unwrap();
    assert!(store.has_category(id(1)));
    assert!(!store.has_category(id(10)));
    assert!(store.has_category_slug(&"games".to_string()));
    assert!(!store.has_category_slug(&"chess".to_string()));
    assert!(store.has_product(id(10)));
    assert!(!store.has_product(id(1)));
    assert!(store.has_product_slug(&"chess".to_string()));
    assert!(!store.has_product_slug(&"games".to_string()));
    assert!(store.has_banner(id(20)));
    assert!(!store.has_banner(id(10)));
}

#[test]
fn a_new_category_is_stored_with_defaults() {
    let mut store = Catalog::new();
    let mut req = category_request("games");
    req.description = Some("All games".to_string());
    req.icon_url = Some("http://x/icon.png".to_string());
    store.insert_category(id(1), at(3), req).unwrap();
    let row = &store.categories[0];
    assert_eq!(row.id, id(1));
    assert_eq!(row.name, "GAMES");
    assert_eq!(row.slug, "games");
    assert_eq!(row.description.as_deref(), Some("All games"));
    assert_eq!(row.icon_url.as_deref(), Some("http://x/icon.png"));
    assert_eq!(row.display_order, 0);
    assert!(!row.is_active);
    assert_eq!(row.created_at, at(3));
}
