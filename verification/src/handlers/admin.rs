//! The administrative operations: creating a product or a banner, and deleting
//! a product. Each function answers the caller once the store has carried out,
//! or refused, the statement.

use vstd::prelude::*;
use crate::handlers::products::{category_has_slug, lemma_products_of_category, selected};
use crate::listing::{is_listing, lemma_listing_holds_active_rows};
use crate::models::banner::{Banner, BannerView, CreateBannerRequestView};
use crate::models::product::{CreateProductRequestView, Product, ProductView};
use crate::models::scalar::EntityId;
use crate::store::{new_banner, new_product, CatalogView};
use crate::response::{store_failure, Created, Deleted, StatusCode, StoreError};

verus! {

/// Answers a request to create a product, given the identifier that the store
/// generated for the inserted row, or the store's failure.
///
/// An insert is answered with success and the new identifier. Every failure of
/// the store, a missing category and a slug already taken among them, is
/// answered with the server-failure status.
pub fn create_product(inserted: Result<EntityId, StoreError>) -> (response: Result<
    Created,
    StatusCode,
>)
    ensures
        match inserted {
            Ok(id) => response == Ok::<Created, StatusCode>(Created { success: true, id }),
            Err(_) => response == Err::<Created, StatusCode>(StatusCode::InternalServerError),
        },
{
    match inserted {
        Ok(id) => Ok(Created { success: true, id }),
        Err(error) => Err(store_failure(error)),
    }
}

/// Answers a request to delete a product, given the number of rows that the
/// store deleted, or the store's failure.
///
/// A delete is answered with success however many rows it deleted: deleting
/// a product that does not exist is no failure. A failure of the store is
/// answered with the server-failure status.
pub fn delete_product(deleted: Result<u64, StoreError>) -> (response: Result<Deleted, StatusCode>)
    ensures
        match deleted {
            Ok(_) => response == Ok::<Deleted, StatusCode>(Deleted { success: true }),
            Err(_) => response == Err::<Deleted, StatusCode>(StatusCode::InternalServerError),
        },
{
    match deleted {
        Ok(_) => Ok(Deleted { success: true }),
        Err(error) => Err(store_failure(error)),
    }
}

/// Answers a request to create a banner, given the identifier that the store
/// generated for the inserted row, or the store's failure.
///
/// An insert is answered with success and the new identifier, a failure of the
/// store with the server-failure status.
pub fn create_banner(inserted: Result<EntityId, StoreError>) -> (response: Result<
    Created,
    StatusCode,
>)
    ensures
        match inserted {
            Ok(id) => response == Ok::<Created, StatusCode>(Created { success: true, id }),
            Err(_) => response == Err::<Created, StatusCode>(StatusCode::InternalServerError),
        },
{
    match inserted {
        Ok(id) => Ok(Created { success: true, id }),
        Err(error) => Err(store_failure(error)),
    }
}

/// A product that was created and then made active is listed under the
/// identifier that its creation handed back, with exactly the values that the
/// request gave, and under that identifier nothing else is listed. This holds
/// of the listing without a category and of the listing for the slug of the
/// product's category.
pub proof fn lemma_created_product_is_listed(
    store: CatalogView,
    id: EntityId,
    now: int,
    req: CreateProductRequestView,
    category: Option<Seq<char>>,
    out: Seq<ProductView>,
)
    requires
        store.insert_product(id, now, req) is Ok,
        category matches Some(slug) ==> category_has_slug(
            store.categories,
            req.category_id,
            slug,
        ),
        is_listing::<Product>(
            out,
            selected(
                store.insert_product(id, now, req)->Ok_0.activate_product(id).products,
                store.categories,
                category,
            ),
        ),
    ensures
        out.contains(ProductView { is_active: true, ..new_product(id, now, req) }),
        forall|i: int|
            0 <= i < out.len() && (#[trigger] out[i]).id == id ==> out[i] == (ProductView {
                is_active: true,
                ..new_product(id, now, req)
            }),
{
    let row = ProductView { is_active: true, ..new_product(id, now, req) };
    let stored = store.insert_product(id, now, req)->Ok_0.activate_product(id).products;
    assert(stored[stored.len() - 1] == row);
    assert(stored.contains(row));
    assert forall|k: int| 0 <= k < stored.len() && (#[trigger] stored[k]).id == id implies stored[k]
        == row by {
        if k < store.products.len() {
            assert(store.products[k].id != id);
        }
    }
    match category {
        Some(slug) => {
            lemma_products_of_category(out, stored, store.categories, slug, row);
            assert forall|i: int| 0 <= i < out.len() && (#[trigger] out[i]).id == id implies out[i]
                == row by {
                lemma_products_of_category(out, stored, store.categories, slug, out[i]);
                assert(out.contains(out[i]));
                let k = choose|k: int| 0 <= k < stored.len() && stored[k] == out[i];
                assert(stored[k].id == id);
            }
        },
        None => {
            lemma_listing_holds_active_rows::<Product>(out, stored, row);
            assert forall|i: int| 0 <= i < out.len() && (#[trigger] out[i]).id == id implies out[i]
                == row by {
                lemma_listing_holds_active_rows::<Product>(out, stored, out[i]);
                assert(out.contains(out[i]));
                let k = choose|k: int| 0 <= k < stored.len() && stored[k] == out[i];
                assert(stored[k].id == id);
            }
        },
    }
}

/// A banner that was created and then made active is listed under the
/// identifier that its creation handed back, with exactly the values that the
/// request gave, and under that identifier nothing else is listed.
pub proof fn lemma_created_banner_is_listed(
    store: CatalogView,
    id: EntityId,
    now: int,
    req: CreateBannerRequestView,
    out: Seq<BannerView>,
)
    requires
        store.insert_banner(id, now, req) is Ok,
        is_listing::<Banner>(out, store.insert_banner(id, now, req)->Ok_0.activate_banner(id).banners),
    ensures
        out.contains(BannerView { is_active: true, ..new_banner(id, now, req) }),
        forall|i: int|
            0 <= i < out.len() && (#[trigger] out[i]).id == id ==> out[i] == (BannerView {
                is_active: true,
                ..new_banner(id, now, req)
            }),
{
    let row = BannerView { is_active: true, ..new_banner(id, now, req) };
    let stored = store.insert_banner(id, now, req)->Ok_0.activate_banner(id).banners;
    assert(stored[stored.len() - 1] == row);
    assert(stored.contains(row));
    assert forall|k: int| 0 <= k < stored.len() && (#[trigger] stored[k]).id == id implies stored[k]
        == row by {
        if k < store.banners.len() {
            assert(store.banners[k].id != id);
        }
    }
    lemma_listing_holds_active_rows::<Banner>(out, stored, row);
    assert forall|i: int| 0 <= i < out.len() && (#[trigger] out[i]).id == id implies out[i]
        == row by {
        lemma_listing_holds_active_rows::<Banner>(out, stored, out[i]);
        assert(out.contains(out[i]));
        let k = choose|k: int| 0 <= k < stored.len() && stored[k] == out[i];
        assert(stored[k].id == id);
    }
}

/// Until it is made active, a created banner is not listed.
pub proof fn lemma_created_banner_is_not_listed_before(
    store: CatalogView,
    id: EntityId,
    now: int,
    req: CreateBannerRequestView,
    out: Seq<BannerView>,
)
    requires
        store.insert_banner(id, now, req) is Ok,
        is_listing::<Banner>(out, store.insert_banner(id, now, req)->Ok_0.banners),
    ensures
        forall|i: int| 0 <= i < out.len() ==> (#[trigger] out[i]).id != id,
{
    let stored = store.insert_banner(id, now, req)->Ok_0.banners;
    assert forall|i: int| 0 <= i < out.len() implies (#[trigger] out[i]).id != id by {
        lemma_listing_holds_active_rows::<Banner>(out, stored, out[i]);
        assert(out.contains(out[i]));
        let k = choose|k: int| 0 <= k < stored.len() && stored[k] == out[i];
        if k < store.banners.len() {
            assert(store.banners[k].id != id);
        }
    }
}

} // verus!
