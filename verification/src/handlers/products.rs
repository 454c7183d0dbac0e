//! Listing products, all of them or those of one category.

use vstd::prelude::*;
use crate::listing::{is_listing, lemma_listing_holds_active_rows, list};
use crate::models::category::{Category, CategoryView};
use crate::models::product::{Product, ProductView};
use crate::models::scalar::EntityId;
use crate::models::text::opt_text;
use crate::response::{store_failure, StatusCode, StoreError};

verus! {

/// The query of a request for products: the slug of a category, or nothing.
#[derive(Clone, Debug)]
pub struct ProductQuery {
    pub category: Option<String>,
}

impl View for ProductQuery {
    type V = Option<Seq<char>>;

    open spec fn view(&self) -> Option<Seq<char>> {
        opt_text(self.category)
    }
}

/// Whether the category with identifier `id` is among `categories` and has the
/// slug `slug`. Whether that category is active plays no part.
pub open spec fn category_has_slug(categories: Seq<CategoryView>, id: EntityId, slug: Seq<char>) -> bool {
    exists|i: int|
        0 <= i < categories.len() && (#[trigger] categories[i]).id == id && categories[i].slug
            == slug
}

/// The products that a query selects, in the order in which `products` holds
/// them: all of them without a category, else those whose category has the
/// given slug.
pub open spec fn selected(
    products: Seq<ProductView>,
    categories: Seq<CategoryView>,
    category: Option<Seq<char>>,
) -> Seq<ProductView> {
    match category {
        None => products,
        Some(slug) => products.filter(
            |p: ProductView| category_has_slug(categories, p.category_id, slug),
        ),
    }
}

fn has_slug(categories: &Vec<Category>, id: EntityId, slug: &String) -> (found: bool)
    ensures
        found == category_has_slug(categories.deep_view(), id, slug@),
{
    let mut i: usize = 0;
    while i < categories.len()
        invariant
            i <= categories.len(),
            forall|k: int|
                0 <= k < i ==> !((#[trigger] categories.deep_view()[k]).id == id
                    && categories.deep_view()[k].slug == slug@),
        decreases categories.len() - i,
    {
        if categories[i].id == id && categories[i].slug == *slug {
            assert(categories.deep_view()[i as int].id == id);
            return true;
        }
        i = i + 1;
    }
    false
}

fn select(products: Vec<Product>, categories: &Vec<Category>, slug: &String) -> (kept: Vec<Product>)
    ensures
        kept.deep_view() == selected(products.deep_view(), categories.deep_view(), Some(slug@)),
{
    let ghost given = products@;
    let ghost pred = |p: ProductView| category_has_slug(categories.deep_view(), p.category_id, slug@);
    let mut kept: Vec<Product> = Vec::new();
    proof {
        reveal(Seq::filter);
        assert(products.deep_view().take(0) =~= Seq::<ProductView>::empty());
        assert(kept.deep_view() =~= Seq::<ProductView>::empty());
    }
    for product in it: products.into_iter()
        invariant
            it.seq() == given,
            given == products@,
            pred == |p: ProductView| category_has_slug(categories.deep_view(), p.category_id, slug@),
            kept.deep_view() == products.deep_view().take(it.index() as int).filter(pred),
    {
        let ghost before = kept.deep_view();
        let ghost i = it.index() as int;
        proof {
            let head = products.deep_view().take(i + 1);
            assert(head.drop_last() =~= products.deep_view().take(i));
            assert(head.last() == product.deep_view());
            reveal(Seq::filter);
        }
        if has_slug(categories, product.category_id, slug) {
            kept.push(product);
            assert(kept.deep_view() =~= before.push(products.deep_view()[i]));
        }
    }
    proof {
        assert(products.deep_view().take(products.deep_view().len() as int)
            =~= products.deep_view());
    }
    kept
}

/// Answers a request for products, given every product row and every category
/// row of the store, or the store's failure.
///
/// Without a category the answer holds the active products and no others. With
/// a category slug it holds the active products whose category has that slug;
/// whether the category itself is active plays no part, and a slug that no
/// category has selects nothing. The products come by display order, lowest
/// first; among equal display orders the product created last comes first, and
/// products that tie keep the order in which the store handed them over. An
/// empty answer is no failure. A failure of the store is answered with the
/// server-failure status and no rows.
pub fn get_products(
    fetched: Result<(Vec<Product>, Vec<Category>), StoreError>,
    query: ProductQuery,
) -> (response: Result<Vec<Product>, StatusCode>)
    ensures
        match fetched {
            Ok(tables) => response is Ok && is_listing::<Product>(
                response->Ok_0.deep_view(),
                selected(tables.0.deep_view(), tables.1.deep_view(), query@),
            ),
            Err(_) => response == Err::<Vec<Product>, StatusCode>(StatusCode::InternalServerError),
        },
{
    match fetched {
        Ok((products, categories)) => match query.category {
            Some(slug) => Ok(list(select(products, &categories, &slug))),
            None => Ok(list(products)),
        },
        Err(error) => Err(store_failure(error)),
    }
}

/// In a listing of products the display order never falls from one product to
/// a later one, and of two products with the same display order the later one
/// was not created after the earlier one.
pub proof fn lemma_products_in_order(out: Seq<ProductView>, rows: Seq<ProductView>, i: int, j: int)
    requires
        is_listing::<Product>(out, rows),
        0 <= i < j < out.len(),
    ensures
        out[i].display_order <= out[j].display_order,
        out[i].display_order == out[j].display_order ==> out[i].created_at >= out[j].created_at,
{
}

/// The listing for a category slug holds exactly the active products whose
/// category has that slug, whether or not the category is active.
pub proof fn lemma_products_of_category(
    out: Seq<ProductView>,
    products: Seq<ProductView>,
    categories: Seq<CategoryView>,
    slug: Seq<char>,
    product: ProductView,
)
    requires
        is_listing::<Product>(out, selected(products, categories, Some(slug))),
    ensures
        out.contains(product) <==> products.contains(product) && product.is_active
            && category_has_slug(categories, product.category_id, slug),
{
    let pred = |p: ProductView| category_has_slug(categories, p.category_id, slug);
    let chosen = products.filter(pred);
    lemma_listing_holds_active_rows::<Product>(out, chosen, product);
    if chosen.contains(product) {
        products.lemma_filter_contains_rev(pred, product);
        let i = choose|i: int| 0 <= i < chosen.len() && chosen[i] == product;
        products.lemma_filter_pred(pred, i);
    }
    if products.contains(product) && pred(product) {
        let i = choose|i: int| 0 <= i < products.len() && products[i] == product;
        products.lemma_filter_contains(pred, i);
    }
}

/// Where every product belongs to a category that the store holds, the listing
/// without a category holds exactly the products that the listing for some
/// category slug holds.
pub proof fn lemma_all_products_are_those_of_the_categories(
    all: Seq<ProductView>,
    by_slug: spec_fn(Seq<char>) -> Seq<ProductView>,
    products: Seq<ProductView>,
    categories: Seq<CategoryView>,
    product: ProductView,
)
    requires
        forall|i: int|
            0 <= i < products.len() ==> exists|k: int|
                0 <= k < categories.len() && (#[trigger] categories[k]).id == (
                #[trigger] products[i]).category_id,
        is_listing::<Product>(all, selected(products, categories, None)),
        forall|slug: Seq<char>|
            is_listing::<Product>(
                #[trigger] by_slug(slug),
                selected(products, categories, Some(slug)),
            ),
    ensures
        all.contains(product) <==> exists|slug: Seq<char>| (#[trigger] by_slug(slug)).contains(product),
{
    lemma_listing_holds_active_rows::<Product>(all, products, product);
    if all.contains(product) {
        let i = choose|i: int| 0 <= i < products.len() && products[i] == product;
        let k = choose|k: int|
            0 <= k < categories.len() && (#[trigger] categories[k]).id == products[i].category_id;
        let slug = categories[k].slug;
        assert(category_has_slug(categories, product.category_id, slug));
        lemma_products_of_category(by_slug(slug), products, categories, slug, product);
        assert(by_slug(slug).contains(product));
    }
    if exists|slug: Seq<char>| (#[trigger] by_slug(slug)).contains(product) {
        let slug = choose|slug: Seq<char>| (#[trigger] by_slug(slug)).contains(product);
        lemma_products_of_category(by_slug(slug), products, categories, slug, product);
    }
}

} // verus!
