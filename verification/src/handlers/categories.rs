//! Listing categories.

use vstd::prelude::*;
use crate::listing::{is_listing, list};
use crate::models::category::CategoryView;
use crate::models::text::name_le;
use crate::models::category::Category;
use crate::response::{store_failure, StatusCode, StoreError};

verus! {

/// Answers a request for the categories, given every category row of the store
/// or the store's failure.
///
/// The answer holds the active categories and no others, by display order, lowest
/// first; among equal display orders by name, ascending. No active category
/// is an empty answer, not a failure. Rows that tie keep the order in which the
/// store handed them over. A failure of the store is
/// answered with the server-failure status and no rows.
pub fn get_categories(fetched: Result<Vec<Category>, StoreError>) -> (response: Result<
    Vec<Category>,
    StatusCode,
>)
    ensures
        match fetched {
            Ok(rows) => response is Ok && is_listing::<Category>(
                response->Ok_0.deep_view(),
                rows.deep_view(),
            ),
            Err(_) => response == Err::<Vec<Category>, StatusCode>(StatusCode::InternalServerError),
        },
{
    match fetched {
        Ok(rows) => Ok(list(rows)),
        Err(error) => Err(store_failure(error)),
    }
}

/// In a listing of categories the display order never falls from one category
/// to a later one, and of two categories with the same display order the
/// earlier one's name sorts at or before the later one's.
pub proof fn lemma_categories_in_order(
    out: Seq<CategoryView>,
    rows: Seq<CategoryView>,
    i: int,
    j: int,
)
    requires
        is_listing::<Category>(out, rows),
        0 <= i < j < out.len(),
    ensures
        out[i].display_order <= out[j].display_order,
        out[i].display_order == out[j].display_order ==> name_le(out[i].name, out[j].name),
{
}

} // verus!
