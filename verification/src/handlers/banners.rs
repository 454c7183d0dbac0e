//! Listing banners.

use vstd::prelude::*;
use crate::listing::{is_listing, list};
use crate::models::banner::BannerView;
use crate::models::banner::Banner;
use crate::response::{store_failure, StatusCode, StoreError};

verus! {

/// Answers a request for the banners, given every banner row of the store or
/// the store's failure.
///
/// The answer holds the active banners and no others, by display order, lowest
/// first; among equal display orders the banner created last comes first. No
/// active banner is an empty answer, not a failure. Rows that tie keep the order in which the
/// store handed them over. A failure of the store is
/// answered with the server-failure status and no rows.
pub fn get_banners(fetched: Result<Vec<Banner>, StoreError>) -> (response: Result<
    Vec<Banner>,
    StatusCode,
>)
    ensures
        match fetched {
            Ok(rows) => response is Ok && is_listing::<Banner>(
                response->Ok_0.deep_view(),
                rows.deep_view(),
            ),
            Err(_) => response == Err::<Vec<Banner>, StatusCode>(StatusCode::InternalServerError),
        },
{
    match fetched {
        Ok(rows) => Ok(list(rows)),
        Err(error) => Err(store_failure(error)),
    }
}

/// In a listing of banners the display order never falls from one banner to
/// a later one, and of two banners with the same display order the later one
/// was not created after the earlier one.
pub proof fn lemma_banners_in_order(out: Seq<BannerView>, rows: Seq<BannerView>, i: int, j: int)
    requires
        is_listing::<Banner>(out, rows),
        0 <= i < j < out.len(),
    ensures
        out[i].display_order <= out[j].display_order,
        out[i].display_order == out[j].display_order ==> out[i].created_at >= out[j].created_at,
{
}

} // verus!
