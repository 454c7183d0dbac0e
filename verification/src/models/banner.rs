//! Banners: the stored record and the request that creates one.

use vstd::prelude::*;
use crate::listing::Listed;
use crate::models::scalar::{EntityId, Timestamp};
use crate::models::text::opt_text;

verus! {

/// A stored banner, with every column of its row.
#[derive(Clone, Debug)]
pub struct Banner {
    pub id: EntityId,
    pub image_url: String,
    pub title: Option<String>,
    pub description: Option<String>,
    pub link_url: Option<String>,
    pub display_order: i32,
    pub is_active: bool,
    pub created_at: Timestamp,
    pub updated_at: Timestamp,
}

/// The mathematical value of a [`Banner`].
pub ghost struct BannerView {
    pub id: EntityId,
    pub image_url: Seq<char>,
    pub title: Option<Seq<char>>,
    pub description: Option<Seq<char>>,
    pub link_url: Option<Seq<char>>,
    pub display_order: int,
    pub is_active: bool,
    pub created_at: int,
    pub updated_at: int,
}

impl View for Banner {
    type V = BannerView;

    open spec fn view(&self) -> BannerView {
        BannerView {
            id: self.id,
            image_url: self.image_url@,
            title: opt_text(self.title),
            description: opt_text(self.description),
            link_url: opt_text(self.link_url),
            display_order: self.display_order as int,
            is_active: self.is_active,
            created_at: self.created_at.micros as int,
            updated_at: self.updated_at.micros as int,
        }
    }
}

impl DeepView for Banner {
    type V = BannerView;

    open spec fn deep_view(&self) -> BannerView {
        self@
    }
}

/// Banners are listed by display order, lowest first; among equal display
/// orders the one created last comes first.
impl Listed for Banner {
    open spec fn active(row: BannerView) -> bool {
        row.is_active
    }

    open spec fn precedes(a: BannerView, b: BannerView) -> bool {
        a.display_order < b.display_order || (a.display_order == b.display_order && a.created_at
            >= b.created_at)
    }

    proof fn lemma_precedes_orders(a: BannerView, b: BannerView, c: BannerView) {
    }

    fn is_active(&self) -> (b: bool) {
        self.is_active
    }

    fn comes_before(&self, other: &Banner) -> (b: bool) {
        self.display_order < other.display_order || (self.display_order == other.display_order
            && self.created_at.micros >= other.created_at.micros)
    }
}

/// What a caller may set when creating a banner.
#[derive(Clone, Debug)]
pub struct CreateBannerRequest {
    pub image_url: String,
    pub title: Option<String>,
    pub description: Option<String>,
    pub link_url: Option<String>,
    pub display_order: Option<i32>,
}

/// The mathematical value of a [`CreateBannerRequest`].
pub ghost struct CreateBannerRequestView {
    pub image_url: Seq<char>,
    pub title: Option<Seq<char>>,
    pub description: Option<Seq<char>>,
    pub link_url: Option<Seq<char>>,
    pub display_order: Option<int>,
}

impl CreateBannerRequestView {
    /// The display order that the new banner gets: the one given, or 0.
    pub open spec fn display_order_or_default(self) -> int {
        match self.display_order {
            Some(n) => n,
            None => 0,
        }
    }
}

impl View for CreateBannerRequest {
    type V = CreateBannerRequestView;

    open spec fn view(&self) -> CreateBannerRequestView {
        CreateBannerRequestView {
            image_url: self.image_url@,
            title: opt_text(self.title),
            description: opt_text(self.description),
            link_url: opt_text(self.link_url),
            display_order: match self.display_order {
                Some(n) => Some(n as int),
                None => None,
            },
        }
    }
}

impl CreateBannerRequest {
    /// The display order that the new banner gets: the one given, or 0.
    pub fn display_order_or_default(&self) -> (n: i32)
        ensures
            n == self@.display_order_or_default(),
    {
        match self.display_order {
            Some(n) => n,
            None => 0,
        }
    }
}

} // verus!
