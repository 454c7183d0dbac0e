//! Products: the stored record and the requests that create or delete one.

use vstd::prelude::*;
use crate::listing::Listed;
use crate::models::scalar::{EntityId, Price, Timestamp};
use crate::models::text::opt_text;

verus! {

/// A stored product, with every column of its row.
#[derive(Clone, Debug)]
pub struct Product {
    pub id: EntityId,
    pub category_id: EntityId,
    pub name: String,
    pub slug: String,
    pub description: Option<String>,
    pub price: Price,
    pub image_url: Option<String>,
    pub platform: Option<String>,
    pub version: Option<String>,
    pub is_premium: bool,
    pub is_active: bool,
    pub display_order: i32,
    pub created_at: Timestamp,
    pub updated_at: Timestamp,
}

/// The mathematical value of a [`Product`].
pub ghost struct ProductView {
    pub id: EntityId,
    pub category_id: EntityId,
    pub name: Seq<char>,
    pub slug: Seq<char>,
    pub description: Option<Seq<char>>,
    pub price: Price,
    pub image_url: Option<Seq<char>>,
    pub platform: Option<Seq<char>>,
    pub version: Option<Seq<char>>,
    pub is_premium: bool,
    pub is_active: bool,
    pub display_order: int,
    pub created_at: int,
    pub updated_at: int,
}

impl View for Product {
    type V = ProductView;

    open spec fn view(&self) -> ProductView {
        ProductView {
            id: self.id,
            category_id: self.category_id,
            name: self.name@,
            slug: self.slug@,
            description: opt_text(self.description),
            price: self.price,
            image_url: opt_text(self.image_url),
            platform: opt_text(self.platform),
            version: opt_text(self.version),
            is_premium: self.is_premium,
            is_active: self.is_active,
            display_order: self.display_order as int,
            created_at: self.created_at.micros as int,
            updated_at: self.updated_at.micros as int,
        }
    }
}

impl DeepView for Product {
    type V = ProductView;

    open spec fn deep_view(&self) -> ProductView {
        self@
    }
}

/// Products are listed by display order, lowest first; among equal display
/// orders the one created last comes first.
impl Listed for Product {
    open spec fn active(row: ProductView) -> bool {
        row.is_active
    }

    open spec fn precedes(a: ProductView, b: ProductView) -> bool {
        a.display_order < b.display_order || (a.display_order == b.display_order && a.created_at
            >= b.created_at)
    }

    proof fn lemma_precedes_orders(a: ProductView, b: ProductView, c: ProductView) {
    }

    fn is_active(&self) -> (b: bool) {
        self.is_active
    }

    fn comes_before(&self, other: &Product) -> (b: bool) {
        self.display_order < other.display_order || (self.display_order == other.display_order
            && self.created_at.micros >= other.created_at.micros)
    }
}

/// What a caller may set when creating a product.
#[derive(Clone, Debug)]
pub struct CreateProductRequest {
    pub category_id: EntityId,
    pub name: String,
    pub slug: String,
    pub description: Option<String>,
    pub price: Price,
    pub image_url: Option<String>,
    pub platform: Option<String>,
    pub version: Option<String>,
    pub display_order: Option<i32>,
}

/// The mathematical value of a [`CreateProductRequest`].
pub ghost struct CreateProductRequestView {
    pub category_id: EntityId,
    pub name: Seq<char>,
    pub slug: Seq<char>,
    pub description: Option<Seq<char>>,
    pub price: Price,
    pub image_url: Option<Seq<char>>,
    pub platform: Option<Seq<char>>,
    pub version: Option<Seq<char>>,
    pub display_order: Option<int>,
}

impl CreateProductRequestView {
    /// The display order that the new product gets: the one given, or 0.
    pub open spec fn display_order_or_default(self) -> int {
        match self.display_order {
            Some(n) => n,
            None => 0,
        }
    }
}

impl View for CreateProductRequest {
    type V = CreateProductRequestView;

    open spec fn view(&self) -> CreateProductRequestView {
        CreateProductRequestView {
            category_id: self.category_id,
            name: self.name@,
            slug: self.slug@,
            description: opt_text(self.description),
            price: self.price,
            image_url: opt_text(self.image_url),
            platform: opt_text(self.platform),
            version: opt_text(self.version),
            display_order: match self.display_order {
                Some(n) => Some(n as int),
                None => None,
            },
        }
    }
}

impl CreateProductRequest {
    /// The display order that the new product gets: the one given, or 0.
    pub fn display_order_or_default(&self) -> (n: i32)
        ensures
            n == self@.display_order_or_default(),
    {
        match self.display_order {
            Some(n) => n,
            None => 0,
        }
    }
}

/// Names the product to delete.
#[derive(Clone, Copy, Debug)]
pub struct DeleteProductRequest {
    pub id: EntityId,
}

} // verus!
