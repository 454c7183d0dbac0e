//! Product categories: the stored record and the request that creates one.

use vstd::prelude::*;
use crate::listing::Listed;
use crate::models::scalar::{EntityId, Timestamp};
use crate::models::text::{lemma_bytes_le_total, lemma_bytes_le_transitive, name_le, name_sorts_before, opt_text};
use vstd::utf8::encode_utf8;

verus! {

/// A stored category, with every column of its row.
#[derive(Clone, Debug)]
pub struct Category {
    pub id: EntityId,
    pub name: String,
    pub slug: String,
    pub description: Option<String>,
    pub icon_url: Option<String>,
    pub display_order: i32,
    pub is_active: bool,
    pub created_at: Timestamp,
    pub updated_at: Timestamp,
}

/// The mathematical value of a [`Category`].
pub ghost struct CategoryView {
    pub id: EntityId,
    pub name: Seq<char>,
    pub slug: Seq<char>,
    pub description: Option<Seq<char>>,
    pub icon_url: Option<Seq<char>>,
    pub display_order: int,
    pub is_active: bool,
    pub created_at: int,
    pub updated_at: int,
}

impl View for Category {
    type V = CategoryView;

    open spec fn view(&self) -> CategoryView {
        CategoryView {
            id: self.id,
            name: self.name@,
            slug: self.slug@,
            description: opt_text(self.description),
            icon_url: opt_text(self.icon_url),
            display_order: self.display_order as int,
            is_active: self.is_active,
            created_at: self.created_at.micros as int,
            updated_at: self.updated_at.micros as int,
        }
    }
}

impl DeepView for Category {
    type V = CategoryView;

    open spec fn deep_view(&self) -> CategoryView {
        self@
    }
}

/// Categories are listed by display order, lowest first; among equal display
/// orders by name, ascending.
impl Listed for Category {
    open spec fn active(row: CategoryView) -> bool {
        row.is_active
    }

    open spec fn precedes(a: CategoryView, b: CategoryView) -> bool {
        a.display_order < b.display_order || (a.display_order == b.display_order && name_le(
            a.name,
            b.name,
        ))
    }

    proof fn lemma_precedes_orders(a: CategoryView, b: CategoryView, c: CategoryView) {
        lemma_bytes_le_total(encode_utf8(a.name), encode_utf8(b.name));
        if name_le(a.name, b.name) && name_le(b.name, c.name) {
            lemma_bytes_le_transitive(encode_utf8(a.name), encode_utf8(b.name), encode_utf8(c.name));
        }
    }

    fn is_active(&self) -> (b: bool) {
        self.is_active
    }

    fn comes_before(&self, other: &Category) -> (b: bool) {
        self.display_order < other.display_order || (self.display_order == other.display_order
            && name_sorts_before(self.name.as_str(), other.name.as_str()))
    }
}

/// What a caller may set when creating a category.
#[derive(Clone, Debug)]
pub struct CreateCategoryRequest {
    pub name: String,
    pub slug: String,
    pub description: Option<String>,
    pub icon_url: Option<String>,
}

/// The mathematical value of a [`CreateCategoryRequest`].
pub ghost struct CreateCategoryRequestView {
    pub name: Seq<char>,
    pub slug: Seq<char>,
    pub description: Option<Seq<char>>,
    pub icon_url: Option<Seq<char>>,
}

impl View for CreateCategoryRequest {
    type V = CreateCategoryRequestView;

    open spec fn view(&self) -> CreateCategoryRequestView {
        CreateCategoryRequestView {
            name: self.name@,
            slug: self.slug@,
            description: opt_text(self.description),
            icon_url: opt_text(self.icon_url),
        }
    }
}

} // verus!
