//! The store as the catalog relies on it: three tables, and what each statement
//! does to them.
//!
//! [`Catalog`] holds the tables in memory and carries the statements out as the
//! relational store does: it generates no identifiers and reads no clock, so an
//! insert is given the identifier and the instant for the new row. New rows are
//! not active; nothing here sets the active flag, which is changed in the store
//! directly.

use vstd::prelude::*;
use crate::models::banner::{Banner, BannerView, CreateBannerRequest, CreateBannerRequestView};
use crate::models::category::{
    Category, CategoryView, CreateCategoryRequest, CreateCategoryRequestView,
};
use crate::models::product::{
    CreateProductRequest, CreateProductRequestView, DeleteProductRequest, Product, ProductView,
};
use crate::models::scalar::{EntityId, Timestamp};
use crate::response::StoreError;

verus! {

/// The three tables of the store.
#[derive(Clone, Debug)]
pub struct Catalog {
    pub banners: Vec<Banner>,
    pub categories: Vec<Category>,
    pub products: Vec<Product>,
}

/// The mathematical value of a [`Catalog`]: the rows of each table, in the
/// order in which they were inserted.
pub ghost struct CatalogView {
    pub banners: Seq<BannerView>,
    pub categories: Seq<CategoryView>,
    pub products: Seq<ProductView>,
}

impl View for Catalog {
    type V = CatalogView;

    open spec fn view(&self) -> CatalogView {
        CatalogView {
            banners: self.banners.deep_view(),
            categories: self.categories.deep_view(),
            products: self.products.deep_view(),
        }
    }
}

/// The banner row that an insert stores.
pub open spec fn new_banner(id: EntityId, now: int, req: CreateBannerRequestView) -> BannerView {
    BannerView {
        id,
        image_url: req.image_url,
        title: req.title,
        description: req.description,
        link_url: req.link_url,
        display_order: req.display_order_or_default(),
        is_active: false,
        created_at: now,
        updated_at: now,
    }
}

/// The category row that an insert stores.
pub open spec fn new_category(id: EntityId, now: int, req: CreateCategoryRequestView) -> CategoryView {
    CategoryView {
        id,
        name: req.name,
        slug: req.slug,
        description: req.description,
        icon_url: req.icon_url,
        display_order: 0,
        is_active: false,
        created_at: now,
        updated_at: now,
    }
}

/// The product row that an insert stores.
pub open spec fn new_product(id: EntityId, now: int, req: CreateProductRequestView) -> ProductView {
    ProductView {
        id,
        category_id: req.category_id,
        name: req.name,
        slug: req.slug,
        description: req.description,
        price: req.price,
        image_url: req.image_url,
        platform: req.platform,
        version: req.version,
        is_premium: false,
        is_active: false,
        display_order: req.display_order_or_default(),
        created_at: now,
        updated_at: now,
    }
}

impl CatalogView {
    /// The store without any row.
    pub open spec fn empty() -> CatalogView {
        CatalogView { banners: Seq::empty(), categories: Seq::empty(), products: Seq::empty() }
    }

    pub open spec fn has_banner(self, id: EntityId) -> bool {
        exists|i: int| 0 <= i < self.banners.len() && (#[trigger] self.banners[i]).id == id
    }

    pub open spec fn has_category(self, id: EntityId) -> bool {
        exists|i: int| 0 <= i < self.categories.len() && (#[trigger] self.categories[i]).id == id
    }

    pub open spec fn has_category_slug(self, slug: Seq<char>) -> bool {
        exists|i: int|
            0 <= i < self.categories.len() && (#[trigger] self.categories[i]).slug == slug
    }

    pub open spec fn has_product(self, id: EntityId) -> bool {
        exists|i: int| 0 <= i < self.products.len() && (#[trigger] self.products[i]).id == id
    }

    pub open spec fn has_product_slug(self, slug: Seq<char>) -> bool {
        exists|i: int| 0 <= i < self.products.len() && (#[trigger] self.products[i]).slug == slug
    }

    /// What the store's schema guarantees: in each table no identifier occurs
    /// twice, no two categories and no two products share a slug, and every
    /// product belongs to a category of the store.
    pub open spec fn well_formed(self) -> bool {
        &&& forall|i: int, j: int|
            0 <= i < j < self.banners.len() ==> (#[trigger] self.banners[i]).id != (
            #[trigger] self.banners[j]).id
        &&& forall|i: int, j: int|
            0 <= i < j < self.categories.len() ==> (#[trigger] self.categories[i]).id != (
            #[trigger] self.categories[j]).id && self.categories[i].slug
                != self.categories[j].slug
        &&& forall|i: int, j: int|
            0 <= i < j < self.products.len() ==> (#[trigger] self.products[i]).id != (
            #[trigger] self.products[j]).id && self.products[i].slug != self.products[j].slug
        &&& forall|i: int|
            0 <= i < self.products.len() ==> self.has_category(
                (#[trigger] self.products[i]).category_id,
            )
    }

    /// The store after the insert of a banner, or why the store refuses it: an
    /// identifier that a banner has already.
    pub open spec fn insert_banner(self, id: EntityId, now: int, req: CreateBannerRequestView) -> Result<
        CatalogView,
        StoreError,
    > {
        if self.has_banner(id) {
            Err(StoreError::UniqueViolation)
        } else {
            Ok(CatalogView { banners: self.banners.push(new_banner(id, now, req)), ..self })
        }
    }

    /// The store after the insert of a category, or why the store refuses it:
    /// an identifier or a slug that a category has already.
    pub open spec fn insert_category(
        self,
        id: EntityId,
        now: int,
        req: CreateCategoryRequestView,
    ) -> Result<CatalogView, StoreError> {
        if self.has_category(id) || self.has_category_slug(req.slug) {
            Err(StoreError::UniqueViolation)
        } else {
            Ok(CatalogView { categories: self.categories.push(new_category(id, now, req)), ..self })
        }
    }

    /// The store after the insert of a product, or why the store refuses it: an
    /// identifier or a slug that a product has already, or, failing that,
    /// a category that the store does not hold.
    pub open spec fn insert_product(
        self,
        id: EntityId,
        now: int,
        req: CreateProductRequestView,
    ) -> Result<CatalogView, StoreError> {
        if self.has_product(id) || self.has_product_slug(req.slug) {
            Err(StoreError::UniqueViolation)
        } else if !self.has_category(req.category_id) {
            Err(StoreError::ForeignKeyViolation)
        } else {
            Ok(CatalogView { products: self.products.push(new_product(id, now, req)), ..self })
        }
    }

    /// The store after the delete of the product `id`: every other row stays,
    /// in its place.
    pub open spec fn delete_product(self, id: EntityId) -> CatalogView {
        CatalogView { products: self.products.filter(|p: ProductView| p.id != id), ..self }
    }

    /// The store after the banner `id` was made active, in the store directly.
    pub open spec fn activate_banner(self, id: EntityId) -> CatalogView {
        CatalogView {
            banners: self.banners.map_values(
                |b: BannerView|
                    if b.id == id {
                        BannerView { is_active: true, ..b }
                    } else {
                        b
                    },
            ),
            ..self
        }
    }

    /// The store after the product `id` was made active, in the store directly.
    pub open spec fn activate_product(self, id: EntityId) -> CatalogView {
        CatalogView {
            products: self.products.map_values(
                |p: ProductView|
                    if p.id == id {
                        ProductView { is_active: true, ..p }
                    } else {
                        p
                    },
            ),
            ..self
        }
    }
}

/// An insert that the store accepts leaves it well formed.
pub proof fn lemma_insert_banner_keeps_well_formed(
    store: CatalogView,
    id: EntityId,
    now: int,
    req: CreateBannerRequestView,
)
    requires
        store.well_formed(),
        store.insert_banner(id, now, req) is Ok,
    ensures
        store.insert_banner(id, now, req)->Ok_0.well_formed(),
{
    let next = store.insert_banner(id, now, req)->Ok_0;
    assert forall|i: int| 0 <= i < next.products.len() implies next.has_category(
        (#[trigger] next.products[i]).category_id,
    ) by {
        assert(store.has_category(store.products[i].category_id));
    }
}

/// An insert that the store accepts leaves it well formed.
pub proof fn lemma_insert_category_keeps_well_formed(
    store: CatalogView,
    id: EntityId,
    now: int,
    req: CreateCategoryRequestView,
)
    requires
        store.well_formed(),
        store.insert_category(id, now, req) is Ok,
    ensures
        store.insert_category(id, now, req)->Ok_0.well_formed(),
{
    let next = store.insert_category(id, now, req)->Ok_0;
    assert forall|i: int| 0 <= i < next.products.len() implies next.has_category(
        (#[trigger] next.products[i]).category_id,
    ) by {
        assert(store.has_category(store.products[i].category_id));
        let k = choose|k: int|
            0 <= k < store.categories.len() && (#[trigger] store.categories[k]).id
                == store.products[i].category_id;
        assert(next.categories[k].id == store.products[i].category_id);
    }
}

/// An insert that the store accepts leaves it well formed.
pub proof fn lemma_insert_product_keeps_well_formed(
    store: CatalogView,
    id: EntityId,
    now: int,
    req: CreateProductRequestView,
)
    requires
        store.well_formed(),
        store.insert_product(id, now, req) is Ok,
    ensures
        store.insert_product(id, now, req)->Ok_0.well_formed(),
{
    let next = store.insert_product(id, now, req)->Ok_0;
    assert forall|i: int| 0 <= i < next.products.len() implies next.has_category(
        (#[trigger] next.products[i]).category_id,
    ) by {
        if i < store.products.len() {
            assert(store.has_category(store.products[i].category_id));
        }
    }
}

/// A delete leaves the store well formed.
pub proof fn lemma_delete_product_keeps_well_formed(store: CatalogView, id: EntityId)
    requires
        store.well_formed(),
    ensures
        store.delete_product(id).well_formed(),
{
    let pred = |p: ProductView| p.id != id;
    let kept = store.products.filter(pred);
    lemma_filter_keeps_order(store.products, pred);
    let next = store.delete_product(id);
    assert forall|i: int, j: int| 0 <= i < j < kept.len() implies (#[trigger] kept[i]).id != (
    #[trigger] kept[j]).id && kept[i].slug != kept[j].slug by {
        let from = choose|from: Seq<int>| is_selection(store.products, kept, from);
        assert(kept[i] == store.products[from[i]]);
        assert(kept[j] == store.products[from[j]]);
    }
    assert forall|i: int| 0 <= i < kept.len() implies next.has_category(
        (#[trigger] kept[i]).category_id,
    ) by {
        let from = choose|from: Seq<int>| is_selection(store.products, kept, from);
        assert(kept[i] == store.products[from[i]]);
        assert(store.has_category(store.products[from[i]].category_id));
    }
}

/// Whether `kept` holds the rows of `rows` at the places `from`, which rise.
spec fn is_selection<A>(rows: Seq<A>, kept: Seq<A>, from: Seq<int>) -> bool {
    &&& from.len() == kept.len()
    &&& forall|i: int| 0 <= i < from.len() ==> 0 <= #[trigger] from[i] < rows.len()
    &&& forall|i: int, j: int| 0 <= i < j < from.len() ==> #[trigger] from[i] < #[trigger] from[j]
    &&& forall|i: int| 0 <= i < kept.len() ==> #[trigger] kept[i] == rows[from[i]]
}

/// What a filter keeps, it keeps in order: the rows kept stand at rising
/// places of the rows given.
proof fn lemma_filter_keeps_order<A>(rows: Seq<A>, pred: spec_fn(A) -> bool)
    ensures
        exists|from: Seq<int>| is_selection(rows, rows.filter(pred), from),
    decreases rows.len(),
{
    reveal(Seq::filter);
    if rows.len() == 0 {
        assert(is_selection(rows, rows.filter(pred), Seq::<int>::empty()));
    } else {
        let front = rows.drop_last();
        lemma_filter_keeps_order(front, pred);
        let from = choose|from: Seq<int>| is_selection(front, front.filter(pred), from);
        if pred(rows.last()) {
            let all = from.push(rows.len() - 1);
            assert forall|i: int| 0 <= i < all.len() implies #[trigger] rows.filter(pred)[i]
                == rows[all[i]] by {
                if i < from.len() {
                    assert(front.filter(pred)[i] == front[from[i]]);
                }
            }
            assert(is_selection(rows, rows.filter(pred), all));
        } else {
            assert forall|i: int| 0 <= i < from.len() implies #[trigger] rows.filter(pred)[i]
                == rows[from[i]] by {
                assert(front.filter(pred)[i] == front[from[i]]);
            }
            assert(is_selection(rows, rows.filter(pred), from));
        }
    }
}

/// Deleting a product that the store does not hold changes no row.
pub proof fn lemma_delete_missing_product_changes_nothing(store: CatalogView, id: EntityId)
    requires
        !store.has_product(id),
    ensures
        store.delete_product(id) == store,
{
    let pred = |p: ProductView| p.id != id;
    lemma_filter_keeps_all(store.products, pred);
}

/// A filter that every row passes keeps every row.
proof fn lemma_filter_keeps_all<A>(rows: Seq<A>, pred: spec_fn(A) -> bool)
    requires
        forall|i: int| 0 <= i < rows.len() ==> pred(#[trigger] rows[i]),
    ensures
        rows.filter(pred) == rows,
    decreases rows.len(),
{
    reveal(Seq::filter);
    if rows.len() > 0 {
        let front = rows.drop_last();
        assert forall|i: int| 0 <= i < front.len() implies pred(#[trigger] front[i]) by {
            assert(front[i] == rows[i]);
        }
        lemma_filter_keeps_all(front, pred);
        assert(front.push(rows.last()) =~= rows);
    }
}

/// After the delete of a product the store holds no product with its
/// identifier, so that a second delete of it changes nothing.
pub proof fn lemma_delete_product_is_idempotent(store: CatalogView, id: EntityId)
    ensures
        !store.delete_product(id).has_product(id),
        store.delete_product(id).delete_product(id) == store.delete_product(id),
{
    let pred = |p: ProductView| p.id != id;
    let kept = store.products.filter(pred);
    assert forall|i: int| 0 <= i < kept.len() implies (#[trigger] kept[i]).id != id by {
        store.products.lemma_filter_pred(pred, i);
    }
    lemma_delete_missing_product_changes_nothing(store.delete_product(id), id);
}

/// A product created without a display order is stored with the display
/// order 0, and one created with a display order is stored with that one.
pub proof fn lemma_created_product_display_order(
    store: CatalogView,
    id: EntityId,
    now: int,
    req: CreateProductRequestView,
)
    requires
        store.insert_product(id, now, req) is Ok,
    ensures
        store.insert_product(id, now, req)->Ok_0.products.last().id == id,
        store.insert_product(id, now, req)->Ok_0.products.last().display_order == match req.display_order {
            Some(n) => n,
            None => 0,
        },
{
}


impl Catalog {
    /// A store without any row.
    pub fn new() -> (store: Catalog)
        ensures
            store@ == CatalogView::empty(),
            store@.well_formed(),
    {
        let store = Catalog { banners: Vec::new(), categories: Vec::new(), products: Vec::new() };
        assert(store@.banners =~= Seq::empty());
        assert(store@.categories =~= Seq::empty());
        assert(store@.products =~= Seq::empty());
        store
    }

    /// Whether a banner has the identifier `id`.
    pub fn has_banner(&self, id: EntityId) -> (found: bool)
        ensures
            found == self@.has_banner(id),
    {
        let mut i: usize = 0;
        while i < self.banners.len()
            invariant
                i <= self.banners.len(),
                forall|k: int| 0 <= k < i ==> (#[trigger] self@.banners[k]).id != id,
            decreases self.banners.len() - i,
        {
            if self.banners[i].id == id {
                assert(self@.banners[i as int].id == id);
                return true;
            }
            i = i + 1;
        }
        false
    }

    /// Whether a category has the identifier `id`.
    pub fn has_category(&self, id: EntityId) -> (found: bool)
        ensures
            found == self@.has_category(id),
    {
        let mut i: usize = 0;
        while i < self.categories.len()
            invariant
                i <= self.categories.len(),
                forall|k: int| 0 <= k < i ==> (#[trigger] self@.categories[k]).id != id,
            decreases self.categories.len() - i,
        {
            if self.categories[i].id == id {
                assert(self@.categories[i as int].id == id);
                return true;
            }
            i = i + 1;
        }
        false
    }

    /// Whether a category has the slug `slug`.
    pub fn has_category_slug(&self, slug: &String) -> (found: bool)
        ensures
            found == self@.has_category_slug(slug@),
    {
        let mut i: usize = 0;
        while i < self.categories.len()
            invariant
                i <= self.categories.len(),
                forall|k: int| 0 <= k < i ==> (#[trigger] self@.categories[k]).slug != slug@,
            decreases self.categories.len() - i,
        {
            if self.categories[i].slug == *slug {
                assert(self@.categories[i as int].slug == slug@);
                return true;
            }
            i = i + 1;
        }
        false
    }

    /// Whether a product has the identifier `id`.
    pub fn has_product(&self, id: EntityId) -> (found: bool)
        ensures
            found == self@.has_product(id),
    {
        let mut i: usize = 0;
        while i < self.products.len()
            invariant
                i <= self.products.len(),
                forall|k: int| 0 <= k < i ==> (#[trigger] self@.products[k]).id != id,
            decreases self.products.len() - i,
        {
            if self.products[i].id == id {
                assert(self@.products[i as int].id == id);
                return true;
            }
            i = i + 1;
        }
        false
    }

    /// Whether a product has the slug `slug`.
    pub fn has_product_slug(&self, slug: &String) -> (found: bool)
        ensures
            found == self@.has_product_slug(slug@),
    {
        let mut i: usize = 0;
        while i < self.products.len()
            invariant
                i <= self.products.len(),
                forall|k: int| 0 <= k < i ==> (#[trigger] self@.products[k]).slug != slug@,
            decreases self.products.len() - i,
        {
            if self.products[i].slug == *slug {
                assert(self@.products[i as int].slug == slug@);
                return true;
            }
            i = i + 1;
        }
        false
    }

    /// Inserts a banner with the identifier `id`, created at `now`, and hands
    /// the identifier back. The banner gets the display order given, or 0, and
    /// is not active. The store refuses an identifier that a banner has
    /// already, and then stays as it is.
    pub fn insert_banner(&mut self, id: EntityId, now: Timestamp, req: CreateBannerRequest) -> (inserted:
        Result<EntityId, StoreError>)
        ensures
            match old(self)@.insert_banner(id, now.micros as int, req@) {
                Ok(next) => inserted == Ok::<EntityId, StoreError>(id) && final(self)@ == next,
                Err(error) => inserted == Err::<EntityId, StoreError>(error) && final(self)@ == old(
                    self,
                )@,
            },
            old(self)@.well_formed() ==> final(self)@.well_formed(),
    {
        proof {
            if old(self)@.well_formed() && old(self)@.insert_banner(id, now.micros as int, req@) is Ok {
                lemma_insert_banner_keeps_well_formed(old(self)@, id, now.micros as int, req@);
            }
        }
        if self.has_banner(id) {
            return Err(StoreError::UniqueViolation);
        }
        let display_order = req.display_order_or_default();
        let row = Banner {
            id,
            image_url: req.image_url,
            title: req.title,
            description: req.description,
            link_url: req.link_url,
            display_order,
            is_active: false,
            created_at: now,
            updated_at: now,
        };
        self.banners.push(row);
        assert(self@.banners =~= old(self)@.banners.push(new_banner(id, now.micros as int, req@)));
        Ok(id)
    }

    /// Inserts a category with the identifier `id`, created at `now`, and hands
    /// the identifier back. The category gets the display order 0 and is not
    /// active. The store refuses an identifier or a slug that a category has
    /// already, and then stays as it is.
    pub fn insert_category(
        &mut self,
        id: EntityId,
        now: Timestamp,
        req: CreateCategoryRequest,
    ) -> (inserted: Result<EntityId, StoreError>)
        ensures
            match old(self)@.insert_category(id, now.micros as int, req@) {
                Ok(next) => inserted == Ok::<EntityId, StoreError>(id) && final(self)@ == next,
                Err(error) => inserted == Err::<EntityId, StoreError>(error) && final(self)@ == old(
                    self,
                )@,
            },
            old(self)@.well_formed() ==> final(self)@.well_formed(),
    {
        proof {
            if old(self)@.well_formed() && old(self)@.insert_category(id, now.micros as int, req@) is Ok {
                lemma_insert_category_keeps_well_formed(old(self)@, id, now.micros as int, req@);
            }
        }
        if self.has_category(id) || self.has_category_slug(&req.slug) {
            return Err(StoreError::UniqueViolation);
        }
        let row = Category {
            id,
            name: req.name,
            slug: req.slug,
            description: req.description,
            icon_url: req.icon_url,
            display_order: 0,
            is_active: false,
            created_at: now,
            updated_at: now,
        };
        self.categories.push(row);
        assert(self@.categories =~= old(self)@.categories.push(
            new_category(id, now.micros as int, req@),
        ));
        Ok(id)
    }

    /// Inserts a product with the identifier `id`, created at `now`, and hands
    /// the identifier back. The product gets the display order given, or 0, and
    /// is neither active nor premium. The store refuses an identifier or a slug
    /// that a product has already, and a category that it does not hold, and
    /// then stays as it is.
    pub fn insert_product(
        &mut self,
        id: EntityId,
        now: Timestamp,
        req: CreateProductRequest,
    ) -> (inserted: Result<EntityId, StoreError>)
        ensures
            match old(self)@.insert_product(id, now.micros as int, req@) {
                Ok(next) => inserted == Ok::<EntityId, StoreError>(id) && final(self)@ == next,
                Err(error) => inserted == Err::<EntityId, StoreError>(error) && final(self)@ == old(
                    self,
                )@,
            },
            old(self)@.well_formed() ==> final(self)@.well_formed(),
    {
        proof {
            if old(self)@.well_formed() && old(self)@.insert_product(id, now.micros as int, req@) is Ok {
                lemma_insert_product_keeps_well_formed(old(self)@, id, now.micros as int, req@);
            }
        }
        if self.has_product(id) || self.has_product_slug(&req.slug) {
            return Err(StoreError::UniqueViolation);
        }
        if !self.has_category(req.category_id) {
            return Err(StoreError::ForeignKeyViolation);
        }
        let display_order = req.display_order_or_default();
        let row = Product {
            id,
            category_id: req.category_id,
            name: req.name,
            slug: req.slug,
            description: req.description,
            price: req.price,
            image_url: req.image_url,
            platform: req.platform,
            version: req.version,
            is_premium: false,
            is_active: false,
            display_order,
            created_at: now,
            updated_at: now,
        };
        self.products.push(row);
        assert(self@.products =~= old(self)@.products.push(
            new_product(id, now.micros as int, req@),
        ));
        Ok(id)
    }

    /// Deletes the product that `req` names and says how many rows that deleted. Every
    /// other row stays, in its place; where no product has the identifier,
    /// nothing changes.
    pub fn delete_product(&mut self, req: DeleteProductRequest) -> (deleted: u64)
        ensures
            final(self)@ == old(self)@.delete_product(req.id),
            deleted == old(self)@.products.len() - final(self)@.products.len(),
            old(self)@.well_formed() ==> final(self)@.well_formed(),
    {
        proof {
            if old(self)@.well_formed() {
                lemma_delete_product_keeps_well_formed(old(self)@, req.id);
            }
        }
        let id = req.id;
        let mut rows: Vec<Product> = Vec::new();
        core::mem::swap(&mut self.products, &mut rows);
        let ghost given = rows@;
        let ghost pred = |p: ProductView| p.id != id;
        let total = rows.len();
        let mut deleted: u64 = 0;
        proof {
            reveal(Seq::filter);
            assert(rows.deep_view().take(0) =~= Seq::<ProductView>::empty());
            assert(self.products.deep_view() =~= Seq::<ProductView>::empty());
        }
        for row in it: rows.into_iter()
            invariant
                it.seq() == given,
                given == rows@,
                pred == |p: ProductView| p.id != id,
                self.banners == old(self).banners,
                self.categories == old(self).categories,
                self.products.deep_view() == rows.deep_view().take(it.index() as int).filter(pred),
                deleted == it.index() - self.products.len(),
                given.len() == total,
        {
            let ghost before = self.products.deep_view();
            let ghost i = it.index() as int;
            proof {
                let head = rows.deep_view().take(i + 1);
                assert(head.drop_last() =~= rows.deep_view().take(i));
                assert(head.last() == row.deep_view());
                reveal(Seq::filter);
            }
            if row.id == id {
                deleted = deleted + 1;
            } else {
                self.products.push(row);
                assert(self.products.deep_view() =~= before.push(rows.deep_view()[i]));
            }
        }
        proof {
            assert(rows.deep_view().take(rows.deep_view().len() as int) =~= rows.deep_view());
        }
        deleted
    }
}

} // verus!
