//! The catalog's entities and the shapes of the requests that create or delete them.

pub mod banner;
pub mod category;
pub mod product;
pub mod scalar;
pub mod text;

pub use banner::{Banner, BannerView, CreateBannerRequest, CreateBannerRequestView};
pub use category::{Category, CategoryView, CreateCategoryRequest, CreateCategoryRequestView};
pub use product::{
    CreateProductRequest, CreateProductRequestView, DeleteProductRequest, Product, ProductView,
};
pub use scalar::{EntityId, Price, Timestamp};
