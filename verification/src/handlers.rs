//! The catalog's operations, each as a function of what the store handed over.

pub mod admin;
pub mod banners;
pub mod categories;
pub mod products;

pub use admin::{create_banner, create_product, delete_product};
pub use banners::get_banners;
pub use categories::get_categories;
pub use products::{get_products, ProductQuery};
