//! A storefront catalog: banners, product categories and products, the rules by
//! which they are listed, and the request and response shapes of the catalog's
//! public and administrative operations.

pub mod handlers;
pub mod listing;
pub mod models;
pub mod response;
pub mod routes;
pub mod store;
