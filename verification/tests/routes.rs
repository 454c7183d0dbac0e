use storefront_catalog::routes::{create_routes, find_route, Handler, Method};

#[test]
fn routing_table_has_six_lines() {
    let routes = create_routes();
    assert_eq!(routes.len(), 6);
    assert_eq!(routes[0].method, Method::Get);
    assert_eq!(routes[0].path, "/api/banners");
    assert_eq!(routes[0].handler, Handler::GetBanners);
    assert_eq!(routes[4].method, Method::Post);
    assert_eq!(routes[4].path, "/api/admin/product/delete");
    assert_eq!(routes[4].handler, Handler::DeleteProduct);
}

#[test]
fn every_route_is_found() {
    assert_eq!(find_route(Method::Get, "/api/banners"), Some(Handler::GetBanners));
    assert_eq!(find_route(Method::Get, "/api/categories"), Some(Handler::GetCategories));
    assert_eq!(find_route(Method::Get, "/api/products"), Some(Handler::GetProducts));
    assert_eq!(find_route(Method::Post, "/api/admin/product"), Some(Handler::CreateProduct));
    assert_eq!(find_route(Method::Post, "/api/admin/product/delete"), Some(Handler::DeleteProduct));
    assert_eq!(find_route(Method::Post, "/api/admin/banner"), Some(Handler::CreateBanner));
}

#[test]
fn other_methods_and_paths_reach_nothing() {
    assert_eq!(find_route(Method::Post, "/api/banners"), None);
    assert_eq!(find_route(Method::Get, "/api/admin/product"), None);
    assert_eq!(find_route(Method::Get, "/api/banner"), None);
    assert_eq!(find_route(Method::Get, ""), None);
    assert_eq!(find_route(Method::Post, "/api/admin/category"), None);
}
