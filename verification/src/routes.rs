//! The routing table: which operation answers which method and path.

use vstd::prelude::*;
use vstd::string::StringExecFns;

verus! {

/// The method of a request.
#[derive(Clone, Copy, Debug, PartialEq, Eq, Structural)]
pub enum Method {
    Get,
    Post,
}

/// The operations that a request can reach.
#[derive(Clone, Copy, Debug, PartialEq, Eq, Structural)]
pub enum Handler {
    GetBanners,
    GetCategories,
    GetProducts,
    CreateProduct,
    DeleteProduct,
    CreateBanner,
}

/// One line of the routing table.
#[derive(Clone, Debug)]
pub struct Route {
    pub method: Method,
    pub path: String,
    pub handler: Handler,
}

/// The mathematical value of a [`Route`].
pub ghost struct RouteView {
    pub method: Method,
    pub path: Seq<char>,
    pub handler: Handler,
}

impl View for Route {
    type V = RouteView;

    open spec fn view(&self) -> RouteView {
        RouteView { method: self.method, path: self.path@, handler: self.handler }
    }
}

impl DeepView for Route {
    type V = RouteView;

    open spec fn deep_view(&self) -> RouteView {
        self@
    }
}

/// The routing table.
pub open spec fn routing_table() -> Seq<RouteView> {
    seq![
        RouteView { method: Method::Get, path: "/api/banners"@, handler: Handler::GetBanners },
        RouteView { method: Method::Get, path: "/api/categories"@, handler: Handler::GetCategories },
        RouteView { method: Method::Get, path: "/api/products"@, handler: Handler::GetProducts },
        RouteView {
            method: Method::Post,
            path: "/api/admin/product"@,
            handler: Handler::CreateProduct,
        },
        RouteView {
            method: Method::Post,
            path: "/api/admin/product/delete"@,
            handler: Handler::DeleteProduct,
        },
        RouteView { method: Method::Post, path: "/api/admin/banner"@, handler: Handler::CreateBanner },
    ]
}

/// Whether the routing table sends `method` and `path` to `handler`.
pub open spec fn routed(method: Method, path: Seq<char>, handler: Handler) -> bool {
    exists|i: int|
        0 <= i < routing_table().len() && #[trigger] routing_table()[i] == (RouteView {
            method,
            path,
            handler,
        })
}

/// No method and path are sent to two operations.
pub proof fn lemma_routes_unambiguous(method: Method, path: Seq<char>, a: Handler, b: Handler)
    requires
        routed(method, path, a),
        routed(method, path, b),
    ensures
        a == b,
{
    reveal_strlit("/api/banners");
    reveal_strlit("/api/categories");
    reveal_strlit("/api/products");
    reveal_strlit("/api/admin/product");
    reveal_strlit("/api/admin/product/delete");
    reveal_strlit("/api/admin/banner");
    let table = routing_table();
    let i = choose|i: int|
        0 <= i < table.len() && #[trigger] table[i] == (RouteView { method, path, handler: a });
    let j = choose|j: int|
        0 <= j < table.len() && #[trigger] table[j] == (RouteView { method, path, handler: b });
    assert(table[0].path.len() == 12);
    assert(table[1].path.len() == 15);
    assert(table[2].path.len() == 13);
    assert(table[3].path.len() == 18);
    assert(table[4].path.len() == 25);
    assert(table[5].path.len() == 17);
    assert(table[i].path.len() == table[j].path.len());
    assert(i == j);
}

/// The operation to which the routing table sends `method` and `path`, if any.
pub open spec fn handler_for(method: Method, path: Seq<char>) -> Option<Handler> {
    if exists|handler: Handler| routed(method, path, handler) {
        Some(choose|handler: Handler| routed(method, path, handler))
    } else {
        None
    }
}

/// The routing table, line by line.
pub fn create_routes() -> (routes: Vec<Route>)
    ensures
        routes.deep_view() == routing_table(),
{
    let mut routes: Vec<Route> = Vec::new();
    routes.push(
        Route {
            method: Method::Get,
            path: String::from_str("/api/banners"),
            handler: Handler::GetBanners,
        },
    );
    routes.push(
        Route {
            method: Method::Get,
            path: String::from_str("/api/categories"),
            handler: Handler::GetCategories,
        },
    );
    routes.push(
        Route {
            method: Method::Get,
            path: String::from_str("/api/products"),
            handler: Handler::GetProducts,
        },
    );
    routes.push(
        Route {
            method: Method::Post,
            path: String::from_str("/api/admin/product"),
            handler: Handler::CreateProduct,
        },
    );
    routes.push(
        Route {
            method: Method::Post,
            path: String::from_str("/api/admin/product/delete"),
            handler: Handler::DeleteProduct,
        },
    );
    routes.push(
        Route {
            method: Method::Post,
            path: String::from_str("/api/admin/banner"),
            handler: Handler::CreateBanner,
        },
    );
    assert(routes.deep_view() =~= routing_table());
    routes
}

/// The operation that answers `method` and `path`, if the routing table has one.
pub fn find_route(method: Method, path: &str) -> (found: Option<Handler>)
    ensures
        found == handler_for(method, path@),
{
    let routes = create_routes();
    let wanted = String::from_str(path);
    let mut i: usize = 0;
    while i < routes.len()
        invariant
            i <= routes.len(),
            routes.deep_view() == routing_table(),
            wanted@ == path@,
            forall|k: int|
                0 <= k < i ==> !((#[trigger] routing_table()[k]).method == method
                    && routing_table()[k].path == path@),
        decreases routes.len() - i,
    {
        if routes[i].method == method && routes[i].path == wanted {
            assert(routes.deep_view()[i as int] == routes[i as int]@);
            assert(routing_table()[i as int] == (RouteView {
                method,
                path: path@,
                handler: routes[i as int].handler,
            }));
            proof {
                let handler = routes[i as int].handler;
                assert(routed(method, path@, handler));
                let chosen = choose|handler: Handler| routed(method, path@, handler);
                lemma_routes_unambiguous(method, path@, chosen, handler);
            }
            return Some(routes[i].handler);
        }
        assert(routes.deep_view()[i as int] == routes[i as int]@);
        i = i + 1;
    }
    assert(routes.deep_view().len() == routes.len());
    None
}

} // verus!
