//! The router: selects the handler that answers a request, says what has to
//! be loaded for it, and writes the handler's response to the output.

use vstd::prelude::*;
use vstd::utf8::encode_utf8;
use crate::handlers::{
    assets_of,
    is_fixed_page,
    is_orders_path,
    json_headers,
    not_found_response,
    segment,
    static_page_name,
    static_page_response,
    web_service_response,
    Assets,
    AssetsView,
    Handler,
    PageNotFoundHandler,
    Resources,
    StaticPageHandler,
    WebServiceHandler,
    path_chars,
};
use crate::httprequest::{HttpRequest, Method, RequestView};
use crate::httpresponse::{new_response, text_of, wire_text, HttpResponse, ResponseView};
use crate::text::{
    find_piece,
    is_first_index,
    lemma_piece_step,
    range_is,
    CharClass,
};

verus! {

/// The handlers among which the router selects.
#[derive(Debug, Clone, Copy, PartialEq, Eq, Structural)]
pub enum Route {
    /// The web service, for `GET` requests whose path starts with `/api`.
    WebService,
    /// The static pages, for all other `GET` requests.
    StaticPage,
    /// The not-found page, for requests with any other method.
    PageNotFound,
}

/// The handler that answers a request.
pub open spec fn route_of(request: RequestView) -> Route {
    if request.method == Method::GET {
        if segment(request.path, 1) == "api"@ {
            Route::WebService
        } else {
            Route::StaticPage
        }
    } else {
        Route::PageNotFound
    }
}

/// The response to a request: that of the handler that answers it.
pub open spec fn response_of(request: RequestView, assets: AssetsView) -> ResponseView {
    match route_of(request) {
        Route::WebService => web_service_response(request.path, assets),
        Route::StaticPage => static_page_response(request.path, assets),
        Route::PageNotFound => not_found_response(assets),
    }
}

/// What has to be loaded before a request can be answered.
#[derive(Debug, Clone, PartialEq)]
pub struct Plan {
    /// The name of the file to load as the page, if the request asks for
    /// one.
    pub page: Option<String>,
    /// Whether the not-found page may be needed.
    pub not_found_page: bool,
    /// Whether the shipping orders are needed.
    pub orders: bool,
}

/// What a plan is, mathematically.
pub struct PlanView {
    pub page: Option<Seq<char>>,
    pub not_found_page: bool,
    pub orders: bool,
}

impl View for Plan {
    type V = PlanView;

    open spec fn view(&self) -> PlanView {
        PlanView { page: text_of(self.page), not_found_page: self.not_found_page, orders: self.orders }
    }
}

/// What has to be loaded for a request.
pub open spec fn plan_of(request: RequestView) -> PlanView {
    match route_of(request) {
        Route::WebService => PlanView {
            page: None,
            not_found_page: !is_orders_path(request.path),
            orders: is_orders_path(request.path),
        },
        Route::StaticPage => PlanView {
            page: Some(static_page_name(request.path)),
            not_found_page: !is_fixed_page(request.path),
            orders: false,
        },
        Route::PageNotFound => PlanView { page: None, not_found_page: true, orders: false },
    }
}

/// Two sets of assets agree on what a plan asks for.
pub open spec fn agree_on(plan: PlanView, a: AssetsView, b: AssetsView) -> bool {
    &&& plan.page is Some ==> a.page == b.page
    &&& plan.not_found_page ==> a.not_found_page == b.not_found_page
    &&& plan.orders ==> a.orders_json == b.orders_json
}

/// Routes requests to handlers.
pub struct Router;

impl Router {
    /// Selects the handler that answers the request.
    pub fn select(request: &HttpRequest) -> (r: Route)
        ensures
            r == route_of(request@),
    {
        match request.method {
            Method::GET => {
                let path = path_chars(request);
                let (a, b) = find_piece(&path, '/', 1);
                if range_is(&path, a, b, "api") {
                    Route::WebService
                } else {
                    Route::StaticPage
                }
            },
            _ => Route::PageNotFound,
        }
    }

    /// Says what has to be loaded before the request can be answered.
    pub fn plan(request: &HttpRequest) -> (p: Plan)
        ensures
            p@ == plan_of(request@),
    {
        match Router::select(request) {
            Route::WebService => {
                let orders = WebServiceHandler::is_orders(request);
                Plan { page: None, not_found_page: !orders, orders }
            },
            Route::StaticPage => {
                let fixed = StaticPageHandler::is_fixed(request);
                Plan {
                    page: Some(StaticPageHandler::page_name(request)),
                    not_found_page: !fixed,
                    orders: false,
                }
            },
            Route::PageNotFound => Plan { page: None, not_found_page: true, orders: false },
        }
    }

    /// Answers the request: runs the one handler that is selected for it.
    pub fn respond(request: &HttpRequest, assets: Assets) -> (r: HttpResponse<'static>)
        ensures
            r@ == response_of(request@, assets@),
    {
        match Router::select(request) {
            Route::WebService => WebServiceHandler::handle(request, assets),
            Route::StaticPage => StaticPageHandler::handle(request, assets),
            Route::PageNotFound => PageNotFoundHandler::handle(request, assets),
        }
    }

    /// Answers the request and writes the response to `stream`: appends the
    /// UTF-8 bytes of its wire text. The response is the one for the loaded
    /// resources, with the orders as the JSON text that `serde_json` writes
    /// for them.
    pub fn route(request: HttpRequest, resources: Resources, stream: &mut Vec<u8>)
        ensures
            final(stream)@ == old(stream)@ + encode_utf8(
                wire_text(response_of(request@, assets_of(resources))),
            ),
    {
        let assets = resources.into_assets();
        let response = Router::respond(&request, assets);
        response.send_response(stream);
    }
}

/// A request with a method other than `GET` is answered with status 404 and
/// the not-found page, whatever its path.
pub proof fn lemma_other_methods_not_found(request: RequestView, assets: AssetsView)
    requires
        request.method != Method::GET,
    ensures
        response_of(request, assets) == not_found_response(assets),
        response_of(request, assets).status_code == "404"@,
{
}

/// A `GET` request for a file that is not one of the fixed pages and was not
/// found is answered with status 404.
pub proof fn lemma_missing_page_not_found(request: RequestView, assets: AssetsView)
    requires
        request.method == Method::GET,
        segment(request.path, 1) != "api"@,
        !is_fixed_page(request.path),
        assets.page is None,
    ensures
        response_of(request, assets) == not_found_response(assets),
        response_of(request, assets).status_code == "404"@,
{
}

/// A `GET` request for the orders path of the API, with orders at hand, is
/// answered with status 200, the JSON content type, and the orders as body.
pub proof fn lemma_orders_response(request: RequestView, assets: AssetsView)
    requires
        request.method == Method::GET,
        segment(request.path, 1) == "api"@,
        is_orders_path(request.path),
        assets.orders_json is Some,
    ensures
        response_of(request, assets) == new_response(
            "200"@,
            Some(json_headers()),
            assets.orders_json,
        ),
        response_of(request, assets).status_code == "200"@,
        response_of(request, assets).headers == Some(json_headers()),
        response_of(request, assets).body == assets.orders_json,
{
}

/// The path `/api/shipping/orders` belongs to the API and names the shipping
/// orders.
pub proof fn lemma_orders_path()
    ensures
        segment("/api/shipping/orders"@, 1) == "api"@,
        is_orders_path("/api/shipping/orders"@),
{
    reveal_strlit("/api/shipping/orders");
    reveal_strlit("api");
    reveal_strlit("shipping");
    reveal_strlit("orders");
    let slash = CharClass::Exactly('/');
    let s0 = "/api/shipping/orders"@;
    let s1 = s0.skip(1);
    let s2 = s1.skip(4);
    let s3 = s2.skip(9);
    assert(is_first_index(s0, slash, 0));
    assert(is_first_index(s1, slash, 3));
    assert(is_first_index(s2, slash, 8));
    assert(is_first_index(s3, slash, 6));
    lemma_piece_step(s0, '/', 1, 0);
    lemma_piece_step(s0, '/', 2, 0);
    lemma_piece_step(s0, '/', 3, 0);
    lemma_piece_step(s1, '/', 0, 3);
    lemma_piece_step(s1, '/', 1, 3);
    lemma_piece_step(s1, '/', 2, 3);
    lemma_piece_step(s2, '/', 0, 8);
    lemma_piece_step(s2, '/', 1, 8);
    lemma_piece_step(s3, '/', 0, 6);
    assert(s1.take(3) =~= "api"@);
    assert(s2.take(8) =~= "shipping"@);
    assert(s3.take(6) =~= "orders"@);
}

/// The response depends on nothing but what the plan asks for: assets that
/// agree on that give the same response.
pub proof fn lemma_plan_suffices(request: RequestView, a: AssetsView, b: AssetsView)
    requires
        agree_on(plan_of(request), a, b),
    ensures
        response_of(request, a) == response_of(request, b),
{
}

} // verus!
