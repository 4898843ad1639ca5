//! The handlers: each maps a parsed request, and what the server's
//! collaborators loaded for it, to a response.

use vstd::prelude::*;
use crate::headers::{Headers, Pair};
use crate::httprequest::{HttpRequest, RequestView, Resource};
use crate::httpresponse::{new_response, text_of, HttpResponse, ResponseView};
use crate::json::{
    distinct_names,
    items_of,
    json_array,
    json_number,
    json_object,
    json_of,
    json_string,
    json_text,
    json_to_string,
    members_of,
    Json,
};
use crate::text::{
    ends_with,
    find_piece,
    has_suffix,
    piece,
    range_is,
    slice_chars,
    string_from_chars,
    to_chars,
};

verus! {

/// The status of a shipping order.
#[derive(Debug, Clone, PartialEq)]
pub struct OrderStatus {
    /// The identifier of the order.
    pub order_id: i32,
    /// The date of the order.
    pub order_date: String,
    /// The status of the order.
    pub order_status: String,
}

/// What an order status is, mathematically.
pub struct OrderView {
    pub order_id: int,
    pub order_date: Seq<char>,
    pub order_status: Seq<char>,
}

impl View for OrderStatus {
    type V = OrderView;

    open spec fn view(&self) -> OrderView {
        OrderView {
            order_id: self.order_id as int,
            order_date: self.order_date@,
            order_status: self.order_status@,
        }
    }
}

/// The JSON document of one order: an object with the members `order_id`,
/// `order_date` and `order_status`, in this order.
pub open spec fn order_json(order: OrderView) -> Json {
    Json::Object(
        seq![
            ("order_id"@, Json::Number(order.order_id)),
            ("order_date"@, Json::Text(order.order_date)),
            ("order_status"@, Json::Text(order.order_status)),
        ],
    )
}

/// The JSON document of a list of orders: the array of their documents.
pub open spec fn orders_json(orders: Seq<OrderStatus>) -> Json {
    Json::Array(Seq::new(orders.len(), |i: int| order_json(orders[i]@)))
}

/// The three member names of an order's document differ.
pub proof fn lemma_order_member_names()
    ensures
        "order_id"@ != "order_date"@,
        "order_id"@ != "order_status"@,
        "order_date"@ != "order_status"@,
{
    reveal_strlit("order_id");
    reveal_strlit("order_date");
    reveal_strlit("order_status");
    assert("order_id"@.len() == 8 && "order_date"@.len() == 10 && "order_status"@.len() == 12);
}

impl OrderStatus {
    /// The JSON value of the order.
    pub(crate) fn to_json(&self) -> (v: serde_json::Value)
        ensures
            json_of(v) == order_json(self@),
    {
        let mut fields: Vec<(String, serde_json::Value)> = Vec::new();
        fields.push((String::from_str("order_id"), json_number(self.order_id)));
        fields.push((String::from_str("order_date"), json_string(self.order_date.as_str())));
        fields.push((String::from_str("order_status"), json_string(self.order_status.as_str())));
        proof {
            lemma_order_member_names();
            let members = members_of(fields@);
            assert(members =~= seq![
                ("order_id"@, Json::Number(self.order_id as int)),
                ("order_date"@, Json::Text(self.order_date@)),
                ("order_status"@, Json::Text(self.order_status@)),
            ]);
            assert(distinct_names(members));
        }
        json_object(fields)
    }
}

/// What the server's collaborators loaded for one request.
#[derive(Debug, Clone, PartialEq)]
pub struct Resources {
    /// The contents of the file that the request asks for, if it could be
    /// read.
    pub page: Option<String>,
    /// The contents of the page that is shown for what was not found, if it
    /// could be read.
    pub not_found_page: Option<String>,
    /// The shipping orders, if the data source could be read.
    pub orders: Option<Vec<OrderStatus>>,
}

/// The loaded orders as JSON text: what `serde_json` writes for their
/// document; none where there are no orders, or where it reports an error.
pub open spec fn orders_json_text(orders: Option<Vec<OrderStatus>>) -> Option<Seq<char>> {
    match orders {
        Some(list) => json_text(orders_json(list@)),
        None => None,
    }
}

/// The assets that come of the resources: the texts as they are, the orders
/// as JSON text.
pub open spec fn assets_of(resources: Resources) -> AssetsView {
    AssetsView {
        page: text_of(resources.page),
        not_found_page: text_of(resources.not_found_page),
        orders_json: orders_json_text(resources.orders),
    }
}

/// What a handler works on: the loaded texts, the orders already as JSON
/// text.
#[derive(Debug, Clone, PartialEq)]
pub struct Assets {
    /// The contents of the file that the request asks for, if there is one.
    pub page: Option<String>,
    /// The contents of the page that is shown for what was not found, if
    /// there is one.
    pub not_found_page: Option<String>,
    /// The shipping orders as JSON text, if there are any to show.
    pub orders_json: Option<String>,
}

/// What the assets are, mathematically.
pub struct AssetsView {
    pub page: Option<Seq<char>>,
    pub not_found_page: Option<Seq<char>>,
    pub orders_json: Option<Seq<char>>,
}

impl View for Assets {
    type V = AssetsView;

    open spec fn view(&self) -> AssetsView {
        AssetsView {
            page: text_of(self.page),
            not_found_page: text_of(self.not_found_page),
            orders_json: text_of(self.orders_json),
        }
    }
}

/// The segment number `n` of a path: what stands between its slashes number
/// `n` and `n + 1`. A path that has no such segment counts as having an
/// empty one.
pub open spec fn segment(path: Seq<char>, n: nat) -> Seq<char> {
    piece(path, '/', n)
}

/// The response for what was not found: status 404, the default headers,
/// and the not-found page as body.
pub open spec fn not_found_response(assets: AssetsView) -> ResponseView {
    new_response("404"@, None, assets.not_found_page)
}

/// The response for a data source that could not be used: status 500, the
/// default headers and no body.
pub open spec fn data_failure_response() -> ResponseView {
    new_response("500"@, None, None)
}

/// The path names the shipping orders: its segment 2 is `shipping` and its
/// segment 3 is `orders`.
pub open spec fn is_orders_path(path: Seq<char>) -> bool {
    segment(path, 2) == "shipping"@ && segment(path, 3) == "orders"@
}

/// The headers of a JSON response.
pub open spec fn json_headers() -> Seq<Pair> {
    seq![("Content-Type"@, "application/json;charset=UTF-8"@)]
}

/// The response of the web service: the orders as JSON for the orders path,
/// status 500 where they are missing, and status 404 for any other path.
pub open spec fn web_service_response(path: Seq<char>, assets: AssetsView) -> ResponseView {
    if is_orders_path(path) {
        match assets.orders_json {
            Some(json) => new_response("200"@, Some(json_headers()), Some(json)),
            None => data_failure_response(),
        }
    } else {
        not_found_response(assets)
    }
}

/// A file name has the extension `dot_ext` (a dot and the extension's
/// letters) when it ends with it and has something before the dot.
pub open spec fn has_extension(name: Seq<char>, dot_ext: Seq<char>) -> bool {
    name.len() > dot_ext.len() && ends_with(name, dot_ext)
}

/// The content type of a file, by its extension.
pub open spec fn content_type(name: Seq<char>) -> Seq<char> {
    if has_extension(name, ".css"@) {
        "text/css"@
    } else if has_extension(name, ".js"@) {
        "text/javascript"@
    } else {
        "text/html"@
    }
}

/// The path asks for one of the two fixed pages: its segment 1 is empty or
/// `health`.
pub open spec fn is_fixed_page(path: Seq<char>) -> bool {
    segment(path, 1).len() == 0 || segment(path, 1) == "health"@
}

/// The name of the file that a static page request asks for: `index.html`
/// for the empty segment 1, `health.html` for `health`, and the segment
/// itself otherwise.
pub open spec fn static_page_name(path: Seq<char>) -> Seq<char> {
    if segment(path, 1).len() == 0 {
        "index.html"@
    } else if segment(path, 1) == "health"@ {
        "health.html"@
    } else {
        segment(path, 1)
    }
}

/// The response of the static page handler. The two fixed pages are served
/// with status 200 and the default headers, with or without contents. Any
/// other file is served with status 200 and the content type of its
/// extension where it was found, and answered with status 404 where not.
pub open spec fn static_page_response(path: Seq<char>, assets: AssetsView) -> ResponseView {
    if is_fixed_page(path) {
        new_response("200"@, None, assets.page)
    } else {
        match assets.page {
            Some(contents) => new_response(
                "200"@,
                Some(seq![("Content-Type"@, content_type(segment(path, 1)))]),
                Some(contents),
            ),
            None => not_found_response(assets),
        }
    }
}

/// The characters of the request's path.
pub fn path_chars(request: &HttpRequest) -> (v: Vec<char>)
    ensures
        v@ == request@.path,
{
    match &request.resource {
        Resource::Path(p) => to_chars(p.as_str()),
    }
}

fn content_type_of(name: &Vec<char>) -> (t: &'static str)
    ensures
        t@ == content_type(name@),
{
    let css = to_chars(".css");
    let js = to_chars(".js");
    if name.len() > css.len() && has_suffix(name, &css) {
        "text/css"
    } else if name.len() > js.len() && has_suffix(name, &js) {
        "text/javascript"
    } else {
        "text/html"
    }
}

/// A handler of requests.
pub trait Handler {
    /// The response that the handler gives.
    spec fn response(request: RequestView, assets: AssetsView) -> ResponseView;

    /// Answers the request with what was loaded for it.
    fn handle(request: &HttpRequest, assets: Assets) -> (r: HttpResponse<'static>)
        ensures
            r@ == Self::response(request@, assets@),
    ;
}

/// Serves the web service API.
pub struct WebServiceHandler;

impl WebServiceHandler {
    /// Decides whether the request's path names the shipping orders.
    pub fn is_orders(request: &HttpRequest) -> (r: bool)
        ensures
            r == is_orders_path(request@.path),
    {
        let path = path_chars(request);
        let (a2, b2) = find_piece(&path, '/', 2);
        let (a3, b3) = find_piece(&path, '/', 3);
        range_is(&path, a2, b2, "shipping") && range_is(&path, a3, b3, "orders")
    }

    /// The orders as JSON text: what `serde_json` writes for the array of
    /// their documents, and `None` where it reports an error.
    pub fn orders_text(orders: &Vec<OrderStatus>) -> (r: Option<String>)
        ensures
            text_of(r) == json_text(orders_json(orders@)),
    {
        let mut values: Vec<serde_json::Value> = Vec::new();
        let mut i: usize = 0;
        while i < orders.len()
            invariant
                i <= orders.len(),
                values@.len() == i,
                forall|j: int| 0 <= j < i ==> json_of(#[trigger] values@[j]) == order_json(orders@[j]@),
            decreases orders.len() - i,
        {
            values.push(orders[i].to_json());
            i += 1;
        }
        proof {
            assert(items_of(values@) =~= Seq::new(
                orders@.len(),
                |j: int| order_json(orders@[j]@),
            ));
        }
        let document = json_array(values);
        match json_to_string(&document) {
            Ok(text) => Some(text),
            Err(_) => None,
        }
    }
}

impl Resources {
    /// Turns the resources into assets: the texts as they are, the orders
    /// as JSON text. Where there are no orders, or `serde_json` reports an
    /// error, the assets hold no orders.
    pub fn into_assets(self) -> (assets: Assets)
        ensures
            assets@ == assets_of(self),
    {
        let orders_json = match &self.orders {
            Some(list) => WebServiceHandler::orders_text(list),
            None => None,
        };
        Assets { page: self.page, not_found_page: self.not_found_page, orders_json }
    }
}

impl Handler for WebServiceHandler {
    open spec fn response(request: RequestView, assets: AssetsView) -> ResponseView {
        web_service_response(request.path, assets)
    }

    fn handle(request: &HttpRequest, assets: Assets) -> (r: HttpResponse<'static>) {
        if WebServiceHandler::is_orders(request) {
            match assets.orders_json {
                Some(json) => {
                    let headers = Headers::single("Content-Type", "application/json;charset=UTF-8");
                    HttpResponse::new("200", Some(headers), Some(json))
                },
                None => HttpResponse::new("500", None, None),
            }
        } else {
            HttpResponse::new("404", None, assets.not_found_page)
        }
    }
}

/// Serves static pages.
pub struct StaticPageHandler;

impl StaticPageHandler {
    /// Decides whether the request asks for one of the two fixed pages.
    pub fn is_fixed(request: &HttpRequest) -> (r: bool)
        ensures
            r == is_fixed_page(request@.path),
    {
        let path = path_chars(request);
        let (a, b) = find_piece(&path, '/', 1);
        a == b || range_is(&path, a, b, "health")
    }

    /// The name of the file that the request asks for.
    pub fn page_name(request: &HttpRequest) -> (name: String)
        ensures
            name@ == static_page_name(request@.path),
    {
        let path = path_chars(request);
        let (a, b) = find_piece(&path, '/', 1);
        if a == b {
            String::from_str("index.html")
        } else if range_is(&path, a, b, "health") {
            String::from_str("health.html")
        } else {
            string_from_chars(&path, a, b)
        }
    }
}

impl Handler for StaticPageHandler {
    open spec fn response(request: RequestView, assets: AssetsView) -> ResponseView {
        static_page_response(request.path, assets)
    }

    fn handle(request: &HttpRequest, assets: Assets) -> (r: HttpResponse<'static>) {
        if StaticPageHandler::is_fixed(request) {
            HttpResponse::new("200", None, assets.page)
        } else {
            match assets.page {
                Some(contents) => {
                    let path = path_chars(request);
                    let (a, b) = find_piece(&path, '/', 1);
                    let name = slice_chars(&path, a, b);
                    let headers = Headers::single("Content-Type", content_type_of(&name));
                    HttpResponse::new("200", Some(headers), Some(contents))
                },
                None => HttpResponse::new("404", None, assets.not_found_page),
            }
        }
    }
}

/// Answers with the not-found page.
pub struct PageNotFoundHandler;

impl Handler for PageNotFoundHandler {
    open spec fn response(request: RequestView, assets: AssetsView) -> ResponseView {
        not_found_response(assets)
    }

    fn handle(request: &HttpRequest, assets: Assets) -> (r: HttpResponse<'static>) {
        HttpResponse::new("404", None, assets.not_found_page)
    }
}

} // verus!
