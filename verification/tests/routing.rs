use httpserver::handlers::{
    Assets, Handler, OrderStatus, PageNotFoundHandler, Resources, StaticPageHandler,
    WebServiceHandler,
};
use httpserver::headers::Headers;
use httpserver::httprequest::{HttpRequest, Method, Resource, Version};
use httpserver::httpresponse::HttpResponse;
use httpserver::router::{Plan, Route, Router};
use httpserver::server::Server;

fn request(method: Method, path: &str) -> HttpRequest {
    HttpRequest {
        method,
        version: Version::V1_1,
        resource: Resource::Path(path.to_string()),
        headers: Headers::new(),
        msg_body: String::new(),
    }
}

fn assets(page: Option<&str>, not_found_page: Option<&str>, orders_json: Option<&str>) -> Assets {
    Assets {
        page: page.map(|s| s.to_string()),
        not_found_page: not_found_page.map(|s| s.to_string()),
        orders_json: orders_json.map(|s| s.to_string()),
    }
}

fn orders() -> Vec<OrderStatus> {
    vec![
        OrderStatus {
            order_id: 1,
            order_date: "21 Jan 2020".to_string(),
            order_status: "Delivered".to_string(),
        },
        OrderStatus {
            order_id: -2,
            order_date: "2 Feb 2020".to_string(),
            order_status: "Pending \"pickup\"".to_string(),
        },
    ]
}

fn content_type(response: &HttpResponse) -> Option<String> {
    response.headers.as_ref().and_then(|h| h.get("Content-Type").cloned())
}

#[test]
fn orders_text_is_json_of_the_orders() {
    assert_eq!(
        WebServiceHandler::orders_text(&orders()),
        Some(
            "[{\"order_id\":1,\"order_date\":\"21 Jan 2020\",\"order_status\":\"Delivered\"},{\"order_id\":-2,\"order_date\":\"2 Feb 2020\",\"order_status\":\"Pending \\\"pickup\\\"\"}]"
                .to_string()
        )
    );
    assert_eq!(WebServiceHandler::orders_text(&Vec::new()), Some("[]".to_string()));
}

#[test]
fn route_get_orders() {
    let resources = Resources { page: None, not_found_page: None, orders: Some(orders()) };
    let response = Router::respond(
        &request(Method::GET, "/api/shipping/orders"),
        resources.into_assets(),
    );
    assert_eq!(response.status_code, "200");
    assert_eq!(response.status_text, "OK");
    assert_eq!(content_type(&response), Some("application/json;charset=UTF-8".to_string()));
    let body = response.body.clone().unwrap();
    let parsed: serde_json::Value = serde_json::from_str(&body).unwrap();
    let list = parsed.as_array().unwrap();
    assert_eq!(list.len(), 2);
    assert_eq!(list[0].as_object().unwrap().len(), 3);
    assert_eq!(list[0]["order_id"].as_i64(), Some(1));
    assert_eq!(list[0]["order_date"].as_str(), Some("21 Jan 2020"));
    assert_eq!(list[0]["order_status"].as_str(), Some("Delivered"));
    assert_eq!(list[1]["order_id"].as_i64(), Some(-2));
    assert_eq!(list[1]["order_status"].as_str(), Some("Pending \"pickup\""));
}

#[test]
fn route_get_orders_writes_wire_bytes() {
    let resources = Resources {
        page: None,
        not_found_page: None,
        orders: Some(vec![OrderStatus {
            order_id: 7,
            order_date: "d".to_string(),
            order_status: "s".to_string(),
        }]),
    };
    let mut out: Vec<u8> = Vec::new();
    Router::route(request(Method::GET, "/api/shipping/orders"), resources, &mut out);
    assert_eq!(
        String::from_utf8(out).unwrap(),
        "HTTP/1.1 200 OK\r\nContent-Type:application/json;charset=UTF-8\r\nContent-Length: 52\r\n\r\n[{\"order_id\":7,\"order_date\":\"d\",\"order_status\":\"s\"}]"
    );
}

#[test]
fn route_get_orders_without_data_is_500() {
    let resources = Resources { page: None, not_found_page: Some("nf".to_string()), orders: None };
    let mut out: Vec<u8> = Vec::new();
    Router::route(request(Method::GET, "/api/shipping/orders"), resources, &mut out);
    assert_eq!(
        String::from_utf8(out).unwrap(),
        "HTTP/1.1 500 Internal Server Error\r\nContent-Type:text/html\r\nContent-Length: 0\r\n\r\n"
    );
}

#[test]
fn route_get_other_api_path_is_404() {
    for path in ["/api", "/api/", "/api/shipping", "/api/shipping/order", "/api/x/orders"] {
        let response = Router::respond(
            &request(Method::GET, path),
            assets(None, Some("<h1>404</h1>"), Some("[]")),
        );
        assert_eq!(response.status_code, "404");
        assert_eq!(response.status_text, "Not Found");
        assert_eq!(response.body, Some("<h1>404</h1>".to_string()));
        assert_eq!(content_type(&response), Some("text/html".to_string()));
    }
}

#[test]
fn route_get_nonexistent_is_404() {
    let response =
        Router::respond(&request(Method::GET, "/nonexistent"), assets(None, Some("nf"), None));
    assert_eq!(response.status_code, "404");
    assert_eq!(response.body, Some("nf".to_string()));
    let response = Router::respond(&request(Method::GET, "/nonexistent"), assets(None, None, None));
    assert_eq!(response.status_code, "404");
    assert_eq!(response.body, None);
}

#[test]
fn route_post_is_404_for_every_path() {
    for method in [Method::POST, Method::UNINITIALIZED] {
        for path in ["/anything", "/", "", "/api/shipping/orders", "/health", "/index.html"] {
            let response = Router::respond(
                &request(method, path),
                assets(Some("page"), Some("nf"), Some("[]")),
            );
            assert_eq!(response.status_code, "404");
            assert_eq!(response.status_text, "Not Found");
            assert_eq!(response.body, Some("nf".to_string()));
            assert_eq!(Router::select(&request(method, path)), Route::PageNotFound);
        }
    }
}

#[test]
fn select_by_method_and_first_segment() {
    assert_eq!(Router::select(&request(Method::GET, "/api")), Route::WebService);
    assert_eq!(Router::select(&request(Method::GET, "/api/shipping/orders")), Route::WebService);
    assert_eq!(Router::select(&request(Method::GET, "/apis")), Route::StaticPage);
    assert_eq!(Router::select(&request(Method::GET, "/")), Route::StaticPage);
    assert_eq!(Router::select(&request(Method::GET, "")), Route::StaticPage);
    assert_eq!(Router::select(&request(Method::GET, "api")), Route::StaticPage);
    assert_eq!(Router::select(&request(Method::POST, "/api")), Route::PageNotFound);
}

#[test]
fn static_pages() {
    let response = StaticPageHandler::handle(&request(Method::GET, "/"), assets(Some("home"), None, None));
    assert_eq!(response.status_code, "200");
    assert_eq!(response.body, Some("home".to_string()));
    assert_eq!(content_type(&response), Some("text/html".to_string()));
    // A fixed page that could not be loaded is still answered with 200.
    let response = StaticPageHandler::handle(&request(Method::GET, "/health"), assets(None, Some("nf"), None));
    assert_eq!(response.status_code, "200");
    assert_eq!(response.body, None);
    for (path, expected) in [
        ("/styles.css", "text/css"),
        ("/app.js", "text/javascript"),
        ("/page.html", "text/html"),
        ("/README", "text/html"),
        ("/.css", "text/html"),
        ("/.js", "text/html"),
        ("/a.css.txt", "text/html"),
        ("/a.b.js", "text/javascript"),
        ("/styles.css/more", "text/css"),
    ] {
        let response =
            StaticPageHandler::handle(&request(Method::GET, path), assets(Some("x"), Some("nf"), None));
        assert_eq!(response.status_code, "200");
        assert_eq!(response.body, Some("x".to_string()));
        assert_eq!(content_type(&response), Some(expected.to_string()));
    }
}

#[test]
fn static_page_names() {
    for (path, name) in [
        ("/", "index.html"),
        ("", "index.html"),
        ("//x", "index.html"),
        ("/health", "health.html"),
        ("/health/x", "health.html"),
        ("/styles.css", "styles.css"),
        ("/a/b", "a"),
        ("/healthy", "healthy"),
    ] {
        assert_eq!(StaticPageHandler::page_name(&request(Method::GET, path)), name);
    }
}

#[test]
fn page_not_found_handler() {
    let response = PageNotFoundHandler::handle(&request(Method::GET, "/"), assets(Some("p"), Some("nf"), None));
    assert_eq!(response, HttpResponse::new("404", None, Some("nf".to_string())));
}

#[test]
fn web_service_handler_checks_segments_two_and_three() {
    let response = WebServiceHandler::handle(
        &request(Method::GET, "/v1/shipping/orders/all"),
        assets(None, None, Some("[]")),
    );
    assert_eq!(response.status_code, "200");
    assert_eq!(response.body, Some("[]".to_string()));
    assert!(WebServiceHandler::is_orders(&request(Method::GET, "/api/shipping/orders")));
    assert!(!WebServiceHandler::is_orders(&request(Method::GET, "/api/shipping")));
}

#[test]
fn plans() {
    assert_eq!(
        Router::plan(&request(Method::GET, "/")),
        Plan { page: Some("index.html".to_string()), not_found_page: false, orders: false }
    );
    assert_eq!(
        Router::plan(&request(Method::GET, "/health")),
        Plan { page: Some("health.html".to_string()), not_found_page: false, orders: false }
    );
    assert_eq!(
        Router::plan(&request(Method::GET, "/a.css")),
        Plan { page: Some("a.css".to_string()), not_found_page: true, orders: false }
    );
    assert_eq!(
        Router::plan(&request(Method::GET, "/api/shipping/orders")),
        Plan { page: None, not_found_page: false, orders: true }
    );
    assert_eq!(
        Router::plan(&request(Method::GET, "/api/other")),
        Plan { page: None, not_found_page: true, orders: false }
    );
    assert_eq!(
        Router::plan(&request(Method::POST, "/")),
        Plan { page: None, not_found_page: true, orders: false }
    );
}

#[test]
fn server_address() {
    let server = Server::new("localhost:3000");
    assert_eq!(server.socket_address(), "localhost:3000");
}

#[test]
fn server_receives_a_request() {
    let request = Server::receive(b"GET /greeting HTTP/1.1\r\nHost: localhost:3000\r\n\r\n").unwrap();
    assert_eq!(request.method, Method::GET);
    assert_eq!(request.resource, Resource::Path("/greeting".to_string()));
    let request = Server::receive("POST /\u{e9} HTTP/1.1".as_bytes()).unwrap();
    assert_eq!(request.resource, Resource::Path("/\u{e9}".to_string()));
}

#[test]
fn server_answers_bad_bytes_with_400() {
    let expected = HttpResponse::new("400", None, None);
    assert_eq!(Server::receive(&[0xff, 0xfe]), Err(expected.clone()));
    assert_eq!(Server::receive(&[b'G', 0xc3]), Err(expected.clone()));
    assert_eq!(Server::receive(b"GET HTTP/1.1\r\n"), Err(expected.clone()));
    assert_eq!(
        String::from(expected),
        "HTTP/1.1 400 Bad Request\r\nContent-Type:text/html\r\nContent-Length: 0\r\n\r\n"
    );
}

#[test]
fn whole_requests() {
    assert!(!Server::is_complete(b""));
    assert!(!Server::is_complete(b"GET / HTTP/1.1\r\n"));
    assert!(!Server::is_complete(b"GET / HTTP/1.1\r\nHost: a\r\n"));
    assert!(Server::is_complete(b"GET / HTTP/1.1\r\n\r\n"));
    assert!(Server::is_complete(b"GET / HTTP/1.1\r\nHost: a\r\n\r\n"));
    assert!(Server::is_complete(b"\r\n\r\n"));
    // A declared length asks for that many bytes after the head.
    assert!(!Server::is_complete(b"POST / HTTP/1.1\r\nContent-Length: 5\r\n\r\n"));
    assert!(!Server::is_complete(b"POST / HTTP/1.1\r\nContent-Length: 5\r\n\r\nhell"));
    assert!(Server::is_complete(b"POST / HTTP/1.1\r\nContent-Length: 5\r\n\r\nhello"));
    assert!(Server::is_complete(b"POST / HTTP/1.1\r\nContent-Length:5\r\n\r\nhello!"));
    assert!(Server::is_complete(b"POST / HTTP/1.1\r\nContent-Length: 0\r\n\r\n"));
    assert!(Server::is_complete("POST / HTTP/1.1\r\nContent-Length: 2\r\n\r\n\u{e9}".as_bytes()));
    assert!(!Server::is_complete("POST / HTTP/1.1\r\nContent-Length: 3\r\n\r\n\u{e9}".as_bytes()));
    // What is no numeral declares nothing.
    assert!(Server::is_complete(b"POST / HTTP/1.1\r\nContent-Length: five\r\n\r\n"));
    assert!(Server::is_complete(b"POST / HTTP/1.1\r\nContent-Length: 5 6\r\n\r\n"));
    assert!(Server::is_complete(b"POST / HTTP/1.1\r\nContent-Length:\r\n\r\n"));
    assert!(Server::is_complete(b"POST / HTTP/1.1\r\ncontent-length: 5\r\n\r\n"));
    // A rejected head declares nothing.
    assert!(Server::is_complete(b"HTTP\r\nContent-Length: 5\r\n\r\n"));
    // A number beyond the machine's range is never reached.
    assert!(!Server::is_complete(
        b"POST / HTTP/1.1\r\nContent-Length: 99999999999999999999999999\r\n\r\nhello"
    ));
    // Bytes that are no text hold no request.
    assert!(!Server::is_complete(&[0xff, b'\r', b'\n', b'\r', b'\n']));
}

#[test]
fn reading_goes_on_up_to_the_limit() {
    assert!(Server::wants_more(b"", 10));
    assert!(Server::wants_more(b"GET / HT", 10));
    assert!(!Server::wants_more(b"GET / HTTP", 10));
    assert!(!Server::wants_more(b"", 0));
    assert!(!Server::wants_more(b"G / HTTP/1.1\r\n\r\n", 100));
    assert!(Server::wants_more(b"G / HTTP/1.1\r\nContent-Length: 1\r\n\r\n", 100));
}
