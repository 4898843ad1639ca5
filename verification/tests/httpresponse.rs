use httpserver::headers::Headers;
use httpserver::httpresponse::HttpResponse;

#[test]
fn test_response_struct_creation_200() {
    let response_actual = HttpResponse::new(
        "200",
        None,
        Some("Item was shipped on 21st Dec 2020".to_string()),
    );

    let response_expected = HttpResponse {
        version: "HTTP/1.1",
        status_code: "200",
        status_text: "OK",
        headers: {
            let mut h = Headers::new();
            h.insert("Content-Type".to_string(), "text/html".to_string());
            Some(h)
        },
        body: Some("Item was shipped on 21st Dec 2020".to_string()),
    };

    assert_eq!(response_actual, response_expected);
}

#[test]
fn test_response_struct_creation_400() {
    let response_actual = HttpResponse::new(
        "404",
        None,
        Some("Item was shipped on 21st Dec 2020".to_string()),
    );

    let response_expected = HttpResponse {
        version: "HTTP/1.1",
        status_code: "404",
        status_text: "Not Found",
        headers: {
            let mut h = Headers::new();
            h.insert("Content-Type".to_string(), "text/html".to_string());
            Some(h)
        },
        body: Some("Item was shipped on 21st Dec 2020".to_string()),
    };

    assert_eq!(response_actual, response_expected);
}

#[test]
fn test_http_response_creation() {
    let response_actual = HttpResponse {
        version: "HTTP/1.1",
        status_code: "404",
        status_text: "Not Found",
        headers: {
            let mut h = Headers::new();
            h.insert("Content-Type".to_string(), "text/html".to_string());
            Some(h)
        },
        body: Some("Item was shipped on 21st Dec 2020".to_string()),
    };

    let http_actual: String = response_actual.into();
    let http_expected = "HTTP/1.1 404 Not Found\r\nContent-Type:text/html\r\nContent-Length: 33\r\n\r\nItem was shipped on 21st Dec 2020";

    assert_eq!(http_actual, http_expected);
}

#[test]
fn test_http_response_empty_body() {
    let response_actual = HttpResponse {
        version: "HTTP/1.1",
        status_code: "404",
        status_text: "Not Found",
        headers: {
            let mut h = Headers::new();
            h.insert("Content-Type".to_string(), "text/html".to_string());
            Some(h)
        },
        body: None,
    };

    let http_actual: String = String::from(response_actual);
    let http_expected =
        "HTTP/1.1 404 Not Found\r\nContent-Type:text/html\r\nContent-Length: 0\r\n\r\n";

    assert_eq!(http_actual, http_expected);
}

#[test]
fn reason_phrases() {
    assert_eq!(HttpResponse::new("200", None, None).status_text(), "OK");
    assert_eq!(HttpResponse::new("400", None, None).status_text(), "Bad Request");
    assert_eq!(HttpResponse::new("404", None, None).status_text(), "Not Found");
    assert_eq!(HttpResponse::new("500", None, None).status_text(), "Internal Server Error");
    assert_eq!(HttpResponse::new("201", None, None).status_text(), "Not Found");
    assert_eq!(HttpResponse::new("", None, None).status_text(), "Not Found");
    assert_eq!(HttpResponse::new("2000", None, None).status_text(), "Not Found");
}

#[test]
fn new_keeps_code_version_and_body() {
    let r = HttpResponse::new("500", None, Some("x".to_string()));
    assert_eq!(r.version(), "HTTP/1.1");
    assert_eq!(r.status_code(), "500");
    assert_eq!(r.body(), "x");
    let r = HttpResponse::new("302", None, None);
    assert_eq!(r.status_code(), "302");
    assert_eq!(r.body(), "");
    assert_eq!(r.body, None);
}

#[test]
fn new_default_headers_for_every_body() {
    for body in ["", "a", "<html></html>", "\u{4f60}\u{597d}"] {
        let r = HttpResponse::new("200", None, Some(body.to_string()));
        assert_eq!(r.status_text, "OK");
        let headers = r.headers.as_ref().unwrap();
        assert_eq!(headers.len(), 1);
        assert_eq!(headers.get("Content-Type"), Some(&"text/html".to_string()));
        assert_eq!(r.headers(), "Content-Type:text/html\r\n");
    }
}

#[test]
fn new_keeps_given_headers() {
    let mut h = Headers::new();
    h.insert("X-A".to_string(), "1".to_string());
    h.insert("X-B".to_string(), " 2".to_string());
    let r = HttpResponse::new("200", Some(h.clone()), None);
    assert_eq!(r.headers, Some(h));
    assert_eq!(r.headers(), "X-A:1\r\nX-B: 2\r\n");
    assert_eq!(
        r.serialize(),
        "HTTP/1.1 200 OK\r\nX-A:1\r\nX-B: 2\r\nContent-Length: 0\r\n\r\n"
    );
}

#[test]
fn default_response() {
    let r = HttpResponse::default();
    assert_eq!(r.version, "HTTP/1.1");
    assert_eq!(r.status_code, "200");
    assert_eq!(r.status_text, "OK");
    assert_eq!(r.headers, None);
    assert_eq!(r.body, None);
    assert_eq!(r.headers(), "");
    assert_eq!(String::from(r), "HTTP/1.1 200 OK\r\nContent-Length: 0\r\n\r\n");
}

#[test]
fn content_length_counts_bytes() {
    let r = HttpResponse::new("200", None, Some("\u{e9}\u{4f60}".to_string()));
    assert_eq!(
        r.serialize(),
        "HTTP/1.1 200 OK\r\nContent-Type:text/html\r\nContent-Length: 5\r\n\r\n\u{e9}\u{4f60}"
    );
    let r = HttpResponse::new("200", None, Some(String::new()));
    assert!(r.serialize().ends_with("Content-Length: 0\r\n\r\n"));
    let r = HttpResponse::new("200", None, Some("x".repeat(1234)));
    assert!(r.serialize().contains("\r\nContent-Length: 1234\r\n\r\nx"));
    let r = HttpResponse::new("200", None, Some("x".repeat(10)));
    assert!(r.serialize().contains("\r\nContent-Length: 10\r\n\r\nx"));
}

#[test]
fn response_without_body_ends_with_empty_line() {
    for code in ["200", "400", "404", "500", "999"] {
        let r = HttpResponse::new(code, None, None);
        let text = r.serialize();
        assert!(text.ends_with("\r\nContent-Length: 0\r\n\r\n"));
        assert_eq!(text.split("\r\n\r\n").last(), Some(""));
    }
}

#[test]
fn send_response_appends_wire_bytes() {
    let r = HttpResponse::new("404", None, Some("\u{e9}".to_string()));
    let mut out: Vec<u8> = vec![1, 2];
    r.send_response(&mut out);
    let mut expected: Vec<u8> = vec![1, 2];
    expected.extend_from_slice(
        "HTTP/1.1 404 Not Found\r\nContent-Type:text/html\r\nContent-Length: 2\r\n\r\n\u{e9}"
            .as_bytes(),
    );
    assert_eq!(out, expected);
    r.send_response(&mut out);
    assert_eq!(out.len(), 2 + 2 * (expected.len() - 2));
}
