use pencil::datastructures::Headers;
use pencil::uri::UrlParts;
use pencil::wrappers::{
    absolute_url, join_path_query, join_url, RawRequest, Request, RequestUri, Response,
};

fn raw(target: &str, host: Option<&str>, content_type: Option<&str>, body: &str) -> RawRequest {
    let mut headers = Headers::new(None);
    if let Some(h) = host {
        headers.set("Host", h);
    }
    if let Some(c) = content_type {
        headers.set("Content-Type", c);
    }
    RawRequest {
        remote_addr: Some("127.0.0.1:4000".to_string()),
        headers,
        body: body.as_bytes().to_vec(),
        method: "GET".to_string(),
        request_uri: RequestUri::AbsolutePath(target.to_string()),
    }
}

fn s(text: &str) -> Option<String> {
    Some(text.to_string())
}

#[test]
fn url_reconstruction() {
    let r = Request::new(raw("/foo?x=1", Some("example.com"), None, ""));
    assert_eq!(r.path(), s("/foo"));
    assert_eq!(r.query_string(), s("x=1"));
    assert_eq!(r.full_path(), s("/foo?x=1"));
    assert_eq!(r.host(), s("example.com"));
    assert_eq!(r.host_url(), s("http://example.com/"));
    assert_eq!(r.url(), s("http://example.com/foo?x=1"));
    assert_eq!(r.base_url(), s("http://example.com/foo"));
}

#[test]
fn url_without_query() {
    let r = Request::new(raw("/a/b", Some("example.com:8080"), None, ""));
    assert_eq!(r.path(), s("/a/b"));
    assert_eq!(r.query_string(), None);
    assert_eq!(r.full_path(), s("/a/b"));
    assert_eq!(r.url(), s("http://example.com:8080/a/b"));
    assert_eq!(r.base_url(), s("http://example.com:8080/a/b"));
}

#[test]
fn target_gets_exactly_one_leading_slash() {
    let r = Request::new(raw("///foo", Some("example.com"), None, ""));
    assert_eq!(r.path(), s("/foo"));
    let r = Request::new(raw("foo", Some("example.com"), None, ""));
    assert_eq!(r.path(), s("/foo"));
    assert_eq!(
        absolute_url(&raw("//x/y", Some("h"), None, "")),
        s("http://h/x/y")
    );
}

#[test]
fn path_is_percent_decoded() {
    let r = Request::new(raw("/a%20b/%E2%82%AC?q=%20", Some("example.com"), None, ""));
    assert_eq!(r.path(), s("/a b/\u{20ac}"));
    assert_eq!(r.query_string(), s("q=%20"));
    assert_eq!(r.full_path(), s("/a b/\u{20ac}?q=%20"));
}

#[test]
fn missing_host_degrades_cleanly() {
    let mut r = Request::new(raw("/foo?x=1", None, None, ""));
    assert_eq!(r.host(), None);
    assert_eq!(r.host_url(), None);
    assert_eq!(r.url(), None);
    assert_eq!(r.base_url(), None);
    assert_eq!(r.path(), None);
    assert_eq!(r.query_string(), None);
    assert_eq!(r.full_path(), None);
    assert_eq!(r.method(), "GET");
    assert_eq!(r.headers().get("Host"), None);
    assert_eq!(r.headers().len(), 0);
    assert_eq!(r.args().len(), 0);
    assert_eq!(absolute_url(&r.request), None);
}

#[test]
fn unparseable_url_degrades_cleanly() {
    let mut r = Request::new(raw("/foo?x=1", Some("exa mple.com:port"), None, ""));
    assert_eq!(r.host(), s("exa mple.com:port"));
    assert_eq!(r.host_url(), s("http://exa mple.com:port/"));
    assert_eq!(r.path(), None);
    assert_eq!(r.query_string(), None);
    assert_eq!(r.full_path(), None);
    assert_eq!(r.url(), None);
    assert_eq!(r.base_url(), None);
    assert_eq!(r.args().len(), 0);
}

#[test]
fn target_that_is_no_path_has_no_url() {
    let mut request = raw("/", Some("example.com"), None, "");
    request.request_uri = RequestUri::Star;
    assert_eq!(absolute_url(&request), None);
    let r = Request::new(request);
    assert_eq!(r.path(), None);
    assert_eq!(r.url(), None);
    assert_eq!(r.host_url(), s("http://example.com/"));
    let mut request = raw("/", Some("example.com"), None, "");
    request.request_uri = RequestUri::AbsoluteUri("http://example.com/x".to_string());
    assert_eq!(Request::new(request).path(), None);
    let mut request = raw("/", Some("example.com"), None, "");
    request.request_uri = RequestUri::Authority("example.com:80".to_string());
    assert_eq!(Request::new(request).path(), None);
}

#[test]
fn args_keep_repeated_parameters() {
    let mut r = Request::new(raw("/s?a=1&a=2&b=x%20y&c", Some("example.com"), None, ""));
    assert_eq!(r.args().get_all("a"), vec!["1".to_string(), "2".to_string()]);
    assert_eq!(r.args().get_first("b"), s("x y"));
    assert_eq!(r.args().get_first("c"), s(""));
    assert_eq!(r.args().len(), 4);
}

#[test]
fn args_are_computed_once() {
    let mut r = Request::new(raw("/s?a=1", Some("example.com"), None, ""));
    assert_eq!(r.args().get_all("a"), vec!["1".to_string()]);
    r.request.request_uri = RequestUri::AbsolutePath("/s?a=changed".to_string());
    r.request.headers.set("Host", "other.example");
    assert_eq!(r.args().get_all("a"), vec!["1".to_string()]);
    assert_eq!(r.args().len(), 1);
}

#[test]
fn args_without_query_are_empty() {
    let mut r = Request::new(raw("/s", Some("example.com"), None, ""));
    assert_eq!(r.args().len(), 0);
    assert_eq!(r.args().get_first("a"), None);
}

#[test]
fn form_decoding_is_selective() {
    let mut r = Request::new(raw(
        "/post",
        Some("example.com"),
        Some("application/json"),
        "a=1&a=2&b=3",
    ));
    assert_eq!(r.form().len(), 0);
    assert!(r.form().get_all("a").is_empty());
    let mut r = Request::new(raw(
        "/post",
        Some("example.com"),
        Some("application/x-www-form-urlencoded"),
        "a=1&a=2&b=3",
    ));
    assert_eq!(r.form().get_all("a"), vec!["1".to_string(), "2".to_string()]);
    assert_eq!(r.form().get_all("b"), vec!["3".to_string()]);
}

#[test]
fn form_accepts_the_legacy_type_and_decodes() {
    let mut r = Request::new(raw(
        "/post",
        Some("example.com"),
        Some("application/x-url-encoded"),
        "name=J%C3%BCrgen+M&x=%26",
    ));
    assert_eq!(r.form().get_first("name"), s("J\u{fc}rgen M"));
    assert_eq!(r.form().get_first("x"), s("&"));
}

#[test]
fn form_without_content_type_is_empty() {
    let mut r = Request::new(raw("/post", Some("example.com"), None, "a=1"));
    assert_eq!(r.form().len(), 0);
}

#[test]
fn form_is_computed_once() {
    let mut r = Request::new(raw(
        "/post",
        None,
        Some("application/x-www-form-urlencoded"),
        "a=1",
    ));
    assert_eq!(r.form().get_all("a"), vec!["1".to_string()]);
    r.request.body = b"a=2&b=3".to_vec();
    r.request.headers.set("Content-Type", "text/plain");
    assert_eq!(r.form().get_all("a"), vec!["1".to_string()]);
    assert_eq!(r.form().len(), 1);
}

#[test]
fn request_with_given_url_parts() {
    let parts = UrlParts { path: "/p%41".to_string(), query: Some("k=v".to_string()) };
    let mut r = Request::with_url(raw("/ignored", Some("h"), None, ""), Some(parts));
    assert_eq!(r.path(), s("/pA"));
    assert_eq!(r.query_string(), s("k=v"));
    assert_eq!(r.url(), s("http://h/pA?k=v"));
    assert_eq!(r.args().get_first("k"), s("v"));
    let r = Request::with_url(raw("/ignored", Some("h"), None, ""), None);
    assert_eq!(r.path(), None);
    assert_eq!(r.url(), None);
}

#[test]
fn scheme_is_fixed() {
    let r = Request::new(raw("/", Some("example.com"), None, ""));
    assert_eq!(r.scheme(), "http");
    assert!(!r.is_secure());
    assert_eq!(r.remote_addr(), s("127.0.0.1:4000"));
}

#[test]
fn join_path_query_cases() {
    assert_eq!(join_path_query(s("/a"), s("x=1")), s("/a?x=1"));
    assert_eq!(join_path_query(s("/a"), s("")), s("/a?"));
    assert_eq!(join_path_query(s("/a"), None), s("/a"));
    assert_eq!(join_path_query(None, s("x=1")), None);
    assert_eq!(join_path_query(None, None), None);
}

#[test]
fn join_url_cases() {
    assert_eq!(join_url(s("http://h/"), s("/a/b")), s("http://h/a/b"));
    assert_eq!(join_url(s("http://h/"), s("//a")), s("http://h/a"));
    assert_eq!(join_url(s("http://h/"), s("")), s("http://h/"));
    assert_eq!(join_url(None, s("/a")), None);
    assert_eq!(join_url(s("http://h/"), None), None);
}

#[test]
fn response_starts_in_step() {
    let r = Response::new("hi".to_string());
    assert_eq!(r.status_code, 200);
    assert_eq!(r.body, "hi");
    assert_eq!(r.content_length(), Some(2));
    assert_eq!(r.content_type(), s("text/html; charset=utf-8"));
    assert_eq!(r.headers.len(), 2);
    assert_eq!(r.headers.get("content-length"), Some(&"2".to_string()));
}

#[test]
fn set_data_keeps_body_and_length_in_step() {
    let mut r = Response::new("hi".to_string());
    r.set_data("hello world".to_string());
    assert_eq!(r.body, "hello world");
    assert_eq!(r.content_length(), Some(11));
    assert_eq!(r.headers.len(), 2);
    assert_eq!(r.content_type(), s("text/html; charset=utf-8"));
    r.set_data(String::new());
    assert_eq!(r.content_length(), Some(0));
}

#[test]
fn content_length_counts_bytes() {
    let r = Response::new("h\u{e9}llo \u{20ac}".to_string());
    assert_eq!(r.content_length(), Some(10));
}

#[test]
fn status_name_falls_back() {
    let mut r = Response::new(String::new());
    assert_eq!(r.status_name(), "OK");
    r.status_code = 404;
    assert_eq!(r.status_name(), "Not Found");
    r.status_code = 777;
    assert_eq!(r.status_name(), "UNKNOWN");
    r.status_code = -1;
    assert_eq!(r.status_name(), "UNKNOWN");
}

#[test]
fn set_content_type_attaches_charset() {
    let mut r = Response::new("x".to_string());
    r.set_content_type("text/plain");
    assert_eq!(r.content_type(), s("text/plain; charset=utf-8"));
    assert_eq!(r.headers.len(), 2);
    assert_eq!(r.content_length(), Some(1));
}

#[test]
fn set_content_length_overrides() {
    let mut r = Response::new("x".to_string());
    r.set_content_length(40);
    assert_eq!(r.content_length(), Some(40));
    assert_eq!(r.headers.get("Content-Length"), Some(&"40".to_string()));
    assert_eq!(r.body, "x");
}

#[test]
fn content_length_of_foreign_header_text() {
    let mut r = Response::new("x".to_string());
    r.headers.set("content-length", "twelve");
    assert_eq!(r.content_length(), None);
    r.headers.set("content-length", "12");
    assert_eq!(r.content_length(), Some(12));
    r.headers = Headers::new(None);
    assert_eq!(r.content_length(), None);
    assert_eq!(r.content_type(), None);
}
