use web_server::http::classify_request;
use web_server::http::file_name_for;
use web_server::http::render_response;
use web_server::http::status_line_for;
use web_server::http::usize_to_decimal;
use web_server::http::RequestKind;

#[test]
fn classifies_the_three_request_shapes() {
    let root = String::from("GET / HTTP/1.1");
    let sleep = String::from("GET /sleep HTTP/1.1");
    let other = String::from("GET /missing HTTP/1.1");
    let empty = String::from("");
    assert_eq!(classify_request(&root), RequestKind::Root);
    assert_eq!(classify_request(&sleep), RequestKind::Sleep);
    assert_eq!(classify_request(&other), RequestKind::NotFound);
    assert_eq!(classify_request(&empty), RequestKind::NotFound);
}

#[test]
fn status_line_follows_the_kind() {
    assert_eq!(status_line_for(RequestKind::Root), "HTTP/1.1 200 OK");
    assert_eq!(status_line_for(RequestKind::Sleep), "HTTP/1.1 200 OK");
    assert_eq!(
        status_line_for(RequestKind::NotFound),
        "HTTP/1.1 404 NOT FOUND"
    );
}

#[test]
fn file_name_follows_the_kind() {
    assert_eq!(file_name_for(RequestKind::Root), "simple_page.html");
    assert_eq!(file_name_for(RequestKind::Sleep), "simple_page.html");
    assert_eq!(file_name_for(RequestKind::NotFound), "error_page.html");
}

#[test]
fn decimal_rendering_is_exact() {
    assert_eq!(usize_to_decimal(0), "0");
    assert_eq!(usize_to_decimal(7), "7");
    assert_eq!(usize_to_decimal(10), "10");
    assert_eq!(usize_to_decimal(305), "305");
    assert_eq!(usize_to_decimal(98765), "98765");
}

#[test]
fn renders_the_full_response() {
    let r = render_response("HTTP/1.1 200 OK", "hello");
    assert_eq!(r, "HTTP/1.1 200 OK\r\nContent-Length: 5\r\n\r\nhello");
}

#[test]
fn renders_an_empty_body() {
    let r = render_response("HTTP/1.1 404 NOT FOUND", "");
    assert_eq!(r, "HTTP/1.1 404 NOT FOUND\r\nContent-Length: 0\r\n\r\n");
}
