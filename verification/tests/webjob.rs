use workpool::webjob::{InvalidExpression, Request, Response};

fn texts(parts: (String, String, String)) -> (String, String, String) {
    parts
}

#[test]
fn parse_request_returns_first_and_third_word() {
    let parts = texts(Request::parse_request(String::from("GET / HTTP/1.1\r\n\r\n")));
    assert_eq!(parts.0, "GET");
    assert_eq!(parts.1, "HTTP/1.1");
    assert_eq!(parts.2, "");
}

#[test]
fn parse_request_of_short_texts() {
    let parts = Request::parse_request(String::from(""));
    assert_eq!(parts, (String::new(), String::new(), String::new()));
    let parts = Request::parse_request(String::from(" \t\r\n"));
    assert_eq!(parts, (String::new(), String::new(), String::new()));
    let parts = Request::parse_request(String::from("GET"));
    assert_eq!(parts, (String::from("GET"), String::new(), String::new()));
    let parts = Request::parse_request(String::from("  GET   /index  "));
    assert_eq!(parts, (String::from("GET"), String::new(), String::new()));
}

#[test]
fn parse_request_looks_at_no_word_after_the_third() {
    let parts = Request::parse_request(String::from("a\u{3000}b\u{a0}\u{e9}t\u{e9} d e"));
    assert_eq!(parts, (String::from("a"), String::from("\u{e9}t\u{e9}"), String::new()));
}

#[test]
fn parse_request_keeps_trailing_zero_bytes_in_a_word() {
    let parts = Request::parse_request(String::from("GET / HTTP/1.1\0\0\0"));
    assert_eq!(parts.1, "HTTP/1.1\0\0\0");
}

#[test]
fn request_path_is_the_third_word() {
    assert_eq!(Request::from(String::from("GET / /index.html")).path(), "/index.html");
    assert_eq!(Request::from(String::from("GET /")).path(), "");
}

#[test]
fn route_finds_the_first_matching_expression() {
    let request = Request::from(String::from("GET HTTP/1.1 /about"));
    let paths = vec![("^/$", "hello.html"), ("^/about$", "about.html"), (".*", "404.html")];
    assert_eq!(Response::route(&request, &paths), Ok(Some(1)));
    let request = Request::from(String::from("GET HTTP/1.1 /"));
    assert_eq!(Response::route(&request, &paths), Ok(Some(0)));
    let request = Request::from(String::from("GET HTTP/1.1 /missing"));
    assert_eq!(Response::route(&request, &paths), Ok(Some(2)));
}

#[test]
fn route_matches_anywhere_in_the_path() {
    let request = Request::from(String::from("GET HTTP/1.1 /a/b"));
    assert_eq!(Response::route(&request, &vec![("b", "b.html")]), Ok(Some(0)));
    assert_eq!(Response::route(&request, &vec![("c", "c.html")]), Ok(None));
}

#[test]
fn route_without_a_match_is_none() {
    let request = Request::from(String::from("GET HTTP/1.1 /missing"));
    assert_eq!(Response::route(&request, &Vec::new()), Ok(None));
    assert_eq!(Response::route(&request, &vec![("^/$", "hello.html")]), Ok(None));
}

#[test]
fn route_reports_an_expression_that_does_not_compile() {
    let request = Request::from(String::from("GET HTTP/1.1 /"));
    let paths = vec![("^/about$", "about.html"), ("(", "broken.html"), ("^/$", "hello.html")];
    assert_eq!(Response::route(&request, &paths), Err(InvalidExpression { index: 1 }));
}

#[test]
fn route_tries_no_expression_after_the_match() {
    let request = Request::from(String::from("GET HTTP/1.1 /"));
    let paths = vec![("^/$", "hello.html"), ("(", "broken.html")];
    assert_eq!(Response::route(&request, &paths), Ok(Some(0)));
}

#[test]
fn settle_answers_for_each_outcome() {
    assert_eq!(Response::settle(4, Some(true)), Some(Ok(Some(4))));
    assert_eq!(Response::settle(4, Some(false)), None);
    assert_eq!(Response::settle(4, None), Some(Err(InvalidExpression { index: 4 })));
}

#[test]
fn response_with_a_file_is_ok() {
    let response = Response::new(Some(String::from("<h1>Hello</h1>")));
    assert_eq!(response.status(), "200 OK");
    assert_eq!(response.payload(), "<h1>Hello</h1>");
}

#[test]
fn response_without_a_file_is_empty() {
    let response = Response::new(None);
    assert_eq!(response.status(), "");
    assert_eq!(response.payload(), "");
}

#[test]
fn send_writes_status_line_blank_line_and_payload() {
    let mut stream = Vec::new();
    Response::new(Some(String::from("h\u{e9}llo"))).send(&mut stream);
    assert_eq!(stream, "HTTP/1.1 200 OK\r\n\r\nh\u{e9}llo".as_bytes().to_vec());
}

#[test]
fn send_appends_to_what_the_stream_holds() {
    let mut stream = vec![1u8, 2, 3];
    Response::new(None).send(&mut stream);
    let mut expected = vec![1u8, 2, 3];
    expected.extend_from_slice(b"HTTP/1.1 \r\n\r\n");
    assert_eq!(stream, expected);
}
