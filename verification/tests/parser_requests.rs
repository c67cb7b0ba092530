use microhttp_rs::{parse_request, Headers, HttpRequest, HttpVersion, Method, ParserError};

#[test]
fn parser_test_parse_simple_get_request() {
    let input = b"GET /hello HTTP/1.1\r\nHost: localhost\r\n\r\n";
    let req = parse_request(input).unwrap();

    assert_eq!(req.method, Method::GET);
    assert_eq!(req.path, "/hello");
    assert_eq!(req.version, HttpVersion::Http11);
    assert_eq!(req.headers.get("host"), Some(&"localhost".to_string()));
}

#[test]
fn parser_test_parse_request_with_multiple_headers() {
    let input = b"POST /submit HTTP/1.1\r\n\
        Host: example.com\r\n\
        Content-Type: application/json\r\n\
        Content-Length: 42\r\n\r\n";

    let req = parse_request(input).unwrap();

    assert_eq!(req.method, Method::POST);
    assert_eq!(req.path, "/submit");
    assert_eq!(req.version, HttpVersion::Http11);
    assert_eq!(req.headers.get("host"), Some(&"example.com".to_string()));
    assert_eq!(
        req.headers.get("content-type"),
        Some(&"application/json".to_string())
    );
    assert_eq!(req.headers.get("content-length"), Some(&"42".to_string()));
}

#[test]
fn parser_test_case_insensitive_headers() {
    let input = b"GET / HTTP/1.1\r\nHoSt: example.com\r\n\r\n";
    let req = parse_request(input).unwrap();

    assert!(req.headers.contains_key("host"));
    assert_eq!(req.headers.get("host"), Some(&"example.com".to_string()));
}

#[test]
fn parser_test_missing_host_header() {
    let input = b"GET /hello HTTP/1.1\r\nContent-Length: 0\r\n\r\n";
    let err = parse_request(input).unwrap_err();

    assert!(matches!(err, ParserError::MissingHeader(h) if h == "Host"));
}

#[test]
fn parser_test_invalid_method() {
    let input = b"INVALID /hello HTTP/1.1\r\nHost: localhost\r\n\r\n";
    let err = parse_request(input).unwrap_err();

    assert!(matches!(err, ParserError::InvalidMethod(_)));
}

#[test]
fn parser_test_invalid_http_version() {
    let input = b"GET /hello HTTP/9.9\r\nHost: localhost\r\n\r\n";
    let err = parse_request(input).unwrap_err();

    assert!(matches!(err, ParserError::InvalidVersion(_)));
}

#[test]
fn parser_test_invalid_header_format() {
    let input = b"GET / HTTP/1.1\r\nInvalidHeader\r\nHost: localhost\r\n\r\n";
    let err = parse_request(input).unwrap_err();

    assert!(matches!(err, ParserError::InvalidHeaderFormat));
}

#[test]
fn parser_test_empty_request() {
    let input = b"";
    let err = parse_request(input).unwrap_err();

    assert!(matches!(err, ParserError::EmptyRequest));
}

#[test]
fn parser_test_incomplete_request_line() {
    let input = b"GET\r\nHost: localhost\r\n\r\n";
    let err = parse_request(input).unwrap_err();

    assert!(matches!(err, ParserError::MalformedRequestLine(_)));
}

#[test]
fn parser_test_http2_version() {
    let input = b"GET /hello HTTP/2.0\r\nHost: localhost\r\n\r\n";
    let req = parse_request(input).unwrap();
    assert_eq!(req.version, HttpVersion::Http20);

    let input = b"GET /hello HTTP/2\r\nHost: localhost\r\n\r\n";
    let req = parse_request(input).unwrap();
    assert_eq!(req.version, HttpVersion::Http20);
}

#[test]
fn parser_test_all_methods() {
    let methods = vec![
        ("GET", Method::GET),
        ("POST", Method::POST),
        ("PUT", Method::PUT),
        ("DELETE", Method::DELETE),
        ("HEAD", Method::HEAD),
        ("OPTIONS", Method::OPTIONS),
        ("PATCH", Method::PATCH),
    ];

    for (method_str, expected_method) in methods {
        let request = format!("{} / HTTP/1.1\r\nHost: localhost\r\n\r\n", method_str);
        let req = parse_request(request.as_bytes()).unwrap();
        assert_eq!(req.method, expected_method);
    }
}

#[test]
fn parser_test_headers_with_multiple_colons() {
    let input = b"GET / HTTP/1.1\r\n\
        Host: localhost:8080\r\n\
        Custom-Header: value: with: colons\r\n\r\n";

    let req = parse_request(input).unwrap();
    assert_eq!(
        req.headers.get("custom-header"),
        Some(&"value: with: colons".to_string())
    );
}

#[test]
fn parser_test_http10_version() {
    let input = b"GET /hello HTTP/1.0\r\nHost: localhost\r\n\r\n";
    let req = parse_request(input).unwrap();

    assert_eq!(req.version, HttpVersion::Http10);
}

#[test]
fn parser_test_http10_without_host() {
    let input = b"GET /hello HTTP/1.0\r\nUser-Agent: test\r\n\r\n";
    let req = parse_request(input).unwrap();

    assert_eq!(req.version, HttpVersion::Http10);
    assert_eq!(req.path, "/hello");
    assert!(!req.headers.contains_key("host"));
}

#[test]
fn parser_test_method_display() {
    assert_eq!(Method::GET.to_string(), "GET");
    assert_eq!(Method::POST.to_string(), "POST");
    assert_eq!(Method::PUT.to_string(), "PUT");
    assert_eq!(Method::DELETE.to_string(), "DELETE");
    assert_eq!(Method::HEAD.to_string(), "HEAD");
    assert_eq!(Method::OPTIONS.to_string(), "OPTIONS");
    assert_eq!(Method::PATCH.to_string(), "PATCH");
}

#[test]
fn parser_test_http_version_display() {
    assert_eq!(HttpVersion::Http10.to_string(), "HTTP/1.0");
    assert_eq!(HttpVersion::Http11.to_string(), "HTTP/1.1");
    assert_eq!(HttpVersion::Http20.to_string(), "HTTP/2");
}

#[test]
fn parser_test_headers_with_trailing_whitespace() {
    let input = b"GET / HTTP/1.1\r\n\
        Host: localhost \r\n\
        Content-Type: text/plain \r\n\r\n";

    let req = parse_request(input).unwrap();
    assert_eq!(req.headers.get("host"), Some(&"localhost".to_string()));
    assert_eq!(
        req.headers.get("content-type"),
        Some(&"text/plain".to_string())
    );
}

#[test]
fn parser_test_mixed_line_endings() {
    let input = b"GET / HTTP/1.1\r\nHost: localhost\nContent-Type: text/plain\r\n\r\n";
    let req = parse_request(input).unwrap();

    assert_eq!(req.method, Method::GET);
    assert_eq!(req.headers.get("host"), Some(&"localhost".to_string()));
    assert_eq!(
        req.headers.get("content-type"),
        Some(&"text/plain".to_string())
    );
}

#[test]
fn parser_test_request_line_with_extra_whitespace() {
    let input = b"GET  /path   HTTP/1.1\r\nHost: localhost\r\n\r\n";
    let req = parse_request(input).unwrap();

    assert_eq!(req.method, Method::GET);
    assert_eq!(req.path, "/path");
    assert_eq!(req.version, HttpVersion::Http11);
}

#[test]
fn parser_test_empty_path() {
    let input = b"GET / HTTP/1.1\r\nHost: localhost\r\n\r\n";
    let req = parse_request(input).unwrap();

    assert_eq!(req.path, "/");
}

#[test]
fn parser_test_path_with_query_parameters() {
    let input = b"GET /search?q=rust&page=1 HTTP/1.1\r\nHost: localhost\r\n\r\n";
    let req = parse_request(input).unwrap();

    assert_eq!(req.path, "/search?q=rust&page=1");

    assert_eq!(req.query_params.len(), 2);
    assert_eq!(req.get_query_param("q"), Some(&"rust".to_string()));
    assert_eq!(req.get_query_param("page"), Some(&"1".to_string()));

    assert!(req.has_query_param("q"));
    assert!(req.has_query_param("page"));
    assert!(!req.has_query_param("nonexistent"));

    assert_eq!(req.get_query_param("nonexistent"), None);
}

#[test]
fn parser_test_complex_query_parameters() {
    let input = b"GET /search?q=&empty HTTP/1.1\r\nHost: localhost\r\n\r\n";
    let req = parse_request(input).unwrap();

    assert_eq!(req.path, "/search?q=&empty");
    assert_eq!(req.get_query_param("q"), Some(&"".to_string()));
    assert!(req.has_query_param("q"));

    // A parameter without `=` is kept, with the empty value.
    assert_eq!(req.get_query_param("empty"), Some(&"".to_string()));

    let input = b"GET /search?q=first&q=second HTTP/1.1\r\nHost: localhost\r\n\r\n";
    let req = parse_request(input).unwrap();

    assert_eq!(req.path, "/search?q=first&q=second");
    assert_eq!(req.get_query_param("q"), Some(&"second".to_string()));

    let input =
        b"GET /search?q=hello%20world&tag=rust%2Bprogramming HTTP/1.1\r\nHost: localhost\r\n\r\n";
    let req = parse_request(input).unwrap();

    assert_eq!(req.path, "/search?q=hello%20world&tag=rust%2Bprogramming");
    assert_eq!(req.get_query_param("q"), Some(&"hello%20world".to_string()));
    assert_eq!(
        req.get_query_param("tag"),
        Some(&"rust%2Bprogramming".to_string())
    );
}

#[test]
fn parser_test_malformed_utf8_in_request() {
    let mut input = Vec::from(*b"GET / HTTP/1.1\r\nHost: localhost\r\n\r\n");
    input.splice(5..5, vec![0xFF, 0xFF]);

    // Bytes that are not UTF-8 are refused, wherever they stand.
    let err = parse_request(&input).unwrap_err();
    assert!(matches!(err, ParserError::MalformedRequestLine(ref s) if s == "Invalid UTF-8"));

    let input = Vec::from(*b"GET / HTTP/1.1\r\nHost: localhost\r\n\r\n");
    let req = parse_request(&input).unwrap();
    assert_eq!(req.method, Method::GET);
    assert_eq!(req.headers.get("host"), Some(&"localhost".to_string()));
}

#[test]
fn parser_test_empty_header_value() {
    let input = b"GET / HTTP/1.1\r\nHost: localhost\r\nX-Empty: \r\n\r\n";
    let req = parse_request(input).unwrap();

    assert_eq!(req.headers.get("x-empty"), Some(&"".to_string()));
}

#[test]
fn parser_test_duplicate_headers() {
    let input = b"GET / HTTP/1.1\r\n\
        Host: first.example.com\r\n\
        Custom: first\r\n\
        Custom: second\r\n\r\n";

    let req = parse_request(input).unwrap();

    assert_eq!(req.headers.get("custom"), Some(&"second".to_string()));
    assert_eq!(
        req.headers.get("host"),
        Some(&"first.example.com".to_string())
    );
}

#[test]
fn parser_test_http_request_methods() {
    let mut headers = Headers::new();
    headers.insert("host".to_string(), "example.com".to_string());
    headers.insert("content-type".to_string(), "application/json".to_string());

    let req = HttpRequest::new(
        Method::POST,
        "/api/data".to_string(),
        HttpVersion::Http11,
        headers,
    );

    assert_eq!(req.get_header("Host"), Some(&"example.com".to_string()));
    assert_eq!(req.get_header("host"), Some(&"example.com".to_string()));
    assert_eq!(req.get_header("HOST"), Some(&"example.com".to_string()));
    assert_eq!(
        req.get_header("Content-Type"),
        Some(&"application/json".to_string())
    );
    assert_eq!(req.get_header("nonexistent"), None);

    assert!(req.has_header("Host"));
    assert!(req.has_header("host"));
    assert!(req.has_header("HOST"));
    assert!(req.has_header("Content-Type"));
    assert!(!req.has_header("nonexistent"));
}

#[test]
fn parser_test_json_parsing() {
    let json_body = r#"{"name":"John Doe","age":30}"#.as_bytes();
    let mut headers = Headers::new();
    headers.insert("content-type".to_string(), "application/json".to_string());
    headers.insert("content-length".to_string(), json_body.len().to_string());

    let mut req = HttpRequest::new(
        Method::POST,
        "/api/users".to_string(),
        HttpVersion::Http11,
        headers,
    );
    req.body = json_body.to_vec();

    let user: serde_json::Value = req.json().unwrap();
    assert_eq!(user["name"], "John Doe");
    assert_eq!(user["age"], 30);

    assert!(req.is_json());

    let mut invalid_req = HttpRequest::new(
        Method::POST,
        "/api/users".to_string(),
        HttpVersion::Http11,
        Headers::new(),
    );
    invalid_req.body = b"{invalid-json}".to_vec();

    let result: Result<serde_json::Value, _> = invalid_req.json();
    assert!(result.is_err());
}

#[test]
fn parser_test_complex_request() {
    let input = b"GET /docs/tutorials/linux/shellscripts/howto.html HTTP/1.1\r\n\
        Host: Linode.com\r\n\
        User-Agent: Mozilla/5.0 (Windows; U; Windows NT 6.1; en-US; rv:1.9.1.8) Gecko/20091102 Firefox/3.5.5\r\n\
        Accept: text/html,application/xhtml+xml,\r\n\
        Accept-Language: en-us\r\n\
        Accept-Encoding: gzip,deflate\r\n\
        Accept-Charset: ISO-8859-1,utf-8\r\n\
        Cache-Control: no-cache\r\n\r\n";

    let req = parse_request(input).unwrap();

    assert_eq!(req.method, Method::GET);
    assert_eq!(req.path, "/docs/tutorials/linux/shellscripts/howto.html");
    assert_eq!(req.version, HttpVersion::Http11);

    assert_eq!(req.headers.get("host"), Some(&"Linode.com".to_string()));
    assert_eq!(
        req.headers.get("user-agent"),
        Some(&"Mozilla/5.0 (Windows; U; Windows NT 6.1; en-US; rv:1.9.1.8) Gecko/20091102 Firefox/3.5.5".to_string())
    );
    assert_eq!(
        req.headers.get("accept"),
        Some(&"text/html,application/xhtml+xml,".to_string())
    );
    assert_eq!(
        req.headers.get("accept-language"),
        Some(&"en-us".to_string())
    );
    assert_eq!(
        req.headers.get("accept-encoding"),
        Some(&"gzip,deflate".to_string())
    );
    assert_eq!(
        req.headers.get("accept-charset"),
        Some(&"ISO-8859-1,utf-8".to_string())
    );
    assert_eq!(
        req.headers.get("cache-control"),
        Some(&"no-cache".to_string())
    );

    assert_eq!(
        req.get_header("User-Agent"),
        Some(&"Mozilla/5.0 (Windows; U; Windows NT 6.1; en-US; rv:1.9.1.8) Gecko/20091102 Firefox/3.5.5".to_string())
    );
    assert_eq!(
        req.get_header("ACCEPT-LANGUAGE"),
        Some(&"en-us".to_string())
    );

    assert!(req.has_header("Host"));
    assert!(req.has_header("user-agent"));
    assert!(req.has_header("ACCEPT"));
    assert!(!req.has_header("nonexistent-header"));
}
