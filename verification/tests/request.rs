use cranker_connector::request::{can_parse, parse, RequestHead};

const SAMPLE: &str = "POST /post-msg HTTP/1.1\nUser-Agent:curl/7.64.1\nHost:localhost:9443\nAccept:*/*\nContent-Length:52\nContent-Type:application/json\nForwarded:for=0:0:0:0:0:0:0:1;proto=https;host=localhost:9443;by=0:0:0:0:0:0:0:1\nX-Forwarded-For:0:0:0:0:0:0:0:1\nX-Forwarded-Proto:https\nX-Forwarded-Host:localhost:9443\nX-Forwarded-Server:0:0:0:0:0:0:0:1\n\n_1";

fn header_pairs(head: &RequestHead) -> Vec<(String, String)> {
    head.headers.iter().map(|h| (h.name.clone(), h.value.clone())).collect()
}

#[test]
fn test_parse() {
    let input = SAMPLE;
    let head = parse(input, "http://localhost:8080");
    assert!(head.method_is_valid());
    let builder = head.into_builder();
    let headers = builder.headers_ref().unwrap();
    assert_eq!(headers["X-Forwarded-Server"], "0:0:0:0:0:0:0:1");
    assert_eq!(headers["Accept"], "*/*");
}

#[test]
fn parse_reads_method_uri_and_headers_in_order() {
    let head = parse(SAMPLE, "http://localhost:8080");
    assert_eq!(head.method, "POST");
    assert_eq!(head.uri, "http://localhost:8080/post-msg");
    let pairs = header_pairs(&head);
    assert_eq!(pairs.len(), 10);
    assert_eq!(pairs[0], ("User-Agent".to_string(), "curl/7.64.1".to_string()));
    assert_eq!(pairs[1], ("Host".to_string(), "localhost:9443".to_string()));
    assert_eq!(pairs[9], ("X-Forwarded-Server".to_string(), "0:0:0:0:0:0:0:1".to_string()));
}

#[test]
fn parse_without_header_lines() {
    let head = parse("GET /hello HTTP/1.1", "http://target");
    assert_eq!(head.method, "GET");
    assert_eq!(head.uri, "http://target/hello");
    assert!(head.headers.is_empty());
}

#[test]
fn parse_path_without_version() {
    let head = parse("DELETE /item/7\nA:b", "");
    assert_eq!(head.method, "DELETE");
    assert_eq!(head.uri, "/item/7");
    assert_eq!(header_pairs(&head), vec![("A".to_string(), "b".to_string())]);
}

#[test]
fn parse_skips_lines_without_colon_and_keeps_spaces() {
    let head = parse("PUT /x HTTP/1.1\nno colon here\n Name : value \n:empty-name\nEmpty-Value:\n\n_2", "t");
    assert_eq!(
        header_pairs(&head),
        vec![
            (" Name ".to_string(), " value ".to_string()),
            ("".to_string(), "empty-name".to_string()),
            ("Empty-Value".to_string(), "".to_string()),
        ]
    );
}

#[test]
fn parse_empty_path_between_two_spaces() {
    let head = parse("GET  HTTP/1.1", "http://t");
    assert_eq!(head.method, "GET");
    assert_eq!(head.uri, "http://t");
}

#[test]
fn can_parse_needs_a_space_in_the_request_line() {
    assert!(can_parse("GET / HTTP/1.1\nHost:x"));
    assert!(can_parse("GET /"));
    assert!(!can_parse("GET\nHost: a b"));
    assert!(!can_parse(""));
}

#[test]
fn method_validity_follows_http() {
    assert!(parse("GET / HTTP/1.1", "").method_is_valid());
    assert!(parse("M-SEARCH * HTTP/1.1", "").method_is_valid());
    assert!(!parse(" / HTTP/1.1", "").method_is_valid());
    assert!(!parse("GE(T / HTTP/1.1", "").method_is_valid());
    assert!(!parse("G\u{e9}T / HTTP/1.1", "").method_is_valid());
}

#[test]
fn builder_carries_method_and_uri() {
    let head = parse("PATCH /a/b?c=1 HTTP/1.1\nX-Id:42", "http://localhost:8080");
    let request = head.into_builder().body(()).unwrap();
    assert_eq!(request.method(), "PATCH");
    assert_eq!(request.uri(), "http://localhost:8080/a/b?c=1");
    assert_eq!(request.headers()["x-id"], "42");
}

#[test]
fn builder_keeps_every_header_with_lowercase_names() {
    let head = parse("GET / HTTP/1.1\nX-One:1\nx-one:2\nAccept:*/*", "http://t");
    let builder = head.into_builder();
    let headers = builder.headers_ref().unwrap();
    assert_eq!(headers.len(), 3);
    let ones: Vec<&str> = headers.get_all("x-one").iter().map(|v| v.to_str().unwrap()).collect();
    assert_eq!(ones, vec!["1", "2"]);
    assert!(headers.keys().all(|k| k.as_str() == k.as_str().to_lowercase()));
}

#[test]
fn builder_holds_an_error_for_a_refused_header_or_uri() {
    let bad_name = parse("GET / HTTP/1.1\nBad Name:v", "http://t");
    assert!(bad_name.into_builder().headers_ref().is_none());
    let bad_value = parse("GET / HTTP/1.1\nName:a\u{7f}b", "http://t");
    assert!(bad_value.into_builder().body(()).is_err());
    let bad_uri = parse("GET /a b", "http://exa mple");
    assert!(bad_uri.into_builder().body(()).is_err());
    let fine = parse("GET / HTTP/1.1\nName:caf\u{e9}", "http://t");
    assert!(fine.into_builder().body(()).is_ok());
}

#[test]
fn builder_accepts_many_lines_of_one_name() {
    let mut text = String::from("GET / HTTP/1.1");
    for i in 0..3500 {
        text.push_str(&format!("\nX-Repeat:{}", i));
    }
    let builder = parse(&text, "http://t").into_builder();
    let headers = builder.headers_ref().unwrap();
    assert_eq!(headers.len(), 3500);
    assert_eq!(headers.get_all("x-repeat").iter().last().unwrap(), "3499");
}
