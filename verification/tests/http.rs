use kiln::http::HttpResponse;

fn headers() -> Vec<(String, String)> {
    vec![
        ("Content-Type".to_string(), "text/plain".to_string()),
        ("X-Trace".to_string(), "first".to_string()),
        ("x-trace".to_string(), "second".to_string()),
    ]
}

#[test]
fn header_names_are_lower_cased() {
    let r = HttpResponse::new(200, "hi".to_string(), &headers());
    assert_eq!(r.headers[0].0, "content-type");
    assert_eq!(r.headers[1].0, "x-trace");
    assert_eq!(r.body, "hi");
}

#[test]
fn header_lookup_ignores_case_and_takes_first() {
    let r = HttpResponse::new(200, String::new(), &headers());
    assert_eq!(r.header("CONTENT-TYPE").map(|s| s.as_str()), Some("text/plain"));
    assert_eq!(r.header("x-TRACE").map(|s| s.as_str()), Some("first"));
    assert!(r.header("missing").is_none());
}

#[test]
fn ok_is_the_success_range() {
    assert!(HttpResponse::new(200, String::new(), &vec![]).ok());
    assert!(HttpResponse::new(299, String::new(), &vec![]).ok());
    assert!(!HttpResponse::new(199, String::new(), &vec![]).ok());
    assert!(!HttpResponse::new(300, String::new(), &vec![]).ok());
    assert!(!HttpResponse::new(404, String::new(), &vec![]).ok());
}
