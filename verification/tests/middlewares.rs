use poem::http::{HeaderMap, HeaderValue};
use gear_microkit::middlewares::request_duration_metrics::request_duration_labels;
use gear_microkit::middlewares::{
    service_from_path, AddClientHeaders, ClientTracing, SetCurrentService,
};

#[test]
fn service_is_the_next_to_last_path_segment() {
    assert_eq!(service_from_path("/helloworld.Helloworld/SayHello"), Some("helloworld.Helloworld"));
    assert_eq!(service_from_path("/a/b/c"), Some("b"));
    assert_eq!(service_from_path("a/"), Some("a"));
    assert_eq!(service_from_path("/"), Some(""));
    assert_eq!(service_from_path("abc"), None);
    assert_eq!(service_from_path(""), None);
    for p in ["/x.Y/Z", "a/b", "//", "/a/b/c/d"] {
        assert_eq!(service_from_path(p), p.split('/').rev().nth(1));
    }
}

#[test]
fn client_headers_name_both_services() {
    let ep = AddClientHeaders.transform(5u8);
    assert_eq!(*ep.inner(), 5u8);
    let headers = ep.client_headers("/helloworld.Helloworld/SayHello", Some("gateway.Api"));
    assert_eq!(
        headers,
        vec![("x-micro-service", "helloworld.Helloworld"), ("x-micro-from-service", "gateway.Api")]
    );
}

#[test]
fn client_headers_skip_missing_or_invalid_values() {
    let ep = AddClientHeaders.transform(());
    assert_eq!(ep.client_headers("SayHello", None), vec![]);
    assert_eq!(ep.client_headers("/bad\nname/Call", Some("ok")), vec![("x-micro-from-service", "ok")]);
    assert_eq!(ep.client_headers("/svc/Call", Some("del\u{7f}")), vec![("x-micro-service", "svc")]);
    assert_eq!(ep.client_headers("/tab\there/Call", Some("ünï")), vec![("x-micro-service", "tab\there"), ("x-micro-from-service", "ünï")]);
}

#[test]
fn current_service_is_recorded_from_the_path() {
    let ep = SetCurrentService.transform("inner");
    assert_eq!(*ep.inner(), "inner");
    assert_eq!(ep.current_service("/pkg.Svc/Method").map(|n| n.0), Some("pkg.Svc".to_string()));
    assert!(ep.current_service("Method").is_none());
}

#[test]
fn client_tracing_wraps_the_endpoint() {
    let ep = ClientTracing.transform(vec![1, 2]);
    assert_eq!(ep.inner(), &vec![1, 2]);
}

#[test]
fn request_duration_labels_record_outcome_and_caller() {
    assert_eq!(request_duration_labels("/a.B/C", Some("x.Y"), true), ("/a.B/C", "success", "x.Y"));
    assert_eq!(request_duration_labels("/a.B/C", None, false), ("/a.B/C", "fail", ""));
}

#[test]
fn client_headers_are_inserted_replacing_earlier_values() {
    let ep = AddClientHeaders.transform(());
    let mut headers = HeaderMap::new();
    headers.append("x-micro-service", HeaderValue::from_static("old-1"));
    headers.append("x-micro-service", HeaderValue::from_static("old-2"));
    headers.insert("other", HeaderValue::from_static("kept"));
    ep.insert_client_headers(&mut headers, "/pkg.Svc/Call", Some("caller.Svc"));
    let values: Vec<_> = headers.get_all("x-micro-service").iter().collect();
    assert_eq!(values, vec!["pkg.Svc"]);
    assert_eq!(headers.get("x-micro-from-service").unwrap(), "caller.Svc");
    assert_eq!(headers.get("other").unwrap(), "kept");
    assert_eq!(headers.len(), 3);
}

#[test]
fn client_headers_twice_equal_once() {
    let ep = AddClientHeaders.transform(());
    let mut once = HeaderMap::new();
    ep.insert_client_headers(&mut once, "/pkg.Svc/Call", Some("caller"));
    let mut twice = once.clone();
    ep.insert_client_headers(&mut twice, "/pkg.Svc/Call", Some("caller"));
    assert_eq!(once, twice);
    let mut skipped = HeaderMap::new();
    ep.insert_client_headers(&mut skipped, "/bad\nsvc/Call", None);
    assert!(skipped.is_empty());
}
