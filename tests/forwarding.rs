use server::forwarded::parse_forwarded_header;
use server::headers::{all_values, names_match, Header};
use server::identity::{
    client_address_candidates, get_client_information, get_scheme, get_server_host,
    server_host_candidates, SocketAddress,
};
use server::text::parse_u64;

fn addr(a: &str, port: u16) -> SocketAddress {
    SocketAddress { address: a.to_string(), port }
}

fn header<'a>(name: &'a str, value: &'a str) -> Header<'a> {
    Header { name, value: Some(value) }
}

#[test]
fn forwarded_for_wins_over_x_forwarded_for() {
    let headers = vec![
        header("Forwarded", "for=192.0.2.60:4711;proto=http"),
        header("X-Forwarded-For", "203.0.113.195:9000"),
    ];
    let candidates = client_address_candidates(&headers);
    assert_eq!(candidates, vec!["192.0.2.60:4711", "203.0.113.195:9000"]);
    let parsed = vec![Some(addr("192.0.2.60", 4711)), Some(addr("203.0.113.195", 9000))];
    let client = get_client_information(&parsed, Some(addr("10.0.0.1", 5000))).unwrap();
    assert_eq!(client.address, "192.0.2.60");
    assert_eq!(client.port, 4711);
}

#[test]
fn unreadable_forwarded_for_falls_through() {
    let headers = vec![
        header("forwarded", "for=unknown"),
        header("x-forwarded-for", "203.0.113.195:9000"),
    ];
    let candidates = client_address_candidates(&headers);
    assert_eq!(candidates, vec!["unknown", "203.0.113.195:9000"]);
    let parsed = vec![None, Some(addr("203.0.113.195", 9000))];
    let client = get_client_information(&parsed, None).unwrap();
    assert_eq!(client.address, "203.0.113.195");
}

#[test]
fn x_forwarded_for_first_token_wins() {
    let headers = vec![header("x-forwarded-for", "203.0.113.195:9000, 70.41.3.18:9000")];
    let candidates = client_address_candidates(&headers);
    assert_eq!(candidates, vec!["203.0.113.195:9000", "70.41.3.18:9000"]);
    let parsed = vec![Some(addr("203.0.113.195", 9000)), Some(addr("70.41.3.18", 9000))];
    let client = get_client_information(&parsed, None).unwrap();
    assert_eq!(client.address, "203.0.113.195");
    assert_eq!(client.port, 9000);
}

#[test]
fn x_forwarded_for_over_several_headers() {
    let headers = vec![
        header("x-forwarded-for", " a , b"),
        header("user-agent", "curl"),
        header("x-forwarded-for", "c"),
    ];
    assert_eq!(client_address_candidates(&headers), vec!["a", "b", "c"]);
}

#[test]
fn no_forwarding_headers_gives_peer() {
    let headers = vec![header("user-agent", "curl/8.0")];
    let candidates = client_address_candidates(&headers);
    assert!(candidates.is_empty());
    let client = get_client_information(&Vec::new(), Some(addr("10.1.2.3", 40000))).unwrap();
    assert_eq!(client.address, "10.1.2.3");
    assert_eq!(client.port, 40000);
    assert!(get_client_information(&Vec::new(), None).is_none());
}

#[test]
fn scheme_last_hop_wins() {
    let headers = vec![header("forwarded", "by=a;proto=http, by=b;proto=https")];
    assert_eq!(get_scheme(&headers, Some("http")), "https");
    let fields = parse_forwarded_header(&all_values(&headers, "forwarded"));
    assert_eq!(fields.by, Some("b"));
    assert_eq!(fields.proto, Some("https"));
}

#[test]
fn scheme_fallbacks() {
    let proto = vec![header("x-forwarded-proto", "https")];
    assert_eq!(get_scheme(&proto, Some("http")), "https");
    let none: Vec<Header> = Vec::new();
    assert_eq!(get_scheme(&none, Some("http")), "http");
    assert_eq!(get_scheme(&none, None), "unknown");
    let not_text = vec![Header { name: "x-forwarded-proto", value: None }];
    assert_eq!(get_scheme(&not_text, None), "unknown");
}

#[test]
fn host_name_falls_back_to_listener() {
    let headers = vec![header("host", "example.com:8443")];
    let candidates = server_host_candidates(&headers);
    assert_eq!(candidates, vec!["example.com:8443"]);
    let parsed = vec![None];
    let server = get_server_host(&parsed, &addr("0.0.0.0", 3000));
    assert_eq!(server.address, "0.0.0.0");
    assert_eq!(server.port, 3000);
}

#[test]
fn server_candidates_in_order() {
    let headers = vec![
        header("host", "10.0.0.3:80"),
        header("x-forwarded-host", "10.0.0.2:80"),
        header("forwarded", "host=10.0.0.1:80"),
    ];
    assert_eq!(server_host_candidates(&headers), vec!["10.0.0.1:80", "10.0.0.2:80", "10.0.0.3:80"]);
    let parsed = vec![None, Some(addr("10.0.0.2", 80)), Some(addr("10.0.0.3", 80))];
    let server = get_server_host(&parsed, &addr("0.0.0.0", 3000));
    assert_eq!(server.address, "10.0.0.2");
}

#[test]
fn parse_twice_gives_equal_fields() {
    let values = vec!["for=192.0.2.43:80;by=203.0.113.60;proto=http;host=example.com"];
    let a = parse_forwarded_header(&values);
    let b = parse_forwarded_header(&values);
    assert_eq!(a.by, b.by);
    assert_eq!(a.for_field, b.for_field);
    assert_eq!(a.host, b.host);
    assert_eq!(a.proto, b.proto);
    assert_eq!(a.for_field, Some("192.0.2.43:80"));
    assert_eq!(a.by, Some("203.0.113.60"));
    assert_eq!(a.host, Some("example.com"));
}

#[test]
fn empty_forwarded_gives_no_fields() {
    let fields = parse_forwarded_header(&vec![""]);
    assert!(fields.by.is_none() && fields.for_field.is_none());
    assert!(fields.host.is_none() && fields.proto.is_none());
    let fields = parse_forwarded_header(&Vec::new());
    assert!(fields.by.is_none() && fields.proto.is_none());
}

#[test]
fn empty_value_is_recorded() {
    let fields = parse_forwarded_header(&vec!["for="]);
    assert_eq!(fields.for_field, Some(""));
}

#[test]
fn malformed_pairs_are_ignored() {
    let fields = parse_forwarded_header(&vec!["for=a=b;By=x;proto;host =y; for=z "]);
    assert_eq!(fields.for_field, Some("z"));
    assert_eq!(fields.by, None);
    assert_eq!(fields.proto, None);
    assert_eq!(fields.host, None);
}

#[test]
fn later_header_overrides_earlier() {
    let fields = parse_forwarded_header(&vec!["for=1.1.1.1:1;proto=http", "for=2.2.2.2:2"]);
    assert_eq!(fields.for_field, Some("2.2.2.2:2"));
    assert_eq!(fields.proto, Some("http"));
}

#[test]
fn header_names_ignore_case() {
    assert!(names_match("Content-Type", "content-type"));
    assert!(!names_match("content-typ", "content-type"));
    assert!(!names_match("accept", "origin"));
}

#[test]
fn unsigned_integers() {
    assert_eq!(parse_u64("123"), Some(123));
    assert_eq!(parse_u64("+7"), Some(7));
    assert_eq!(parse_u64("0"), Some(0));
    assert_eq!(parse_u64("18446744073709551615"), Some(u64::MAX));
    assert_eq!(parse_u64("18446744073709551616"), None);
    assert_eq!(parse_u64(""), None);
    assert_eq!(parse_u64("+"), None);
    assert_eq!(parse_u64("-1"), None);
    assert_eq!(parse_u64("12a"), None);
    assert_eq!(parse_u64(" 1"), None);
}
