use server::attributes::AttrKey;
use server::headers::Header;
use server::identity::{ResolvedRequestIdentity, SocketAddress};
use server::span::{
    make_span_with, on_failure, on_response, status_code_text, AttrValue, FailureClass,
    HttpVersion, RequestInfo, ResponseInfo, SpanRecord,
};

fn addr(a: &str, port: u16) -> SocketAddress {
    SocketAddress { address: a.to_string(), port }
}

fn text(s: &str) -> AttrValue {
    AttrValue::Text(s.to_string())
}

fn open_span(headers: Vec<Header>) -> SpanRecord {
    let request = RequestInfo {
        method: "GET",
        path: "/api/health",
        query: Some("full=1"),
        version: HttpVersion::Http11,
        body_size: 0,
        headers,
    };
    let identity = ResolvedRequestIdentity {
        client: Some(addr("203.0.113.195", 9000)),
        scheme: "https",
        server: addr("127.0.0.1", 3000),
    };
    make_span_with(&request, &identity, &addr("127.0.0.1", 3000), &Some(addr("10.0.0.9", 5555)))
}

fn all_keys() -> Vec<AttrKey> {
    vec![
    AttrKey::OtelName,
    AttrKey::HttpRequestMethod,
    AttrKey::UrlScheme,
    AttrKey::UrlPath,
    AttrKey::UrlQuery,
    AttrKey::ServerAddress,
    AttrKey::ServerPort,
    AttrKey::ClientAddress,
    AttrKey::ClientPort,
    AttrKey::NetworkLocalAddress,
    AttrKey::NetworkLocalPort,
    AttrKey::NetworkPeerAddress,
    AttrKey::NetworkPeerPort,
    AttrKey::NetworkTransport,
    AttrKey::NetworkProtocolVersion,
    AttrKey::UserAgentOriginal,
    AttrKey::HttpRequestBodySize,
    AttrKey::HttpResponseBodySize,
    AttrKey::HttpResponseStatusCode,
    AttrKey::RequestContentLength,
    AttrKey::RequestContentType,
    AttrKey::RequestOrigin,
    AttrKey::RequestReferer,
    AttrKey::RequestAccept,
    AttrKey::ResponseContentLength,
    AttrKey::ResponseContentType,
    AttrKey::UserAgentSyntheticType,
    AttrKey::ExceptionMessage,
    AttrKey::ExceptionType,
    AttrKey::ErrorType,
    ]
}

fn assert_whole_schema(span: &SpanRecord) {
    let attrs = span.attributes();
    let keys = all_keys();
    assert_eq!(attrs.len(), keys.len());
    for (i, key) in keys.iter().enumerate() {
        assert_eq!(attrs[i].0, *key);
    }
}

#[test]
fn span_opens_with_request_attributes() {
    let span = open_span(vec![
        Header { name: "User-Agent", value: Some("curl/8.0") },
        Header { name: "content-length", value: Some("42") },
        Header { name: "content-type", value: Some("application/json") },
        Header { name: "origin", value: None },
    ]);
    assert_whole_schema(&span);
    assert_eq!(*span.get(AttrKey::OtelName), text("GET /api/health"));
    assert_eq!(*span.get(AttrKey::HttpRequestMethod), text("GET"));
    assert_eq!(*span.get(AttrKey::UrlScheme), text("https"));
    assert_eq!(*span.get(AttrKey::UrlQuery), text("full=1"));
    assert_eq!(*span.get(AttrKey::ServerPort), AttrValue::Number(3000));
    assert_eq!(*span.get(AttrKey::ClientAddress), text("203.0.113.195"));
    assert_eq!(*span.get(AttrKey::ClientPort), AttrValue::Number(9000));
    assert_eq!(*span.get(AttrKey::NetworkPeerAddress), text("10.0.0.9"));
    assert_eq!(*span.get(AttrKey::NetworkTransport), text("tcp"));
    assert_eq!(*span.get(AttrKey::NetworkProtocolVersion), text("1.1"));
    assert_eq!(*span.get(AttrKey::UserAgentOriginal), text("curl/8.0"));
    assert_eq!(*span.get(AttrKey::RequestContentLength), AttrValue::Number(42));
    assert_eq!(*span.get(AttrKey::RequestContentType), text("application/json"));
    assert_eq!(*span.get(AttrKey::RequestOrigin), text("INVALID_UTF8"));
    assert_eq!(*span.get(AttrKey::RequestReferer), AttrValue::Empty);
    assert_eq!(*span.get(AttrKey::HttpResponseStatusCode), AttrValue::Empty);
    assert_eq!(*span.get(AttrKey::ErrorType), AttrValue::Empty);
}

#[test]
fn request_content_length_not_a_number_is_empty() {
    let span = open_span(vec![Header { name: "content-length", value: Some("12x") }]);
    assert_eq!(*span.get(AttrKey::RequestContentLength), AttrValue::Empty);
}

#[test]
fn absent_client_is_empty() {
    let request = RequestInfo {
        method: "POST",
        path: "/",
        query: None,
        version: HttpVersion::Http2,
        body_size: 7,
        headers: Vec::new(),
    };
    let identity =
        ResolvedRequestIdentity { client: None, scheme: "unknown", server: addr("::1", 8080) };
    let span = make_span_with(&request, &identity, &addr("::1", 8080), &None);
    assert_eq!(*span.get(AttrKey::ClientAddress), AttrValue::Empty);
    assert_eq!(*span.get(AttrKey::ClientPort), AttrValue::Empty);
    assert_eq!(*span.get(AttrKey::NetworkPeerPort), AttrValue::Empty);
    assert_eq!(*span.get(AttrKey::UrlQuery), AttrValue::Empty);
    assert_eq!(*span.get(AttrKey::HttpRequestBodySize), AttrValue::Number(7));
    assert_eq!(*span.get(AttrKey::NetworkProtocolVersion), text("2.0"));
}

#[test]
fn response_404_with_content_length() {
    let mut span = open_span(Vec::new());
    let response = ResponseInfo {
        status: 404,
        body_size: 123,
        headers: vec![Header { name: "Content-Length", value: Some("123") }],
    };
    on_response(&response, &mut span);
    assert_eq!(*span.get(AttrKey::HttpResponseStatusCode), text("404"));
    assert_eq!(*span.get(AttrKey::ResponseContentLength), AttrValue::Number(123));
    assert_eq!(*span.get(AttrKey::ResponseContentType), AttrValue::Empty);
    assert_eq!(*span.get(AttrKey::HttpResponseBodySize), AttrValue::Number(123));
    assert_eq!(*span.get(AttrKey::HttpRequestMethod), text("GET"));
    assert_whole_schema(&span);
}

#[test]
fn response_content_type_is_recorded() {
    let mut span = open_span(Vec::new());
    let response = ResponseInfo {
        status: 200,
        body_size: 0,
        headers: vec![Header { name: "content-type", value: Some("text/plain") }],
    };
    on_response(&response, &mut span);
    assert_eq!(*span.get(AttrKey::HttpResponseStatusCode), text("200"));
    assert_eq!(*span.get(AttrKey::ResponseContentType), text("text/plain"));
    assert_eq!(*span.get(AttrKey::ResponseContentLength), AttrValue::Empty);
}

#[test]
fn failure_fills_error_attributes() {
    let mut span = open_span(Vec::new());
    on_failure(&FailureClass::StatusCode(503), &mut span);
    assert_eq!(*span.get(AttrKey::ErrorType), text("503"));
    assert_eq!(*span.get(AttrKey::ExceptionType), text("StatusCode"));
    assert_eq!(*span.get(AttrKey::ExceptionMessage), text("503"));
    assert_whole_schema(&span);

    let mut span = open_span(Vec::new());
    on_failure(&FailureClass::Error("connection reset".to_string()), &mut span);
    assert_eq!(*span.get(AttrKey::ErrorType), text("_OTHER"));
    assert_eq!(*span.get(AttrKey::ExceptionType), text("Error"));
    assert_eq!(*span.get(AttrKey::ExceptionMessage), text("connection reset"));
    assert_eq!(*span.get(AttrKey::HttpResponseStatusCode), AttrValue::Empty);
    assert_whole_schema(&span);
}

#[test]
fn status_code_texts() {
    assert_eq!(status_code_text(100), "100");
    assert_eq!(status_code_text(404), "404");
    assert_eq!(status_code_text(999), "999");
}

#[test]
fn attribute_names() {
    assert_eq!(AttrKey::OtelName.name(), "otel.name");
    assert_eq!(AttrKey::RequestContentLength.name(), "http.request.header.content-length");
    assert_eq!(AttrKey::ErrorType.name(), "error.type");
    assert_eq!(AttrKey::ErrorType.index(), 29);
}
