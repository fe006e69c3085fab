use vstd::prelude::*;

use crate::attributes::{key_index, AttrKey, ATTRIBUTE_COUNT};
use crate::headers::{find_header, headers_view, lookup, Header, HeaderView};
use crate::identity::{text_of, ResolvedRequestIdentity, SocketAddress};
use crate::text::{parse_u64, u64_of};

verus! {

/// The value of one span attribute: text, an unsigned integer, or nothing yet.
#[derive(Debug, PartialEq)]
pub enum AttrValue {
    Text(String),
    Number(u64),
    Empty,
}

pub enum AttrView {
    Text(Seq<char>),
    Number(u64),
    Empty,
}

impl View for AttrValue {
    type V = AttrView;

    open spec fn view(&self) -> AttrView {
        match self {
            AttrValue::Text(s) => AttrView::Text(s@),
            AttrValue::Number(n) => AttrView::Number(*n),
            AttrValue::Empty => AttrView::Empty,
        }
    }
}

pub fn text(s: &str) -> (r: AttrValue)
    ensures
        r@ == AttrView::Text(s@),
{
    AttrValue::Text(s.to_string())
}

/// Every attribute of the schema stands at its own place.
pub open spec fn has_schema(s: Seq<(AttrKey, AttrView)>) -> bool {
    s.len() == ATTRIBUTE_COUNT && forall|k: AttrKey| #[trigger] s[key_index(k)].0 == k
}

/// The span with one attribute set, the others as they were.
pub open spec fn with_attr(s: Seq<(AttrKey, AttrView)>, k: AttrKey, v: AttrView) -> Seq<
    (AttrKey, AttrView),
> {
    s.update(key_index(k), (k, v))
}

/// The attributes of one request span, with its fixed schema.
#[derive(Debug)]
pub struct SpanRecord {
    attributes: Vec<(AttrKey, AttrValue)>,
}

impl View for SpanRecord {
    type V = Seq<(AttrKey, AttrView)>;

    closed spec fn view(&self) -> Seq<(AttrKey, AttrView)> {
        Seq::new(
            self.attributes@.len(),
            |i: int| (self.attributes@[i].0, self.attributes@[i].1@),
        )
    }
}

impl SpanRecord {
    pub open spec fn wf(&self) -> bool {
        has_schema(self@)
    }

    /// The attributes in schema order.
    pub fn attributes(&self) -> (r: &Vec<(AttrKey, AttrValue)>)
        ensures
            r@.len() == self@.len(),
            forall|i: int| 0 <= i < r@.len() ==> (r@[i].0, r@[i].1@) == #[trigger] self@[i],
    {
        &self.attributes
    }

    /// The value of one attribute.
    pub fn get(&self, key: AttrKey) -> (r: &AttrValue)
        requires
            self.wf(),
        ensures
            r@ == self@[key_index(key)].1,
    {
        &self.attributes[key.index()].1
    }

    /// Sets one attribute and leaves the others as they were.
    pub fn record(&mut self, key: AttrKey, value: AttrValue)
        requires
            old(self).wf(),
        ensures
            final(self).wf(),
            final(self)@ == with_attr(old(self)@, key, value@),
    {
        let ghost v = value@;
        let i = key.index();
        self.attributes[i] = (key, value);
        assert(self@ =~= with_attr(old(self)@, key, v));
        assert forall|k: AttrKey| #[trigger] self@[key_index(k)].0 == k by {
            if key_index(k) != key_index(key) {
                assert(old(self)@[key_index(k)].0 == k);
            } else {
                assert(k == key);
            }
        }
    }
}

/// The version of HTTP that a request was sent with.
#[derive(Clone, Copy, Debug, PartialEq, Eq, Structural)]
pub enum HttpVersion {
    Http09,
    Http10,
    Http11,
    Http2,
    Http3,
}

pub open spec fn version_text(v: HttpVersion) -> Seq<char> {
    match v {
        HttpVersion::Http09 => "0.9"@,
        HttpVersion::Http10 => "1.0"@,
        HttpVersion::Http11 => "1.1"@,
        HttpVersion::Http2 => "2.0"@,
        HttpVersion::Http3 => "3.0"@,
    }
}

impl HttpVersion {
    pub fn as_str(&self) -> (r: &'static str)
        ensures
            r@ == version_text(*self),
    {
        match self {
            HttpVersion::Http09 => "0.9",
            HttpVersion::Http10 => "1.0",
            HttpVersion::Http11 => "1.1",
            HttpVersion::Http2 => "2.0",
            HttpVersion::Http3 => "3.0",
        }
    }
}

/// What the span of a request is made from, besides the resolved identity.
#[derive(Debug)]
pub struct RequestInfo<'a> {
    pub method: &'a str,
    pub path: &'a str,
    pub query: Option<&'a str>,
    pub version: HttpVersion,
    /// The lower bound of the body's size.
    pub body_size: u64,
    pub headers: Vec<Header<'a>>,
}

/// What the recorder of a response reads of it.
#[derive(Debug)]
pub struct ResponseInfo<'a> {
    pub status: u16,
    /// The lower bound of the body's size.
    pub body_size: u64,
    pub headers: Vec<Header<'a>>,
}

/// How the handling of a request failed: a response with a server error
/// status, or an error with its message.
#[derive(Debug)]
pub enum FailureClass {
    StatusCode(u16),
    Error(String),
}

/// A request header as a span attribute: nothing when absent, a marker when
/// its value is not text.
pub open spec fn header_text(hv: Seq<HeaderView>, name: Seq<char>) -> AttrView {
    match lookup(hv, name) {
        None => AttrView::Empty,
        Some(None) => AttrView::Text("INVALID_UTF8"@),
        Some(Some(v)) => AttrView::Text(v),
    }
}

/// A header's value read as an unsigned integer, if it is one.
pub open spec fn header_u64(hv: Seq<HeaderView>, name: Seq<char>) -> Option<u64> {
    match text_of(lookup(hv, name)) {
        Some(v) => u64_of(v),
        None => None,
    }
}

pub open spec fn number_or_empty(n: Option<u64>) -> AttrView {
    match n {
        Some(n) => AttrView::Number(n),
        None => AttrView::Empty,
    }
}

pub open spec fn address_text(a: Option<SocketAddress>) -> AttrView {
    match a {
        Some(a) => AttrView::Text(a.address@),
        None => AttrView::Empty,
    }
}

pub open spec fn address_port(a: Option<SocketAddress>) -> AttrView {
    match a {
        Some(a) => AttrView::Number(a.port as u64),
        None => AttrView::Empty,
    }
}

/// The attributes of a request's span when it opens.
pub open spec fn request_span(
    req: RequestInfo,
    id: ResolvedRequestIdentity,
    local: SocketAddress,
    peer: Option<SocketAddress>,
) -> Seq<(AttrKey, AttrView)> {
    let hv = headers_view(req.headers@);
    seq![
        (AttrKey::OtelName, AttrView::Text(req.method@ + " "@ + req.path@)),
        (AttrKey::HttpRequestMethod, AttrView::Text(req.method@)),
        (AttrKey::UrlScheme, AttrView::Text(id.scheme@)),
        (AttrKey::UrlPath, AttrView::Text(req.path@)),
        (AttrKey::UrlQuery, match req.query {
            Some(q) => AttrView::Text(q@),
            None => AttrView::Empty,
        }),
        (AttrKey::ServerAddress, AttrView::Text(id.server.address@)),
        (AttrKey::ServerPort, AttrView::Number(id.server.port as u64)),
        (AttrKey::ClientAddress, address_text(id.client)),
        (AttrKey::ClientPort, address_port(id.client)),
        (AttrKey::NetworkLocalAddress, AttrView::Text(local.address@)),
        (AttrKey::NetworkLocalPort, AttrView::Number(local.port as u64)),
        (AttrKey::NetworkPeerAddress, address_text(peer)),
        (AttrKey::NetworkPeerPort, address_port(peer)),
        (AttrKey::NetworkTransport, AttrView::Text("tcp"@)),
        (AttrKey::NetworkProtocolVersion, AttrView::Text(version_text(req.version))),
        (AttrKey::UserAgentOriginal, header_text(hv, "user-agent"@)),
        (AttrKey::HttpRequestBodySize, AttrView::Number(req.body_size)),
        (AttrKey::HttpResponseBodySize, AttrView::Empty),
        (AttrKey::HttpResponseStatusCode, AttrView::Empty),
        (AttrKey::RequestContentLength, number_or_empty(header_u64(hv, "content-length"@))),
        (AttrKey::RequestContentType, header_text(hv, "content-type"@)),
        (AttrKey::RequestOrigin, header_text(hv, "origin"@)),
        (AttrKey::RequestReferer, header_text(hv, "referer"@)),
        (AttrKey::RequestAccept, header_text(hv, "accept"@)),
        (AttrKey::ResponseContentLength, AttrView::Empty),
        (AttrKey::ResponseContentType, AttrView::Empty),
        (AttrKey::UserAgentSyntheticType, AttrView::Empty),
        (AttrKey::ExceptionMessage, AttrView::Empty),
        (AttrKey::ExceptionType, AttrView::Empty),
        (AttrKey::ErrorType, AttrView::Empty),
    ]
}

/// A request header as a span attribute (see `header_text`).
pub fn get_header_value<'a>(headers: &Vec<Header<'a>>, name: &str) -> (r: AttrValue)
    ensures
        r@ == header_text(headers_view(headers@), name@),
{
    match find_header(headers, name) {
        None => AttrValue::Empty,
        Some(i) => match headers[i].value {
            Some(v) => text(v),
            None => text("INVALID_UTF8"),
        },
    }
}

/// A request header read as an unsigned integer, `Empty` when it is absent or
/// not one.
pub fn get_header_as_u64<'a>(headers: &Vec<Header<'a>>, name: &str) -> (r: AttrValue)
    ensures
        r@ == number_or_empty(header_u64(headers_view(headers@), name@)),
{
    match get_response_header_as_u64(headers, name) {
        Some(n) => AttrValue::Number(n),
        None => AttrValue::Empty,
    }
}

/// A response header read as an unsigned integer, if it is one.
pub fn get_response_header_as_u64<'a>(headers: &Vec<Header<'a>>, name: &str) -> (r: Option<u64>)
    ensures
        r == header_u64(headers_view(headers@), name@),
{
    match get_response_header_value(headers, name) {
        Some(v) => parse_u64(v),
        None => None,
    }
}

/// The text of a response header, if it is present and text.
pub fn get_response_header_value<'a>(headers: &Vec<Header<'a>>, name: &str) -> (r: Option<&'a str>)
    ensures
        crate::forwarded::opt_view(r) == text_of(lookup(headers_view(headers@), name@)),
{
    match find_header(headers, name) {
        None => None,
        Some(i) => headers[i].value,
    }
}

fn address_values(a: &Option<SocketAddress>) -> (r: (AttrValue, AttrValue))
    ensures
        r.0@ == address_text(*a),
        r.1@ == address_port(*a),
{
    match a {
        Some(a) => (AttrValue::Text(a.address.clone()), AttrValue::Number(a.port as u64)),
        None => (AttrValue::Empty, AttrValue::Empty),
    }
}

/// Opens the span of a request: every attribute of the schema, those that
/// only the response or a failure can give left empty.
pub fn make_span_with<'a>(
    request: &RequestInfo<'a>,
    identity: &ResolvedRequestIdentity<'a>,
    local: &SocketAddress,
    peer: &Option<SocketAddress>,
) -> (r: SpanRecord)
    ensures
        r.wf(),
        r@ == request_span(*request, *identity, *local, *peer),
{
    let headers = &request.headers;
    let mut name = request.method.to_string();
    name.append(" ");
    name.append(request.path);
    let query = match request.query {
        Some(q) => text(q),
        None => AttrValue::Empty,
    };
    let (client_address, client_port) = address_values(&identity.client);
    let (peer_address, peer_port) = address_values(peer);
    let mut v: Vec<(AttrKey, AttrValue)> = Vec::new();
    v.push((AttrKey::OtelName, AttrValue::Text(name)));
    v.push((AttrKey::HttpRequestMethod, text(request.method)));
    v.push((AttrKey::UrlScheme, text(identity.scheme)));
    v.push((AttrKey::UrlPath, text(request.path)));
    v.push((AttrKey::UrlQuery, query));
    v.push((AttrKey::ServerAddress, AttrValue::Text(identity.server.address.clone())));
    v.push((AttrKey::ServerPort, AttrValue::Number(identity.server.port as u64)));
    v.push((AttrKey::ClientAddress, client_address));
    v.push((AttrKey::ClientPort, client_port));
    v.push((AttrKey::NetworkLocalAddress, AttrValue::Text(local.address.clone())));
    v.push((AttrKey::NetworkLocalPort, AttrValue::Number(local.port as u64)));
    v.push((AttrKey::NetworkPeerAddress, peer_address));
    v.push((AttrKey::NetworkPeerPort, peer_port));
    v.push((AttrKey::NetworkTransport, text("tcp")));
    v.push((AttrKey::NetworkProtocolVersion, text(request.version.as_str())));
    v.push((AttrKey::UserAgentOriginal, get_header_value(headers, "user-agent")));
    v.push((AttrKey::HttpRequestBodySize, AttrValue::Number(request.body_size)));
    v.push((AttrKey::HttpResponseBodySize, AttrValue::Empty));
    v.push((AttrKey::HttpResponseStatusCode, AttrValue::Empty));
    v.push((AttrKey::RequestContentLength, get_header_as_u64(headers, "content-length")));
    v.push((AttrKey::RequestContentType, get_header_value(headers, "content-type")));
    v.push((AttrKey::RequestOrigin, get_header_value(headers, "origin")));
    v.push((AttrKey::RequestReferer, get_header_value(headers, "referer")));
    v.push((AttrKey::RequestAccept, get_header_value(headers, "accept")));
    v.push((AttrKey::ResponseContentLength, AttrValue::Empty));
    v.push((AttrKey::ResponseContentType, AttrValue::Empty));
    v.push((AttrKey::UserAgentSyntheticType, AttrValue::Empty));
    v.push((AttrKey::ExceptionMessage, AttrValue::Empty));
    v.push((AttrKey::ExceptionType, AttrValue::Empty));
    v.push((AttrKey::ErrorType, AttrValue::Empty));
    let r = SpanRecord { attributes: v };
    assert(r@ =~= request_span(*request, *identity, *local, *peer));
    assert forall|k: AttrKey| #[trigger] r@[key_index(k)].0 == k by {
        match k {
            _ => {},
        }
    }
    r
}

pub open spec fn digit_char(d: int) -> char {
        if d == 0 {
            '0'
        } else if d == 1 {
            '1'
        } else if d == 2 {
            '2'
        } else if d == 3 {
            '3'
        } else if d == 4 {
            '4'
        } else if d == 5 {
            '5'
        } else if d == 6 {
            '6'
        } else if d == 7 {
            '7'
        } else if d == 8 {
            '8'
        } else {
            '9'
        }
}

/// A status code as its three decimal digits.
pub open spec fn status_text(code: u16) -> Seq<char> {
    seq![
        digit_char(code as int / 100),
        digit_char((code as int / 10) % 10),
        digit_char(code as int % 10),
    ]
}

fn digit_str(d: u16) -> (r: &'static str)
    requires
        d <= 9,
    ensures
        r@ == seq![digit_char(d as int)],
{
    match d {
        0 => {
            proof {
                reveal_strlit("0");
            }
            "0"
        },
        1 => {
            proof {
                reveal_strlit("1");
            }
            "1"
        },
        2 => {
            proof {
                reveal_strlit("2");
            }
            "2"
        },
        3 => {
            proof {
                reveal_strlit("3");
            }
            "3"
        },
        4 => {
            proof {
                reveal_strlit("4");
            }
            "4"
        },
        5 => {
            proof {
                reveal_strlit("5");
            }
            "5"
        },
        6 => {
            proof {
                reveal_strlit("6");
            }
            "6"
        },
        7 => {
            proof {
                reveal_strlit("7");
            }
            "7"
        },
        8 => {
            proof {
                reveal_strlit("8");
            }
            "8"
        },
        _ => {
            proof {
                reveal_strlit("9");
            }
            "9"
        },
    }
}

/// The canonical text of a status code.
pub fn status_code_text(code: u16) -> (r: String)
    requires
        100 <= code <= 999,
    ensures
        r@ == status_text(code),
{
    let mut r = String::new();
    r.append(digit_str(code / 100));
    r.append(digit_str((code / 10) % 10));
    r.append(digit_str(code % 10));
    assert(r@ =~= status_text(code));
    r
}

pub open spec fn set_if(s: Seq<(AttrKey, AttrView)>, k: AttrKey, v: Option<AttrView>) -> Seq<
    (AttrKey, AttrView),
> {
    match v {
        Some(v) => with_attr(s, k, v),
        None => s,
    }
}

/// The span once a response was recorded in it.
pub open spec fn responded(
    s: Seq<(AttrKey, AttrView)>,
    status: u16,
    body_size: u64,
    hv: Seq<HeaderView>,
) -> Seq<(AttrKey, AttrView)> {
    let s1 = with_attr(s, AttrKey::HttpResponseStatusCode, AttrView::Text(status_text(status)));
    let s2 = with_attr(s1, AttrKey::HttpResponseBodySize, AttrView::Number(body_size));
    let s3 = set_if(
        s2,
        AttrKey::ResponseContentLength,
        match header_u64(hv, "content-length"@) {
            Some(n) => Some(AttrView::Number(n)),
            None => None,
        },
    );
    set_if(
        s3,
        AttrKey::ResponseContentType,
        match text_of(lookup(hv, "content-type"@)) {
            Some(t) => Some(AttrView::Text(t)),
            None => None,
        },
    )
}

/// The span once a failure was recorded in it: the error's kind, the
/// exception's type and its message.
pub open spec fn failed(s: Seq<(AttrKey, AttrView)>, failure: FailureClass) -> Seq<
    (AttrKey, AttrView),
> {
    match failure {
        FailureClass::StatusCode(c) => with_attr(
            with_attr(
                with_attr(s, AttrKey::ErrorType, AttrView::Text(status_text(c))),
                AttrKey::ExceptionType,
                AttrView::Text("StatusCode"@),
            ),
            AttrKey::ExceptionMessage,
            AttrView::Text(status_text(c)),
        ),
        FailureClass::Error(m) => with_attr(
            with_attr(
                with_attr(s, AttrKey::ErrorType, AttrView::Text("_OTHER"@)),
                AttrKey::ExceptionType,
                AttrView::Text("Error"@),
            ),
            AttrKey::ExceptionMessage,
            AttrView::Text(m@),
        ),
    }
}

pub open spec fn valid_failure(failure: FailureClass) -> bool {
    match failure {
        FailureClass::StatusCode(c) => 100 <= c <= 999,
        FailureClass::Error(_) => true,
    }
}

/// Records a response in the span: its status and the size of its body,
/// and its `Content-Length` and `Content-Type` where they are present.
pub fn on_response<'a>(response: &ResponseInfo<'a>, span: &mut SpanRecord)
    requires
        old(span).wf(),
        100 <= response.status <= 999,
    ensures
        final(span).wf(),
        final(span)@ == responded(
            old(span)@,
            response.status,
            response.body_size,
            headers_view(response.headers@),
        ),
{
    span.record(AttrKey::HttpResponseStatusCode, AttrValue::Text(status_code_text(response.status)));
    span.record(AttrKey::HttpResponseBodySize, AttrValue::Number(response.body_size));
    if let Some(n) = get_response_header_as_u64(&response.headers, "content-length") {
        span.record(AttrKey::ResponseContentLength, AttrValue::Number(n));
    }
    if let Some(t) = get_response_header_value(&response.headers, "content-type") {
        span.record(AttrKey::ResponseContentType, text(t));
    }
}

/// Records a failure in the span's error attributes.
pub fn on_failure(failure: &FailureClass, span: &mut SpanRecord)
    requires
        old(span).wf(),
        valid_failure(*failure),
    ensures
        final(span).wf(),
        final(span)@ == failed(old(span)@, *failure),
{
    match failure {
        FailureClass::StatusCode(c) => {
            span.record(AttrKey::ErrorType, AttrValue::Text(status_code_text(*c)));
            span.record(AttrKey::ExceptionType, text("StatusCode"));
            span.record(AttrKey::ExceptionMessage, AttrValue::Text(status_code_text(*c)));
        },
        FailureClass::Error(m) => {
            span.record(AttrKey::ErrorType, text("_OTHER"));
            span.record(AttrKey::ExceptionType, text("Error"));
            span.record(AttrKey::ExceptionMessage, AttrValue::Text(m.clone()));
        },
    }
}

/// Recording a response or a failure keeps every attribute of the schema in
/// its place: a span holds the whole schema when it closes, whichever way the
/// request ended.
pub proof fn lemma_schema_kept_at_close(
    s: Seq<(AttrKey, AttrView)>,
    status: u16,
    body_size: u64,
    hv: Seq<HeaderView>,
    failure: FailureClass,
)
    requires
        has_schema(s),
    ensures
        has_schema(responded(s, status, body_size, hv)),
        has_schema(failed(s, failure)),
{
    assert forall|t: Seq<(AttrKey, AttrView)>, k: AttrKey, v: AttrView|
        has_schema(t) implies #[trigger] has_schema(with_attr(t, k, v)) by {
        assert forall|j: AttrKey| #[trigger] with_attr(t, k, v)[key_index(j)].0 == j by {
            if key_index(j) == key_index(k) {
                assert(j == k);
            } else {
                assert(t[key_index(j)].0 == j);
            }
        }
    }
}

} // verus!
