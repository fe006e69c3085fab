use vstd::prelude::*;

verus! {

/// The attributes of a request span. The set is fixed: every span holds
/// each of them once, in this order.
#[derive(Clone, Copy, Debug, PartialEq, Eq, Structural)]
pub enum AttrKey {
    OtelName,
    HttpRequestMethod,
    UrlScheme,
    UrlPath,
    UrlQuery,
    ServerAddress,
    ServerPort,
    ClientAddress,
    ClientPort,
    NetworkLocalAddress,
    NetworkLocalPort,
    NetworkPeerAddress,
    NetworkPeerPort,
    NetworkTransport,
    NetworkProtocolVersion,
    UserAgentOriginal,
    HttpRequestBodySize,
    HttpResponseBodySize,
    HttpResponseStatusCode,
    RequestContentLength,
    RequestContentType,
    RequestOrigin,
    RequestReferer,
    RequestAccept,
    ResponseContentLength,
    ResponseContentType,
    UserAgentSyntheticType,
    ExceptionMessage,
    ExceptionType,
    ErrorType,
}

/// The number of attributes of a span.
pub const ATTRIBUTE_COUNT: usize = 30;

pub open spec fn key_index(k: AttrKey) -> int {
    match k {
        AttrKey::OtelName => 0,
        AttrKey::HttpRequestMethod => 1,
        AttrKey::UrlScheme => 2,
        AttrKey::UrlPath => 3,
        AttrKey::UrlQuery => 4,
        AttrKey::ServerAddress => 5,
        AttrKey::ServerPort => 6,
        AttrKey::ClientAddress => 7,
        AttrKey::ClientPort => 8,
        AttrKey::NetworkLocalAddress => 9,
        AttrKey::NetworkLocalPort => 10,
        AttrKey::NetworkPeerAddress => 11,
        AttrKey::NetworkPeerPort => 12,
        AttrKey::NetworkTransport => 13,
        AttrKey::NetworkProtocolVersion => 14,
        AttrKey::UserAgentOriginal => 15,
        AttrKey::HttpRequestBodySize => 16,
        AttrKey::HttpResponseBodySize => 17,
        AttrKey::HttpResponseStatusCode => 18,
        AttrKey::RequestContentLength => 19,
        AttrKey::RequestContentType => 20,
        AttrKey::RequestOrigin => 21,
        AttrKey::RequestReferer => 22,
        AttrKey::RequestAccept => 23,
        AttrKey::ResponseContentLength => 24,
        AttrKey::ResponseContentType => 25,
        AttrKey::UserAgentSyntheticType => 26,
        AttrKey::ExceptionMessage => 27,
        AttrKey::ExceptionType => 28,
        AttrKey::ErrorType => 29,
    }
}

pub open spec fn key_name(k: AttrKey) -> Seq<char> {
    match k {
        AttrKey::OtelName => "otel.name"@,
        AttrKey::HttpRequestMethod => "http.request.method"@,
        AttrKey::UrlScheme => "url.scheme"@,
        AttrKey::UrlPath => "url.path"@,
        AttrKey::UrlQuery => "url.query"@,
        AttrKey::ServerAddress => "server.address"@,
        AttrKey::ServerPort => "server.port"@,
        AttrKey::ClientAddress => "client.address"@,
        AttrKey::ClientPort => "client.port"@,
        AttrKey::NetworkLocalAddress => "network.local.address"@,
        AttrKey::NetworkLocalPort => "network.local.port"@,
        AttrKey::NetworkPeerAddress => "network.peer.address"@,
        AttrKey::NetworkPeerPort => "network.peer.port"@,
        AttrKey::NetworkTransport => "network.transport"@,
        AttrKey::NetworkProtocolVersion => "network.protocol.version"@,
        AttrKey::UserAgentOriginal => "user_agent.original"@,
        AttrKey::HttpRequestBodySize => "http.request.body.size"@,
        AttrKey::HttpResponseBodySize => "http.response.body.size"@,
        AttrKey::HttpResponseStatusCode => "http.response.status_code"@,
        AttrKey::RequestContentLength => "http.request.header.content-length"@,
        AttrKey::RequestContentType => "http.request.header.content-type"@,
        AttrKey::RequestOrigin => "http.request.header.origin"@,
        AttrKey::RequestReferer => "http.request.header.referer"@,
        AttrKey::RequestAccept => "http.request.header.accept"@,
        AttrKey::ResponseContentLength => "http.response.header.content-length"@,
        AttrKey::ResponseContentType => "http.response.header.content-type"@,
        AttrKey::UserAgentSyntheticType => "user_agent.synthetic.type"@,
        AttrKey::ExceptionMessage => "exception.message"@,
        AttrKey::ExceptionType => "exception.type"@,
        AttrKey::ErrorType => "error.type"@,
    }
}

impl AttrKey {
    /// The position of the attribute in a span.
    pub fn index(&self) -> (r: usize)
        ensures
            r == key_index(*self),
            r < ATTRIBUTE_COUNT,
    {
        match self {
            AttrKey::OtelName => 0,
            AttrKey::HttpRequestMethod => 1,
            AttrKey::UrlScheme => 2,
            AttrKey::UrlPath => 3,
            AttrKey::UrlQuery => 4,
            AttrKey::ServerAddress => 5,
            AttrKey::ServerPort => 6,
            AttrKey::ClientAddress => 7,
            AttrKey::ClientPort => 8,
            AttrKey::NetworkLocalAddress => 9,
            AttrKey::NetworkLocalPort => 10,
            AttrKey::NetworkPeerAddress => 11,
            AttrKey::NetworkPeerPort => 12,
            AttrKey::NetworkTransport => 13,
            AttrKey::NetworkProtocolVersion => 14,
            AttrKey::UserAgentOriginal => 15,
            AttrKey::HttpRequestBodySize => 16,
            AttrKey::HttpResponseBodySize => 17,
            AttrKey::HttpResponseStatusCode => 18,
            AttrKey::RequestContentLength => 19,
            AttrKey::RequestContentType => 20,
            AttrKey::RequestOrigin => 21,
            AttrKey::RequestReferer => 22,
            AttrKey::RequestAccept => 23,
            AttrKey::ResponseContentLength => 24,
            AttrKey::ResponseContentType => 25,
            AttrKey::UserAgentSyntheticType => 26,
            AttrKey::ExceptionMessage => 27,
            AttrKey::ExceptionType => 28,
            AttrKey::ErrorType => 29,
        }
    }

    /// The attribute's name, as the telemetry conventions spell it.
    pub fn name(&self) -> (r: &'static str)
        ensures
            r@ == key_name(*self),
    {
        match self {
            AttrKey::OtelName => "otel.name",
            AttrKey::HttpRequestMethod => "http.request.method",
            AttrKey::UrlScheme => "url.scheme",
            AttrKey::UrlPath => "url.path",
            AttrKey::UrlQuery => "url.query",
            AttrKey::ServerAddress => "server.address",
            AttrKey::ServerPort => "server.port",
            AttrKey::ClientAddress => "client.address",
            AttrKey::ClientPort => "client.port",
            AttrKey::NetworkLocalAddress => "network.local.address",
            AttrKey::NetworkLocalPort => "network.local.port",
            AttrKey::NetworkPeerAddress => "network.peer.address",
            AttrKey::NetworkPeerPort => "network.peer.port",
            AttrKey::NetworkTransport => "network.transport",
            AttrKey::NetworkProtocolVersion => "network.protocol.version",
            AttrKey::UserAgentOriginal => "user_agent.original",
            AttrKey::HttpRequestBodySize => "http.request.body.size",
            AttrKey::HttpResponseBodySize => "http.response.body.size",
            AttrKey::HttpResponseStatusCode => "http.response.status_code",
            AttrKey::RequestContentLength => "http.request.header.content-length",
            AttrKey::RequestContentType => "http.request.header.content-type",
            AttrKey::RequestOrigin => "http.request.header.origin",
            AttrKey::RequestReferer => "http.request.header.referer",
            AttrKey::RequestAccept => "http.request.header.accept",
            AttrKey::ResponseContentLength => "http.response.header.content-length",
            AttrKey::ResponseContentType => "http.response.header.content-type",
            AttrKey::UserAgentSyntheticType => "user_agent.synthetic.type",
            AttrKey::ExceptionMessage => "exception.message",
            AttrKey::ExceptionType => "exception.type",
            AttrKey::ErrorType => "error.type",
        }
    }
}

} // verus!
