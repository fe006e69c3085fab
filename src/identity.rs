use vstd::prelude::*;

use crate::forwarded::{list_items, opt_view, parse_forwarded_header, parsed_fields, pieces_from};
use crate::headers::{
    all_values, find_header, headers_view, lookup, same_name, values_named, views_of, Header,
    HeaderView,
};
use crate::text::{chars_of, trim, trim_range};

verus! {

/// A socket address: the IP address in its usual text form, and a port.
#[derive(Debug)]
pub struct SocketAddress {
    pub address: String,
    pub port: u16,
}

impl SocketAddress {
    pub fn copied(&self) -> (r: SocketAddress)
        ensures
            r == *self,
    {
        SocketAddress { address: self.address.clone(), port: self.port }
    }
}

/// What the resolvers found out about one request.
#[derive(Debug)]
pub struct ResolvedRequestIdentity<'a> {
    pub client: Option<SocketAddress>,
    pub scheme: &'a str,
    pub server: SocketAddress,
}

pub open spec fn forwarded_of(hv: Seq<HeaderView>) -> crate::forwarded::FieldsView {
    parsed_fields(values_named(hv, "forwarded"@))
}

pub open spec fn trimmed_all(items: Seq<Seq<char>>) -> Seq<Seq<char>> {
    Seq::new(items.len(), |i: int| trim(items[i]))
}

/// The trimmed items of every value of a comma-separated list header.
pub open spec fn list_tokens(values: Seq<Seq<char>>) -> Seq<Seq<char>>
    decreases values.len(),
{
    if values.len() == 0 {
        Seq::empty()
    } else {
        list_tokens(values.drop_last()) + trimmed_all(list_items(values.last()))
    }
}

pub open spec fn opt_seq(o: Option<Seq<char>>) -> Seq<Seq<char>> {
    match o {
        Some(v) => seq![v],
        None => Seq::empty(),
    }
}

pub open spec fn text_of(o: Option<Option<Seq<char>>>) -> Option<Seq<char>> {
    match o {
        Some(Some(v)) => Some(v),
        _ => None,
    }
}

/// The texts that may name the client, in order of trust: the `for` of the
/// `Forwarded` header, then each item of `X-Forwarded-For`.
pub open spec fn client_candidates(hv: Seq<HeaderView>) -> Seq<Seq<char>> {
    opt_seq(forwarded_of(hv).for_field) + list_tokens(values_named(hv, "x-forwarded-for"@))
}

/// The texts that may name the server, in order of trust: the `host` of the
/// `Forwarded` header, `X-Forwarded-Host`, then `Host`.
pub open spec fn server_candidates(hv: Seq<HeaderView>) -> Seq<Seq<char>> {
    opt_seq(forwarded_of(hv).host) + opt_seq(text_of(lookup(hv, "x-forwarded-host"@))) + opt_seq(
        text_of(lookup(hv, "host"@)),
    )
}

/// The first candidate that was read as an address, else `fallback`.
pub open spec fn first_address(parsed: Seq<Option<SocketAddress>>, fallback: Option<SocketAddress>) -> Option<
    SocketAddress,
>
    decreases parsed.len(),
{
    if parsed.len() == 0 {
        fallback
    } else if parsed[0] is Some {
        parsed[0]
    } else {
        first_address(parsed.drop_first(), fallback)
    }
}

pub open spec fn scheme_of(hv: Seq<HeaderView>, uri_scheme: Option<Seq<char>>) -> Seq<char> {
    match forwarded_of(hv).proto {
        Some(p) => p,
        None => match text_of(lookup(hv, "x-forwarded-proto"@)) {
            Some(p) => p,
            None => match uri_scheme {
                Some(s) => s,
                None => "unknown"@,
            },
        },
    }
}

fn push_list_tokens<'a>(r: &mut Vec<&'a str>, v: &'a str)
    ensures
        views_of(final(r)@) == views_of(old(r)@) + trimmed_all(list_items(v@)),
{
    let cs = chars_of(v);
    let n = cs.len();
    let mut start: usize = 0;
    let mut i: usize = 0;
    let ghost mut done: Seq<Seq<char>> = Seq::empty();
    let ghost base = views_of(r@);
    assert(cs@.subrange(0, 0) =~= Seq::<char>::empty());
    assert(cs@.subrange(0, n as int) =~= cs@);
    assert(views_of(r@) =~= base + trimmed_all(done));
    while i < n
        invariant
            cs@ == v@,
            n == cs@.len(),
            start <= i <= n,
            list_items(v@) == done + pieces_from(
                cs@.subrange(i as int, n as int),
                cs@.subrange(start as int, i as int),
                false,
            ),
            views_of(r@) == base + trimmed_all(done),
        decreases n - i,
    {
        let ghost rest = cs@.subrange(i as int, n as int);
        let ghost cur = cs@.subrange(start as int, i as int);
        assert(rest.drop_first() =~= cs@.subrange(i + 1, n as int));
        assert(rest[0] == cs@[i as int]);
        if cs[i] == ',' {
            let (a, b) = trim_range(&cs, start, i);
            let ghost before = r@;
            r.push(v.substring_char(a, b));
            proof {
                assert(views_of(r@) =~= views_of(before).push(trim(cur)));
                assert(trimmed_all(done.push(cur)) =~= trimmed_all(done).push(trim(cur)));
                assert(cs@.subrange(i + 1, i + 1) =~= Seq::<char>::empty());
                assert(done + pieces_from(rest, cur, false) =~= done.push(cur) + pieces_from(
                    cs@.subrange(i + 1, n as int),
                    Seq::empty(),
                    false,
                ));
                done = done.push(cur);
            }
            start = i + 1;
        } else {
            assert(cur.push(cs@[i as int]) =~= cs@.subrange(start as int, i + 1));
        }
        i = i + 1;
    }
    let ghost last = cs@.subrange(start as int, n as int);
    assert(cs@.subrange(n as int, n as int) =~= Seq::<char>::empty());
    assert(pieces_from(Seq::<char>::empty(), last, false) == seq![last]);
    assert(done + seq![last] =~= done.push(last));
    let (a, b) = trim_range(&cs, start, n);
    let ghost before = r@;
    r.push(v.substring_char(a, b));
    assert(views_of(r@) =~= views_of(before).push(trim(last)));
    assert(trimmed_all(done.push(last)) =~= trimmed_all(done).push(trim(last)));
}

/// The texts, in order of trust, that may give the client's address: the
/// `for` of the `Forwarded` header, then each item of `X-Forwarded-For`,
/// trimmed. Each of them is to be read as an address, and the results handed
/// to `get_client_information`.
pub fn client_address_candidates<'a>(headers: &Vec<Header<'a>>) -> (r: Vec<&'a str>)
    ensures
        views_of(r@) == client_candidates(headers_view(headers@)),
{
    let ghost hv = headers_view(headers@);
    let forwarded = parse_forwarded_header(&all_values(headers, "forwarded"));
    let mut r: Vec<&'a str> = Vec::new();
    match forwarded.for_field {
        Some(f) => r.push(f),
        None => {},
    }
    assert(views_of(r@) =~= opt_seq(forwarded_of(hv).for_field));
    let values = all_values(headers, "x-forwarded-for");
    let ghost vs = views_of(values@);
    let ghost head = views_of(r@);
    let mut k: usize = 0;
    assert(list_tokens(Seq::<Seq<char>>::empty()) =~= Seq::<Seq<char>>::empty());
    assert(vs.subrange(0, 0) =~= Seq::<Seq<char>>::empty());
    assert(views_of(r@) =~= head + list_tokens(vs.subrange(0, 0)));
    while k < values.len()
        invariant
            vs == views_of(values@),
            k <= values@.len(),
            views_of(r@) == head + list_tokens(vs.subrange(0, k as int)),
        decreases values@.len() - k,
    {
        assert(vs.subrange(0, k + 1).drop_last() =~= vs.subrange(0, k as int));
        assert(vs.subrange(0, k + 1).last() == values@[k as int]@);
        push_list_tokens(&mut r, values[k]);
        assert(views_of(r@) =~= head + list_tokens(vs.subrange(0, k + 1)));
        k = k + 1;
    }
    assert(vs.subrange(0, k as int) =~= vs);
    r
}

/// The client's address: the first candidate of `client_address_candidates`
/// that was read as an address, else the peer of the connection.
pub fn get_client_information(
    parsed: &Vec<Option<SocketAddress>>,
    peer_addr: Option<SocketAddress>,
) -> (r: Option<SocketAddress>)
    ensures
        r == first_address(parsed@, peer_addr),
{
    let mut i: usize = 0;
    assert(parsed@.subrange(0, parsed@.len() as int) =~= parsed@);
    while i < parsed.len()
        invariant
            i <= parsed@.len(),
            first_address(parsed@, peer_addr) == first_address(
                parsed@.subrange(i as int, parsed@.len() as int),
                peer_addr,
            ),
        decreases parsed@.len() - i,
    {
        let ghost rest = parsed@.subrange(i as int, parsed@.len() as int);
        assert(rest.drop_first() =~= parsed@.subrange(i + 1, parsed@.len() as int));
        match &parsed[i] {
            Some(a) => {
                return Some(a.copied());
            },
            None => {},
        }
        i = i + 1;
    }
    peer_addr
}

/// The scheme of the request: the `proto` of the `Forwarded` header, else
/// `X-Forwarded-Proto`, else the scheme of the request's target, else
/// `"unknown"`.
pub fn get_scheme<'a>(headers: &Vec<Header<'a>>, uri_scheme: Option<&'a str>) -> (r: &'a str)
    ensures
        r@ == scheme_of(headers_view(headers@), opt_view(uri_scheme)),
{
    let forwarded = parse_forwarded_header(&all_values(headers, "forwarded"));
    if let Some(proto) = forwarded.proto {
        return proto;
    }
    if let Some(i) = find_header(headers, "x-forwarded-proto") {
        if let Some(proto) = headers[i].value {
            return proto;
        }
    }
    match uri_scheme {
        Some(s) => s,
        None => "unknown",
    }
}

fn push_text<'a>(r: &mut Vec<&'a str>, headers: &Vec<Header<'a>>, name: &str)
    ensures
        views_of(final(r)@) == views_of(old(r)@) + opt_seq(
            text_of(lookup(headers_view(headers@), name@)),
        ),
{
    let ghost before = r@;
    if let Some(i) = find_header(headers, name) {
        if let Some(v) = headers[i].value {
            r.push(v);
        }
    }
    assert(views_of(r@) =~= views_of(before) + opt_seq(
        text_of(lookup(headers_view(headers@), name@)),
    ));
}

/// The texts, in order of trust, that may give the server's address: the
/// `host` of the `Forwarded` header, `X-Forwarded-Host`, then `Host`. Each of
/// them is to be read as an address, and the results handed to
/// `get_server_host`.
pub fn server_host_candidates<'a>(headers: &Vec<Header<'a>>) -> (r: Vec<&'a str>)
    ensures
        views_of(r@) == server_candidates(headers_view(headers@)),
{
    let ghost hv = headers_view(headers@);
    let forwarded = parse_forwarded_header(&all_values(headers, "forwarded"));
    let mut r: Vec<&'a str> = Vec::new();
    match forwarded.host {
        Some(h) => r.push(h),
        None => {},
    }
    assert(views_of(r@) =~= opt_seq(forwarded_of(hv).host));
    push_text(&mut r, headers, "x-forwarded-host");
    push_text(&mut r, headers, "host");
    r
}

/// The server's address: the first candidate of `server_host_candidates`
/// that was read as an address, else the address the listener is bound to.
pub fn get_server_host(parsed: &Vec<Option<SocketAddress>>, local: &SocketAddress) -> (r:
    SocketAddress)
    ensures
        first_address(parsed@, Some(*local)) == Some(r),
{
    let r = get_client_information(parsed, Some(local.copied()));
    proof {
        lemma_first_address_some(parsed@, Some(*local));
    }
    match r {
        Some(a) => a,
        None => local.copied(),
    }
}

proof fn lemma_first_address_some(parsed: Seq<Option<SocketAddress>>, fallback: Option<SocketAddress>)
    requires
        fallback is Some,
    ensures
        first_address(parsed, fallback) is Some,
    decreases parsed.len(),
{
    if parsed.len() > 0 && parsed[0] is None {
        lemma_first_address_some(parsed.drop_first(), fallback);
    }
}

/// When the `Forwarded` header gives a `for` that reads as an address, that
/// address is the client's, whatever `X-Forwarded-For` holds.
pub proof fn lemma_forwarded_for_wins(
    hv: Seq<HeaderView>,
    parsed: Seq<Option<SocketAddress>>,
    peer: Option<SocketAddress>,
    a: SocketAddress,
)
    requires
        forwarded_of(hv).for_field is Some,
        parsed.len() == client_candidates(hv).len(),
        parsed.len() > 0 ==> parsed[0] == Some(a),
    ensures
        client_candidates(hv).len() > 0,
        client_candidates(hv)[0] == forwarded_of(hv).for_field->0,
        first_address(parsed, peer) == Some(a),
{
}

proof fn lemma_none_named(hv: Seq<HeaderView>, name: Seq<char>)
    requires
        forall|i: int| 0 <= i < hv.len() ==> !same_name(#[trigger] hv[i].name, name),
    ensures
        values_named(hv, name) == Seq::<Seq<char>>::empty(),
    decreases hv.len(),
{
    if hv.len() > 0 {
        assert(!same_name(hv[hv.len() - 1].name, name));
        lemma_none_named(hv.drop_last(), name);
        assert(values_named(hv, name) =~= Seq::<Seq<char>>::empty());
    }
}

/// Without forwarding headers there is no candidate, and the client is the
/// peer of the connection.
pub proof fn lemma_no_forwarding_gives_peer(
    hv: Seq<HeaderView>,
    parsed: Seq<Option<SocketAddress>>,
    peer: Option<SocketAddress>,
)
    requires
        forall|i: int|
            0 <= i < hv.len() ==> !same_name(#[trigger] hv[i].name, "forwarded"@) && !same_name(
                hv[i].name,
                "x-forwarded-for"@,
            ),
        parsed.len() == client_candidates(hv).len(),
    ensures
        client_candidates(hv).len() == 0,
        first_address(parsed, peer) == peer,
{
    lemma_none_named(hv, "forwarded"@);
    lemma_none_named(hv, "x-forwarded-for"@);
    assert(client_candidates(hv) =~= Seq::<Seq<char>>::empty());
}

/// Without a `Forwarded` header the client's candidates are the items of
/// `X-Forwarded-For`, trimmed, in the order sent.
pub proof fn lemma_x_forwarded_for_order(hv: Seq<HeaderView>)
    requires
        forall|i: int| 0 <= i < hv.len() ==> !same_name(#[trigger] hv[i].name, "forwarded"@),
    ensures
        client_candidates(hv) == list_tokens(values_named(hv, "x-forwarded-for"@)),
{
    lemma_none_named(hv, "forwarded"@);
    assert(client_candidates(hv) =~= list_tokens(values_named(hv, "x-forwarded-for"@)));
}

/// When no candidate reads as an address, the fallback is the result: for
/// the server, the address the listener is bound to.
pub proof fn lemma_unreadable_candidates_fall_back(
    parsed: Seq<Option<SocketAddress>>,
    fallback: Option<SocketAddress>,
)
    requires
        forall|i: int| 0 <= i < parsed.len() ==> #[trigger] parsed[i] is None,
    ensures
        first_address(parsed, fallback) == fallback,
    decreases parsed.len(),
{
    if parsed.len() > 0 {
        assert(parsed[0] is None);
        assert forall|i: int| 0 <= i < parsed.drop_first().len() implies #[trigger] parsed.drop_first()[i]
            is None by {
            assert(parsed.drop_first()[i] == parsed[i + 1]);
        }
        lemma_unreadable_candidates_fall_back(parsed.drop_first(), fallback);
    }
}

} // verus!
