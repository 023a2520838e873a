//! The request that is sent to an upstream in place of the one that came in:
//! its address, its headers and its body.

use crate::config::{ProxyAuthView, ProxyTarget, ProxyTargetView};
use crate::header::{get, lookup, Header, HeaderView};
use crate::message::{OutboundRequest, OutboundRequestView, Request, RequestView};
use crate::route::{build_url, target_url};
use crate::text::{
    bytes_of, chars_of, contains_name, eq_ignore_case, matches_name, names_contain, utf8,
};
use vstd::prelude::*;
use vstd::string::*;

verus! {

/// The names of the headers that are kept from every upstream: those that the
/// credentials endpoint is given, if one is configured.
pub open spec fn excluded_names(auth: Option<ProxyAuthView>) -> Seq<Seq<char>> {
    match auth {
        Some(auth) => auth.request_headers,
        None => Seq::empty(),
    }
}

/// What becomes of one inbound header. `host` is replaced by the upstream's
/// host; a header named in `excluded`, and `x-forwarded-for`, is dropped; any
/// other header is copied as it is.
pub open spec fn forward_rule(
    header: HeaderView,
    host: Seq<char>,
    excluded: Seq<Seq<char>>,
) -> Option<HeaderView> {
    if eq_ignore_case(header.name, "host"@) {
        Some(HeaderView { name: "host"@, value: utf8(host) })
    } else if names_contain(excluded, header.name) || eq_ignore_case(
        header.name,
        "x-forwarded-for"@,
    ) {
        None
    } else {
        Some(header)
    }
}

/// The inbound headers after [`forward_rule`], in their inbound order.
pub open spec fn copied_headers(
    headers: Seq<HeaderView>,
    host: Seq<char>,
    excluded: Seq<Seq<char>>,
) -> Seq<HeaderView> {
    headers.filter_map(|h: HeaderView| forward_rule(h, host, excluded))
}

/// The value of `x-forwarded-for` that is sent on: the inbound chain, where
/// there is one that is not empty, followed by a comma, a space and the
/// client's address; else the client's address alone.
pub open spec fn forwarded_for(headers: Seq<HeaderView>, client_ip: Seq<char>) -> Seq<u8> {
    match lookup(headers, "x-forwarded-for"@) {
        Some(chain) => if chain.len() > 0 {
            chain + utf8(", "@) + utf8(client_ip)
        } else {
            utf8(client_ip)
        },
        None => utf8(client_ip),
    }
}

/// The headers that are sent to the upstream: the copied ones, then `x-forwarded-for`.
pub open spec fn outbound_headers(
    headers: Seq<HeaderView>,
    host: Seq<char>,
    excluded: Seq<Seq<char>>,
    client_ip: Seq<char>,
) -> Seq<HeaderView> {
    copied_headers(headers, host, excluded).push(
        HeaderView { name: "x-forwarded-for"@, value: forwarded_for(headers, client_ip) },
    )
}

/// A body is sent only if it holds something.
pub open spec fn outbound_body(body: Seq<u8>) -> Option<Seq<u8>> {
    if body.len() > 0 {
        Some(body)
    } else {
        None
    }
}

/// The request that `target` is sent for `request`: the same method, the
/// rewritten address, the headers after the header rules with the names in
/// `excluded` kept back, and the body if there is one.
pub open spec fn outbound_request(
    excluded: Seq<Seq<char>>,
    target: ProxyTargetView,
    request: RequestView,
) -> OutboundRequestView
    recommends
        target.source_path.len() <= request.path.len(),
{
    OutboundRequestView {
        method: request.method,
        url: target_url(target, request.path, request.query),
        headers: outbound_headers(request.headers, target.host, excluded, request.client_ip),
        body: outbound_body(request.body),
    }
}

/// Applies the header rule to one inbound header.
pub fn forward_header(header: &Header, host: &str, excluded: &Vec<String>) -> (kept: Option<
    Header,
>)
    ensures
        kept.deep_view() == forward_rule(header@, host@, excluded.deep_view()),
{
    let name = chars_of(header.name.as_str());
    if matches_name(&name, "host") {
        Some(Header { name: String::from_str("host"), value: bytes_of(host) })
    } else if contains_name(excluded, &name) || matches_name(&name, "x-forwarded-for") {
        None
    } else {
        Some(header.clone())
    }
}

/// The value of `x-forwarded-for` for the upstream.
pub fn forwarded_for_value(headers: &Vec<Header>, client_ip: &str) -> (value: Vec<u8>)
    ensures
        value@ == forwarded_for(headers.deep_view(), client_ip@),
{
    match get(headers, "x-forwarded-for") {
        Some(chain) => {
            if chain.len() > 0 {
                let mut value = chain.clone();
                let mut separator = bytes_of(", ");
                let mut address = bytes_of(client_ip);
                value.append(&mut separator);
                value.append(&mut address);
                value
            } else {
                bytes_of(client_ip)
            }
        },
        None => bytes_of(client_ip),
    }
}

/// The headers for the upstream: each inbound header after the header rule,
/// in inbound order, then `x-forwarded-for`.
pub fn forward_headers(
    headers: &Vec<Header>,
    host: &str,
    excluded: &Vec<String>,
    client_ip: &str,
) -> (out: Vec<Header>)
    ensures
        out.deep_view() == outbound_headers(
            headers.deep_view(),
            host@,
            excluded.deep_view(),
            client_ip@,
        ),
{
    let ghost rule = |h: HeaderView| forward_rule(h, host@, excluded.deep_view());
    let mut out: Vec<Header> = Vec::new();
    let mut i: usize = 0;
    while i < headers.len()
        invariant
            i <= headers.len(),
            rule == (|h: HeaderView| forward_rule(h, host@, excluded.deep_view())),
            out.deep_view() == headers.deep_view().take(i as int).filter_map(rule),
        decreases headers.len() - i,
    {
        let ghost before = out.deep_view();
        proof {
            headers.deep_view().lemma_filter_map_take_succ(rule, i as int);
        }
        match forward_header(&headers[i], host, excluded) {
            Some(kept) => {
                out.push(kept);
                assert(out.deep_view() =~= before + seq![kept@]);
            },
            None => {
                assert(out.deep_view() =~= before + Seq::<HeaderView>::empty());
            },
        }
        i += 1;
    }
    proof {
        assert(headers.deep_view().take(i as int) =~= headers.deep_view());
    }
    let ghost copied = out.deep_view();
    let last = Header {
        name: String::from_str("x-forwarded-for"),
        value: forwarded_for_value(headers, client_ip),
    };
    out.push(last);
    assert(out.deep_view() =~= copied.push(last@));
    out
}

/// The request that is sent to `target` for `request`.
pub fn build_outbound(excluded: &Vec<String>, target: &ProxyTarget, request: Request) -> (out:
    OutboundRequest)
    requires
        target@.source_path.len() <= request@.path.len(),
    ensures
        out@ == outbound_request(excluded.deep_view(), target@, request@),
{
    let url = build_url(target, request.path.as_str(), &request.query);
    let headers = forward_headers(
        &request.headers,
        target.host.as_str(),
        excluded,
        request.client_ip.as_str(),
    );
    let body = if request.body.len() > 0 {
        Some(request.body)
    } else {
        None
    };
    OutboundRequest { method: request.method, url, headers, body }
}

} // verus!
