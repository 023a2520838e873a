//! What holds of every request, whatever the configuration says and whatever
//! the credentials endpoint answers.

use crate::auth::injected;
use crate::config::{ConfigView, ProxyTargetView};
use crate::forward::{
    copied_headers, excluded_names, forward_rule, forwarded_for, outbound_headers,
    outbound_request,
};
use crate::header::{
    has_named, lookup, lookup_is_some_iff_named, lookup_respects_case, picked_headers,
    picked_members, picked_when_found, set_all, set_all_keeps_names, set_all_members, HeaderView,
};
use crate::message::{OutboundRequestView, RequestView, ResponseHeadView, ResponseView};
use crate::proxy::{
    after_auth, default_reply, handle, is_success, local_reply, relayed, StepView,
};
use crate::route::{
    first_match, first_match_is_unique, first_match_none_iff_no_match, is_first_match,
    query_suffix, rewritten_path, scheme, target_matches, target_url,
};
use crate::text::{
    eq_ignore_case, eq_ignore_case_reflexive, eq_ignore_case_symmetric,
    eq_ignore_case_transitive, names_contain, utf8,
};
use crate::wire::{is_representable, representable_headers_are_kept};
use vstd::prelude::*;

verus! {

/// The request that reaches the upstream for `request`, if one does.
/// `credentials` is what the credentials endpoint answers in case it is asked.
pub open spec fn upstream_request(
    config: ConfigView,
    request: RequestView,
    credentials: Result<Seq<HeaderView>, Seq<char>>,
) -> Option<OutboundRequestView> {
    match handle(config, request) {
        StepView::Respond(_) => None,
        StepView::Forward(forward) => Some(forward.request),
        StepView::FetchAuth(fetch) => match after_auth(
            fetch.response_headers,
            fetch.forward,
            credentials,
        ) {
            StepView::Forward(forward) => Some(forward.request),
            _ => None,
        },
    }
}

/// The response that the proxy writes itself for `request` before any
/// upstream is tried, if it does.
pub open spec fn own_response(
    config: ConfigView,
    request: RequestView,
    credentials: Result<Seq<HeaderView>, Seq<char>>,
) -> Option<ResponseView> {
    match handle(config, request) {
        StepView::Respond(response) => Some(response),
        StepView::Forward(_) => None,
        StepView::FetchAuth(fetch) => match after_auth(
            fetch.response_headers,
            fetch.forward,
            credentials,
        ) {
            StepView::Respond(response) => Some(response),
            _ => None,
        },
    }
}

/// The value that the credentials endpoint's answer sets for the header
/// `name` on the request to `target`, if it sets one.
pub open spec fn granted_value(
    config: ConfigView,
    target: ProxyTargetView,
    credentials: Result<Seq<HeaderView>, Seq<char>>,
    name: Seq<char>,
) -> Option<Seq<u8>> {
    match (config.auth, credentials) {
        (Some(auth), Ok(granted)) => if target.use_auth && names_contain(
            auth.response_headers,
            name,
        ) {
            lookup(granted, name)
        } else {
            None
        },
        _ => None,
    }
}

/// A request is answered by the proxy itself or reaches its upstream, never
/// both. It reaches the upstream exactly when a rule matches its path and
/// that rule asks for no credentials, or the credentials endpoint is
/// configured and answers.
pub proof fn request_is_answered_or_forwarded(
    config: ConfigView,
    request: RequestView,
    credentials: Result<Seq<HeaderView>, Seq<char>>,
)
    ensures
        upstream_request(config, request, credentials) is Some <==> own_response(
            config,
            request,
            credentials,
        ) is None,
        upstream_request(config, request, credentials) is Some <==> (first_match(
            config.targets,
            request.path,
        ) matches Some(i) && (config.targets[i].use_auth ==> config.auth is Some
            && credentials is Ok)),
{
}

/// A path that starts with a rule's source prefix is rewritten to the
/// destination prefix followed by the rest of the path, and the query follows
/// the rewritten path unchanged.
pub proof fn rewrite_replaces_prefix(
    target: ProxyTargetView,
    rest: Seq<char>,
    query: Option<Seq<char>>,
)
    ensures
        target_matches(target, target.source_path + rest),
        rewritten_path(target, target.source_path + rest) == target.dest_path + rest,
        target_url(target, target.source_path + rest, query) == scheme(target.secure) + target.host
            + (target.dest_path + rest) + query_suffix(query),
{
    let path = target.source_path + rest;
    assert(path.subrange(0, target.source_path.len() as int) =~= target.source_path);
    assert(path.subrange(target.source_path.len() as int, path.len() as int) =~= rest);
}

/// The request that reaches an upstream goes to the first rule that matches
/// its path: to that rule's host, with the rule's source prefix replaced by
/// its destination prefix, the rest of the path and the query as they came,
/// and by the method that came.
pub proof fn forwarded_request_is_rewritten(
    config: ConfigView,
    request: RequestView,
    credentials: Result<Seq<HeaderView>, Seq<char>>,
    i: int,
    rest: Seq<char>,
)
    requires
        is_first_match(config.targets, request.path, i),
        request.path == config.targets[i].source_path + rest,
        upstream_request(config, request, credentials) is Some,
    ensures
        upstream_request(config, request, credentials)->0.url == scheme(config.targets[i].secure)
            + config.targets[i].host + (config.targets[i].dest_path + rest) + query_suffix(
            request.query,
        ),
        upstream_request(config, request, credentials)->0.method == request.method,
{
    first_match_is_unique(config.targets, request.path, i);
    rewrite_replaces_prefix(config.targets[i], rest, request.query);
}

/// The first rule in the list that matches a path serves it. Of two rules
/// that match, the one that is listed first wins, so the path goes to the
/// other rule once the two have changed places.
pub proof fn first_listed_rule_wins(
    targets: Seq<ProxyTargetView>,
    path: Seq<char>,
    i: int,
    j: int,
)
    requires
        is_first_match(targets, path, i),
        i < j < targets.len(),
        target_matches(targets[j], path),
    ensures
        first_match(targets, path) == Some(i),
        first_match(targets.update(i, targets[j]).update(j, targets[i]), path) == Some(i),
        targets.update(i, targets[j]).update(j, targets[i])[i] == targets[j],
{
    first_match_is_unique(targets, path, i);
    let swapped = targets.update(i, targets[j]).update(j, targets[i]);
    assert forall|k: int| 0 <= k < i implies !target_matches(#[trigger] swapped[k], path) by {
        assert(swapped[k] == targets[k]);
    }
    assert(is_first_match(swapped, path, i));
    first_match_is_unique(swapped, path, i);
}

/// A path that no rule matches is answered by the proxy itself and reaches
/// no upstream: `/` gets the landing page with status 200, every other path
/// "not found" with status 404.
pub proof fn unmatched_path_gets_default_reply(
    config: ConfigView,
    request: RequestView,
    credentials: Result<Seq<HeaderView>, Seq<char>>,
)
    requires
        forall|i: int|
            0 <= i < config.targets.len() ==> !target_matches(
                #[trigger] config.targets[i],
                request.path,
            ),
    ensures
        upstream_request(config, request, credentials) is None,
        own_response(config, request, credentials) == Some(default_reply(request.path)),
        request.path == "/"@ ==> default_reply(request.path) == local_reply(
            200,
            "<h1>API Proxy</h1>"@,
        ),
        request.path != "/"@ ==> default_reply(request.path) == local_reply(
            404,
            "<h1>Not Found</h1>"@,
        ),
{
    first_match_none_iff_no_match(config.targets, request.path);
}

/// `x-forwarded-for` is no `host`, and `host` is no `x-forwarded-for`.
proof fn forwarded_for_is_not_host()
    ensures
        !eq_ignore_case("x-forwarded-for"@, "host"@),
{
    reveal_strlit("x-forwarded-for");
    reveal_strlit("host");
}

/// What the header rules let through under the name `host` carries the
/// upstream's host.
proof fn rewritten_host_header(
    headers: Seq<HeaderView>,
    host: Seq<char>,
    excluded: Seq<Seq<char>>,
    client_ip: Seq<char>,
    h: HeaderView,
)
    requires
        outbound_headers(headers, host, excluded, client_ip).contains(h),
        eq_ignore_case(h.name, "host"@),
    ensures
        h.value == utf8(host),
{
    let copied = copied_headers(headers, host, excluded);
    let out = outbound_headers(headers, host, excluded, client_ip);
    let i = choose|i: int| 0 <= i < out.len() && out[i] == h;
    if i < copied.len() {
        assert(copied[i] == h);
        assert(copied.contains(h));
        headers.lemma_filter_map_contains(|x: HeaderView| forward_rule(x, host, excluded), h);
    } else {
        forwarded_for_is_not_host();
    }
}

/// Every `host` header that reaches an upstream carries the host of the rule
/// that serves the request, whatever the inbound request said.
///
/// The one thing that can put another value there is the credentials
/// endpoint, where the configuration takes `host` from its answers; the law
/// is stated for the answers that do not.
pub proof fn host_header_is_upstream_host(
    config: ConfigView,
    request: RequestView,
    credentials: Result<Seq<HeaderView>, Seq<char>>,
    i: int,
    h: HeaderView,
)
    requires
        first_match(config.targets, request.path) == Some(i),
        upstream_request(config, request, credentials) is Some,
        upstream_request(config, request, credentials)->0.headers.contains(h),
        eq_ignore_case(h.name, "host"@),
        granted_value(config, config.targets[i], credentials, "host"@) matches Some(value)
            ==> value == utf8(config.targets[i].host),
    ensures
        h.value == utf8(config.targets[i].host),
{
    let target = config.targets[i];
    let excluded = excluded_names(config.auth);
    let base = outbound_headers(request.headers, target.host, excluded, request.client_ip);
    if base.contains(h) {
        rewritten_host_header(request.headers, target.host, excluded, request.client_ip, h);
    } else {
        let auth = config.auth->0;
        let granted = credentials->Ok_0;
        let names = auth.response_headers;
        set_all_members(base, picked_headers(names, granted), h);
        picked_members(names, granted, h);
        let k = choose|k: int| 0 <= k < names.len() && names[k] == h.name;
        assert(eq_ignore_case(names[k], "host"@));
        lookup_respects_case(granted, h.name, "host"@);
    }
}

/// What the header rules let through carries none of the names that are kept
/// back, but for `host` where it came in and `x-forwarded-for`, which the
/// rules write themselves.
proof fn excluded_name_is_not_copied(
    headers: Seq<HeaderView>,
    host: Seq<char>,
    excluded: Seq<Seq<char>>,
    client_ip: Seq<char>,
    name: Seq<char>,
    h: HeaderView,
)
    requires
        names_contain(excluded, name),
        !(eq_ignore_case(name, "host"@) && has_named(headers, "host"@)),
        !eq_ignore_case(name, "x-forwarded-for"@),
        outbound_headers(headers, host, excluded, client_ip).contains(h),
    ensures
        !eq_ignore_case(h.name, name),
{
    let copied = copied_headers(headers, host, excluded);
    let out = outbound_headers(headers, host, excluded, client_ip);
    let i = choose|i: int| 0 <= i < out.len() && out[i] == h;
    if eq_ignore_case(h.name, name) {
        eq_ignore_case_symmetric(h.name, name);
        if i < copied.len() {
            assert(copied[i] == h);
            assert(copied.contains(h));
            headers.lemma_filter_map_contains(|x: HeaderView| forward_rule(x, host, excluded), h);
            let t = choose|t: HeaderView| #[trigger]
                headers.contains(t) && forward_rule(t, host, excluded) == Some(h);
            let k = choose|k: int|
                0 <= k < excluded.len() && eq_ignore_case(#[trigger] excluded[k], name);
            eq_ignore_case_transitive(excluded[k], name, h.name);
            if eq_ignore_case(t.name, "host"@) {
                let at = choose|at: int| 0 <= at < headers.len() && headers[at] == t;
                assert(eq_ignore_case(headers[at].name, "host"@));
            }
            assert(names_contain(excluded, t.name));
        }
    }
}

/// No header that the credentials endpoint is given reaches an upstream.
///
/// Three things put such a name on the forwarded request all the same, see
/// [`forwarded_request_carries`], and the law is stated without them: the
/// name is `host` and the request came in with that header; the name is
/// `x-forwarded-for`; the credentials endpoint hands the header out again in
/// its answer.
pub proof fn credential_headers_stay_back(
    config: ConfigView,
    request: RequestView,
    credentials: Result<Seq<HeaderView>, Seq<char>>,
    i: int,
    name: Seq<char>,
)
    requires
        first_match(config.targets, request.path) == Some(i),
        upstream_request(config, request, credentials) is Some,
        config.auth is Some,
        names_contain(config.auth->0.request_headers, name),
        !(eq_ignore_case(name, "host"@) && has_named(request.headers, "host"@)),
        !eq_ignore_case(name, "x-forwarded-for"@),
        granted_value(config, config.targets[i], credentials, name) is None,
    ensures
        !has_named(upstream_request(config, request, credentials)->0.headers, name),
{
    let target = config.targets[i];
    let excluded = excluded_names(config.auth);
    let base = outbound_headers(request.headers, target.host, excluded, request.client_ip);
    let sent = upstream_request(config, request, credentials)->0.headers;
    if has_named(sent, name) {
        let k = choose|k: int| 0 <= k < sent.len() && eq_ignore_case((#[trigger] sent[k]).name, name);
        let h = sent[k];
        assert(sent.contains(h));
        if base.contains(h) {
            excluded_name_is_not_copied(
                request.headers,
                target.host,
                excluded,
                request.client_ip,
                name,
                h,
            );
        } else {
            let auth = config.auth->0;
            let granted = credentials->Ok_0;
            let names = auth.response_headers;
            set_all_members(base, picked_headers(names, granted), h);
            picked_members(names, granted, h);
            let n = choose|n: int| 0 <= n < names.len() && names[n] == h.name;
            assert(eq_ignore_case(names[n], name));
            lookup_respects_case(granted, h.name, name);
        }
    }
}

/// The header rules answer a `host` header with a `host` header.
proof fn host_is_copied(
    headers: Seq<HeaderView>,
    host: Seq<char>,
    excluded: Seq<Seq<char>>,
    i: int,
)
    requires
        0 <= i < headers.len(),
        eq_ignore_case(headers[i].name, "host"@),
    ensures
        copied_headers(headers, host, excluded).contains(
            HeaderView { name: "host"@, value: utf8(host) },
        ),
    decreases headers.len(),
{
    let rule = |h: HeaderView| forward_rule(h, host, excluded);
    let field = HeaderView { name: "host"@, value: utf8(host) };
    let rest = headers.drop_last();
    let copied = headers.filter_map(rule);
    let before = rest.filter_map(rule);
    if i == headers.len() - 1 {
        assert(copied == before + seq![field]);
        assert(copied[copied.len() - 1] == field);
    } else {
        host_is_copied(rest, host, excluded, i);
        let k = choose|k: int| 0 <= k < before.len() && before[k] == field;
        match rule(headers.last()) {
            Some(more) => {
                assert(copied == before + seq![more]);
                assert(copied[k] == field);
            },
            None => {},
        }
    }
}

/// What every request carries when it reaches its upstream:
/// `x-forwarded-for`; `host`, if it came in with that header; and every
/// header that the credentials endpoint handed out for it.
pub proof fn forwarded_request_carries(
    config: ConfigView,
    request: RequestView,
    credentials: Result<Seq<HeaderView>, Seq<char>>,
    i: int,
    name: Seq<char>,
)
    requires
        first_match(config.targets, request.path) == Some(i),
        upstream_request(config, request, credentials) is Some,
    ensures
        has_named(upstream_request(config, request, credentials)->0.headers, "x-forwarded-for"@),
        has_named(request.headers, "host"@) ==> has_named(
            upstream_request(config, request, credentials)->0.headers,
            "host"@,
        ),
        granted_value(config, config.targets[i], credentials, name) is Some ==> has_named(
            upstream_request(config, request, credentials)->0.headers,
            name,
        ),
{
    let target = config.targets[i];
    let excluded = excluded_names(config.auth);
    let copied = copied_headers(request.headers, target.host, excluded);
    let base = outbound_headers(request.headers, target.host, excluded, request.client_ip);
    let sent = upstream_request(config, request, credentials)->0.headers;
    let fields = if target.use_auth {
        picked_headers(config.auth->0.response_headers, credentials->Ok_0)
    } else {
        Seq::empty()
    };
    assert(sent == set_all(base, fields));

    eq_ignore_case_reflexive("x-forwarded-for"@);
    assert(eq_ignore_case(base[base.len() - 1].name, "x-forwarded-for"@));
    set_all_keeps_names(base, fields, "x-forwarded-for"@);

    if has_named(request.headers, "host"@) {
        let at = choose|at: int|
            0 <= at < request.headers.len() && eq_ignore_case(
                (#[trigger] request.headers[at]).name,
                "host"@,
            );
        host_is_copied(request.headers, target.host, excluded, at);
        let field = HeaderView { name: "host"@, value: utf8(target.host) };
        let k = choose|k: int| 0 <= k < copied.len() && copied[k] == field;
        eq_ignore_case_reflexive("host"@);
        assert(eq_ignore_case(base[k].name, "host"@));
        set_all_keeps_names(base, fields, "host"@);
    }
    if granted_value(config, target, credentials, name) is Some {
        let names = config.auth->0.response_headers;
        let granted = credentials->Ok_0;
        let n = choose|n: int| 0 <= n < names.len() && eq_ignore_case(#[trigger] names[n], name);
        lookup_respects_case(granted, names[n], name);
        picked_when_found(names, granted, n);
        let field = HeaderView { name: names[n], value: lookup(granted, names[n])->0 };
        let k = choose|k: int| 0 <= k < fields.len() && fields[k] == field;
        assert(eq_ignore_case(fields[k].name, name));
        set_all_keeps_names(base, fields, name);
    }
}

/// A request that came without `x-forwarded-for` is forwarded with the
/// client's address as its value, and a request is never forwarded without
/// the header: the headers that the rules write end with it.
pub proof fn forwarded_for_names_the_client(
    headers: Seq<HeaderView>,
    host: Seq<char>,
    excluded: Seq<Seq<char>>,
    client_ip: Seq<char>,
)
    ensures
        !has_named(headers, "x-forwarded-for"@) ==> forwarded_for(headers, client_ip) == utf8(
            client_ip,
        ),
        outbound_headers(headers, host, excluded, client_ip).last() == (HeaderView {
            name: "x-forwarded-for"@,
            value: forwarded_for(headers, client_ip),
        }),
{
    lookup_is_some_iff_named(headers, "x-forwarded-for"@);
}

/// Where a rule asks for credentials and they cannot be had, the caller is
/// answered with status 500 and nothing reaches the upstream.
pub proof fn failed_credentials_stop_the_request(
    config: ConfigView,
    request: RequestView,
    cause: Seq<char>,
    i: int,
)
    requires
        first_match(config.targets, request.path) == Some(i),
        config.targets[i].use_auth,
    ensures
        upstream_request(config, request, Err(cause)) is None,
        own_response(config, request, Err(cause)) matches Some(response) && response.status
            == 500,
{
}

/// Under a configuration that was accepted at startup, a rule that asks for
/// credentials always finds the endpoint to ask: the first step for its
/// requests is to fetch them, never the reply that the endpoint is missing.
pub proof fn accepted_configuration_has_its_endpoint(
    config: ConfigView,
    request: RequestView,
    i: int,
)
    requires
        config.valid(),
        first_match(config.targets, request.path) == Some(i),
        config.targets[i].use_auth,
    ensures
        config.auth is Some,
        handle(config, request) is FetchAuth,
{
    assert(is_first_match(config.targets, request.path, i));
    assert(config.asks_for_auth());
}

/// A rule that asks for credentials forwards nothing before they are in.
pub proof fn credentials_come_first(config: ConfigView, request: RequestView, i: int)
    requires
        first_match(config.targets, request.path) == Some(i),
        config.targets[i].use_auth,
    ensures
        !(handle(config, request) is Forward),
{
}

/// Of the answer of the credentials endpoint, only headers whose names the
/// configuration lists reach the upstream: each header of the forwarded
/// request was written by the header rules, or bears a listed name and the
/// value that the answer holds for it. The answer changes nothing else of
/// the request.
pub proof fn only_listed_credentials_are_copied(
    config: ConfigView,
    request: RequestView,
    granted: Seq<HeaderView>,
    i: int,
    h: HeaderView,
)
    requires
        first_match(config.targets, request.path) == Some(i),
        config.targets[i].use_auth,
        config.auth is Some,
        upstream_request(config, request, Ok(granted))->0.headers.contains(h),
    ensures
        upstream_request(config, request, Ok(granted)) == Some(
            OutboundRequestView {
                headers: injected(
                    outbound_request(
                        excluded_names(config.auth),
                        config.targets[i],
                        request,
                    ).headers,
                    config.auth->0.response_headers,
                    granted,
                ),
                ..outbound_request(excluded_names(config.auth), config.targets[i], request)
            },
        ),
        outbound_request(
            excluded_names(config.auth),
            config.targets[i],
            request,
        ).headers.contains(h) || (config.auth->0.response_headers.contains(h.name) && lookup(
            granted,
            h.name,
        ) == Some(h.value)),
{
    let base = outbound_request(excluded_names(config.auth), config.targets[i], request).headers;
    let names = config.auth->0.response_headers;
    set_all_members(base, picked_headers(names, granted), h);
    if !base.contains(h) {
        picked_members(names, granted, h);
    }
}

/// Where failures are to be ignored, a status outside the class 2xx is
/// passed on as 200; every other status is passed on as it is. The headers
/// are the same in either case.
pub proof fn ignored_failure_is_reported_as_success(upstream: ResponseHeadView)
    ensures
        !is_success(upstream.status) ==> relayed(upstream, true).status == 200,
        is_success(upstream.status) ==> relayed(upstream, true).status == upstream.status,
        relayed(upstream, false).status == upstream.status,
        relayed(upstream, true).headers == relayed(upstream, false).headers,
{
}

/// The headers of a response whose every header can be written are passed
/// on as they are and in their order.
pub proof fn response_headers_are_passed_on(upstream: ResponseHeadView, ignore_errors: bool)
    requires
        forall|i: int|
            0 <= i < upstream.headers.len() ==> is_representable(#[trigger] upstream.headers[i]),
    ensures
        relayed(upstream, ignore_errors).headers == upstream.headers,
{
    representable_headers_are_kept(upstream.headers);
}

} // verus!
