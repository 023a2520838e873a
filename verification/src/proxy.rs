//! The proxy's decisions for one request, step by step. Each step is a
//! function of plain values; whoever drives it sends what a step asks for and
//! hands the outcome to the next one.

use crate::auth::{
    auth_request, fetch_auth, fetch_auth_outcome, fetch_failure, inject, injected,
};
use crate::config::{Config, ConfigView};
use crate::forward::{build_outbound, excluded_names, outbound_request};
use crate::header::{Header, HeaderView};
use crate::message::{
    OutboundRequest, OutboundRequestView, Request, RequestView, Response, ResponseHead,
    ResponseHeadView, ResponseView,
};
use crate::route::{find_target, first_match};
use crate::text::str_eq;
use crate::wire::{keep_representable, representable_headers};
use vstd::prelude::*;
use vstd::string::*;

verus! {

/// A request that is ready to be sent to its upstream, and what to do with a
/// status that reports a failure.
#[derive(Debug, PartialEq, Eq)]
pub struct Forward {
    pub request: OutboundRequest,
    pub ignore_errors: bool,
}

/// A request to the credentials endpoint, the names of the headers to take
/// from its answer, and the forward that waits for them.
#[derive(Debug, PartialEq, Eq)]
pub struct AuthFetch {
    pub request: OutboundRequest,
    pub response_headers: Vec<String>,
    pub forward: Forward,
}

/// What is to be done next for a request.
#[derive(Debug, PartialEq, Eq)]
pub enum Step {
    /// Answer the caller; nothing is sent to any upstream.
    Respond(Response),
    /// Ask the credentials endpoint, then go on with [`auth_fetched`].
    FetchAuth(AuthFetch),
    /// Send the request to the upstream, then go on with [`forwarded`].
    Forward(Forward),
}

/// How the caller is answered once the upstream was tried.
#[derive(Debug, PartialEq, Eq)]
pub enum Reply {
    /// A response of the proxy's own.
    Respond(Response),
    /// The upstream's response: this status and these headers, then its body
    /// as it arrives.
    Relay(ResponseHead),
}

/// The mathematical content of a [`Forward`].
pub struct ForwardView {
    pub request: OutboundRequestView,
    pub ignore_errors: bool,
}

/// The mathematical content of an [`AuthFetch`].
pub struct AuthFetchView {
    pub request: OutboundRequestView,
    pub response_headers: Seq<Seq<char>>,
    pub forward: ForwardView,
}

/// The mathematical content of a [`Step`].
pub enum StepView {
    Respond(ResponseView),
    FetchAuth(AuthFetchView),
    Forward(ForwardView),
}

/// The mathematical content of a [`Reply`].
pub enum ReplyView {
    Respond(ResponseView),
    Relay(ResponseHeadView),
}

impl DeepView for Forward {
    type V = ForwardView;

    open spec fn deep_view(&self) -> ForwardView {
        ForwardView { request: self.request@, ignore_errors: self.ignore_errors }
    }
}

impl View for Forward {
    type V = ForwardView;

    open spec fn view(&self) -> ForwardView {
        self.deep_view()
    }
}

impl DeepView for AuthFetch {
    type V = AuthFetchView;

    open spec fn deep_view(&self) -> AuthFetchView {
        AuthFetchView {
            request: self.request@,
            response_headers: self.response_headers.deep_view(),
            forward: self.forward@,
        }
    }
}

impl View for AuthFetch {
    type V = AuthFetchView;

    open spec fn view(&self) -> AuthFetchView {
        self.deep_view()
    }
}

impl DeepView for Step {
    type V = StepView;

    open spec fn deep_view(&self) -> StepView {
        match self {
            Step::Respond(response) => StepView::Respond(response@),
            Step::FetchAuth(fetch) => StepView::FetchAuth(fetch@),
            Step::Forward(forward) => StepView::Forward(forward@),
        }
    }
}

impl View for Step {
    type V = StepView;

    open spec fn view(&self) -> StepView {
        self.deep_view()
    }
}

impl DeepView for Reply {
    type V = ReplyView;

    open spec fn deep_view(&self) -> ReplyView {
        match self {
            Reply::Respond(response) => ReplyView::Respond(response@),
            Reply::Relay(head) => ReplyView::Relay(head@),
        }
    }
}

impl View for Reply {
    type V = ReplyView;

    open spec fn view(&self) -> ReplyView {
        self.deep_view()
    }
}

/// A response of the proxy's own: a status and a text, no headers.
pub open spec fn local_reply(status: u16, body: Seq<char>) -> ResponseView {
    ResponseView { status, headers: Seq::empty(), body }
}

/// The answer to a path that no rule serves: the landing page for `/`, and
/// "not found" for any other path.
pub open spec fn default_reply(path: Seq<char>) -> ResponseView {
    if path == "/"@ {
        local_reply(200, "<h1>API Proxy</h1>"@)
    } else {
        local_reply(404, "<h1>Not Found</h1>"@)
    }
}

/// A status of the class 2xx.
pub open spec fn is_success(status: u16) -> bool {
    200 <= status < 300
}

/// The status that the caller is given for the upstream's `status`.
pub open spec fn relayed_status(status: u16, ignore_errors: bool) -> u16 {
    if !is_success(status) && ignore_errors {
        200
    } else {
        status
    }
}

/// Status and headers that the caller is given for the upstream's: the
/// status after [`relayed_status`], and the headers as they are and in their
/// order, without those that cannot be written.
pub open spec fn relayed(upstream: ResponseHeadView, ignore_errors: bool) -> ResponseHeadView {
    ResponseHeadView {
        status: relayed_status(upstream.status, ignore_errors),
        headers: representable_headers(upstream.headers),
    }
}

/// The first step for `request` under `config`.
///
/// A path that no rule serves is answered at once. Otherwise the first rule
/// that matches decides: its request is built, and it is forwarded directly,
/// or after credentials were fetched where the rule asks for them. A rule
/// that asks for credentials while no endpoint is configured is answered with
/// status 500.
pub open spec fn handle(config: ConfigView, request: RequestView) -> StepView {
    match first_match(config.targets, request.path) {
        None => StepView::Respond(default_reply(request.path)),
        Some(i) => {
            let target = config.targets[i];
            let forward = ForwardView {
                request: outbound_request(excluded_names(config.auth), target, request),
                ignore_errors: target.ignore_errors,
            };
            if !target.use_auth {
                StepView::Forward(forward)
            } else {
                match config.auth {
                    None => StepView::Respond(local_reply(500, "Proxy auth config missing."@)),
                    Some(auth) => StepView::FetchAuth(
                        AuthFetchView {
                            request: auth_request(auth, request.headers),
                            response_headers: auth.response_headers,
                            forward,
                        },
                    ),
                }
            }
        },
    }
}

/// The step after the credentials endpoint was asked.
///
/// With its answer's headers the forward goes ahead, the credentials set in
/// its headers. When the request failed, the caller is answered with status
/// 500 and the cause, and nothing is forwarded.
pub open spec fn after_auth(
    response_headers: Seq<Seq<char>>,
    forward: ForwardView,
    outcome: Result<Seq<HeaderView>, Seq<char>>,
) -> StepView {
    match outcome {
        Ok(granted) => StepView::Forward(
            ForwardView {
                request: OutboundRequestView {
                    headers: injected(forward.request.headers, response_headers, granted),
                    ..forward.request
                },
                ignore_errors: forward.ignore_errors,
            },
        ),
        Err(cause) => StepView::Respond(
            local_reply(500, "Proxy auth error: "@ + fetch_failure(cause)),
        ),
    }
}

/// The answer to the caller after the upstream was tried: its response, the
/// status adjusted where failures are to be ignored, or status 500 and the
/// cause when it could not be reached.
pub open spec fn after_forward(
    ignore_errors: bool,
    outcome: Result<ResponseHeadView, Seq<char>>,
) -> ReplyView {
    match outcome {
        Ok(upstream) => ReplyView::Relay(relayed(upstream, ignore_errors)),
        Err(cause) => ReplyView::Respond(local_reply(500, "Error: "@ + cause)),
    }
}

/// A response of the proxy's own.
pub fn respond(status: u16, body: String) -> (response: Response)
    ensures
        response@ == local_reply(status, body@),
{
    let response = Response { status, headers: Vec::new(), body };
    assert(response@.headers =~= Seq::<HeaderView>::empty());
    response
}

/// The answer to a path that no rule serves.
pub fn default_handler(path: &str) -> (response: Response)
    ensures
        response@ == default_reply(path@),
{
    if str_eq(path, "/") {
        respond(200, String::from_str("<h1>API Proxy</h1>"))
    } else {
        respond(404, String::from_str("<h1>Not Found</h1>"))
    }
}

/// Status and headers for the caller, from those of the upstream's response.
pub fn build_proxy_response(upstream: ResponseHead, ignore_errors: bool) -> (head: ResponseHead)
    ensures
        head@ == relayed(upstream@, ignore_errors),
{
    let success = 200 <= upstream.status && upstream.status < 300;
    let status = if !success && ignore_errors {
        200
    } else {
        upstream.status
    };
    ResponseHead { status, headers: keep_representable(&upstream.headers) }
}

/// The first step for a request that came in.
pub fn proxy_handler(config: &Config, request: Request) -> (step: Step)
    ensures
        step@ == handle(config@, request@),
{
    let target = match find_target(config, request.path.as_str()) {
        Some(target) => target,
        None => {
            return Step::Respond(default_handler(request.path.as_str()));
        },
    };
    let ignore_errors = target.ignore_errors;
    match &config.auth {
        Some(auth) => {
            if target.use_auth {
                let ask = fetch_auth(&request.headers, auth);
                let response_headers = auth.response_headers.clone();
                assert(response_headers.deep_view() =~= auth.response_headers.deep_view());
                let outbound = build_outbound(&auth.request_headers, target, request);
                Step::FetchAuth(
                    AuthFetch {
                        request: ask,
                        response_headers,
                        forward: Forward { request: outbound, ignore_errors },
                    },
                )
            } else {
                let outbound = build_outbound(&auth.request_headers, target, request);
                Step::Forward(Forward { request: outbound, ignore_errors })
            }
        },
        None => {
            if target.use_auth {
                Step::Respond(respond(500, String::from_str("Proxy auth config missing.")))
            } else {
                let excluded: Vec<String> = Vec::new();
                assert(excluded.deep_view() =~= Seq::<Seq<char>>::empty());
                let outbound = build_outbound(&excluded, target, request);
                Step::Forward(Forward { request: outbound, ignore_errors })
            }
        },
    }
}

/// The step after the credentials endpoint was asked: `outcome` holds the
/// headers of its answer, or the cause of the failure.
pub fn auth_fetched(
    response_headers: &Vec<String>,
    forward: Forward,
    outcome: Result<Vec<Header>, String>,
) -> (step: Step)
    ensures
        step@ == after_auth(
            response_headers.deep_view(),
            forward@,
            match outcome {
                Ok(granted) => Ok(granted.deep_view()),
                Err(cause) => Err(cause@),
            },
        ),
{
    match fetch_auth_outcome(outcome) {
        Ok(granted) => {
            let mut forward = forward;
            inject(&mut forward.request.headers, response_headers, &granted);
            Step::Forward(forward)
        },
        Err(error) => {
            let mut body = String::from_str("Proxy auth error: ");
            body.append(error.message().as_str());
            Step::Respond(respond(500, body))
        },
    }
}

/// The answer to the caller after the upstream was tried: `outcome` holds
/// status and headers of its response, or the cause of the failure.
pub fn forwarded(ignore_errors: bool, outcome: Result<ResponseHead, String>) -> (reply: Reply)
    ensures
        reply@ == after_forward(
            ignore_errors,
            match outcome {
                Ok(upstream) => Ok(upstream@),
                Err(cause) => Err(cause@),
            },
        ),
{
    match outcome {
        Ok(upstream) => Reply::Relay(build_proxy_response(upstream, ignore_errors)),
        Err(cause) => {
            let mut body = String::from_str("Error: ");
            body.append(cause.as_str());
            Reply::Respond(respond(500, body))
        },
    }
}

} // verus!
