//! Credentials for upstreams that ask for them: the request to the
//! credentials endpoint, and what its answer adds to the forwarded request.

use crate::config::{ProxyAuth, ProxyAuthView};
use crate::error::Error;
use crate::header::{pick_headers, picked_headers, set_all, set_each, Header, HeaderView};
use crate::message::{OutboundRequest, OutboundRequestView};
use crate::route::{scheme, scheme_of};
use vstd::prelude::*;
use vstd::string::*;

verus! {

/// The address of the credentials endpoint.
pub open spec fn auth_url(auth: ProxyAuthView) -> Seq<char> {
    scheme(auth.secure) + auth.host + auth.path
}

/// The request that asks for credentials: the configured method and address,
/// no body, and of the inbound `headers` those that the configuration names,
/// in the order in which it names them.
pub open spec fn auth_request(auth: ProxyAuthView, headers: Seq<HeaderView>) -> OutboundRequestView {
    OutboundRequestView {
        method: auth.method,
        url: auth_url(auth),
        headers: picked_headers(auth.request_headers, headers),
        body: None,
    }
}

/// The headers of the forwarded request once the credentials are in: each of
/// `names` that the endpoint `granted` is set, in the order of `names`, in
/// place of whatever `outbound` held under that name.
pub open spec fn injected(
    outbound: Seq<HeaderView>,
    names: Seq<Seq<char>>,
    granted: Seq<HeaderView>,
) -> Seq<HeaderView> {
    set_all(outbound, picked_headers(names, granted))
}

/// The message of the error for a request to the endpoint that failed with `cause`.
pub open spec fn fetch_failure(cause: Seq<char>) -> Seq<char> {
    "Failed to fetch auth: "@ + cause
}

/// The request that asks the credentials endpoint `auth` on behalf of a
/// request that came in with `headers`.
pub fn fetch_auth(headers: &Vec<Header>, auth: &ProxyAuth) -> (request: OutboundRequest)
    ensures
        request@ == auth_request(auth@, headers.deep_view()),
{
    let mut url = String::from_str(scheme_of(auth.secure));
    url.append(auth.host.as_str());
    url.append(auth.path.as_str());
    OutboundRequest {
        method: auth.method.clone(),
        url,
        headers: pick_headers(&auth.request_headers, headers),
        body: None,
    }
}

/// What the request to the credentials endpoint came to: the headers of its
/// answer, or the error that names the cause of its failure.
pub fn fetch_auth_outcome(outcome: Result<Vec<Header>, String>) -> (r: Result<Vec<Header>, Error>)
    ensures
        match outcome {
            Ok(granted) => r == Ok::<Vec<Header>, Error>(granted),
            Err(cause) => r matches Err(error) && error@ == fetch_failure(cause@),
        },
{
    match outcome {
        Ok(granted) => Ok(granted),
        Err(cause) => {
            let mut message = String::from_str("Failed to fetch auth: ");
            message.append(cause.as_str());
            Err(Error::from(message))
        },
    }
}

/// Puts the credentials into the headers of the forwarded request.
pub fn inject(outbound: &mut Vec<Header>, names: &Vec<String>, granted: &Vec<Header>)
    ensures
        final(outbound).deep_view() == injected(
            old(outbound).deep_view(),
            names.deep_view(),
            granted.deep_view(),
        ),
{
    let fields = pick_headers(names, granted);
    set_each(outbound, fields);
}

} // verus!
