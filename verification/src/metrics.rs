//! Counting the requests of an endpoint.

use vstd::prelude::*;
use vstd::string::*;

verus! {

/// How long a request may take, in nanoseconds, before it counts as slow.
pub const SLOW_REQUEST_NANOS: u128 = 60_000_000_000;

/// Puts the counting of requests around the endpoints of one API.
pub struct MetricsMiddleware {
    api: String,
}

/// An endpoint with the counting of its requests around it.
pub struct MetricsMiddlewareEndpoint<E> {
    api: String,
    ep: E,
}

/// What is counted for a request.
#[derive(Debug, Clone, PartialEq, Eq)]
pub struct RequestMetrics {
    pub method: String,
    pub api: String,
    pub status_code: String,
    pub duration_nanos: u128,
    /// Whether the request is counted among the slow ones too.
    pub slow: bool,
}

impl MetricsMiddleware {
    /// The counting of the requests of the API `api`.
    pub fn new(api: &str) -> (r: Self)
        ensures
            r.api_view() == api@,
    {
        Self { api: String::from_str(api) }
    }

    /// The name of the API.
    pub closed spec fn api_view(&self) -> Seq<char> {
        self.api@
    }

    /// The endpoint `ep` with the counting around it.
    pub fn transform<E>(&self, ep: E) -> (r: MetricsMiddlewareEndpoint<E>)
        ensures
            r.api_view() == self.api_view(),
            r.endpoint_view() == ep,
    {
        MetricsMiddlewareEndpoint { ep, api: self.api.clone() }
    }
}

impl<E> MetricsMiddlewareEndpoint<E> {
    /// The name of the API.
    pub closed spec fn api_view(&self) -> Seq<char> {
        self.api@
    }

    /// The endpoint.
    pub closed spec fn endpoint_view(&self) -> E {
        self.ep
    }

    /// The endpoint.
    pub fn endpoint(&self) -> (r: &E)
        ensures
            *r == self.endpoint_view(),
    {
        &self.ep
    }

    /// What is counted for an answered request: method, API and status,
    /// how long it took, and whether that was more than a minute.
    pub fn record(&self, method: &str, status_code: &str, duration_nanos: u128) -> (r:
        RequestMetrics)
        ensures
            r.method@ == method@,
            r.api@ == self.api_view(),
            r.status_code@ == status_code@,
            r.duration_nanos == duration_nanos,
            r.slow == (duration_nanos > SLOW_REQUEST_NANOS),
    {
        RequestMetrics {
            method: String::from_str(method),
            api: self.api.clone(),
            status_code: String::from_str(status_code),
            duration_nanos,
            slow: duration_nanos > SLOW_REQUEST_NANOS,
        }
    }
}

} // verus!
