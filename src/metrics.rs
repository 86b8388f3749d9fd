//! Request metrics: what the metrics plugin records of one exchange.

use vstd::prelude::*;
use crate::text::{dec, pairs_view, push_pair, u64_to_dec};

verus! {

/// The labels and the error flag of one observed exchange.
pub struct Observation {
    pub labels: Vec<(String, String)>,
    /// The response is a server error (5xx), counted in `errors_count`.
    pub server_error: bool,
}

/// The labels of an exchange: method, path and response status.
pub open spec fn observation_labels(method: Seq<char>, path: Seq<char>, status: u16) -> Seq<(Seq<char>, Seq<char>)> {
    seq![
        ("request_method"@, method),
        ("request_path"@, path),
        ("response_status_code"@, dec(status as nat)),
    ]
}

/// Labels an exchange and classifies its status.
pub fn observe(method: &String, path: &String, status: u16) -> (r: Observation)
    ensures
        pairs_view(r.labels@) == observation_labels(method@, path@, status),
        r.server_error == (500 <= status && status <= 599),
{
    let mut labels: Vec<(String, String)> = Vec::new();
    push_pair(&mut labels, "request_method", method.clone());
    push_pair(&mut labels, "request_path", path.clone());
    push_pair(&mut labels, "response_status_code", u64_to_dec(status as u64));
    assert(pairs_view(labels@) =~= observation_labels(method@, path@, status));
    Observation { labels, server_error: 500 <= status && status <= 599 }
}

} // verus!
