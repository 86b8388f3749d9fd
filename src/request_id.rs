//! Request id: a fresh UUID in a request header, optionally echoed back.

use vstd::prelude::*;
use crate::config::ConfigError;
use crate::context::PluginContext;
use crate::text::{is_token, is_token_exec, pairs_view};
use crate::upstream::{set_header, set_header_exec};

verus! {

#[derive(Clone, Debug)]
pub struct RequestIdConfig {
    pub header_name: String,
    pub include_in_response: bool,
}

/// The header that carries the id when none is configured.
pub fn default_header_name() -> (r: String)
    ensures
        r@ == "X-Request-Id"@,
{
    String::from_str("X-Request-Id")
}

/// A lowercase hexadecimal digit.
pub open spec fn is_lower_hex(c: char) -> bool {
    ('0' <= c && c <= '9') || ('a' <= c && c <= 'f')
}

/// The text of a version-4 UUID: 36 characters, hyphens at 8, 13, 18 and 23,
/// lowercase hexadecimal digits elsewhere, the version digit `4`, and the
/// RFC 4122 variant digit.
pub open spec fn is_uuid_v4_text(s: Seq<char>) -> bool {
    &&& s.len() == 36
    &&& s[8] == '-' && s[13] == '-' && s[18] == '-' && s[23] == '-'
    &&& forall|i: int| 0 <= i < 36 && i != 8 && i != 13 && i != 18 && i != 23 ==> is_lower_hex(#[trigger] s[i])
    &&& s[14] == '4'
    &&& (s[19] == '8' || s[19] == '9' || s[19] == 'a' || s[19] == 'b')
}

/// Relies on uuid::Uuid::new_v4 (random bytes with the version set to 4 and
/// the RFC 4122 variant) and its Display, the hyphenated lowercase text.
#[verifier::external_body]
fn new_uuid() -> (r: String)
    ensures
        is_uuid_v4_text(r@),
{
    uuid::Uuid::new_v4().to_string()
}

/// The request-id plugin.
pub struct RequestId {
    pub header_name: String,
    pub include_in_response: bool,
}

/// What the plugin does with one request.
pub struct RequestIdStep {
    pub id: String,
    /// The request's headers, with the id set.
    pub request_headers: Vec<(String, String)>,
    /// The header to set on the response, when the id is echoed.
    pub response_header: Option<(String, String)>,
}

impl RequestId {
    /// The header name must be a token.
    pub fn new(cfg: RequestIdConfig) -> (r: Result<RequestId, ConfigError>)
        ensures
            match r {
                Ok(p) => is_token(cfg.header_name@) && p.header_name@ == cfg.header_name@
                    && p.include_in_response == cfg.include_in_response,
                Err(e) => !is_token(cfg.header_name@) && e == ConfigError::InvalidHeaderName(cfg.header_name),
            },
    {
        if !is_token_exec(cfg.header_name.as_str()) {
            return Err(ConfigError::InvalidHeaderName(cfg.header_name));
        }
        Ok(RequestId { header_name: cfg.header_name, include_in_response: cfg.include_in_response })
    }

    /// Gives the request a fresh id: in the configured request header, in
    /// the context as `req_id`, and on the response when echoed.
    pub fn call(&self, headers: &Vec<(String, String)>, ctx: &mut PluginContext) -> (r: RequestIdStep)
        ensures
            is_uuid_v4_text(r.id@),
            pairs_view(r.request_headers@) == set_header(pairs_view(headers@), self.header_name@, r.id@),
            r.response_header == if self.include_in_response {
                Some((self.header_name, r.id))
            } else {
                None::<(String, String)>
            },
            pairs_view(final(ctx).vars@) == pairs_view(old(ctx).vars@).push(("req_id"@, r.id@)),
            final(ctx).consumer_name == old(ctx).consumer_name,
    {
        let id = new_uuid();
        let request_headers = set_header_exec(headers, self.header_name.as_str(), id.clone());
        ctx.insert(String::from_str("req_id"), id.clone());
        let response_header = if self.include_in_response {
            Some((self.header_name.clone(), id.clone()))
        } else {
            None
        };
        RequestIdStep { id, request_headers, response_header }
    }
}

} // verus!
