//! Response rewrite: overrides of status, body and headers after the
//! downstream call.

use vstd::prelude::*;
use crate::auth::{base64_decoded, decode_base64};
use crate::config::{ConfigError, check_status, status_valid};
use crate::context::PluginContext;
use crate::template::{render, render_template};
use crate::text::{first_non_token, is_field_value, is_field_value_exec, is_token, pairs_view};

verus! {

#[derive(Clone, Debug)]
pub struct ResponseRewriteConfig {
    pub status_code: Option<u16>,
    pub body: Option<String>,
    pub body_base64: bool,
    pub headers: Vec<(String, String)>,
}

/// The response-rewrite plugin: header values are templates.
pub struct ResponseRewrite {
    pub status_code: Option<u16>,
    pub body: Option<Vec<u8>>,
    pub headers: Vec<(String, String)>,
}

/// The overrides applied to one response.
pub struct Rewrite {
    pub status_code: Option<u16>,
    pub body: Option<Vec<u8>>,
    pub headers: Vec<(String, String)>,
}

/// The configured body: Base64-decoded when so configured, else the text's
/// bytes.
pub open spec fn body_bytes(body: Seq<char>, base64: bool) -> Option<Seq<u8>> {
    if base64 { base64_decoded(body) } else { Some(vstd::utf8::encode_utf8(body)) }
}

/// The headers set on the response: those whose template renders to a
/// non-empty header value, in order.
pub open spec fn rendered_headers(hs: Seq<(String, String)>, vars: Seq<(Seq<char>, Seq<char>)>) -> Seq<(Seq<char>, Seq<char>)>
    decreases hs.len(),
{
    if hs.len() == 0 {
        Seq::empty()
    } else {
        let rest = rendered_headers(hs.drop_last(), vars);
        match render(hs.last().1@, vars) {
            Some(v) => if v.len() > 0 && is_field_value(v) { rest.push((hs.last().0@, v)) } else { rest },
            None => rest,
        }
    }
}

fn bytes_of(s: &str) -> (r: Vec<u8>)
    ensures
        r@ == vstd::utf8::encode_utf8(s@),
{
    let b = s.as_bytes();
    let mut v: Vec<u8> = Vec::new();
    let mut k: usize = 0;
    while k < b.len()
        invariant
            b@ == vstd::utf8::encode_utf8(s@),
            k <= b@.len(),
            v@ == b@.subrange(0, k as int),
        decreases b@.len() - k,
    {
        v.push(b[k]);
        k = k + 1;
        assert(v@ =~= b@.subrange(0, k as int));
    }
    assert(b@.subrange(0, b@.len() as int) =~= b@);
    v
}

impl ResponseRewrite {
    /// The status must be valid, a Base64 body must decode, and header names
    /// must be tokens.
    pub fn new(cfg: ResponseRewriteConfig) -> (r: Result<ResponseRewrite, ConfigError>)
        ensures
            match r {
                Ok(p) => {
                    &&& p.status_code == cfg.status_code
                    &&& (cfg.status_code matches Some(c) ==> status_valid(c))
                    &&& match cfg.body {
                        Some(b) => p.body matches Some(v) && body_bytes(b@, cfg.body_base64) == Some(v@),
                        None => p.body is None,
                    }
                    &&& pairs_view(p.headers@) == pairs_view(cfg.headers@)
                    &&& forall|k: int| 0 <= k < cfg.headers@.len() ==> is_token(#[trigger] cfg.headers@[k].0@)
                },
                Err(ConfigError::InvalidStatusCode(c)) => cfg.status_code == Some(c) && !status_valid(c),
                Err(ConfigError::InvalidBody) => cfg.body matches Some(b) && body_bytes(b@, cfg.body_base64) is None,
                Err(ConfigError::InvalidHeaderName(n)) => !is_token(n@) && exists|k: int|
                    0 <= k < cfg.headers@.len() && #[trigger] cfg.headers@[k].0@ == n@,
                Err(_) => false,
            },
    {
        match cfg.status_code {
            Some(c) => {
                match check_status(c) {
                    Ok(_) => {},
                    Err(e) => { return Err(e); },
                }
            },
            None => {},
        }
        let body = match &cfg.body {
            None => None,
            Some(b) => {
                if cfg.body_base64 {
                    match decode_base64(b.as_str()) {
                        Some(v) => Some(v),
                        None => { return Err(ConfigError::InvalidBody); },
                    }
                } else {
                    Some(bytes_of(b.as_str()))
                }
            },
        };
        let mut names: Vec<String> = Vec::new();
        let mut k: usize = 0;
        while k < cfg.headers.len()
            invariant
                k <= cfg.headers@.len(),
                names@.len() == k,
                forall|j: int| 0 <= j < k ==> #[trigger] names@[j]@ == cfg.headers@[j].0@,
            decreases cfg.headers@.len() - k,
        {
            names.push(cfg.headers[k].0.clone());
            k = k + 1;
        }
        match first_non_token(&names) {
            Some(j) => {
                assert(cfg.headers@[j as int].0@ == names@[j as int]@);
                return Err(ConfigError::InvalidHeaderName(names[j].clone()));
            },
            None => {
                assert forall|k: int| 0 <= k < cfg.headers@.len() implies is_token(#[trigger] cfg.headers@[k].0@) by {
                    assert(names@[k]@ == cfg.headers@[k].0@);
                }
            },
        }
        Ok(ResponseRewrite { status_code: cfg.status_code, body, headers: cfg.headers })
    }

    /// The overrides for one response, with header templates rendered
    /// against the context.
    pub fn call(&self, ctx: &PluginContext) -> (r: Rewrite)
        ensures
            r.status_code == self.status_code,
            match self.body {
                Some(b) => r.body matches Some(v) && v@ == b@,
                None => r.body is None,
            },
            pairs_view(r.headers@) == rendered_headers(self.headers@, pairs_view(ctx.vars@)),
    {
        let body = match &self.body {
            None => None,
            Some(b) => {
                let mut v: Vec<u8> = Vec::new();
                let mut j: usize = 0;
                while j < b.len()
                    invariant
                        j <= b@.len(),
                        v@ == b@.subrange(0, j as int),
                    decreases b@.len() - j,
                {
                    v.push(b[j]);
                    j = j + 1;
                    assert(v@ =~= b@.subrange(0, j as int));
                }
                assert(b@.subrange(0, b@.len() as int) =~= b@);
                Some(v)
            },
        };
        let mut out: Vec<(String, String)> = Vec::new();
        let mut k: usize = 0;
        while k < self.headers.len()
            invariant
                k <= self.headers@.len(),
                pairs_view(out@) == rendered_headers(self.headers@.subrange(0, k as int), pairs_view(ctx.vars@)),
            decreases self.headers@.len() - k,
        {
            let ghost before = pairs_view(out@);
            let ghost pre = self.headers@.subrange(0, k + 1);
            assert(pre.drop_last() =~= self.headers@.subrange(0, k as int));
            assert(pre.last() == self.headers@[k as int]);
            match render_template(self.headers[k].1.as_str(), &ctx.vars) {
                Some(v) => {
                    if v.as_str().unicode_len() > 0 && is_field_value_exec(v.as_str()) {
                        let name = self.headers[k].0.clone();
                        let ghost pair = (name@, v@);
                        out.push((name, v));
                        assert(pairs_view(out@) =~= before.push(pair));
                    }
                },
                None => {},
            }
            k = k + 1;
        }
        assert(self.headers@.subrange(0, self.headers@.len() as int) =~= self.headers@);
        Rewrite { status_code: self.status_code, body, headers: out }
    }
}

} // verus!
