//! Cross-origin resource sharing: origin validation, preflight answers and
//! response decoration.

use vstd::prelude::*;
use crate::config::ConfigError;
use crate::request::RequestHead;
use crate::text::{
    contains_ci, contains_ci_exec, contains_exact, contains_exact_exec, dec_int, first_non_field_value,
    first_non_token, get_header, header_value, i64_to_dec, is_field_value, is_token, is_token_exec,
    join, join_exec, pairs_view, push_pair, split_commas, split_commas_exec, trim, trim_ws,
};

verus! {

#[derive(Clone, Debug)]
pub struct CorsConfig {
    pub allow_origins: Vec<String>,
    pub allow_methods: Vec<String>,
    pub allow_headers: Vec<String>,
    pub expose_headers: Vec<String>,
    pub max_age: i32,
    pub allow_credentials: bool,
}

/// The CORS plugin, with validated lists.
pub struct Cors {
    pub allow_origins: Vec<String>,
    pub allow_methods: Vec<String>,
    pub allow_headers: Vec<String>,
    pub expose_headers: Vec<String>,
    pub max_age: i32,
    pub allow_credentials: bool,
}

/// What the plugin does with a request.
pub enum CorsAction {
    /// Not a cross-origin request: forward it unchanged.
    Pass,
    /// Answer 401 Unauthorized.
    Reject,
    /// Answer the preflight request with these headers.
    Preflight(Vec<(String, String)>),
    /// Forward the request, then set these headers on the response.
    Decorate(Vec<(String, String)>),
}

pub enum CorsActionView {
    Pass,
    Reject,
    Preflight(Seq<(Seq<char>, Seq<char>)>),
    Decorate(Seq<(Seq<char>, Seq<char>)>),
}

pub open spec fn action_view(a: CorsAction) -> CorsActionView {
    match a {
        CorsAction::Pass => CorsActionView::Pass,
        CorsAction::Reject => CorsActionView::Reject,
        CorsAction::Preflight(h) => CorsActionView::Preflight(pairs_view(h@)),
        CorsAction::Decorate(h) => CorsActionView::Decorate(pairs_view(h@)),
    }
}

pub open spec fn views(v: Seq<String>) -> Seq<Seq<char>> {
    v.map_values(|x: String| x@)
}

pub open spec fn all_methods() -> Seq<char> {
    "GET, POST, PUT, DELETE, HEAD, OPTIONS, CONNECT, PATCH, TRACE"@
}

/// Whether the origin is allowed, and whether the answer varies by origin:
/// an origin listed is allowed; any other is allowed only when no origin is
/// listed, and then the answer varies.
pub open spec fn origin_check(c: Cors, origin: Seq<char>) -> (bool, bool) {
    if contains_exact(c.allow_origins@, origin) {
        (true, false)
    } else {
        (c.allow_origins@.len() == 0, true)
    }
}

pub open spec fn method_allowed(c: Cors, m: Option<Seq<char>>) -> bool {
    match m {
        Some(m) => is_token(m) && (c.allow_methods@.len() == 0 || contains_exact(
            c.allow_methods@,
            m,
        )),
        None => false,
    }
}

/// Some item of `parts`, trimmed, is in `allowed` up to ASCII case.
pub open spec fn some_part_allowed(allowed: Seq<String>, parts: Seq<Seq<char>>) -> bool {
    exists|k: int| 0 <= k < parts.len() && contains_ci(allowed, trim(#[trigger] parts[k]))
}

pub open spec fn headers_allowed(c: Cors, h: Option<Seq<char>>) -> bool {
    c.allow_headers@.len() == 0 || match h {
        None => true,
        Some(h) => some_part_allowed(c.allow_headers@, split_commas(h)),
    }
}

pub open spec fn expose_part(c: Cors) -> Seq<(Seq<char>, Seq<char>)> {
    if c.expose_headers@.len() > 0 {
        seq![("Access-Control-Expose-Headers"@, join(views(c.expose_headers@), ", "@))]
    } else {
        Seq::empty()
    }
}

pub open spec fn credentials_part(c: Cors) -> Seq<(Seq<char>, Seq<char>)> {
    if c.allow_credentials {
        seq![("Access-Control-Allow-Credentials"@, "true"@)]
    } else {
        Seq::empty()
    }
}

pub open spec fn preflight_headers(c: Cors, origin: Seq<char>) -> Seq<(Seq<char>, Seq<char>)> {
    seq![("Access-Control-Allow-Origin"@, origin)] + expose_part(c) + seq![
        ("Access-Control-Max-Age"@, dec_int(c.max_age as int)),
        (
            "Access-Control-Allow-Methods"@,
            if c.allow_methods@.len() == 0 {
                all_methods()
            } else {
                join(views(c.allow_methods@), ", "@)
            },
        ),
        (
            "Access-Control-Allow-Headers"@,
            if c.allow_headers@.len() == 0 {
                "*"@
            } else {
                join(views(c.allow_headers@), ", "@)
            },
        ),
    ] + credentials_part(c)
}

pub open spec fn decorate_headers(c: Cors, origin: Seq<char>, vary: bool) -> Seq<(Seq<char>, Seq<char>)> {
    seq![("Access-Control-Allow-Origin"@, origin)] + credentials_part(c) + expose_part(c) + if vary {
        seq![("Vary"@, "Origin"@)]
    } else {
        Seq::empty()
    }
}

/// What the plugin does with a request whose head is `req`.
pub open spec fn cors_action(c: Cors, req: RequestHead) -> CorsActionView {
    match header_value(req.headers@, "origin"@) {
        None => CorsActionView::Pass,
        Some(origin) => {
            let (allowed, vary) = origin_check(c, origin);
            if !allowed {
                CorsActionView::Reject
            } else if req.method@ == "OPTIONS"@ {
                if !method_allowed(c, header_value(req.headers@, "access-control-request-method"@)) {
                    CorsActionView::Reject
                } else if !headers_allowed(
                    c,
                    header_value(req.headers@, "access-control-request-headers"@),
                ) {
                    CorsActionView::Reject
                } else {
                    CorsActionView::Preflight(preflight_headers(c, origin))
                }
            } else {
                CorsActionView::Decorate(decorate_headers(c, origin, vary))
            }
        },
    }
}

impl Cors {
    /// Validates the lists of a CORS configuration: origins must be header
    /// values, methods and header names must be tokens.
    pub fn new(cfg: CorsConfig) -> (r: Result<Cors, ConfigError>)
        ensures
            match r {
                Ok(c) => {
                    &&& c.allow_origins@ == cfg.allow_origins@
                    &&& c.allow_methods@ == cfg.allow_methods@
                    &&& c.allow_headers@ == cfg.allow_headers@
                    &&& c.expose_headers@ == cfg.expose_headers@
                    &&& c.max_age == cfg.max_age
                    &&& c.allow_credentials == cfg.allow_credentials
                    &&& forall|k: int| 0 <= k < cfg.allow_origins@.len() ==> is_field_value(#[trigger] cfg.allow_origins@[k]@)
                    &&& forall|k: int| 0 <= k < cfg.allow_methods@.len() ==> is_token(#[trigger] cfg.allow_methods@[k]@)
                    &&& forall|k: int| 0 <= k < cfg.allow_headers@.len() ==> is_token(#[trigger] cfg.allow_headers@[k]@)
                    &&& forall|k: int| 0 <= k < cfg.expose_headers@.len() ==> is_token(#[trigger] cfg.expose_headers@[k]@)
                },
                Err(ConfigError::InvalidOrigin(o)) => exists|k: int|
                    0 <= k < cfg.allow_origins@.len() && #[trigger] cfg.allow_origins@[k] == o
                        && !is_field_value(o@),
                Err(ConfigError::InvalidMethod(m)) => exists|k: int|
                    0 <= k < cfg.allow_methods@.len() && #[trigger] cfg.allow_methods@[k] == m
                        && !is_token(m@),
                Err(ConfigError::InvalidHeaderName(h)) => !is_token(h@) && ((exists|k: int|
                    0 <= k < cfg.allow_headers@.len() && #[trigger] cfg.allow_headers@[k] == h)
                    || (exists|k: int|
                    0 <= k < cfg.expose_headers@.len() && #[trigger] cfg.expose_headers@[k] == h)),
                Err(_) => false,
            },
    {
        match first_non_field_value(&cfg.allow_origins) {
            Some(k) => { return Err(ConfigError::InvalidOrigin(cfg.allow_origins[k].clone())); },
            None => {},
        }
        match first_non_token(&cfg.allow_methods) {
            Some(k) => { return Err(ConfigError::InvalidMethod(cfg.allow_methods[k].clone())); },
            None => {},
        }
        match first_non_token(&cfg.allow_headers) {
            Some(k) => { return Err(ConfigError::InvalidHeaderName(cfg.allow_headers[k].clone())); },
            None => {},
        }
        match first_non_token(&cfg.expose_headers) {
            Some(k) => { return Err(ConfigError::InvalidHeaderName(cfg.expose_headers[k].clone())); },
            None => {},
        }
        Ok(Cors {
            allow_origins: cfg.allow_origins,
            allow_methods: cfg.allow_methods,
            allow_headers: cfg.allow_headers,
            expose_headers: cfg.expose_headers,
            max_age: cfg.max_age,
            allow_credentials: cfg.allow_credentials,
        })
    }

    /// Whether `origin` is allowed, and whether the answer varies by origin.
    pub fn is_valid_origin(&self, origin: &String) -> (r: (bool, bool))
        ensures
            r == origin_check(*self, origin@),
    {
        if contains_exact_exec(&self.allow_origins, origin) {
            (true, false)
        } else {
            (self.allow_origins.len() == 0, true)
        }
    }

    fn requested_headers_allowed(&self, s: &String) -> (r: bool)
        ensures
            r == some_part_allowed(self.allow_headers@, split_commas(s@)),
    {
        let parts = split_commas_exec(s.as_str());
        let ghost ps = split_commas(s@);
        assert(parts@.len() == ps.len());
        let mut k: usize = 0;
        while k < parts.len()
            invariant
                ps == split_commas(s@),
                parts@.map_values(|x: String| x@) == ps,
                k <= parts@.len(),
                forall|j: int| 0 <= j < k ==> !contains_ci(self.allow_headers@, trim(#[trigger] ps[j])),
            decreases parts@.len() - k,
        {
            let t = trim_ws(parts[k].as_str());
            assert(ps[k as int] == parts@[k as int]@);
            assert(t@ == trim(ps[k as int]));
            if contains_ci_exec(&self.allow_headers, t.as_str()) {
                assert(contains_ci(self.allow_headers@, trim(ps[k as int])));
                return true;
            }
            k = k + 1;
        }
        false
    }

    fn expose_into(&self, v: &mut Vec<(String, String)>)
        ensures
            pairs_view(final(v)@) == pairs_view(old(v)@) + expose_part(*self),
    {
        if self.expose_headers.len() > 0 {
            push_pair(v, "Access-Control-Expose-Headers", join_exec(&self.expose_headers, ", "));
        } else {
            assert(pairs_view(v@) =~= pairs_view(v@) + expose_part(*self));
        }
    }

    fn credentials_into(&self, v: &mut Vec<(String, String)>)
        ensures
            pairs_view(final(v)@) == pairs_view(old(v)@) + credentials_part(*self),
    {
        if self.allow_credentials {
            push_pair(v, "Access-Control-Allow-Credentials", String::from_str("true"));
        } else {
            assert(pairs_view(v@) =~= pairs_view(v@) + credentials_part(*self));
        }
    }

    /// The headers of the answer to an allowed preflight request.
    pub fn build_preflight_response(&self, origin: &String) -> (r: Vec<(String, String)>)
        ensures
            pairs_view(r@) == preflight_headers(*self, origin@),
    {
        let mut v: Vec<(String, String)> = Vec::new();
        push_pair(&mut v, "Access-Control-Allow-Origin", origin.clone());
        self.expose_into(&mut v);
        push_pair(&mut v, "Access-Control-Max-Age", i64_to_dec(self.max_age as i64));
        if self.allow_methods.len() == 0 {
            push_pair(&mut v, "Access-Control-Allow-Methods", String::from_str("GET, POST, PUT, DELETE, HEAD, OPTIONS, CONNECT, PATCH, TRACE"));
        } else {
            push_pair(&mut v, "Access-Control-Allow-Methods", join_exec(&self.allow_methods, ", "));
        }
        if self.allow_headers.len() == 0 {
            push_pair(&mut v, "Access-Control-Allow-Headers", String::from_str("*"));
        } else {
            push_pair(&mut v, "Access-Control-Allow-Headers", join_exec(&self.allow_headers, ", "));
        }
        self.credentials_into(&mut v);
        assert(pairs_view(v@) =~= preflight_headers(*self, origin@));
        v
    }

    /// Decides what to do with a request: pass it, reject it, answer its
    /// preflight, or forward it and decorate the response.
    pub fn call(&self, req: &RequestHead) -> (r: CorsAction)
        ensures
            action_view(r) == cors_action(*self, *req),
    {
        let origin = match get_header(&req.headers, "origin") {
            None => { return CorsAction::Pass; },
            Some(o) => o,
        };
        let (allowed, vary) = self.is_valid_origin(origin);
        if !allowed {
            return CorsAction::Reject;
        }
        if crate::text::str_eq_exact(req.method.as_str(), "OPTIONS") {
            let method_ok = match get_header(&req.headers, "access-control-request-method") {
                None => false,
                Some(m) => is_token_exec(m.as_str()) && (self.allow_methods.len() == 0
                    || contains_exact_exec(&self.allow_methods, m)),
            };
            if !method_ok {
                return CorsAction::Reject;
            }
            if self.allow_headers.len() > 0 {
                match get_header(&req.headers, "access-control-request-headers") {
                    Some(h) => {
                        if !self.requested_headers_allowed(h) {
                            return CorsAction::Reject;
                        }
                    },
                    None => {},
                }
            }
            return CorsAction::Preflight(self.build_preflight_response(origin));
        }
        let mut v: Vec<(String, String)> = Vec::new();
        push_pair(&mut v, "Access-Control-Allow-Origin", origin.clone());
        self.credentials_into(&mut v);
        self.expose_into(&mut v);
        if vary {
            push_pair(&mut v, "Vary", String::from_str("Origin"));
        }
        assert(pairs_view(v@) =~= decorate_headers(*self, origin@, vary));
        CorsAction::Decorate(v)
    }
}

} // verus!
