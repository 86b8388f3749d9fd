//! Upstream endpoint: node selection, forwarding headers and the WebSocket
//! handshake.

use vstd::prelude::*;
use crate::config::ConfigError;
use crate::request::{RequestHead, SocketAddr};
use crate::text::{dec, eq_ci, get_header, header_value, pairs_view, push_pair, str_eq_ci, u64_to_dec};

verus! {

#[derive(Clone, Copy, Debug, PartialEq, Eq, Structural)]
pub enum UpstreamScheme {
    Http,
    Https,
}

#[derive(Clone, Copy, Debug, PartialEq, Eq, Structural)]
pub enum LoadBalancerType {
    RoundRobin,
}

#[derive(Clone, Debug)]
pub struct UpstreamConfig {
    pub lb: LoadBalancerType,
    pub scheme: UpstreamScheme,
    pub nodes: Vec<String>,
    pub websocket: bool,
    /// When present, only the nodes that pass health checks are eligible.
    pub health: Option<HealthConfig>,
}

/// `s` parses as a URI authority (host, optional port and user info).
pub uninterp spec fn authority_parses(s: Seq<char>) -> bool;

/// Relies on http::uri::Authority's FromStr (reached through poem): whether
/// the text parses as an authority.
#[verifier::external_body]
fn is_authority(s: &str) -> (r: bool)
    ensures
        r == authority_parses(s@),
{
    s.parse::<poem::http::uri::Authority>().is_ok()
}

/// Checks the nodes of an upstream and copies them.
pub fn parse_nodes(nodes: &Vec<String>) -> (r: Result<Vec<String>, ConfigError>)
    ensures
        match r {
            Ok(v) => v@.map_values(|x: String| x@) == nodes@.map_values(|x: String| x@) && forall|k: int|
                0 <= k < nodes@.len() ==> authority_parses(#[trigger] nodes@[k]@),
            Err(e) => exists|k: int|
                0 <= k < nodes@.len() && !authority_parses(#[trigger] nodes@[k]@) && e
                    == ConfigError::InvalidNode(nodes@[k]),
        },
{
    let mut v: Vec<String> = Vec::new();
    let mut k: usize = 0;
    while k < nodes.len()
        invariant
            k <= nodes@.len(),
            v@.map_values(|x: String| x@) == nodes@.subrange(0, k as int).map_values(|x: String| x@),
            forall|j: int| 0 <= j < k ==> authority_parses(#[trigger] nodes@[j]@),
        decreases nodes@.len() - k,
    {
        if !is_authority(nodes[k].as_str()) {
            return Err(ConfigError::InvalidNode(nodes[k].clone()));
        }
        let ghost before = v@.map_values(|x: String| x@);
        let c = nodes[k].clone();
        assert(c@ == nodes@[k as int]@);
        v.push(c);
        assert(v@.map_values(|x: String| x@) =~= before.push(c@));
        assert(nodes@.subrange(0, k + 1).map_values(|x: String| x@) =~= nodes@.subrange(0, k as int).map_values(|x: String| x@).push(c@));
        k = k + 1;
        assert(v@.map_values(|x: String| x@) =~= nodes@.subrange(0, k as int).map_values(|x: String| x@));
    }
    assert(nodes@.subrange(0, nodes@.len() as int) =~= nodes@);
    Ok(v)
}

/// Picks one of the currently eligible nodes.
pub trait LoadBalancer {
    /// The position of the node to use among `n` eligible nodes.
    fn get(&mut self, n: usize) -> Option<usize>;
}

/// A fixed list of upstream nodes.
pub struct FixedNodes {
    pub nodes: Vec<String>,
}

impl FixedNodes {
    pub fn new(nodes: Vec<String>) -> (r: FixedNodes)
        ensures
            r.nodes == nodes,
    {
        FixedNodes { nodes }
    }

    /// Picks a node with the load balancer.
    pub fn get<'a>(&'a self, lb: &mut RoundRobin) -> (r: Option<&'a String>)
        ensures
            self.nodes@.len() == 0 ==> r is None,
            self.nodes@.len() > 0 ==> r == Some(&self.nodes@[(old(lb).i as int) % (self.nodes@.len() as int)]),
            self.nodes@.len() > 0 ==> final(lb).i == (old(lb).i as int) % (self.nodes@.len() as int) + 1,
    {
        match lb.get(self.nodes.len()) {
            Some(k) => Some(&self.nodes[k]),
            None => None,
        }
    }
}

/// Round-robin selection over the currently eligible nodes.
#[derive(Clone, Copy, Debug, Default)]
pub struct RoundRobin {
    pub i: usize,
}

impl RoundRobin {
    pub fn new() -> (r: RoundRobin)
        ensures
            r.i == 0,
    {
        RoundRobin { i: 0 }
    }

    /// Picks the next of `n` eligible nodes, `None` when there is none.
    pub fn get(&mut self, n: usize) -> (r: Option<usize>)
        ensures
            n == 0 ==> r is None && final(self).i == old(self).i,
            n > 0 ==> r == Some((old(self).i % n) as usize) && final(self).i == old(self).i % n + 1,
    {
        if n == 0 {
            return None;
        }
        let k = self.i % n;
        self.i = k + 1;
        Some(k)
    }
}

impl LoadBalancer for RoundRobin {
    fn get(&mut self, n: usize) -> Option<usize> {
        RoundRobin::get(self, n)
    }
}

/// `headers` without any header named `name` (up to ASCII case), then
/// `name: value`.
pub open spec fn set_header(headers: Seq<(Seq<char>, Seq<char>)>, name: Seq<char>, value: Seq<char>) -> Seq<(Seq<char>, Seq<char>)> {
    without_header(headers, name).push((name, value))
}

/// `headers` without any header named `name` (up to ASCII case).
pub open spec fn without_header(headers: Seq<(Seq<char>, Seq<char>)>, name: Seq<char>) -> Seq<(Seq<char>, Seq<char>)>
    decreases headers.len(),
{
    if headers.len() == 0 {
        headers
    } else if eq_ci(headers.last().0, name) {
        without_header(headers.drop_last(), name)
    } else {
        without_header(headers.drop_last(), name).push(headers.last())
    }
}

/// Replaces every header named `name` by `name: value`.
pub fn set_header_exec(headers: &Vec<(String, String)>, name: &str, value: String) -> (r: Vec<(String, String)>)
    ensures
        pairs_view(r@) == set_header(pairs_view(headers@), name@, value@),
{
    let mut out: Vec<(String, String)> = Vec::new();
    let mut k: usize = 0;
    while k < headers.len()
        invariant
            k <= headers@.len(),
            pairs_view(out@) == without_header(pairs_view(headers@.subrange(0, k as int)), name@),
        decreases headers@.len() - k,
    {
        let ghost before = pairs_view(headers@.subrange(0, k as int));
        let ghost p = (headers@[k as int].0@, headers@[k as int].1@);
        assert(pairs_view(headers@.subrange(0, k + 1)) =~= before.push(p));
        assert(before.push(p).drop_last() =~= before);
        if !str_eq_ci(headers[k].0.as_str(), name) {
            let ghost old_out = pairs_view(out@);
            let a = headers[k].0.clone();
            let b = headers[k].1.clone();
            out.push((a, b));
            assert(pairs_view(out@) =~= old_out.push(p));
        }
        k = k + 1;
    }
    assert(headers@.subrange(0, headers@.len() as int) =~= headers@);
    let ghost old_out = pairs_view(out@);
    out.push((String::from_str(name), value));
    assert(pairs_view(out@) =~= old_out.push((name@, value@)));
    out
}

/// The headers forwarded upstream: `X-Forwarded-For` gets the client's
/// address appended (or set), and `X-Real-IP` is set to it. Without a
/// client IP address the headers are unchanged.
pub open spec fn proxy_headers(headers: Seq<(String, String)>, remote: Option<SocketAddr>) -> Seq<(Seq<char>, Seq<char>)> {
    match remote {
        None => pairs_view(headers),
        Some(a) => {
            let xff = match header_value(headers, "x-forwarded-for"@) {
                Some(v) => v + ", "@ + a.text@,
                None => a.text@,
            };
            set_header(set_header(pairs_view(headers), "x-forwarded-for"@, xff), "x-real-ip"@, a.text@)
        },
    }
}

/// Adds the forwarding headers to a request's headers.
pub fn add_proxy_headers(headers: &Vec<(String, String)>, remote: &Option<SocketAddr>) -> (r: Vec<(String, String)>)
    ensures
        pairs_view(r@) == proxy_headers(headers@, *remote),
{
    match remote {
        None => {
            let mut out: Vec<(String, String)> = Vec::new();
            let mut k: usize = 0;
            while k < headers.len()
                invariant
                    k <= headers@.len(),
                    pairs_view(out@) == pairs_view(headers@.subrange(0, k as int)),
                decreases headers@.len() - k,
            {
                let ghost old_out = pairs_view(out@);
                let a = headers[k].0.clone();
                let b = headers[k].1.clone();
                out.push((a, b));
                assert(pairs_view(out@) =~= old_out.push((headers@[k as int].0@, headers@[k as int].1@)));
                assert(pairs_view(headers@.subrange(0, k + 1)) =~= pairs_view(headers@.subrange(0, k as int)).push((headers@[k as int].0@, headers@[k as int].1@)));
                k = k + 1;
            }
            assert(headers@.subrange(0, headers@.len() as int) =~= headers@);
            out
        },
        Some(a) => {
            let addr = a.text.clone();
            let xff = match get_header(headers, "x-forwarded-for") {
                Some(v) => {
                    let mut s = v.clone();
                    s.append(", ");
                    s.append(addr.as_str());
                    s
                },
                None => addr.clone(),
            };
            let step = set_header_exec(headers, "x-forwarded-for", xff);
            set_header_exec(&step, "x-real-ip", addr)
        },
    }
}

pub open spec fn scheme_text(scheme: UpstreamScheme, websocket: bool) -> Seq<char> {
    match (scheme, websocket) {
        (UpstreamScheme::Http, false) => "http"@,
        (UpstreamScheme::Https, false) => "https"@,
        (UpstreamScheme::Http, true) => "ws"@,
        (UpstreamScheme::Https, true) => "wss"@,
    }
}

/// The URI a request is forwarded to: the configured scheme, the selected
/// node, and the request's path and query.
pub open spec fn target_uri(scheme: UpstreamScheme, websocket: bool, authority: Seq<char>, path: Seq<char>, query: Option<Seq<char>>) -> Seq<char> {
    scheme_text(scheme, websocket) + "://"@ + authority + path + match query {
        Some(q) => "?"@ + q,
        None => Seq::empty(),
    }
}

pub fn create_uri(scheme: UpstreamScheme, websocket: bool, authority: &String, path: &String, query: &Option<String>) -> (r: String)
    ensures
        r@ == target_uri(scheme, websocket, authority@, path@, match query {
            Some(q) => Some(q@),
            None => None,
        }),
{
    let mut s = match (scheme, websocket) {
        (UpstreamScheme::Http, false) => String::from_str("http"),
        (UpstreamScheme::Https, false) => String::from_str("https"),
        (UpstreamScheme::Http, true) => String::from_str("ws"),
        (UpstreamScheme::Https, true) => String::from_str("wss"),
    };
    s.append("://");
    s.append(authority.as_str());
    s.append(path.as_str());
    match query {
        Some(q) => {
            s.append("?");
            s.append(q.as_str());
        },
        None => {
            assert(s@ =~= s@ + Seq::<char>::empty());
        },
    }
    s
}

/// The request asks for a WebSocket upgrade that the upstream accepts.
pub open spec fn is_websocket_upgrade(websocket: bool, req: RequestHead) -> bool {
    websocket && header_value(req.headers@, "connection"@) == Some("Upgrade"@) && header_value(
        req.headers@,
        "upgrade"@,
    ) == Some("websocket"@)
}

fn header_is(req: &RequestHead, name: &str, value: &str) -> (r: bool)
    ensures
        r == (header_value(req.headers@, name@) == Some(value@)),
{
    match get_header(&req.headers, name) {
        Some(v) => crate::text::str_eq_exact(v.as_str(), value),
        None => false,
    }
}

pub fn websocket_requested(websocket: bool, req: &RequestHead) -> (r: bool)
    ensures
        r == is_websocket_upgrade(websocket, *req),
{
    websocket && header_is(req, "connection", "Upgrade") && header_is(req, "upgrade", "websocket")
}

/// The GUID that RFC 6455 appends to the client's key.
pub open spec fn websocket_guid() -> Seq<char> {
    "258EAFA5-E914-47DA-95CA-C5AB0DC85B11"@
}

/// The SHA-1 digest of `data`.
pub uninterp spec fn sha1_digest(data: Seq<u8>) -> Seq<u8>;

/// The character of a 6-bit value in the standard Base64 alphabet.
pub open spec fn b64_char(n: int) -> char {
    "ABCDEFGHIJKLMNOPQRSTUVWXYZabcdefghijklmnopqrstuvwxyz0123456789+/"@[n]
}

/// The standard, padded Base64 text of `d`: each group of three bytes
/// becomes four characters, a last group of one or two bytes is padded
/// with `=`.
pub open spec fn base64_text(d: Seq<u8>) -> Seq<char>
    decreases d.len(),
{
    if d.len() == 0 {
        Seq::empty()
    } else if d.len() == 1 {
        seq![b64_char(d[0] as int / 4), b64_char((d[0] as int % 4) * 16), '=', '=']
    } else if d.len() == 2 {
        seq![
            b64_char(d[0] as int / 4),
            b64_char((d[0] as int % 4) * 16 + d[1] as int / 16),
            b64_char((d[1] as int % 16) * 4),
            '=',
        ]
    } else {
        seq![
            b64_char(d[0] as int / 4),
            b64_char((d[0] as int % 4) * 16 + d[1] as int / 16),
            b64_char((d[1] as int % 16) * 4 + d[2] as int / 64),
            b64_char(d[2] as int % 64),
        ] + base64_text(d.subrange(3, d.len() as int))
    }
}

/// Relies on sha1::Sha1 (sha1 0.6): the 20-byte digest of the data.
#[verifier::external_body]
fn sha1_of(data: &[u8]) -> (r: Vec<u8>)
    ensures
        r@ == sha1_digest(data@),
        r@.len() == 20,
{
    sha1::Sha1::from(data).digest().bytes().to_vec()
}

/// Relies on base64::encode: the standard alphabet, with padding.
#[verifier::external_body]
fn encode_base64(data: &Vec<u8>) -> (r: String)
    ensures
        r@ == base64_text(data@),
{
    base64::encode(data)
}

/// The `Sec-WebSocket-Accept` value for a client key: Base64 of the SHA-1
/// of the key followed by the GUID.
pub open spec fn accept_key(key: Seq<char>) -> Seq<char> {
    base64_text(sha1_digest(vstd::utf8::encode_utf8(key + websocket_guid())))
}

pub fn sign(key: &String) -> (r: String)
    ensures
        r@ == accept_key(key@),
{
    let mut s = key.clone();
    s.append("258EAFA5-E914-47DA-95CA-C5AB0DC85B11");
    let digest = sha1_of(s.as_str().as_bytes());
    encode_base64(&digest)
}

/// The answer to a WebSocket upgrade request.
pub enum Handshake {
    /// 400 Bad Request: not a GET, wrong version, or no key.
    BadRequest,
    /// Connect upstream, then answer 101 Switching Protocols with these
    /// headers.
    Switch(Vec<(String, String)>),
}

pub open spec fn handshake_headers(key: Seq<char>, protocol: Option<Seq<char>>) -> Seq<(Seq<char>, Seq<char>)> {
    seq![("connection"@, "upgrade"@), ("upgrade"@, "websocket"@), ("sec-websocket-accept"@, accept_key(key))]
        + match protocol {
        Some(p) => seq![("sec-websocket-protocol"@, p)],
        None => Seq::empty(),
    }
}

pub open spec fn handshake_spec(req: RequestHead) -> Option<Seq<(Seq<char>, Seq<char>)>> {
    if req.method@ != "GET"@ || header_value(req.headers@, "sec-websocket-version"@) != Some("13"@) {
        None
    } else {
        match header_value(req.headers@, "sec-websocket-key"@) {
            None => None,
            Some(key) => Some(handshake_headers(key, header_value(req.headers@, "sec-websocket-protocol"@))),
        }
    }
}

/// Checks a WebSocket upgrade request and computes the headers of its
/// answer.
pub fn proxy_websocket(req: &RequestHead) -> (r: Handshake)
    ensures
        match r {
            Handshake::BadRequest => handshake_spec(*req) is None,
            Handshake::Switch(h) => handshake_spec(*req) == Some(pairs_view(h@)),
        },
{
    if !crate::text::str_eq_exact(req.method.as_str(), "GET") || !header_is(req, "sec-websocket-version", "13") {
        return Handshake::BadRequest;
    }
    let key = match get_header(&req.headers, "sec-websocket-key") {
        None => { return Handshake::BadRequest; },
        Some(k) => k,
    };
    let mut v: Vec<(String, String)> = Vec::new();
    push_pair(&mut v, "connection", String::from_str("upgrade"));
    push_pair(&mut v, "upgrade", String::from_str("websocket"));
    push_pair(&mut v, "sec-websocket-accept", sign(key));
    match get_header(&req.headers, "sec-websocket-protocol") {
        Some(p) => { push_pair(&mut v, "sec-websocket-protocol", p.clone()); },
        None => {},
    }
    assert(pairs_view(v@) =~= handshake_headers(key@, header_value(req.headers@, "sec-websocket-protocol"@)));
    Handshake::Switch(v)
}

/// Health checking of upstream nodes.
#[derive(Clone, Debug)]
pub struct HealthConfig {
    pub path: String,
    pub interval: u64,
    pub status: Vec<u16>,
}

/// Seconds between probes when none is configured.
pub fn default_interval() -> (r: u64)
    ensures
        r == 30,
{
    30
}

/// The statuses of a healthy node when none is configured.
pub fn default_status() -> (r: Vec<u16>)
    ensures
        r@ == seq![200u16],
{
    let mut v: Vec<u16> = Vec::new();
    v.push(200);
    assert(v@ =~= seq![200u16]);
    v
}

/// The URI a health check probes on a node: the upstream's scheme, the
/// node, and the configured path.
pub open spec fn probe_target(scheme: UpstreamScheme, authority: Seq<char>, path: Seq<char>) -> Seq<char> {
    scheme_text(scheme, false) + "://"@ + authority + "/"@ + path
}

pub fn probe_uri(scheme: UpstreamScheme, authority: &String, path: &String) -> (r: String)
    ensures
        r@ == probe_target(scheme, authority@, path@),
{
    let mut s = match scheme {
        UpstreamScheme::Http => String::from_str("http"),
        UpstreamScheme::Https => String::from_str("https"),
    };
    s.append("://");
    s.append(authority.as_str());
    s.append("/");
    s.append(path.as_str());
    s
}

/// The nodes whose probe returned a healthy status, in order.
pub open spec fn alive(nodes: Seq<String>, probes: Seq<Option<u16>>, healthy: Seq<u16>) -> Seq<Seq<char>>
    decreases nodes.len(),
{
    if nodes.len() == 0 || probes.len() != nodes.len() {
        Seq::empty()
    } else {
        let rest = alive(nodes.drop_last(), probes.drop_last(), healthy);
        match probes.last() {
            Some(s) => if healthy.contains(s) { rest.push(nodes.last()@) } else { rest },
            None => rest,
        }
    }
}

/// Keeps the nodes whose probe (`None` when it failed) returned one of the
/// healthy statuses.
pub fn do_check(nodes: &Vec<String>, probes: &Vec<Option<u16>>, healthy: &Vec<u16>) -> (r: Vec<String>)
    requires
        nodes@.len() == probes@.len(),
    ensures
        r@.map_values(|x: String| x@) == alive(nodes@, probes@, healthy@),
{
    let mut out: Vec<String> = Vec::new();
    let mut k: usize = 0;
    while k < nodes.len()
        invariant
            nodes@.len() == probes@.len(),
            k <= nodes@.len(),
            out@.map_values(|x: String| x@) == alive(nodes@.subrange(0, k as int), probes@.subrange(0, k as int), healthy@),
        decreases nodes@.len() - k,
    {
        let ghost before = out@.map_values(|x: String| x@);
        assert(nodes@.subrange(0, k + 1).drop_last() =~= nodes@.subrange(0, k as int));
        assert(probes@.subrange(0, k + 1).drop_last() =~= probes@.subrange(0, k as int));
        match probes[k] {
            Some(s) => {
                let mut found = false;
                let mut j: usize = 0;
                while j < healthy.len()
                    invariant
                        j <= healthy@.len(),
                        found == exists|i: int| 0 <= i < j && #[trigger] healthy@[i] == s,
                    decreases healthy@.len() - j,
                {
                    if healthy[j] == s {
                        found = true;
                    }
                    j = j + 1;
                }
                if found {
                    let c = nodes[k].clone();
                    out.push(c);
                    assert(out@.map_values(|x: String| x@) =~= before.push(nodes@[k as int]@));
                }
            },
            None => {},
        }
        k = k + 1;
    }
    assert(nodes@.subrange(0, nodes@.len() as int) =~= nodes@);
    assert(probes@.subrange(0, probes@.len() as int) =~= probes@);
    out
}

} // verus!
