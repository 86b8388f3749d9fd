//! Authentication plugins: a consumer's credentials and the check of a
//! request against them.

use vstd::prelude::*;
use vstd::utf8::encode_utf8;
use crate::request::RequestHead;
use crate::text::{eq_ci, get_header, header_value, pairs_view, str_eq_ci};

verus! {

/// Where a key-auth key is read from.
#[derive(Clone, Copy, Debug, PartialEq, Eq, Structural)]
pub enum KeyIn {
    Header,
    Query,
}

#[derive(Clone, Debug)]
pub enum AuthPluginConfig {
    Basic { username: String, password: String },
    KeyAuth { key: String, key_name: String, key_in: KeyIn },
}

/// The query parameter that carries the key when none is configured.
pub fn default_key_name() -> (r: String)
    ensures
        r@ == "apikey"@,
{
    String::from_str("apikey")
}

/// What standard Base64 decoding makes of `s`, `None` where it is not
/// valid Base64.
pub uninterp spec fn base64_decoded(s: Seq<char>) -> Option<Seq<u8>>;

/// Relies on base64::decode (standard alphabet, padded): the decoded bytes,
/// or an error when the input is not valid Base64.
#[verifier::external_body]
pub(crate) fn decode_base64(s: &str) -> (r: Option<Vec<u8>>)
    ensures
        match r {
            Some(v) => base64_decoded(s@) == Some(v@),
            None => base64_decoded(s@) is None,
        },
{
    base64::decode(s).ok()
}

/// The name-value pairs that `application/x-www-form-urlencoded` decoding
/// makes of `q`, in order, `None` where `q` cannot be decoded.
pub uninterp spec fn urlencoded_pairs(q: Seq<char>) -> Option<Seq<(Seq<char>, Seq<char>)>>;

/// Relies on serde_urlencoded::from_str into a list of string pairs: the
/// decoded pairs in order, or an error.
#[verifier::external_body]
fn decode_query(q: &str) -> (r: Option<Vec<(String, String)>>)
    ensures
        match r {
            Some(v) => urlencoded_pairs(q@) == Some(pairs_view(v@)),
            None => urlencoded_pairs(q@) is None,
        },
{
    serde_urlencoded::from_str::<Vec<(String, String)>>(q).ok()
}

/// The credentials token of an `Authorization: Basic <token>` value.
pub open spec fn basic_token(v: Seq<char>) -> Option<Seq<char>> {
    if v.len() > 6 && eq_ci(v.subrange(0, 5), "Basic"@) && v[5] == ' ' {
        Some(v.subrange(6, v.len() as int))
    } else {
        None
    }
}

/// The request carries basic credentials `username:password`.
pub open spec fn basic_accepts(username: Seq<char>, password: Seq<char>, req: RequestHead) -> bool {
    match header_value(req.headers@, "authorization"@) {
        None => false,
        Some(v) => match basic_token(v) {
            None => false,
            Some(t) => match base64_decoded(t) {
                Some(d) => credentials_are(d, username, password),
                None => false,
            },
        },
    }
}

/// The value of the last query parameter named `name`.
pub open spec fn last_param(pairs: Seq<(Seq<char>, Seq<char>)>, name: Seq<char>) -> Option<Seq<char>>
    decreases pairs.len(),
{
    if pairs.len() == 0 {
        None
    } else if pairs.last().0 == name {
        Some(pairs.last().1)
    } else {
        last_param(pairs.drop_last(), name)
    }
}

/// The request carries the key `key` where the key-auth plugin reads it.
pub open spec fn key_accepts(key: Seq<char>, key_name: Seq<char>, key_in: KeyIn, req: RequestHead) -> bool {
    match key_in {
        KeyIn::Header => header_value(req.headers@, key_name) == Some(key),
        KeyIn::Query => {
            let q = match req.query {
                Some(q) => q@,
                None => Seq::empty(),
            };
            match urlencoded_pairs(q) {
                None => false,
                Some(pairs) => last_param(pairs, key_name) == Some(key),
            }
        },
    }
}

/// The authentication plugin accepts the request.
pub open spec fn auth_accepts(a: AuthPluginConfig, req: RequestHead) -> bool {
    match a {
        AuthPluginConfig::Basic { username, password } => basic_accepts(username@, password@, req),
        AuthPluginConfig::KeyAuth { key, key_name, key_in } => key_accepts(key@, key_name@, key_in, req),
    }
}

fn has_colon(s: &str) -> (r: bool)
    ensures
        r == s@.contains(':'),
{
    let n = s.unicode_len();
    let mut i: usize = 0;
    while i < n
        invariant
            n == s@.len(),
            i <= n,
            forall|k: int| 0 <= k < i ==> #[trigger] s@[k] != ':',
        decreases n - i,
    {
        if s.get_char(i) == ':' {
            return true;
        }
        i = i + 1;
    }
    false
}

fn bytes_eq(a: &Vec<u8>, b: &[u8]) -> (r: bool)
    ensures
        r == (a@ == b@),
{
    if a.len() != b.len() {
        return false;
    }
    let mut i: usize = 0;
    while i < a.len()
        invariant
            a@.len() == b@.len(),
            i <= a@.len(),
            forall|k: int| 0 <= k < i ==> #[trigger] a@[k] == b@[k],
        decreases a@.len() - i,
    {
        if a[i] != b[i] {
            return false;
        }
        i = i + 1;
    }
    assert(a@ =~= b@);
    true
}

/// Decoded basic credentials are exactly `username:password`, the user name
/// holding no colon.
pub open spec fn credentials_are(decoded: Seq<u8>, username: Seq<char>, password: Seq<char>) -> bool {
    !username.contains(':') && decoded == encode_utf8(username + seq![':'] + password)
}

/// Compares decoded basic credentials with `username` and `password`.
pub fn credentials_match(decoded: &Vec<u8>, username: &String, password: &String) -> (r: bool)
    ensures
        r == credentials_are(decoded@, username@, password@),
{
    if has_colon(username.as_str()) {
        return false;
    }
    let mut expected = username.clone();
    expected.append(":");
    proof {
        reveal_strlit(":");
    }
    expected.append(password.as_str());
    assert(expected@ =~= username@ + seq![':'] + password@);
    let bytes = expected.as_str().as_bytes();
    assert(bytes@ == encode_utf8(username@ + seq![':'] + password@));
    bytes_eq(decoded, bytes)
}

/// Checks HTTP basic credentials against `username` and `password`.
pub fn basic_auth(username: &String, password: &String, req: &RequestHead) -> (r: bool)
    ensures
        r == basic_accepts(username@, password@, *req),
{
    let v = match get_header(&req.headers, "authorization") {
        None => { return false; },
        Some(v) => v.as_str(),
    };
    let n = v.unicode_len();
    if !(n > 6 && str_eq_ci(v.substring_char(0, 5), "Basic") && v.get_char(5) == ' ') {
        return false;
    }
    let token = v.substring_char(6, n);
    match decode_base64(token) {
        None => false,
        Some(d) => credentials_match(&d, username, password),
    }
}

pub(crate) fn find_last_param<'a>(pairs: &'a Vec<(String, String)>, name: &String) -> (r: Option<&'a String>)
    ensures
        match r {
            Some(v) => last_param(pairs_view(pairs@), name@) == Some(v@),
            None => last_param(pairs_view(pairs@), name@) is None,
        },
{
    let mut k: usize = pairs.len();
    assert(pairs_view(pairs@).subrange(0, k as int) =~= pairs_view(pairs@));
    while k > 0
        invariant
            k <= pairs@.len(),
            last_param(pairs_view(pairs@), name@) == last_param(pairs_view(pairs@).subrange(0, k as int), name@),
        decreases k,
    {
        let ghost pre = pairs_view(pairs@).subrange(0, k as int);
        assert(pre.drop_last() =~= pairs_view(pairs@).subrange(0, k - 1));
        if pairs[k - 1].0.eq(name) {
            return Some(&pairs[k - 1].1);
        }
        k = k - 1;
    }
    None
}

/// The last decoded query parameter named `key_name` has the value `key`.
pub fn key_in_pairs(pairs: &Vec<(String, String)>, key_name: &String, key: &String) -> (r: bool)
    ensures
        r == (last_param(pairs_view(pairs@), key_name@) == Some(key@)),
{
    match find_last_param(pairs, key_name) {
        None => false,
        Some(v) => v.eq(key),
    }
}

/// Checks that the request carries `key` in the header or query parameter
/// named `key_name`.
pub fn key_auth(key: &String, key_name: &String, key_in: KeyIn, req: &RequestHead) -> (r: bool)
    ensures
        r == key_accepts(key@, key_name@, key_in, *req),
{
    match key_in {
        KeyIn::Header => match get_header(&req.headers, key_name.as_str()) {
            None => false,
            Some(v) => v.eq(key),
        },
        KeyIn::Query => {
            let empty = String::new();
            let q = match &req.query {
                Some(q) => q,
                None => &empty,
            };
            match decode_query(q.as_str()) {
                None => false,
                Some(pairs) => key_in_pairs(&pairs, key_name, key),
            }
        },
    }
}

/// Runs the authentication plugin on a request.
pub fn authenticate(a: &AuthPluginConfig, req: &RequestHead) -> (r: bool)
    ensures
        r == auth_accepts(*a, *req),
{
    match a {
        AuthPluginConfig::Basic { username, password } => basic_auth(username, password, req),
        AuthPluginConfig::KeyAuth { key, key_name, key_in } => key_auth(key, key_name, *key_in, req),
    }
}

} // verus!
