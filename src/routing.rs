//! Request routing over a compiled tree: host first, then the longest
//! registered path prefix, with the prefix stripped when the route says so.

use vstd::prelude::*;
use crate::compile::{RouteEntry, RoutingTree};

verus! {

/// Prefix `p` covers path `q`: they are equal, or `q` goes on past `p` at a
/// segment boundary.
pub open spec fn prefix_matches(p: Seq<char>, q: Seq<char>) -> bool {
    &&& p.len() <= q.len()
    &&& q.subrange(0, p.len() as int) == p
    &&& (p.len() == q.len() || (p.len() > 0 && p.last() == '/') || q[p.len() as int] == '/')
}

/// The host group that serves `host`: its own if a route names it, else `*`.
pub open spec fn host_group(entries: Seq<RouteEntry>, host: Seq<char>) -> Seq<char> {
    if exists|i: int| 0 <= i < entries.len() && #[trigger] entries[i].host@ == host {
        host
    } else {
        "*"@
    }
}

/// Among the first `n` entries, the one of host group `g` with the longest
/// prefix covering `q`, the first of them on a tie; -1 if there is none.
pub open spec fn best_route(entries: Seq<RouteEntry>, n: int, g: Seq<char>, q: Seq<char>) -> int
    decreases n,
{
    if n <= 0 {
        -1
    } else {
        let b = best_route(entries, n - 1, g, q);
        let e = entries[n - 1];
        if e.host@ == g && prefix_matches(e.path@, q) && (b < 0 || e.path@.len()
            > entries[b].path@.len()) {
            n - 1
        } else {
            b
        }
    }
}

/// The path the route's endpoint sees: with `strip`, the prefix removed and a
/// leading `/` kept.
pub open spec fn forwarded_path(p: Seq<char>, strip: bool, q: Seq<char>) -> Seq<char> {
    if !strip {
        q
    } else {
        let rest = q.subrange(p.len() as int, q.len() as int);
        if rest.len() > 0 && rest[0] == '/' {
            rest
        } else {
            seq!['/'] + rest
        }
    }
}

/// The position of the last `:` before `n`, or -1.
pub open spec fn last_colon(v: Seq<char>, n: int) -> int
    decreases n,
{
    if n <= 0 {
        -1
    } else if v[n - 1] == ':' {
        n - 1
    } else {
        last_colon(v, n - 1)
    }
}

pub open spec fn all_digits(s: Seq<char>) -> bool {
    forall|i: int| 0 <= i < s.len() ==> '0' <= #[trigger] s[i] && s[i] <= '9'
}

/// The host of a `Host` header value: without a trailing `:port`; an IPv6
/// host keeps its brackets.
pub open spec fn host_part(v: Seq<char>) -> Seq<char> {
    let k = last_colon(v, v.len() as int);
    if k >= 0 && all_digits(v.subrange(k + 1, v.len() as int)) && (v[0] != '[' || (k > 0 && v[k - 1] == ']')) {
        v.subrange(0, k)
    } else {
        v
    }
}

proof fn lemma_last_colon(v: Seq<char>, n: int)
    requires
        0 <= n <= v.len(),
    ensures
        -1 <= last_colon(v, n) < n,
        last_colon(v, n) >= 0 ==> v[last_colon(v, n)] == ':',
    decreases n,
{
    if n > 0 && v[n - 1] != ':' {
        lemma_last_colon(v, n - 1);
    }
}

/// The host that routes a request, from its `Host` header value.
pub fn request_host(v: &str) -> (r: String)
    ensures
        r@ == host_part(v@),
{
    let n = v.unicode_len();
    let mut k: usize = n;
    while k > 0 && v.get_char(k - 1) != ':'
        invariant
            n == v@.len(),
            k <= n,
            last_colon(v@, n as int) == last_colon(v@, k as int),
        decreases k,
    {
        k = k - 1;
    }
    proof {
        lemma_last_colon(v@, n as int);
    }
    if k == 0 {
        return v.to_owned();
    }
    let c = k - 1;
    let mut digits = true;
    let mut i: usize = k;
    while i < n
        invariant
            n == v@.len(),
            k <= i <= n,
            digits == all_digits(v@.subrange(k as int, i as int)),
        decreases n - i,
    {
        let ch = v.get_char(i);
        if !('0' <= ch && ch <= '9') {
            digits = false;
        }
        proof {
            let s0 = v@.subrange(k as int, i as int);
            let s1 = v@.subrange(k as int, i + 1);
            assert(s1 =~= s0.push(ch));
            if all_digits(s0) && '0' <= ch && ch <= '9' {
                assert forall|j: int| 0 <= j < s1.len() implies '0' <= #[trigger] s1[j] && s1[j] <= '9' by {
                    if j < s0.len() {
                        assert(s1[j] == s0[j]);
                    }
                }
            }
            if !all_digits(s0) {
                let j = choose|j: int| 0 <= j < s0.len() && !('0' <= #[trigger] s0[j] && s0[j] <= '9');
                assert(s1[j] == s0[j]);
            }
            if !('0' <= ch && ch <= '9') {
                assert(s1[s0.len() as int] == ch);
            }
        }
        i = i + 1;
    }
    if digits && (v.get_char(0) != '[' || (c > 0 && v.get_char(c - 1) == ']')) {
        v.substring_char(0, c).to_owned()
    } else {
        v.to_owned()
    }
}

/// A matched route: its position in the tree and the path it is given.
pub struct RouteMatch {
    pub index: usize,
    pub path: String,
}

proof fn lemma_best_route_bounds(entries: Seq<RouteEntry>, n: int, g: Seq<char>, q: Seq<char>)
    requires
        0 <= n <= entries.len(),
    ensures
        -1 <= best_route(entries, n, g, q) < n,
        best_route(entries, n, g, q) >= 0 ==> entries[best_route(entries, n, g, q)].host@ == g
            && prefix_matches(entries[best_route(entries, n, g, q)].path@, q),
    decreases n,
{
    if n > 0 {
        lemma_best_route_bounds(entries, n - 1, g, q);
    }
}

fn prefix_matches_exec(p: &str, q: &str) -> (r: bool)
    ensures
        r == prefix_matches(p@, q@),
{
    let pl = p.unicode_len();
    let ql = q.unicode_len();
    if pl > ql {
        return false;
    }
    let mut i: usize = 0;
    while i < pl
        invariant
            pl == p@.len(),
            ql == q@.len(),
            pl <= ql,
            i <= pl,
            forall|k: int| 0 <= k < i ==> #[trigger] q@[k] == p@[k],
        decreases pl - i,
    {
        if p.get_char(i) != q.get_char(i) {
            assert(q@.subrange(0, pl as int)[i as int] != p@[i as int]);
            return false;
        }
        i = i + 1;
    }
    assert(q@.subrange(0, pl as int) =~= p@);
    pl == ql || (pl > 0 && p.get_char(pl - 1) == '/') || q.get_char(pl) == '/'
}

impl RoutingTree {
    /// Finds the route that serves a request for `host` and `path`, and the
    /// path its endpoint sees; `None` means 404 Not Found.
    pub fn find(&self, host: &String, path: &String) -> (r: Option<RouteMatch>)
        ensures
            ({
                let es = self.entries@;
                let g = host_group(es, host@);
                let b = best_route(es, es.len() as int, g, path@);
                match r {
                    None => b < 0,
                    Some(m) => m.index as int == b && m.path@ == forwarded_path(
                        es[b].path@,
                        es[b].strip,
                        path@,
                    ),
                }
            }),
    {
        let es = &self.entries;
        let mut found = false;
        let mut i: usize = 0;
        while i < es.len()
            invariant
                i <= es@.len(),
                found == exists|k: int| 0 <= k < i && #[trigger] es@[k].host@ == host@,
            decreases es@.len() - i,
        {
            if es[i].host.eq(host) {
                found = true;
            }
            i = i + 1;
        }
        let g = if found { host.clone() } else { String::from_str("*") };
        let mut best: Option<usize> = None;
        let mut j: usize = 0;
        while j < es.len()
            invariant
                j <= es@.len(),
                g@ == host_group(es@, host@),
                match best {
                    None => best_route(es@, j as int, g@, path@) < 0,
                    Some(b) => b as int == best_route(es@, j as int, g@, path@),
                },
            decreases es@.len() - j,
        {
            proof {
                lemma_best_route_bounds(es@, j as int, g@, path@);
            }
            let e = &es[j];
            if e.host.eq(&g) && prefix_matches_exec(e.path.as_str(), path.as_str()) {
                let longer = match best {
                    None => true,
                    Some(b) => e.path.as_str().unicode_len() > es[b].path.as_str().unicode_len(),
                };
                if longer {
                    best = Some(j);
                }
            }
            j = j + 1;
        }
        proof {
            lemma_best_route_bounds(es@, es@.len() as int, g@, path@);
        }
        match best {
            None => None,
            Some(b) => {
                let e = &es[b];
                let fwd = if !e.strip {
                    path.clone()
                } else {
                    let pl = e.path.as_str().unicode_len();
                    let ql = path.as_str().unicode_len();
                    let rest = path.as_str().substring_char(pl, ql);
                    if rest.unicode_len() > 0 && rest.get_char(0) == '/' {
                        rest.to_owned()
                    } else {
                        let mut s = String::from_str("/");
                        proof {
                            reveal_strlit("/");
                        }
                        s.append(rest);
                        s
                    }
                };
                Some(RouteMatch { index: b, path: fwd })
            },
        }
    }
}

} // verus!
