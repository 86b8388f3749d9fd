//! Header templates: `{{ name }}` is replaced by the context variable
//! `name`; everything else is copied.

use vstd::prelude::*;
use crate::auth::{find_last_param, last_param};
use crate::text::{pairs_view, trim, trim_ws};

verus! {

/// The first position `k >= from` where `}}` starts, or -1.
pub open spec fn close_index(t: Seq<char>, from: int) -> int
    decreases t.len() - from,
{
    if from < 0 || from + 1 >= t.len() {
        -1
    } else if t[from] == '}' && t[from + 1] == '}' {
        from
    } else {
        close_index(t, from + 1)
    }
}

proof fn lemma_close_index(t: Seq<char>, from: int)
    requires
        0 <= from,
    ensures
        close_index(t, from) == -1 || (from <= close_index(t, from) && close_index(t, from) + 1
            < t.len()),
    decreases t.len() - from,
{
    if from + 1 < t.len() && !(t[from] == '}' && t[from + 1] == '}') {
        lemma_close_index(t, from + 1);
    }
}

/// The rendered text, `None` when a `{{` is not closed or names a variable
/// that the context lacks.
pub open spec fn render(t: Seq<char>, vars: Seq<(Seq<char>, Seq<char>)>) -> Option<Seq<char>>
    decreases t.len(),
{
    if t.len() < 2 {
        Some(t)
    } else if t[0] == '{' && t[1] == '{' {
        let j = close_index(t, 2);
        if j < 2 || j + 2 > t.len() {
            None
        } else {
            match last_param(vars, trim(t.subrange(2, j))) {
                None => None,
                Some(v) => match render(t.subrange(j + 2, t.len() as int), vars) {
                    None => None,
                    Some(rest) => Some(v + rest),
                },
            }
        }
    } else {
        match render(t.drop_first(), vars) {
            None => None,
            Some(rest) => Some(seq![t[0]] + rest),
        }
    }
}

fn find_close(t: &str, from: usize) -> (r: Option<usize>)
    requires
        from <= t@.len(),
    ensures
        match r {
            Some(j) => j as int == close_index(t@, from as int),
            None => close_index(t@, from as int) == -1,
        },
{
    let n = t.unicode_len();
    let mut k = from;
    while k < n && k + 1 < n
        invariant
            n == t@.len(),
            from <= k <= n,
            close_index(t@, from as int) == close_index(t@, k as int),
        decreases n - k,
    {
        if t.get_char(k) == '}' && t.get_char(k + 1) == '}' {
            return Some(k);
        }
        k = k + 1;
    }
    None
}

/// Renders a template against the context variables.
pub fn render_template(t: &str, vars: &Vec<(String, String)>) -> (r: Option<String>)
    ensures
        match r {
            Some(s) => render(t@, pairs_view(vars@)) == Some(s@),
            None => render(t@, pairs_view(vars@)) is None,
        },
    decreases t@.len(),
{
    let n = t.unicode_len();
    if n < 2 {
        return Some(t.to_owned());
    }
    if t.get_char(0) == '{' && t.get_char(1) == '{' {
        proof {
            lemma_close_index(t@, 2);
        }
        let j = match find_close(t, 2) {
            None => { return None; },
            Some(j) => j,
        };
        let name = trim_ws(t.substring_char(2, j));
        let v = match find_last_param(vars, &name) {
            None => { return None; },
            Some(v) => v,
        };
        let rest = match render_template(t.substring_char(j + 2, n), vars) {
            None => { return None; },
            Some(rest) => rest,
        };
        let mut s = v.clone();
        s.append(rest.as_str());
        Some(s)
    } else {
        let rest = match render_template(t.substring_char(1, n), vars) {
            None => { return None; },
            Some(rest) => rest,
        };
        assert(t@.subrange(1, n as int) =~= t@.drop_first());
        let mut s = t.substring_char(0, 1).to_owned();
        assert(s@ =~= seq![t@[0]]);
        s.append(rest.as_str());
        Some(s)
    }
}

} // verus!
