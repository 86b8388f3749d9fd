//! Text helpers of the request model: ASCII case-insensitive comparison,
//! whitespace trimming, comma-separated lists and header lookup.

use vstd::prelude::*;

verus! {

pub open spec fn is_upper(c: char) -> bool {
    'A' <= c && c <= 'Z'
}

/// `a` and `b` are the same character up to ASCII case.
pub open spec fn char_eq_ci(a: char, b: char) -> bool {
    a == b || (is_upper(a) && a as u32 + 32 == b as u32) || (is_upper(b) && b as u32 + 32
        == a as u32)
}

/// `a` and `b` are the same text up to ASCII case.
pub open spec fn eq_ci(a: Seq<char>, b: Seq<char>) -> bool {
    a.len() == b.len() && forall|i: int| 0 <= i < a.len() ==> char_eq_ci(#[trigger] a[i], b[i])
}

pub open spec fn is_ws(c: char) -> bool {
    c == ' ' || c == '\t'
}

pub open spec fn trim_start(s: Seq<char>) -> Seq<char>
    decreases s.len(),
{
    if s.len() > 0 && is_ws(s[0]) {
        trim_start(s.drop_first())
    } else {
        s
    }
}

pub open spec fn trim_end(s: Seq<char>) -> Seq<char>
    decreases s.len(),
{
    if s.len() > 0 && is_ws(s.last()) {
        trim_end(s.drop_last())
    } else {
        s
    }
}

/// `s` without leading and trailing spaces and tabs.
pub open spec fn trim(s: Seq<char>) -> Seq<char> {
    trim_end(trim_start(s))
}

/// The pieces of `s` between commas.
pub open spec fn split_commas(s: Seq<char>) -> Seq<Seq<char>>
    decreases s.len(),
{
    if s.len() == 0 {
        seq![Seq::empty()]
    } else {
        let init = split_commas(s.drop_last());
        if s.last() == ',' {
            init.push(Seq::empty())
        } else {
            init.update(init.len() - 1, init.last().push(s.last()))
        }
    }
}

proof fn lemma_split_nonempty(s: Seq<char>)
    ensures
        split_commas(s).len() >= 1,
    decreases s.len(),
{
    if s.len() > 0 {
        lemma_split_nonempty(s.drop_last());
    }
}

fn char_eq_ci_exec(a: char, b: char) -> (r: bool)
    ensures
        r == char_eq_ci(a, b),
{
    if a == b {
        true
    } else if 'A' <= a && a <= 'Z' {
        (a as u32) + 32 == b as u32
    } else if 'A' <= b && b <= 'Z' {
        (b as u32) + 32 == a as u32
    } else {
        false
    }
}

/// Compares two texts up to ASCII case.
pub fn str_eq_ci(a: &str, b: &str) -> (r: bool)
    ensures
        r == eq_ci(a@, b@),
{
    let n = a.unicode_len();
    if n != b.unicode_len() {
        return false;
    }
    let mut i: usize = 0;
    while i < n
        invariant
            n == a@.len() == b@.len(),
            i <= n,
            forall|k: int| 0 <= k < i ==> char_eq_ci(#[trigger] a@[k], b@[k]),
        decreases n - i,
    {
        if !char_eq_ci_exec(a.get_char(i), b.get_char(i)) {
            return false;
        }
        i = i + 1;
    }
    true
}

/// Compares two texts exactly.
pub fn str_eq_exact(a: &str, b: &str) -> (r: bool)
    ensures
        r == (a@ == b@),
{
    let n = a.unicode_len();
    if n != b.unicode_len() {
        return false;
    }
    let mut i: usize = 0;
    while i < n
        invariant
            n == a@.len() == b@.len(),
            i <= n,
            forall|k: int| 0 <= k < i ==> #[trigger] a@[k] == b@[k],
        decreases n - i,
    {
        if a.get_char(i) != b.get_char(i) {
            return false;
        }
        i = i + 1;
    }
    assert(a@ =~= b@);
    true
}

pub open spec fn starts_with(s: Seq<char>, p: Seq<char>) -> bool {
    p.len() <= s.len() && s.subrange(0, p.len() as int) == p
}

pub fn starts_with_exec(s: &str, p: &str) -> (r: bool)
    ensures
        r == starts_with(s@, p@),
{
    let pl = p.unicode_len();
    let sl = s.unicode_len();
    if pl > sl {
        return false;
    }
    let mut i: usize = 0;
    while i < pl
        invariant
            pl == p@.len(),
            sl == s@.len(),
            pl <= sl,
            i <= pl,
            forall|k: int| 0 <= k < i ==> #[trigger] s@[k] == p@[k],
        decreases pl - i,
    {
        if p.get_char(i) != s.get_char(i) {
            assert(s@.subrange(0, pl as int)[i as int] != p@[i as int]);
            return false;
        }
        i = i + 1;
    }
    assert(s@.subrange(0, pl as int) =~= p@);
    true
}

/// `p` occurs in `s`.
pub open spec fn contains_text(s: Seq<char>, p: Seq<char>) -> bool {
    exists|i: int| 0 <= i && i + p.len() <= s.len() && #[trigger] s.subrange(i, i + p.len()) == p
}

/// Whether `p` occurs in `s`.
pub fn contains_text_exec(s: &str, p: &str) -> (r: bool)
    ensures
        r == contains_text(s@, p@),
{
    let n = s.unicode_len();
    let m = p.unicode_len();
    if m > n {
        return false;
    }
    if m == 0 {
        assert(s@.subrange(0int, 0int + p@.len()) =~= p@);
        return true;
    }
    let mut i: usize = 0;
    while i <= n - m
        invariant
            n == s@.len(),
            m == p@.len(),
            0 < m <= n,
            i <= n - m + 1,
            forall|j: int| 0 <= j < i ==> #[trigger] s@.subrange(j, j + m) != p@,
        decreases n - m + 1 - i,
    {
        let rest = s.substring_char(i, n);
        if starts_with_exec(rest, p) {
            assert(rest@.subrange(0, m as int) =~= s@.subrange(i as int, i + m));
            return true;
        }
        assert(rest@.subrange(0, m as int) =~= s@.subrange(i as int, i + m));
        i = i + 1;
    }
    false
}

/// The value of a text of decimal digits; `None` if it is empty or holds
/// anything else.
pub open spec fn digits_value(s: Seq<char>) -> Option<nat>
    decreases s.len(),
{
    if s.len() == 0 || !('0' <= s.last() && s.last() <= '9') {
        None
    } else if s.len() == 1 {
        Some((s.last() as u32 - '0' as u32) as nat)
    } else {
        match digits_value(s.drop_last()) {
            None => None,
            Some(v) => Some(v * 10 + (s.last() as u32 - '0' as u32) as nat),
        }
    }
}

/// Reads a decimal number that fits in 64 bits.
pub fn parse_u64(s: &str) -> (r: Option<u64>)
    ensures
        match r {
            Some(n) => digits_value(s@) == Some(n as nat),
            None => digits_value(s@) is None || digits_value(s@)->0 > u64::MAX,
        },
{
    let len = s.unicode_len();
    if len == 0 {
        return None;
    }
    let mut v: u64 = 0;
    let mut i: usize = 0;
    while i < len
        invariant
            len == s@.len(),
            0 < len,
            i <= len,
            i > 0 ==> digits_value(s@.subrange(0, i as int)) == Some(v as nat),
            i == 0 ==> v == 0,
        decreases len - i,
    {
        let c = s.get_char(i);
        let ghost pre = s@.subrange(0, i as int + 1);
        assert(pre.drop_last() =~= s@.subrange(0, i as int));
        assert(pre.last() == c);
        if !('0' <= c && c <= '9') {
            proof { lemma_digits_prefix_none(s@, i as int + 1); }
            return None;
        }
        let d = (c as u32 - '0' as u32) as u64;
        if v > (u64::MAX - d) / 10 {
            proof { lemma_digits_prefix_big(s@, i as int + 1); }
            return None;
        }
        v = v * 10 + d;
        i = i + 1;
    }
    assert(s@.subrange(0, len as int) =~= s@);
    Some(v)
}

/// A prefix without a value leaves the whole text without a value.
proof fn lemma_digits_prefix_none(s: Seq<char>, n: int)
    requires
        0 < n <= s.len(),
        digits_value(s.subrange(0, n)) is None,
    ensures
        digits_value(s) is None,
    decreases s.len() - n,
{
    if n < s.len() {
        let t = s.subrange(0, n + 1);
        assert(t.drop_last() =~= s.subrange(0, n));
        lemma_digits_prefix_none(s, n + 1);
    } else {
        assert(s.subrange(0, n) =~= s);
    }
}

/// A prefix above the 64-bit range leaves the whole text above it.
proof fn lemma_digits_prefix_big(s: Seq<char>, n: int)
    requires
        0 < n <= s.len(),
        digits_value(s.subrange(0, n)) is None || digits_value(s.subrange(0, n))->0 > u64::MAX,
    ensures
        digits_value(s) is None || digits_value(s)->0 > u64::MAX,
    decreases s.len() - n,
{
    if n < s.len() {
        let t = s.subrange(0, n + 1);
        assert(t.drop_last() =~= s.subrange(0, n));
        lemma_digits_prefix_big(s, n + 1);
    } else {
        assert(s.subrange(0, n) =~= s);
    }
}

/// Removes leading and trailing spaces and tabs.
pub fn trim_ws(s: &str) -> (r: String)
    ensures
        r@ == trim(s@),
{
    let n = s.unicode_len();
    let mut a: usize = 0;
    assert(s@.subrange(0, n as int) =~= s@);
    while a < n && (s.get_char(a) == ' ' || s.get_char(a) == '\t')
        invariant
            n == s@.len(),
            a <= n,
            trim_start(s@) == trim_start(s@.subrange(a as int, n as int)),
        decreases n - a,
    {
        proof {
            let t = s@.subrange(a as int, n as int);
            assert(t.drop_first() =~= s@.subrange(a + 1, n as int));
        }
        a = a + 1;
    }
    let mut b: usize = n;
    while b > a && (s.get_char(b - 1) == ' ' || s.get_char(b - 1) == '\t')
        invariant
            n == s@.len(),
            a <= b <= n,
            trim_start(s@) == s@.subrange(a as int, n as int) ==> trim(s@) == trim_end(
                s@.subrange(a as int, b as int),
            ),
        decreases b,
    {
        proof {
            let t = s@.subrange(a as int, b as int);
            assert(t.drop_last() =~= s@.subrange(a as int, b - 1));
        }
        b = b - 1;
    }
    proof {
        let t = s@.subrange(a as int, n as int);
        if a < n {
            assert(!is_ws(t[0]));
        }
        assert(trim_start(t) == t);
        let u = s@.subrange(a as int, b as int);
        if b > a {
            assert(!is_ws(u.last()));
        }
        assert(trim_end(u) == u);
    }
    s.substring_char(a, b).to_owned()
}

/// Splits `s` at every comma.
pub fn split_commas_exec(s: &str) -> (r: Vec<String>)
    ensures
        r@.map_values(|x: String| x@) == split_commas(s@),
{
    let n = s.unicode_len();
    let mut parts: Vec<String> = Vec::new();
    let mut start: usize = 0;
    let mut i: usize = 0;
    proof {
        assert(s@.subrange(0, 0) =~= Seq::<char>::empty());
        assert(parts@.map_values(|x: String| x@).push(s@.subrange(0, 0)) =~= seq![Seq::<char>::empty()]);
    }
    while i < n
        invariant
            n == s@.len(),
            start <= i <= n,
            split_commas(s@.subrange(0, i as int)) == parts@.map_values(|x: String| x@).push(
                s@.subrange(start as int, i as int),
            ),
        decreases n - i,
    {
        let ghost prefix = s@.subrange(0, i as int + 1);
        let ghost old_views = parts@.map_values(|x: String| x@);
        let ghost seg = s@.subrange(start as int, i as int);
        proof {
            assert(prefix.drop_last() =~= s@.subrange(0, i as int));
            assert(prefix.last() == s@[i as int]);
        }
        if s.get_char(i) == ',' {
            let part = s.substring_char(start, i).to_owned();
            parts.push(part);
            start = i + 1;
            proof {
                assert(parts@.map_values(|x: String| x@) =~= old_views.push(seg));
                assert(s@.subrange(start as int, i + 1) =~= Seq::<char>::empty());
            }
        } else {
            proof {
                let init = old_views.push(seg);
                assert(init.update(init.len() - 1, init.last().push(s@[i as int])) =~= old_views.push(
                    seg.push(s@[i as int]),
                ));
                assert(seg.push(s@[i as int]) =~= s@.subrange(start as int, i + 1));
            }
        }
        i = i + 1;
    }
    let ghost old_views = parts@.map_values(|x: String| x@);
    let last = s.substring_char(start, n).to_owned();
    parts.push(last);
    proof {
        assert(s@.subrange(0, n as int) =~= s@);
        assert(parts@.map_values(|x: String| x@) =~= old_views.push(s@.subrange(start as int, n as int)));
    }
    parts
}

/// `names` holds `x` up to ASCII case.
pub open spec fn contains_ci(names: Seq<String>, x: Seq<char>) -> bool {
    exists|k: int| 0 <= k < names.len() && eq_ci(#[trigger] names[k]@, x)
}

pub fn contains_ci_exec(names: &Vec<String>, x: &str) -> (r: bool)
    ensures
        r == contains_ci(names@, x@),
{
    let mut k: usize = 0;
    while k < names.len()
        invariant
            k <= names@.len(),
            forall|j: int| 0 <= j < k ==> !eq_ci(#[trigger] names@[j]@, x@),
        decreases names@.len() - k,
    {
        if str_eq_ci(names[k].as_str(), x) {
            return true;
        }
        k = k + 1;
    }
    false
}

/// `names` holds exactly `x`.
pub open spec fn contains_exact(names: Seq<String>, x: Seq<char>) -> bool {
    exists|k: int| 0 <= k < names.len() && #[trigger] names[k]@ == x
}

pub fn contains_exact_exec(names: &Vec<String>, x: &String) -> (r: bool)
    ensures
        r == contains_exact(names@, x@),
{
    let mut k: usize = 0;
    while k < names.len()
        invariant
            k <= names@.len(),
            forall|j: int| 0 <= j < k ==> #[trigger] names@[j]@ != x@,
        decreases names@.len() - k,
    {
        if names[k].eq(x) {
            return true;
        }
        k = k + 1;
    }
    false
}

/// The position of the first header named `name` (up to ASCII case), or -1.
pub open spec fn header_index(headers: Seq<(String, String)>, name: Seq<char>) -> int
    decreases headers.len(),
{
    if headers.len() == 0 {
        -1
    } else if eq_ci(headers[0].0@, name) {
        0
    } else {
        let k = header_index(headers.drop_first(), name);
        if k < 0 { -1 } else { k + 1 }
    }
}

/// The value of the first header named `name`.
pub open spec fn header_value(headers: Seq<(String, String)>, name: Seq<char>) -> Option<Seq<char>> {
    let k = header_index(headers, name);
    if 0 <= k < headers.len() { Some(headers[k].1@) } else { None }
}

pub proof fn lemma_header_index(headers: Seq<(String, String)>, name: Seq<char>)
    ensures
        -1 <= header_index(headers, name) < headers.len(),
        header_index(headers, name) >= 0 ==> eq_ci(headers[header_index(headers, name)].0@, name),
        forall|j: int|
            0 <= j < headers.len() && (header_index(headers, name) < 0 || j < header_index(
                headers,
                name,
            )) ==> !eq_ci(#[trigger] headers[j].0@, name),
    decreases headers.len(),
{
    if headers.len() > 0 && !eq_ci(headers[0].0@, name) {
        let t = headers.drop_first();
        lemma_header_index(t, name);
        assert forall|j: int|
            0 <= j < headers.len() && (header_index(headers, name) < 0 || j < header_index(
                headers,
                name,
            )) implies !eq_ci(#[trigger] headers[j].0@, name) by {
            if j > 0 {
                assert(headers[j] == t[j - 1]);
            }
        }
    }
}

/// Looks up the first header named `name`, up to ASCII case.
pub fn get_header<'a>(headers: &'a Vec<(String, String)>, name: &str) -> (r: Option<&'a String>)
    ensures
        match r {
            Some(v) => header_value(headers@, name@) == Some(v@),
            None => header_value(headers@, name@) is None,
        },
{
    proof {
        lemma_header_index(headers@, name@);
    }
    let mut k: usize = 0;
    while k < headers.len()
        invariant
            k <= headers@.len(),
            forall|j: int| 0 <= j < k ==> !eq_ci(#[trigger] headers@[j].0@, name@),
            -1 <= header_index(headers@, name@) < headers@.len(),
            header_index(headers@, name@) >= 0 ==> eq_ci(headers@[header_index(headers@, name@)].0@, name@),
            forall|j: int|
                0 <= j < headers@.len() && (header_index(headers@, name@) < 0 || j < header_index(
                    headers@,
                    name@,
                )) ==> !eq_ci(#[trigger] headers@[j].0@, name@),
        decreases headers@.len() - k,
    {
        if str_eq_ci(headers[k].0.as_str(), name) {
            return Some(&headers[k].1);
        }
        k = k + 1;
    }
    None
}

/// The items of `items` separated by `sep`.
pub open spec fn join(items: Seq<Seq<char>>, sep: Seq<char>) -> Seq<char>
    decreases items.len(),
{
    if items.len() == 0 {
        Seq::empty()
    } else if items.len() == 1 {
        items[0]
    } else {
        join(items.drop_last(), sep) + sep + items.last()
    }
}

pub fn join_exec(items: &Vec<String>, sep: &str) -> (r: String)
    ensures
        r@ == join(items@.map_values(|x: String| x@), sep@),
{
    let mut r = String::new();
    let mut k: usize = 0;
    while k < items.len()
        invariant
            k <= items@.len(),
            r@ == join(items@.subrange(0, k as int).map_values(|x: String| x@), sep@),
        decreases items@.len() - k,
    {
        let ghost before = items@.subrange(0, k as int).map_values(|x: String| x@);
        let ghost after = items@.subrange(0, k + 1).map_values(|x: String| x@);
        assert(after.drop_last() =~= before);
        assert(after.last() == items@[k as int]@);
        if k > 0 {
            r.append(sep);
        } else {
            assert(r@ =~= Seq::<char>::empty());
        }
        r.append(items[k].as_str());
        k = k + 1;
    }
    assert(items@.subrange(0, items@.len() as int) =~= items@);
    r
}

/// The decimal digits of `n`.
pub open spec fn dec(n: nat) -> Seq<char>
    decreases n,
{
    if n < 10 {
        seq!["0123456789"@[n as int]]
    } else {
        dec(n / 10).push("0123456789"@[(n % 10) as int])
    }
}

/// The decimal text of `n`, with a minus sign when negative.
pub open spec fn dec_int(n: int) -> Seq<char> {
    if n < 0 { seq!['-'] + dec((-n) as nat) } else { dec(n as nat) }
}

fn digit_str(d: u64) -> (r: &'static str)
    requires
        d < 10,
    ensures
        r@ == seq!["0123456789"@[d as int]],
{
    proof {
        reveal_strlit("0123456789");
    }
    match d {
        0 => { proof { reveal_strlit("0"); } "0" },
        1 => { proof { reveal_strlit("1"); } "1" },
        2 => { proof { reveal_strlit("2"); } "2" },
        3 => { proof { reveal_strlit("3"); } "3" },
        4 => { proof { reveal_strlit("4"); } "4" },
        5 => { proof { reveal_strlit("5"); } "5" },
        6 => { proof { reveal_strlit("6"); } "6" },
        7 => { proof { reveal_strlit("7"); } "7" },
        8 => { proof { reveal_strlit("8"); } "8" },
        _ => { proof { reveal_strlit("9"); } "9" },
    }
}

/// Writes `n` in decimal.
pub fn u64_to_dec(n: u64) -> (r: String)
    ensures
        r@ == dec(n as nat),
    decreases n,
{
    if n < 10 {
        String::from_str(digit_str(n))
    } else {
        let mut r = u64_to_dec(n / 10);
        r.append(digit_str(n % 10));
        r
    }
}

/// Writes `n` in decimal, with a minus sign when negative.
pub fn i64_to_dec(n: i64) -> (r: String)
    ensures
        r@ == dec_int(n as int),
{
    if n < 0 {
        let m: u64 = if n == i64::MIN { 9223372036854775808u64 } else { (-n) as u64 };
        let mut r = String::from_str("-");
        proof { reveal_strlit("-"); }
        r.append(u64_to_dec(m).as_str());
        r
    } else {
        u64_to_dec(n as u64)
    }
}

/// A character allowed in an HTTP token (a method or a header name).
pub open spec fn is_tchar(c: char) -> bool {
    ('a' <= c && c <= 'z') || ('A' <= c && c <= 'Z') || ('0' <= c && c <= '9') || c == '!' || c
        == '#' || c == '$' || c == '%' || c == '&' || c == '\'' || c == '*' || c == '+' || c == '-'
        || c == '.' || c == '^' || c == '_' || c == '`' || c == '|' || c == '~'
}

/// `s` is an HTTP token: a method or a header name.
pub open spec fn is_token(s: Seq<char>) -> bool {
    s.len() > 0 && forall|i: int| 0 <= i < s.len() ==> is_tchar(#[trigger] s[i])
}

/// `s` may stand as an HTTP header value.
pub open spec fn is_field_value(s: Seq<char>) -> bool {
    forall|i: int| 0 <= i < s.len() ==> (' ' <= #[trigger] s[i] && s[i] <= '~') || s[i] == '\t'
}

fn is_tchar_exec(c: char) -> (r: bool)
    ensures
        r == is_tchar(c),
{
    ('a' <= c && c <= 'z') || ('A' <= c && c <= 'Z') || ('0' <= c && c <= '9') || c == '!' || c
        == '#' || c == '$' || c == '%' || c == '&' || c == '\'' || c == '*' || c == '+' || c == '-'
        || c == '.' || c == '^' || c == '_' || c == '`' || c == '|' || c == '~'
}

pub fn is_token_exec(s: &str) -> (r: bool)
    ensures
        r == is_token(s@),
{
    let n = s.unicode_len();
    if n == 0 {
        return false;
    }
    let mut i: usize = 0;
    while i < n
        invariant
            n == s@.len(),
            i <= n,
            forall|k: int| 0 <= k < i ==> is_tchar(#[trigger] s@[k]),
        decreases n - i,
    {
        if !is_tchar_exec(s.get_char(i)) {
            return false;
        }
        i = i + 1;
    }
    true
}

pub fn is_field_value_exec(s: &str) -> (r: bool)
    ensures
        r == is_field_value(s@),
{
    let n = s.unicode_len();
    let mut i: usize = 0;
    while i < n
        invariant
            n == s@.len(),
            i <= n,
            forall|k: int| 0 <= k < i ==> (' ' <= #[trigger] s@[k] && s@[k] <= '~') || s@[k] == '\t',
        decreases n - i,
    {
        let c = s.get_char(i);
        if !((' ' <= c && c <= '~') || c == '\t') {
            return false;
        }
        i = i + 1;
    }
    true
}

/// The position of the first item of `items` that is not a token, if any.
pub fn first_non_token(items: &Vec<String>) -> (r: Option<usize>)
    ensures
        match r {
            Some(k) => k < items@.len() && !is_token(items@[k as int]@) && forall|j: int|
                0 <= j < k ==> is_token(#[trigger] items@[j]@),
            None => forall|j: int| 0 <= j < items@.len() ==> is_token(#[trigger] items@[j]@),
        },
{
    let mut k: usize = 0;
    while k < items.len()
        invariant
            k <= items@.len(),
            forall|j: int| 0 <= j < k ==> is_token(#[trigger] items@[j]@),
        decreases items@.len() - k,
    {
        if !is_token_exec(items[k].as_str()) {
            return Some(k);
        }
        k = k + 1;
    }
    None
}

/// The position of the first item of `items` that cannot be a header value.
pub fn first_non_field_value(items: &Vec<String>) -> (r: Option<usize>)
    ensures
        match r {
            Some(k) => k < items@.len() && !is_field_value(items@[k as int]@) && forall|j: int|
                0 <= j < k ==> is_field_value(#[trigger] items@[j]@),
            None => forall|j: int| 0 <= j < items@.len() ==> is_field_value(#[trigger] items@[j]@),
        },
{
    let mut k: usize = 0;
    while k < items.len()
        invariant
            k <= items@.len(),
            forall|j: int| 0 <= j < k ==> is_field_value(#[trigger] items@[j]@),
        decreases items@.len() - k,
    {
        if !is_field_value_exec(items[k].as_str()) {
            return Some(k);
        }
        k = k + 1;
    }
    None
}

/// Header pairs as values.
pub open spec fn pairs_view(v: Seq<(String, String)>) -> Seq<(Seq<char>, Seq<char>)> {
    v.map_values(|p: (String, String)| (p.0@, p.1@))
}

/// Appends a header pair.
pub fn push_pair(v: &mut Vec<(String, String)>, name: &str, value: String)
    ensures
        pairs_view(final(v)@) == pairs_view(old(v)@).push((name@, value@)),
{
    v.push((String::from_str(name), value));
    assert(pairs_view(v@) =~= pairs_view(old(v)@).push((name@, value@)));
}

} // verus!
