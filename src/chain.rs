//! Plugin chain layout: where each compiled plugin comes from, and the
//! stable ordering by descending priority that the chain executor walks.

use vstd::prelude::*;

verus! {

/// Which configuration list a compiled plugin was declared in.
#[derive(Clone, Copy, Debug, PartialEq, Eq, Structural)]
pub enum PluginScope {
    Service,
    Route,
    Consumer,
    Global,
}

/// A compiled plugin: its origin (list and position there) and its priority.
#[derive(Clone, Copy, Debug, PartialEq, Eq, Structural)]
pub struct PluginRef {
    pub scope: PluginScope,
    pub index: usize,
    pub priority: i32,
}

/// Inserts `x` after every element whose priority is at least its own.
pub open spec fn insert_by_priority(s: Seq<PluginRef>, x: PluginRef) -> Seq<PluginRef>
    decreases s.len(),
{
    if s.len() == 0 {
        seq![x]
    } else if s.last().priority >= x.priority {
        s.push(x)
    } else {
        insert_by_priority(s.drop_last(), x).push(s.last())
    }
}

/// The stable sort of `s` by descending priority.
pub open spec fn sort_by_priority(s: Seq<PluginRef>) -> Seq<PluginRef>
    decreases s.len(),
{
    if s.len() == 0 {
        s
    } else {
        insert_by_priority(sort_by_priority(s.drop_last()), s.last())
    }
}

/// Priorities never increase along `s`.
pub open spec fn priority_descending(s: Seq<PluginRef>) -> bool {
    forall|i: int, j: int| 0 <= i < j < s.len() ==> s[i].priority >= s[j].priority
}

/// The elements of `s` with priority `p`, in their order in `s`.
pub open spec fn with_priority(s: Seq<PluginRef>, p: i32) -> Seq<PluginRef>
    decreases s.len(),
{
    if s.len() == 0 {
        s
    } else if s.last().priority == p {
        with_priority(s.drop_last(), p).push(s.last())
    } else {
        with_priority(s.drop_last(), p)
    }
}

proof fn lemma_insert_len(s: Seq<PluginRef>, x: PluginRef)
    ensures
        insert_by_priority(s, x).len() == s.len() + 1,
    decreases s.len(),
{
    if s.len() > 0 && s.last().priority < x.priority {
        lemma_insert_len(s.drop_last(), x);
    }
}

proof fn lemma_sort_len(s: Seq<PluginRef>)
    ensures
        sort_by_priority(s).len() == s.len(),
    decreases s.len(),
{
    if s.len() > 0 {
        lemma_sort_len(s.drop_last());
        lemma_insert_len(sort_by_priority(s.drop_last()), s.last());
    }
}

proof fn lemma_insert_members(s: Seq<PluginRef>, x: PluginRef)
    ensures
        forall|i: int|
            0 <= i < insert_by_priority(s, x).len() ==> #[trigger] insert_by_priority(s, x)[i] == x
                || s.contains(insert_by_priority(s, x)[i]),
    decreases s.len(),
{
    lemma_insert_len(s, x);
    if s.len() > 0 && s.last().priority < x.priority {
        let t = s.drop_last();
        lemma_insert_members(t, x);
        lemma_insert_len(t, x);
        let r = insert_by_priority(t, x);
        assert forall|i: int| 0 <= i < r.len() && r[i] != x implies s.contains(r[i]) by {
            let k = choose|k: int| 0 <= k < t.len() && t[k] == r[i];
            assert(s[k] == r[i]);
        }
        assert(s[s.len() - 1] == s.last());
    }
}

proof fn lemma_insert_sorted(s: Seq<PluginRef>, x: PluginRef)
    requires
        priority_descending(s),
    ensures
        priority_descending(insert_by_priority(s, x)),
    decreases s.len(),
{
    lemma_insert_len(s, x);
    if s.len() > 0 && s.last().priority < x.priority {
        let t = s.drop_last();
        lemma_insert_sorted(t, x);
        lemma_insert_members(t, x);
        lemma_insert_len(t, x);
        let r = insert_by_priority(t, x);
        assert forall|i: int| 0 <= i < r.len() implies #[trigger] r[i].priority >= s.last().priority by {
            if r[i] != x {
                let k = choose|k: int| 0 <= k < t.len() && t[k] == r[i];
                assert(s[k] == r[i]);
                assert(s[s.len() - 1] == s.last());
            }
        }
    }
}

proof fn lemma_sort_sorted(s: Seq<PluginRef>)
    ensures
        priority_descending(sort_by_priority(s)),
    decreases s.len(),
{
    if s.len() > 0 {
        lemma_sort_sorted(s.drop_last());
        lemma_insert_sorted(sort_by_priority(s.drop_last()), s.last());
    }
}

proof fn lemma_insert_with_priority(s: Seq<PluginRef>, x: PluginRef, p: i32)
    requires
        priority_descending(s),
    ensures
        with_priority(insert_by_priority(s, x), p) == if x.priority == p {
            with_priority(s, p).push(x)
        } else {
            with_priority(s, p)
        },
    decreases s.len(),
{
    if s.len() == 0 {
        assert(seq![x].drop_last() =~= s);
    } else if s.last().priority >= x.priority {
        assert(s.push(x).drop_last() =~= s);
    } else {
        let t = s.drop_last();
        assert(priority_descending(t));
        lemma_insert_with_priority(t, x, p);
        let r = insert_by_priority(t, x);
        assert(r.push(s.last()).drop_last() =~= r);
        if x.priority == p {
            // s.last() has a smaller priority than x, so it is not kept
        }
    }
}

/// The elements of `s` with priority `p` keep their relative order in the
/// sorted sequence.
proof fn lemma_sort_with_priority(s: Seq<PluginRef>, p: i32)
    ensures
        with_priority(sort_by_priority(s), p) == with_priority(s, p),
    decreases s.len(),
{
    if s.len() > 0 {
        let t = s.drop_last();
        lemma_sort_with_priority(t, p);
        lemma_sort_sorted(t);
        lemma_insert_with_priority(sort_by_priority(t), s.last(), p);
    }
}

/// Law: the chain order of a handler is the stable sort of its plugins by
/// descending priority. It is ordered by descending priority, holds as many
/// plugins, and the plugins that share a priority keep their order of
/// declaration.
pub proof fn lemma_plugin_order(s: Seq<PluginRef>)
    ensures
        priority_descending(sort_by_priority(s)),
        sort_by_priority(s).len() == s.len(),
        forall|p: i32| #[trigger] with_priority(sort_by_priority(s), p) == with_priority(s, p),
{
    lemma_sort_sorted(s);
    lemma_sort_len(s);
    assert forall|p: i32| #[trigger] with_priority(sort_by_priority(s), p) == with_priority(s, p) by {
        lemma_sort_with_priority(s, p);
    }
}

proof fn lemma_insert_at(s: Seq<PluginRef>, x: PluginRef, j: int)
    requires
        0 <= j <= s.len(),
        forall|k: int| j <= k < s.len() ==> #[trigger] s[k].priority < x.priority,
        j > 0 ==> s[j - 1].priority >= x.priority,
    ensures
        insert_by_priority(s, x) == s.insert(j, x),
    decreases s.len(),
{
    if s.len() == 0 {
        assert(s.insert(j, x) =~= seq![x]);
    } else if s.last().priority >= x.priority {
        assert(j == s.len());
        assert(s.insert(j, x) =~= s.push(x));
    } else {
        let t = s.drop_last();
        lemma_insert_at(t, x, j);
        assert(t.insert(j, x).push(s.last()) =~= s.insert(j, x));
    }
}

/// Orders `plugins` by descending priority; plugins of equal priority keep
/// their relative order.
pub fn sort_plugins(plugins: &Vec<PluginRef>) -> (r: Vec<PluginRef>)
    ensures
        r@ == sort_by_priority(plugins@),
{
    let mut r: Vec<PluginRef> = Vec::new();
    let mut i: usize = 0;
    while i < plugins.len()
        invariant
            i <= plugins@.len(),
            r@ == sort_by_priority(plugins@.subrange(0, i as int)),
        decreases plugins@.len() - i,
    {
        let x = plugins[i];
        proof {
            lemma_sort_len(plugins@.subrange(0, i as int));
        }
        let mut j: usize = r.len();
        while j > 0 && r[j - 1].priority < x.priority
            invariant
                j <= r@.len(),
                forall|k: int| j <= k < r@.len() ==> #[trigger] r@[k].priority < x.priority,
            decreases j,
        {
            j = j - 1;
        }
        proof {
            lemma_insert_at(r@, x, j as int);
            let next = plugins@.subrange(0, i as int + 1);
            assert(next.drop_last() =~= plugins@.subrange(0, i as int));
            assert(next.last() == x);
        }
        r.insert(j, x);
        i = i + 1;
    }
    assert(plugins@.subrange(0, plugins@.len() as int) =~= plugins@);
    r
}

} // verus!
