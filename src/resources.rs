//! Control-plane resources: the key layout of a key-value configuration
//! store, the auto-increment id, and a table of resources by id.

use vstd::prelude::*;
use crate::text::{digits_value, parse_u64, starts_with, starts_with_exec, u64_to_dec, dec};

verus! {

/// The kinds of resource the control plane manages.
#[derive(Clone, Copy, Debug, PartialEq, Eq, Structural)]
pub enum ResourceKind {
    Listeners,
    Consumers,
    Routes,
    Services,
    GlobalPlugins,
}

pub open spec fn kind_name(k: ResourceKind) -> Seq<char> {
    match k {
        ResourceKind::Listeners => "listeners"@,
        ResourceKind::Consumers => "consumers"@,
        ResourceKind::Routes => "routes"@,
        ResourceKind::Services => "services"@,
        ResourceKind::GlobalPlugins => "globalPlugins"@,
    }
}

impl ResourceKind {
    pub fn name(&self) -> (r: &'static str)
        ensures
            r@ == kind_name(*self),
    {
        match self {
            ResourceKind::Listeners => "listeners",
            ResourceKind::Consumers => "consumers",
            ResourceKind::Routes => "routes",
            ResourceKind::Services => "services",
            ResourceKind::GlobalPlugins => "globalPlugins",
        }
    }
}

/// `{prefix}/resources`: where all resources live.
pub fn resources_root(prefix: &String) -> (r: String)
    ensures
        r@ == prefix@ + "/resources"@,
{
    let mut s = prefix.clone();
    s.append("/resources");
    s
}

/// `{prefix}/resources/{kind}/`: where the resources of a kind live.
pub open spec fn kind_prefix(prefix: Seq<char>, k: ResourceKind) -> Seq<char> {
    prefix + "/resources/"@ + kind_name(k) + "/"@
}

pub fn resource_prefix(prefix: &String, k: ResourceKind) -> (r: String)
    ensures
        r@ == kind_prefix(prefix@, k),
{
    let mut s = prefix.clone();
    s.append("/resources/");
    s.append(k.name());
    s.append("/");
    s
}

/// `{prefix}/resources/{kind}/{id}`: the key of one resource.
pub fn resource_key(prefix: &String, k: ResourceKind, id: &String) -> (r: String)
    ensures
        r@ == kind_prefix(prefix@, k) + id@,
{
    let mut s = resource_prefix(prefix, k);
    s.append(id.as_str());
    s
}

/// The key of the auto-increment id.
pub fn auto_increment_key(prefix: &String) -> (r: String)
    ensures
        r@ == prefix@ + "/auto_increment_id"@,
{
    let mut s = prefix.clone();
    s.append("/auto_increment_id");
    s
}

/// The kind and id that a key names, trying the kinds in order.
pub open spec fn parse_key(key: Seq<char>, prefix: Seq<char>) -> Option<(ResourceKind, Seq<char>)> {
    if starts_with(key, kind_prefix(prefix, ResourceKind::Listeners)) {
        Some((ResourceKind::Listeners, key.subrange(kind_prefix(prefix, ResourceKind::Listeners).len() as int, key.len() as int)))
    } else if starts_with(key, kind_prefix(prefix, ResourceKind::Consumers)) {
        Some((ResourceKind::Consumers, key.subrange(kind_prefix(prefix, ResourceKind::Consumers).len() as int, key.len() as int)))
    } else if starts_with(key, kind_prefix(prefix, ResourceKind::Routes)) {
        Some((ResourceKind::Routes, key.subrange(kind_prefix(prefix, ResourceKind::Routes).len() as int, key.len() as int)))
    } else if starts_with(key, kind_prefix(prefix, ResourceKind::Services)) {
        Some((ResourceKind::Services, key.subrange(kind_prefix(prefix, ResourceKind::Services).len() as int, key.len() as int)))
    } else if starts_with(key, kind_prefix(prefix, ResourceKind::GlobalPlugins)) {
        Some((ResourceKind::GlobalPlugins, key.subrange(kind_prefix(prefix, ResourceKind::GlobalPlugins).len() as int, key.len() as int)))
    } else {
        None
    }
}

fn try_kind(key: &String, prefix: &String, k: ResourceKind) -> (r: Option<String>)
    ensures
        match r {
            Some(id) => starts_with(key@, kind_prefix(prefix@, k)) && id@ == key@.subrange(
                kind_prefix(prefix@, k).len() as int,
                key@.len() as int,
            ),
            None => !starts_with(key@, kind_prefix(prefix@, k)),
        },
{
    let p = resource_prefix(prefix, k);
    if starts_with_exec(key.as_str(), p.as_str()) {
        let n = key.as_str().unicode_len();
        let m = p.as_str().unicode_len();
        Some(key.as_str().substring_char(m, n).to_owned())
    } else {
        None
    }
}

/// Splits a resource key into its kind and id; `None` for a key outside
/// the resources of `prefix`.
pub fn parse_resource_key(key: &String, prefix: &String) -> (r: Option<(ResourceKind, String)>)
    ensures
        match r {
            Some((k, id)) => parse_key(key@, prefix@) == Some((k, id@)),
            None => parse_key(key@, prefix@) is None,
        },
{
    match try_kind(key, prefix, ResourceKind::Listeners) {
        Some(id) => { return Some((ResourceKind::Listeners, id)); },
        None => {},
    }
    match try_kind(key, prefix, ResourceKind::Consumers) {
        Some(id) => { return Some((ResourceKind::Consumers, id)); },
        None => {},
    }
    match try_kind(key, prefix, ResourceKind::Routes) {
        Some(id) => { return Some((ResourceKind::Routes, id)); },
        None => {},
    }
    match try_kind(key, prefix, ResourceKind::Services) {
        Some(id) => { return Some((ResourceKind::Services, id)); },
        None => {},
    }
    match try_kind(key, prefix, ResourceKind::GlobalPlugins) {
        Some(id) => { return Some((ResourceKind::GlobalPlugins, id)); },
        None => {},
    }
    None
}

/// The next auto-increment id, from the stored counter: 1 when there is
/// none; `None` when the stored text is not a number, or is the largest.
pub fn next_id(current: Option<&String>) -> (r: Option<u64>)
    ensures
        match current {
            None => r == Some(1u64),
            Some(s) => match digits_value(s@) {
                Some(v) => if v < u64::MAX { r == Some((v + 1) as u64) } else { r is None },
                None => r is None,
            },
        },
{
    match current {
        None => Some(1),
        Some(s) => match parse_u64(s.as_str()) {
            Some(v) => if v < u64::MAX { Some(v + 1) } else { None },
            None => None,
        },
    }
}

/// A route refers to a service that does not exist.
#[derive(Clone, Debug)]
pub struct ServiceNotFoundError(pub String);

impl ServiceNotFoundError {
    /// The error's message.
    pub fn message(&self) -> (r: String)
        ensures
            r@ == "service `"@ + self.0@ + "` not found"@,
    {
        let mut s = String::from_str("service `");
        s.append(self.0.as_str());
        s.append("` not found");
        s
    }
}

/// The answer to an update.
#[derive(Clone, Copy, Debug, PartialEq, Eq, Structural)]
pub enum UpdateResourceResponse {
    Success,
    NotFound,
}

/// The answer to a deletion.
#[derive(Clone, Copy, Debug, PartialEq, Eq, Structural)]
pub enum DeleteResourceResponse {
    Success,
    NotFound,
}

impl DeleteResourceResponse {
    /// 200 when something was deleted, else 404.
    pub fn from_deleted(deleted: bool) -> (r: DeleteResourceResponse)
        ensures
            deleted <==> r == DeleteResourceResponse::Success,
    {
        if deleted { DeleteResourceResponse::Success } else { DeleteResourceResponse::NotFound }
    }

    pub fn status(&self) -> (r: u16)
        ensures
            r == if *self == DeleteResourceResponse::Success { 200u16 } else { 404u16 },
    {
        match self {
            DeleteResourceResponse::Success => 200,
            DeleteResourceResponse::NotFound => 404,
        }
    }
}

impl UpdateResourceResponse {
    pub fn from_updated(updated: bool) -> (r: UpdateResourceResponse)
        ensures
            updated <==> r == UpdateResourceResponse::Success,
    {
        if updated { UpdateResourceResponse::Success } else { UpdateResourceResponse::NotFound }
    }

    pub fn status(&self) -> (r: u16)
        ensures
            r == if *self == UpdateResourceResponse::Success { 200u16 } else { 404u16 },
    {
        match self {
            UpdateResourceResponse::Success => 200,
            UpdateResourceResponse::NotFound => 404,
        }
    }
}

/// The collection operations that the administrative surfaces use, per
/// kind of resource.
pub trait ResourcesOperation<T: View> {
    /// The value stored under `id`, if any.
    spec fn stored_view(&self, id: Seq<char>) -> Option<T::V>;

    /// Every stored resource with its id, in the order they are listed.
    spec fn listed_view(&self) -> Seq<(Seq<char>, T::V)>;

    fn get_all(&self) -> (r: Vec<(String, T)>)
        ensures
            r@.map_values(|e: (String, T)| (e.0@, e.1@)) == self.listed_view(),
    ;

    fn get(&self, id: &String) -> (r: Option<T>)
        ensures
            match r {
                Some(v) => self.stored_view(id@) == Some(v@),
                None => self.stored_view(id@) is None,
            },
    ;

    /// Stores `value` under a fresh id; `None` when no id is left.
    fn create(&mut self, value: T) -> (r: Option<String>)
        ensures
            match r {
                Some(id) => final(self).stored_view(id@) == Some(value@) && forall|o: Seq<char>|
                    o != id@ ==> #[trigger] final(self).stored_view(o) == old(self).stored_view(o),
                None => forall|o: Seq<char>| #[trigger] final(self).stored_view(o) == old(self).stored_view(o),
            },
    ;

    /// Removes the resource `id`; whether there was one.
    fn delete(&mut self, id: &String) -> (r: bool)
        ensures
            r == old(self).stored_view(id@) is Some,
            final(self).stored_view(id@) is None,
            forall|o: Seq<char>| o != id@ ==> #[trigger] final(self).stored_view(o) == old(self).stored_view(o),
    ;

    /// Replaces the resource `id`; fails, changing nothing, when it is absent.
    fn update(&mut self, id: &String, value: T) -> (r: bool)
        ensures
            r == old(self).stored_view(id@) is Some,
            r ==> final(self).stored_view(id@) == Some(value@),
            forall|o: Seq<char>| o != id@ ==> #[trigger] final(self).stored_view(o) == old(self).stored_view(o),
            !r ==> final(self).stored_view(id@) == old(self).stored_view(id@),
    ;
}

/// The position of the entry with id `id`, or -1.
pub open spec fn find(entries: Seq<(String, Vec<u8>)>, id: Seq<char>) -> int
    decreases entries.len(),
{
    if entries.len() == 0 {
        -1
    } else if entries.last().0@ == id {
        entries.len() - 1
    } else {
        find(entries.drop_last(), id)
    }
}

proof fn lemma_find(entries: Seq<(String, Vec<u8>)>, id: Seq<char>)
    ensures
        -1 <= find(entries, id) < entries.len(),
        find(entries, id) >= 0 ==> entries[find(entries, id)].0@ == id,
        find(entries, id) < 0 ==> forall|k: int| 0 <= k < entries.len() ==> #[trigger] entries[k].0@ != id,
    decreases entries.len(),
{
    if entries.len() > 0 && entries.last().0@ != id {
        lemma_find(entries.drop_last(), id);
        assert forall|k: int| 0 <= k < entries.len() && find(entries, id) < 0 implies #[trigger] entries[k].0@ != id by {
            if k < entries.len() - 1 {
                assert(entries[k] == entries.drop_last()[k]);
            }
        }
    }
}

/// The stored value of `id` in a table.
pub open spec fn stored(entries: Seq<(String, Vec<u8>)>, id: Seq<char>) -> Option<Seq<u8>> {
    let k = find(entries, id);
    if 0 <= k < entries.len() { Some(entries[k].1@) } else { None }
}

/// Resources of one kind by id, each stored as its serialized bytes; ids
/// come from an auto-increment counter.
pub struct ResourceTable {
    pub entries: Vec<(String, Vec<u8>)>,
    pub last_id: u64,
}

fn copy_bytes(b: &Vec<u8>) -> (r: Vec<u8>)
    ensures
        r@ == b@,
{
    let mut v: Vec<u8> = Vec::new();
    let mut j: usize = 0;
    while j < b.len()
        invariant
            j <= b@.len(),
            v@ == b@.subrange(0, j as int),
        decreases b@.len() - j,
    {
        v.push(b[j]);
        j = j + 1;
        assert(v@ =~= b@.subrange(0, j as int));
    }
    assert(b@.subrange(0, b@.len() as int) =~= b@);
    v
}

impl ResourceTable {
    pub fn new() -> (r: ResourceTable)
        ensures
            r.entries@.len() == 0,
            r.last_id == 0,
    {
        ResourceTable { entries: Vec::new(), last_id: 0 }
    }

    fn position(&self, id: &String) -> (r: Option<usize>)
        ensures
            match r {
                Some(k) => k as int == find(self.entries@, id@) && k < self.entries@.len(),
                None => find(self.entries@, id@) < 0,
            },
    {
        proof {
            lemma_find(self.entries@, id@);
        }
        let mut k: usize = self.entries.len();
        assert(self.entries@.subrange(0, k as int) =~= self.entries@);
        while k > 0
            invariant
                k <= self.entries@.len(),
                find(self.entries@, id@) == find(self.entries@.subrange(0, k as int), id@),
            decreases k,
        {
            let ghost pre = self.entries@.subrange(0, k as int);
            assert(pre.drop_last() =~= self.entries@.subrange(0, k - 1));
            assert(pre.last() == self.entries@[k - 1]);
            if self.entries[k - 1].0.eq(id) {
                return Some(k - 1);
            }
            k = k - 1;
        }
        None
    }

    /// The value stored under `id`.
    pub fn get_value(&self, id: &String) -> (r: Option<Vec<u8>>)
        ensures
            match r {
                Some(v) => stored(self.entries@, id@) == Some(v@),
                None => stored(self.entries@, id@) is None,
            },
    {
        match self.position(id) {
            Some(k) => Some(copy_bytes(&self.entries[k].1)),
            None => None,
        }
    }

    /// Stores `value` under `id`, replacing what was there.
    pub fn put(&mut self, id: String, value: Vec<u8>)
        ensures
            stored(final(self).entries@, id@) == Some(value@),
            final(self).last_id == old(self).last_id,
            forall|other: Seq<char>| other != id@ ==> #[trigger] stored(final(self).entries@, other)
                == stored(old(self).entries@, other),
    {
        let ghost before = self.entries@;
        let ghost idv = id@;
        let ghost val = value@;
        proof {
            lemma_find(before, idv);
        }
        match self.position(&id) {
            Some(k) => {
                self.entries.set(k, (id, value));
                proof {
                    assert forall|other: Seq<char>| other != idv implies #[trigger] stored(self.entries@, other)
                        == stored(before, other) by {
                        lemma_find_update(before, k as int, self.entries@[k as int], other);
                    }
                    lemma_find_update(before, k as int, self.entries@[k as int], idv);
                }
            },
            None => {
                self.entries.push((id, value));
                proof {
                    assert(self.entries@.drop_last() =~= before);
                    assert forall|other: Seq<char>| other != idv implies #[trigger] stored(self.entries@, other)
                        == stored(before, other) by {
                        lemma_find(before, other);
                    }
                }
            },
        }
    }

    /// Removes the value stored under `id`; whether there was one.
    pub fn remove_value(&mut self, id: &String) -> (r: bool)
        ensures
            r == stored(old(self).entries@, id@) is Some,
            stored(final(self).entries@, id@) is None,
            final(self).last_id == old(self).last_id,
            forall|other: Seq<char>| other != id@ ==> #[trigger] stored(final(self).entries@, other)
                == stored(old(self).entries@, other),
    {
        let ghost before = self.entries@;
        let mut kept: Vec<(String, Vec<u8>)> = Vec::new();
        let mut found = false;
        let mut k: usize = 0;
        proof {
            lemma_find(before, id@);
        }
        while k < self.entries.len()
            invariant
                k <= self.entries@.len(),
                self.entries@ == before,
                found == (exists|j: int| 0 <= j < k && #[trigger] before[j].0@ == id@),
                forall|j: int| 0 <= j < kept@.len() ==> #[trigger] kept@[j].0@ != id@,
                forall|other: Seq<char>| other != id@ ==> #[trigger] stored(kept@, other) == stored(
                    before.subrange(0, k as int),
                    other,
                ),
            decreases self.entries@.len() - k,
        {
            let ghost pre = before.subrange(0, k + 1);
            assert(pre.drop_last() =~= before.subrange(0, k as int));
            assert(pre.last() == before[k as int]);
            if self.entries[k].0.eq(id) {
                found = true;
                proof {
                    assert forall|other: Seq<char>| other != id@ implies #[trigger] stored(kept@, other) == stored(pre, other) by {
                        lemma_find(before.subrange(0, k as int), other);
                        assert(find(pre, other) == find(before.subrange(0, k as int), other));
                    }
                }
            } else {
                let ghost old_kept = kept@;
                let name = self.entries[k].0.clone();
                let bytes = copy_bytes(&self.entries[k].1);
                let ghost nv = name@;
                let ghost bv = bytes@;
                assert(nv == before[k as int].0@ && bv == before[k as int].1@);
                kept.push((name, bytes));
                proof {
                    assert(kept@.drop_last() =~= old_kept);
                    assert(kept@.last().0@ == nv && kept@.last().1@ == bv);
                    assert forall|other: Seq<char>| other != id@ implies #[trigger] stored(kept@, other) == stored(pre, other) by {
                        if other == before[k as int].0@ {
                            assert(find(kept@, other) == kept@.len() - 1);
                            assert(find(pre, other) == pre.len() - 1);
                        } else {
                            lemma_find(old_kept, other);
                            lemma_find(before.subrange(0, k as int), other);
                            assert(find(kept@, other) == find(old_kept, other));
                            if find(old_kept, other) >= 0 {
                                assert(kept@[find(old_kept, other)] == old_kept[find(old_kept, other)]);
                            }
                            assert(stored(kept@, other) == stored(old_kept, other));
                            assert(find(pre, other) == find(before.subrange(0, k as int), other));
                            if find(before.subrange(0, k as int), other) >= 0 {
                                assert(pre[find(pre, other)] == before.subrange(0, k as int)[find(pre, other)]);
                            }
                            assert(stored(pre, other) == stored(before.subrange(0, k as int), other));
                        }
                    }
                }
            }
            k = k + 1;
        }
        proof {
            assert(before.subrange(0, before.len() as int) =~= before);
            lemma_find(kept@, id@);
            lemma_find(before, id@);
            if find(before, id@) >= 0 {
                assert(before[find(before, id@)].0@ == id@);
            }
        }
        self.entries = kept;
        found
    }

    /// Replaces the value stored under `id`; fails, changing nothing, when
    /// there is none.
    pub fn update_value(&mut self, id: &String, value: Vec<u8>) -> (r: bool)
        ensures
            r == (stored(old(self).entries@, id@) is Some),
            r ==> stored(final(self).entries@, id@) == Some(value@) && final(self).last_id == old(self).last_id
                && forall|other: Seq<char>| other != id@ ==> #[trigger] stored(final(self).entries@, other)
                == stored(old(self).entries@, other),
            !r ==> *final(self) == *old(self),
    {
        match self.position(id) {
            Some(_) => {
                self.put(id.clone(), value);
                true
            },
            None => false,
        }
    }

    /// Every stored resource, with its id, in storage order.
    pub fn all_entries(&self) -> (r: Vec<(String, Vec<u8>)>)
        ensures
            r@.len() == self.entries@.len(),
            forall|k: int|
                0 <= k < r@.len() ==> (#[trigger] r@[k]).0@ == self.entries@[k].0@ && r@[k].1@
                    == self.entries@[k].1@,
    {
        let mut out: Vec<(String, Vec<u8>)> = Vec::new();
        let mut k: usize = 0;
        while k < self.entries.len()
            invariant
                k <= self.entries@.len(),
                out@.len() == k,
                forall|j: int|
                    0 <= j < k ==> (#[trigger] out@[j]).0@ == self.entries@[j].0@ && out@[j].1@
                        == self.entries@[j].1@,
            decreases self.entries@.len() - k,
        {
            let id = self.entries[k].0.clone();
            let bytes = copy_bytes(&self.entries[k].1);
            out.push((id, bytes));
            k = k + 1;
        }
        out
    }

    /// Adds a resource under a fresh id from the counter; `None` when the
    /// counter is exhausted.
    pub fn create_value(&mut self, value: Vec<u8>) -> (r: Option<String>)
        ensures
            match r {
                Some(id) => {
                    &&& old(self).last_id < u64::MAX
                    &&& final(self).last_id == old(self).last_id + 1
                    &&& id@ == dec(final(self).last_id as nat)
                    &&& stored(final(self).entries@, id@) == Some(value@)
                    &&& forall|other: Seq<char>| other != id@ ==> #[trigger] stored(final(self).entries@, other)
                        == stored(old(self).entries@, other)
                },
                None => old(self).last_id == u64::MAX && final(self).entries@ == old(self).entries@,
            },
    {
        if self.last_id == u64::MAX {
            return None;
        }
        self.last_id = self.last_id + 1;
        let id = u64_to_dec(self.last_id);
        let result = id.clone();
        self.put(id, value);
        Some(result)
    }
}

proof fn lemma_find_update(s: Seq<(String, Vec<u8>)>, k: int, e: (String, Vec<u8>), id: Seq<char>)
    requires
        0 <= k < s.len(),
        s[k].0@ == e.0@,
        find(s, s[k].0@) == k,
    ensures
        id != e.0@ ==> stored(s.update(k, e), id) == stored(s, id),
        id == e.0@ ==> stored(s.update(k, e), id) == Some(e.1@),
    decreases s.len(),
{
    let t = s.update(k, e);
    if k == s.len() - 1 {
        assert(t.drop_last() =~= s.drop_last());
        lemma_find(s, id);
    } else {
        assert(t.drop_last() =~= s.drop_last().update(k, e));
        assert(s.last().0@ != s[k].0@);
        lemma_find_update(s.drop_last(), k, e, id);
        lemma_find(s, id);
        lemma_find(t, id);
    }
}

impl ResourcesOperation<Vec<u8>> for ResourceTable {
    open spec fn stored_view(&self, id: Seq<char>) -> Option<Seq<u8>> {
        stored(self.entries@, id)
    }

    open spec fn listed_view(&self) -> Seq<(Seq<char>, Seq<u8>)> {
        self.entries@.map_values(|e: (String, Vec<u8>)| (e.0@, e.1@))
    }

    fn get_all(&self) -> (r: Vec<(String, Vec<u8>)>) {
        let r = self.all_entries();
        assert(r@.map_values(|e: (String, Vec<u8>)| (e.0@, e.1@)) =~= self.entries@.map_values(
            |e: (String, Vec<u8>)| (e.0@, e.1@),
        ));
        r
    }

    fn get(&self, id: &String) -> (r: Option<Vec<u8>>) {
        self.get_value(id)
    }

    fn create(&mut self, value: Vec<u8>) -> (r: Option<String>) {
        self.create_value(value)
    }

    fn delete(&mut self, id: &String) -> (r: bool) {
        self.remove_value(id)
    }

    fn update(&mut self, id: &String, value: Vec<u8>) -> (r: bool) {
        self.update_value(id, value)
    }
}

} // verus!
