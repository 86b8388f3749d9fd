//! Rate limiting: a token bucket per key.

use vstd::prelude::*;
use crate::config::{ConfigError, check_status, status_valid};
use crate::context::PluginContext;
use crate::request::RequestHead;
use crate::text::{dec, get_header, header_value, pairs_view, push_pair, u64_to_dec};

verus! {

/// What a request's bucket is keyed by.
#[derive(Clone, Copy, Debug, PartialEq, Eq, Structural)]
pub enum Key {
    RemoteIp,
    XRealIp,
    XForwardedFor,
    ConsumerName,
}

/// Buckets kept in this process.
#[derive(Clone, Copy, Debug, PartialEq, Eq, Structural)]
pub struct MemoryStorageConfig {}

/// Buckets kept in a Redis server. The library has no Redis client, so a
/// plugin configured with it is refused (`UnsupportedStorage`).
#[derive(Clone, Debug)]
pub struct RedisStorageConfig {
    pub host: String,
    pub port: u16,
    pub database: i64,
    pub username: Option<String>,
    pub password: Option<String>,
}

/// Where the buckets are kept.
#[derive(Clone, Debug)]
pub enum StorageConfig {
    Memory(MemoryStorageConfig),
    Redis(RedisStorageConfig),
}

#[derive(Clone, Debug)]
pub struct LimitCountConfig {
    pub interval: u64,
    pub refill: u32,
    pub key: Key,
    pub rejected_code: u16,
    pub rejected_msg: Option<String>,
    pub show_limit_quota_header: bool,
    pub storage: StorageConfig,
}

/// Seconds between refills when none is configured.
pub fn default_interval() -> (r: u64)
    ensures
        r == 1,
{
    1
}

/// Tokens per refill when none is configured.
pub fn default_refill() -> (r: u32)
    ensures
        r == 1,
{
    1
}

pub fn default_key() -> (r: Key)
    ensures
        r == Key::RemoteIp,
{
    Key::RemoteIp
}

/// The status of a rejected request when none is configured.
pub fn default_rejected_code() -> (r: u16)
    ensures
        r == 503,
{
    503
}

pub fn default_storage_config() -> (r: StorageConfig)
    ensures
        r matches StorageConfig::Memory(_),
{
    StorageConfig::Memory(MemoryStorageConfig {})
}

pub fn default_show_limit_quota_header() -> (r: bool)
    ensures
        r,
{
    true
}

/// The address and credentials of a Redis server.
pub struct RedisConnectionInfo {
    pub host: String,
    pub port: u16,
    pub db: i64,
    pub username: Option<String>,
    pub password: Option<String>,
}

impl RedisStorageConfig {
    pub fn to_connection_info(&self) -> (r: RedisConnectionInfo)
        ensures
            r.host@ == self.host@,
            r.port == self.port,
            r.db == self.database,
            r.username == self.username,
            r.password == self.password,
    {
        let username = match &self.username {
            Some(u) => Some(u.clone()),
            None => None,
        };
        let password = match &self.password {
            Some(p) => Some(p.clone()),
            None => None,
        };
        RedisConnectionInfo {
            host: self.host.clone(),
            port: self.port,
            db: self.database,
            username,
            password,
        }
    }
}

#[verifier::external_type_specification]
#[verifier::external_body]
#[verifier::reject_recursive_types(K)]
#[verifier::reject_recursive_types(V)]
#[verifier::reject_recursive_types(S)]
pub struct ExDashMap<K, V, S>(dashmap::DashMap<K, V, S>);

/// A bucket: when it was last filled (milliseconds) and the tokens left.
pub type Bucket = (u64, u32);

/// Buckets by key, shared by the requests of one plugin.
pub type BucketMap = dashmap::DashMap<String, Bucket>;

/// The buckets a map holds, by key.
pub uninterp spec fn buckets_of(m: BucketMap) -> Map<Seq<char>, Bucket>;

/// Relies on dashmap::DashMap::new: an empty map.
#[verifier::external_body]
fn buckets_new() -> (r: BucketMap)
    ensures
        buckets_of(r).dom() == Set::<Seq<char>>::empty(),
{
    dashmap::DashMap::new()
}

/// Relies on dashmap::DashMap::get: the value stored under the key, if any.
#[verifier::external_body]
fn buckets_get(m: &BucketMap, key: &String) -> (r: Option<Bucket>)
    ensures
        r == if buckets_of(*m).contains_key(key@) {
            Some(buckets_of(*m)[key@])
        } else {
            None::<Bucket>
        },
{
    m.get(key).map(|b| *b)
}

/// Relies on dashmap::DashMap::insert: the key now maps to the value, and no
/// other key changes.
#[verifier::external_body]
fn buckets_insert(m: &mut BucketMap, key: String, value: Bucket)
    ensures
        buckets_of(*final(m)) == buckets_of(*old(m)).insert(key@, value),
{
    m.insert(key, value);
}

/// Relies on dashmap::DashMap::remove: the key no longer maps to anything,
/// and no other key changes.
#[verifier::external_body]
fn buckets_remove(m: &mut BucketMap, key: &String)
    ensures
        buckets_of(*final(m)) == buckets_of(*old(m)).remove(key@),
{
    m.remove(key);
}

/// More than `interval` milliseconds went by since the bucket was filled.
pub open spec fn window_elapsed(b: Bucket, now: u64, interval: u64) -> bool {
    now > b.0 && now - b.0 > interval
}

/// The bucket as it stands at `now`: new and full, refilled when its window
/// went by, else unchanged.
pub open spec fn refreshed(old: Option<Bucket>, now: u64, interval: u64, refill: u32) -> Bucket {
    match old {
        None => (now, refill),
        Some(b) => if window_elapsed(b, now, interval) { (now, refill) } else { b },
    }
}

/// Takes a token if there is one: the bucket after, whether the request is
/// accepted, and the tokens that remain.
pub open spec fn take_token(b: Bucket) -> (Bucket, bool, u32) {
    if b.1 > 0 {
        ((b.0, (b.1 - 1) as u32), true, (b.1 - 1) as u32)
    } else {
        (b, false, 0)
    }
}

pub open spec fn lookup(m: Map<Seq<char>, Bucket>, k: Seq<char>) -> Option<Bucket> {
    if m.contains_key(k) { Some(m[k]) } else { None }
}

/// `after` differs from `before` only by buckets whose window went by,
/// which are gone; such a bucket would be refilled on its next use anyway.
pub open spec fn only_stale_dropped(before: Map<Seq<char>, Bucket>, after: Map<Seq<char>, Bucket>, now: u64, interval: u64) -> bool {
    forall|k: Seq<char>| #[trigger] lookup(after, k) == lookup(before, k) || (!after.contains_key(k)
        && before.contains_key(k) && window_elapsed(before[k], now, interval))
}

/// Token buckets kept in this process.
pub struct MemoryStorage {
    pub interval_ms: u64,
    pub refill: u32,
    pub buckets: BucketMap,
    pub expire_queue: Vec<String>,
}

impl MemoryStorage {
    pub open spec fn buckets(&self) -> Map<Seq<char>, Bucket> {
        buckets_of(self.buckets)
    }

    /// Empty storage refilling `refill` tokens every `interval` seconds.
    pub fn new(interval: u64, refill: u32) -> (r: MemoryStorage)
        ensures
            r.interval_ms == if interval > u64::MAX / 1000 { u64::MAX } else { (interval * 1000) as u64 },
            r.refill == refill,
            r.buckets().dom() == Set::<Seq<char>>::empty(),
    {
        let interval_ms = if interval > u64::MAX / 1000 { u64::MAX } else { interval * 1000 };
        MemoryStorage { interval_ms, refill, buckets: buckets_new(), expire_queue: Vec::new() }
    }

    /// Drops the buckets whose window went by.
    pub fn clear_expired_keys(&mut self, now: u64)
        ensures
            final(self).interval_ms == old(self).interval_ms,
            final(self).refill == old(self).refill,
            only_stale_dropped(old(self).buckets(), final(self).buckets(), now, old(self).interval_ms),
    {
        let ghost before = self.buckets();
        let mut kept: Vec<String> = Vec::new();
        let mut i: usize = 0;
        while i < self.expire_queue.len()
            invariant
                i <= self.expire_queue@.len(),
                self.interval_ms == old(self).interval_ms,
                self.refill == old(self).refill,
                before == old(self).buckets(),
                only_stale_dropped(before, self.buckets(), now, self.interval_ms),
            decreases self.expire_queue@.len() - i,
        {
            let key = self.expire_queue[i].clone();
            match buckets_get(&self.buckets, &key) {
                Some(b) => {
                    if now > b.0 && now - b.0 > self.interval_ms {
                        let ghost mid = self.buckets();
                        buckets_remove(&mut self.buckets, &key);
                        assert forall|k: Seq<char>| #[trigger] lookup(self.buckets(), k) == lookup(before, k) || (
                            !self.buckets().contains_key(k) && before.contains_key(k) && window_elapsed(
                                before[k],
                                now,
                                self.interval_ms,
                            )) by {
                            if k != key@ {
                                assert(lookup(self.buckets(), k) == lookup(mid, k));
                            } else {
                                assert(lookup(mid, k) == Some(b));
                            }
                        }
                    } else {
                        kept.push(key);
                    }
                },
                None => {},
            }
            i = i + 1;
        }
        self.expire_queue = kept;
    }

    /// Takes a token from the bucket of `key` at time `now` (milliseconds):
    /// whether the request is accepted, and the tokens that remain.
    pub fn check(&mut self, key: String, now: u64) -> (r: (bool, u32))
        ensures
            ({
                let b = refreshed(lookup(old(self).buckets(), key@), now, old(self).interval_ms, old(self).refill);
                let (nb, accepted, remaining) = take_token(b);
                &&& r == (accepted, remaining)
                &&& final(self).buckets().contains_key(key@)
                &&& final(self).buckets()[key@] == nb
                &&& forall|k: Seq<char>| k != key@ ==> (#[trigger] lookup(final(self).buckets(), k) == lookup(
                    old(self).buckets(),
                    k,
                ) || (!final(self).buckets().contains_key(k) && old(self).buckets().contains_key(k)
                    && window_elapsed(old(self).buckets()[k], now, old(self).interval_ms)))
                &&& final(self).interval_ms == old(self).interval_ms
                &&& final(self).refill == old(self).refill
            }),
    {
        let ghost start = self.buckets();
        self.clear_expired_keys(now);
        let ghost cleared = self.buckets();
        let current = buckets_get(&self.buckets, &key);
        assert(refreshed(current, now, self.interval_ms, self.refill) == refreshed(lookup(start, key@), now, self.interval_ms, self.refill)) by {
            assert(lookup(cleared, key@) == lookup(start, key@) || (!cleared.contains_key(key@) && start.contains_key(key@)
                && window_elapsed(start[key@], now, self.interval_ms)));
        }
        let bucket: Bucket = match current {
            None => {
                self.expire_queue.push(key.clone());
                (now, self.refill)
            },
            Some(b) => {
                if now > b.0 && now - b.0 > self.interval_ms {
                    (now, self.refill)
                } else {
                    b
                }
            },
        };
        let (next, result) = if bucket.1 > 0 {
            ((bucket.0, bucket.1 - 1), (true, bucket.1 - 1))
        } else {
            (bucket, (false, 0u32))
        };
        buckets_insert(&mut self.buckets, key, next);
        assert forall|k: Seq<char>| k != key@ implies (#[trigger] lookup(self.buckets(), k) == lookup(start, k) || (
            !self.buckets().contains_key(k) && start.contains_key(k) && window_elapsed(start[k], now, self.interval_ms))) by {
            assert(lookup(self.buckets(), k) == lookup(cleared, k));
        }
        result
    }
}

/// Where the token buckets live.
pub trait Storage {
    /// The buckets held, by key.
    spec fn bucket_view(&self) -> Map<Seq<char>, Bucket>;

    /// The refill window, in milliseconds.
    spec fn interval_view(&self) -> u64;

    /// The tokens a bucket is filled with.
    spec fn refill_view(&self) -> u32;

    /// Takes a token for `key` at `now` (milliseconds): whether the request
    /// is accepted, and the tokens that remain.
    fn check(&mut self, key: String, now: u64) -> (r: (bool, u32))
        ensures
            ({
                let b = refreshed(lookup(old(self).bucket_view(), key@), now, old(self).interval_view(), old(self).refill_view());
                let (nb, accepted, remaining) = take_token(b);
                &&& r == (accepted, remaining)
                &&& final(self).bucket_view().contains_key(key@)
                &&& final(self).bucket_view()[key@] == nb
                &&& final(self).interval_view() == old(self).interval_view()
                &&& final(self).refill_view() == old(self).refill_view()
            }),
    ;
}

impl Storage for MemoryStorage {
    open spec fn bucket_view(&self) -> Map<Seq<char>, Bucket> {
        self.buckets()
    }

    open spec fn interval_view(&self) -> u64 {
        self.interval_ms
    }

    open spec fn refill_view(&self) -> u32 {
        self.refill
    }

    fn check(&mut self, key: String, now: u64) -> (r: (bool, u32)) {
        MemoryStorage::check(self, key, now)
    }
}

/// The rate-limit plugin.
pub struct LimitCount {
    pub refill: u32,
    pub key: Key,
    pub rejected_code: u16,
    pub rejected_msg: Option<String>,
    pub show_limit_quota_header: bool,
    pub storage: MemoryStorage,
}

/// What the plugin does with a request.
pub enum LimitOutcome {
    /// Forward the request, then add these headers to the response.
    Forward(Vec<(String, String)>),
    /// Answer with this status, body and headers.
    Reject { status: u16, body: String, headers: Vec<(String, String)> },
}

/// The key of the request's bucket; empty where the request lacks it.
pub open spec fn limit_key(key: Key, req: RequestHead, consumer: Option<String>) -> Seq<char> {
    match key {
        Key::RemoteIp => match req.remote {
            Some(a) => a.ip_text@,
            None => Seq::empty(),
        },
        Key::XRealIp => match header_value(req.headers@, "x-real-ip"@) {
            Some(v) => v,
            None => Seq::empty(),
        },
        Key::XForwardedFor => match header_value(req.headers@, "x-forwarded-for"@) {
            Some(v) => v,
            None => Seq::empty(),
        },
        Key::ConsumerName => match consumer {
            Some(n) => n@,
            None => Seq::empty(),
        },
    }
}

/// The quota headers added to a response, when they are shown.
pub open spec fn quota_headers(show: bool, refill: u32, remaining: u32) -> Seq<(Seq<char>, Seq<char>)> {
    if show {
        seq![("X-RateLimit-Limit"@, dec(refill as nat)), ("X-RateLimit-Remaining"@, dec(remaining as nat))]
    } else {
        Seq::empty()
    }
}

fn quota(show: bool, refill: u32, remaining: u32) -> (r: Vec<(String, String)>)
    ensures
        pairs_view(r@) == quota_headers(show, refill, remaining),
{
    let mut v: Vec<(String, String)> = Vec::new();
    if show {
        push_pair(&mut v, "X-RateLimit-Limit", u64_to_dec(refill as u64));
        push_pair(&mut v, "X-RateLimit-Remaining", u64_to_dec(remaining as u64));
    }
    assert(pairs_view(v@) =~= quota_headers(show, refill, remaining));
    v
}

impl LimitCount {
    /// Instantiates the plugin: the rejection status must be a valid status,
    /// and the buckets are kept in this process. Redis storage is refused
    /// with `UnsupportedStorage`: the library has no Redis client.
    pub fn new(cfg: LimitCountConfig) -> (r: Result<LimitCount, ConfigError>)
        ensures
            match r {
                Ok(l) => {
                    &&& status_valid(cfg.rejected_code)
                    &&& cfg.storage is Memory
                    &&& l.refill == cfg.refill
                    &&& l.key == cfg.key
                    &&& l.rejected_code == cfg.rejected_code
                    &&& l.rejected_msg == cfg.rejected_msg
                    &&& l.show_limit_quota_header == cfg.show_limit_quota_header
                    &&& l.storage.refill == cfg.refill
                    &&& l.storage.interval_ms == if cfg.interval > u64::MAX / 1000 { u64::MAX } else { (cfg.interval * 1000) as u64 }
                    &&& l.storage.buckets().dom() == Set::<Seq<char>>::empty()
                },
                Err(e) => if !status_valid(cfg.rejected_code) {
                    e == ConfigError::InvalidStatusCode(cfg.rejected_code)
                } else {
                    cfg.storage is Redis && e == ConfigError::UnsupportedStorage
                },
            },
    {
        let code = match check_status(cfg.rejected_code) {
            Ok(c) => c,
            Err(e) => { return Err(e); },
        };
        match cfg.storage {
            StorageConfig::Memory(_) => {},
            StorageConfig::Redis(_) => { return Err(ConfigError::UnsupportedStorage); },
        }
        Ok(LimitCount {
            refill: cfg.refill,
            key: cfg.key,
            rejected_code: code,
            rejected_msg: cfg.rejected_msg,
            show_limit_quota_header: cfg.show_limit_quota_header,
            storage: MemoryStorage::new(cfg.interval, cfg.refill),
        })
    }

    /// The key of the request's bucket.
    pub fn request_key(&self, req: &RequestHead, ctx: &PluginContext) -> (r: String)
        ensures
            r@ == limit_key(self.key, *req, ctx.consumer_name),
    {
        match self.key {
            Key::RemoteIp => match &req.remote {
                Some(a) => a.ip_text.clone(),
                None => String::new(),
            },
            Key::XRealIp => match get_header(&req.headers, "x-real-ip") {
                Some(v) => v.clone(),
                None => String::new(),
            },
            Key::XForwardedFor => match get_header(&req.headers, "x-forwarded-for") {
                Some(v) => v.clone(),
                None => String::new(),
            },
            Key::ConsumerName => match &ctx.consumer_name {
                Some(n) => n.clone(),
                None => String::new(),
            },
        }
    }

    /// The plugin's answer once the storage has said whether the request is
    /// accepted and how many tokens remain.
    pub fn outcome(&self, accepted: bool, remaining: u32) -> (r: LimitOutcome)
        ensures
            match r {
                LimitOutcome::Forward(h) => accepted && pairs_view(h@) == quota_headers(
                    self.show_limit_quota_header,
                    self.refill,
                    remaining,
                ),
                LimitOutcome::Reject { status, body, headers } => {
                    &&& !accepted
                    &&& status == self.rejected_code
                    &&& body@ == match self.rejected_msg {
                        Some(m) => m@,
                        None => Seq::empty(),
                    }
                    &&& pairs_view(headers@) == quota_headers(self.show_limit_quota_header, self.refill, 0)
                },
            },
    {
        if accepted {
            LimitOutcome::Forward(quota(self.show_limit_quota_header, self.refill, remaining))
        } else {
            let body = match &self.rejected_msg {
                Some(m) => m.clone(),
                None => String::new(),
            };
            LimitOutcome::Reject {
                status: self.rejected_code,
                body,
                headers: quota(self.show_limit_quota_header, self.refill, 0),
            }
        }
    }

    /// Takes a token for the request at time `now` (milliseconds): forward it
    /// with the quota headers, or reject it with the configured status and
    /// message and no token left.
    pub fn call(&mut self, req: &RequestHead, ctx: &PluginContext, now: u64) -> (r: LimitOutcome)
        ensures
            ({
                let k = limit_key(old(self).key, *req, ctx.consumer_name);
                let b = refreshed(lookup(old(self).storage.buckets(), k), now, old(self).storage.interval_ms, old(self).storage.refill);
                let (nb, accepted, remaining) = take_token(b);
                &&& final(self).storage.buckets().contains_key(k)
                &&& final(self).storage.buckets()[k] == nb
                &&& forall|o: Seq<char>| o != k ==> (#[trigger] lookup(final(self).storage.buckets(), o) == lookup(
                    old(self).storage.buckets(),
                    o,
                ) || (!final(self).storage.buckets().contains_key(o) && old(self).storage.buckets().contains_key(o)
                    && window_elapsed(old(self).storage.buckets()[o], now, old(self).storage.interval_ms)))
                &&& final(self).refill == old(self).refill
                &&& final(self).key == old(self).key
                &&& final(self).rejected_code == old(self).rejected_code
                &&& final(self).rejected_msg == old(self).rejected_msg
                &&& final(self).show_limit_quota_header == old(self).show_limit_quota_header
                &&& final(self).storage.interval_ms == old(self).storage.interval_ms
                &&& final(self).storage.refill == old(self).storage.refill
                &&& match r {
                    LimitOutcome::Forward(h) => accepted && pairs_view(h@) == quota_headers(
                        old(self).show_limit_quota_header,
                        old(self).refill,
                        remaining,
                    ),
                    LimitOutcome::Reject { status, body, headers } => {
                        &&& !accepted
                        &&& status == old(self).rejected_code
                        &&& body@ == match old(self).rejected_msg {
                            Some(m) => m@,
                            None => Seq::empty(),
                        }
                        &&& pairs_view(headers@) == quota_headers(old(self).show_limit_quota_header, old(self).refill, 0)
                    },
                }
            }),
    {
        let key = self.request_key(req, ctx);
        let (accepted, remaining) = self.storage.check(key, now);
        self.outcome(accepted, remaining)
    }
}

/// Law: with a refill of zero every request is rejected, whatever the bucket
/// held and whenever it comes.
pub proof fn lemma_zero_refill_rejects(old: Option<Bucket>, now: u64, interval: u64)
    requires
        match old {
            Some(b) => b.1 == 0,
            None => true,
        },
    ensures
        !take_token(refreshed(old, now, interval, 0)).1,
        take_token(refreshed(old, now, interval, 0)).0.1 == 0,
{
}

/// Law: storage whose refill is zero never holds a token, so every request
/// is rejected: a check keeps that so.
pub proof fn lemma_zero_refill_storage(before: Map<Seq<char>, Bucket>, key: Seq<char>, now: u64, interval: u64)
    requires
        forall|k: Seq<char>| before.contains_key(k) ==> (#[trigger] before[k]).1 == 0,
    ensures
        !take_token(refreshed(lookup(before, key), now, interval, 0)).1,
        take_token(refreshed(lookup(before, key), now, interval, 0)).0.1 == 0,
{
}

} // verus!
