//! The route dispatcher: the first handler whose consumer accepts the
//! request serves it.

use vstd::prelude::*;
use crate::auth::{auth_accepts, authenticate};
use crate::cidr::{any_contains, any_contains_exec};
use crate::compile::{Handler, RouteEndpoint};
use crate::config::{ConsumerConfig, ConsumerFilterConfig};
use crate::context::PluginContext;
use crate::request::RequestHead;
use crate::text::pairs_view;

verus! {

/// The consumer filter passes the request; a peer without an IP address
/// fails a CIDR filter.
pub open spec fn filter_passes(f: ConsumerFilterConfig, req: RequestHead) -> bool {
    match f {
        ConsumerFilterConfig::Cidr { ip } => match req.remote {
            Some(addr) => any_contains(ip@, addr.ip),
            None => false,
        },
    }
}

/// Every filter of the list passes the request.
pub open spec fn filters_pass(fs: Seq<ConsumerFilterConfig>, req: RequestHead) -> bool {
    forall|k: int| 0 <= k < fs.len() ==> filter_passes(#[trigger] fs[k], req)
}

/// The handler may serve the request: the anonymous handler always, a
/// consumer's when its authentication accepts and its filters pass.
pub open spec fn handler_accepts(consumers: Seq<ConsumerConfig>, h: Handler, req: RequestHead) -> bool {
    match h.consumer {
        None => true,
        Some(c) => {
            &&& c < consumers.len()
            &&& match consumers[c as int].auth {
                None => true,
                Some(a) => auth_accepts(a, req),
            }
            &&& filters_pass(consumers[c as int].filters@, req)
        },
    }
}

/// The position of the first handler that accepts the request, or -1.
pub open spec fn first_accepting(consumers: Seq<ConsumerConfig>, hs: Seq<Handler>, req: RequestHead) -> int
    decreases hs.len(),
{
    if hs.len() == 0 {
        -1
    } else if handler_accepts(consumers, hs[0], req) {
        0
    } else {
        let k = first_accepting(consumers, hs.drop_first(), req);
        if k < 0 { -1 } else { k + 1 }
    }
}

pub proof fn lemma_first_accepting(consumers: Seq<ConsumerConfig>, hs: Seq<Handler>, req: RequestHead)
    ensures
        -1 <= first_accepting(consumers, hs, req) < hs.len(),
        first_accepting(consumers, hs, req) >= 0 ==> handler_accepts(
            consumers,
            hs[first_accepting(consumers, hs, req)],
            req,
        ),
        forall|j: int|
            0 <= j < hs.len() && (first_accepting(consumers, hs, req) < 0 || j < first_accepting(
                consumers,
                hs,
                req,
            )) ==> !handler_accepts(consumers, #[trigger] hs[j], req),
    decreases hs.len(),
{
    if hs.len() > 0 && !handler_accepts(consumers, hs[0], req) {
        let t = hs.drop_first();
        lemma_first_accepting(consumers, t, req);
        assert forall|j: int|
            0 <= j < hs.len() && (first_accepting(consumers, hs, req) < 0 || j < first_accepting(
                consumers,
                hs,
                req,
            )) implies !handler_accepts(consumers, #[trigger] hs[j], req) by {
            if j > 0 {
                assert(hs[j] == t[j - 1]);
            }
        }
    }
}

fn filter_check(f: &ConsumerFilterConfig, req: &RequestHead) -> (r: bool)
    ensures
        r == filter_passes(*f, *req),
{
    match f {
        ConsumerFilterConfig::Cidr { ip } => match &req.remote {
            Some(addr) => any_contains_exec(ip, addr.ip),
            None => false,
        },
    }
}

/// Checks every consumer filter of the list against the request.
pub fn check_consumer(filters: &Vec<ConsumerFilterConfig>, req: &RequestHead) -> (r: bool)
    ensures
        r == filters_pass(filters@, *req),
{
    let mut k: usize = 0;
    while k < filters.len()
        invariant
            k <= filters@.len(),
            forall|j: int| 0 <= j < k ==> filter_passes(#[trigger] filters@[j], *req),
        decreases filters@.len() - k,
    {
        if !filter_check(&filters[k], req) {
            return false;
        }
        k = k + 1;
    }
    true
}

fn accepts(consumers: &Vec<ConsumerConfig>, h: &Handler, req: &RequestHead) -> (r: bool)
    ensures
        r == handler_accepts(consumers@, *h, *req),
{
    match h.consumer {
        None => true,
        Some(c) => {
            if c >= consumers.len() {
                return false;
            }
            let consumer = &consumers[c];
            let auth_ok = match &consumer.auth {
                None => true,
                Some(a) => authenticate(a, req),
            };
            auth_ok && check_consumer(&consumer.filters, req)
        },
    }
}

impl RouteEndpoint {
    /// Selects the handler that serves the request: the first, in the
    /// compiled order, whose authentication accepts and whose filters pass.
    /// `None` means 401 Unauthorized.
    pub fn select_handler(&self, consumers: &Vec<ConsumerConfig>, req: &RequestHead) -> (r: Option<usize>)
        ensures
            match r {
                Some(i) => i as int == first_accepting(consumers@, self.handlers@, *req),
                None => first_accepting(consumers@, self.handlers@, *req) < 0,
            },
    {
        proof {
            lemma_first_accepting(consumers@, self.handlers@, *req);
        }
        let mut i: usize = 0;
        while i < self.handlers.len()
            invariant
                i <= self.handlers@.len(),
                forall|j: int| 0 <= j < i ==> !handler_accepts(consumers@, #[trigger] self.handlers@[j], *req),
                -1 <= first_accepting(consumers@, self.handlers@, *req) < self.handlers@.len(),
                first_accepting(consumers@, self.handlers@, *req) >= 0 ==> handler_accepts(
                    consumers@,
                    self.handlers@[first_accepting(consumers@, self.handlers@, *req)],
                    *req,
                ),
                forall|j: int|
                    0 <= j < self.handlers@.len() && (first_accepting(consumers@, self.handlers@, *req) < 0
                        || j < first_accepting(consumers@, self.handlers@, *req)) ==> !handler_accepts(
                        consumers@,
                        #[trigger] self.handlers@[j],
                        *req,
                    ),
            decreases self.handlers@.len() - i,
        {
            if accepts(consumers, &self.handlers[i], req) {
                return Some(i);
            }
            i = i + 1;
        }
        None
    }
}

/// A request ready for its plugin chain: the selected handler and the
/// context that the chain starts with.
pub struct Prepared {
    pub handler: usize,
    pub ctx: PluginContext,
}

impl RouteEndpoint {
    /// Selects the handler and builds the context: the client's address as
    /// `remoteAddr`, and for a consumer's handler its name, both as the
    /// consumer name and as the `consumerName` variable. `None` means 401
    /// Unauthorized.
    pub fn prepare(&self, consumers: &Vec<ConsumerConfig>, req: &RequestHead) -> (r: Option<Prepared>)
        ensures
            ({
                let k = first_accepting(consumers@, self.handlers@, *req);
                let base = match req.remote {
                    Some(a) => seq![("remoteAddr"@, a.ip_text@)],
                    None => Seq::empty(),
                };
                match r {
                    None => k < 0,
                    Some(p) => {
                        &&& p.handler as int == k
                        &&& match self.handlers@[k].consumer {
                            None => p.ctx.consumer_name is None && pairs_view(p.ctx.vars@) == base,
                            Some(c) => c < consumers@.len() && p.ctx.consumer_name == Some(consumers@[c as int].name)
                                && pairs_view(p.ctx.vars@) == base.push(("consumerName"@, consumers@[c as int].name@)),
                        }
                    },
                }
            }),
    {
        let h = match self.select_handler(consumers, req) {
            None => { return None; },
            Some(h) => h,
        };
        proof {
            lemma_first_accepting(consumers@, self.handlers@, *req);
        }
        let mut ctx = PluginContext::new(req);
        match self.handlers[h].consumer {
            None => {},
            Some(c) => {
                let name = consumers[c].name.clone();
                ctx.insert(String::from_str("consumerName"), name.clone());
                ctx.set_consumer_name(name);
            },
        }
        Some(Prepared { handler: h, ctx })
    }
}

/// Consumer `c` accepts the request: its authentication, if any, accepts it
/// and all its filters pass.
pub open spec fn consumer_accepts(consumers: Seq<ConsumerConfig>, c: int, req: RequestHead) -> bool {
    &&& match consumers[c].auth {
        None => true,
        Some(a) => auth_accepts(a, req),
    }
    &&& filters_pass(consumers[c].filters@, req)
}

/// Law: on a compiled route the dispatcher selects the first consumer, in
/// declaration order, that accepts the request; when none does, the
/// anonymous handler; and only when anonymous access is suppressed does it
/// find no handler (401 Unauthorized).
pub proof fn lemma_handler_precedence(cfg: crate::config::ProxyConfig, tree: crate::compile::RoutingTree, i: int, req: RequestHead)
    requires
        crate::compile::compiles_to(cfg, tree),
        0 <= i < cfg.routes@.len(),
        cfg.consumers@.len() <= usize::MAX,
    ensures
        ({
            let hs = tree.entries@[i].endpoint.handlers@;
            let n = cfg.consumers@.len() as int;
            let k = first_accepting(cfg.consumers@, hs, req);
            &&& 0 <= k < n ==> consumer_accepts(cfg.consumers@, k, req) && hs[k].consumer == Some(k as usize)
            &&& 0 <= k ==> forall|c: int| 0 <= c < k ==> !consumer_accepts(cfg.consumers@, c, req)
            &&& k == n ==> cfg.allow_anonymous && hs[k].consumer is None
            &&& k < 0 <==> !cfg.allow_anonymous && forall|c: int| 0 <= c < n ==> !consumer_accepts(cfg.consumers@, c, req)
        }),
{
    let hs = tree.entries@[i].endpoint.handlers@;
    let n = cfg.consumers@.len() as int;
    let cs = cfg.consumers@;
    assert(crate::compile::entry_compiled(cfg, i, tree.entries@[i]));
    lemma_first_accepting(cs, hs, req);
    let k = first_accepting(cs, hs, req);
    assert forall|c: int| 0 <= c < n implies (#[trigger] handler_accepts(cs, hs[c], req)) == consumer_accepts(cs, c, req) by {
        assert(hs[c].consumer == Some(c as usize));
    }
    if k >= 0 {
        assert forall|c: int| 0 <= c < k implies !consumer_accepts(cs, c, req) by {
            assert(!handler_accepts(cs, hs[c], req));
        }
        if k < n {
            assert(handler_accepts(cs, hs[k], req));
        }
    }
    if cfg.allow_anonymous {
        assert(handler_accepts(cs, hs[n], req));
        assert(k >= 0);
    } else {
        if k < 0 {
            assert forall|c: int| 0 <= c < n implies !consumer_accepts(cs, c, req) by {
                assert(!handler_accepts(cs, hs[c], req));
            }
        } else {
            assert(k < n);
            assert(consumer_accepts(cs, k, req));
        }
    }
}

/// Law: on a route with no consumer and no plugin anywhere, the request
/// goes straight to the service: the one handler is anonymous, it has no
/// plugin, and it is selected.
pub proof fn lemma_anonymous_pass_through(cfg: crate::config::ProxyConfig, tree: crate::compile::RoutingTree, i: int, req: RequestHead)
    requires
        crate::compile::compiles_to(cfg, tree),
        0 <= i < cfg.routes@.len(),
        cfg.consumers@.len() == 0,
        cfg.allow_anonymous,
        cfg.routes@[i].plugins@.len() == 0,
        cfg.global_plugins@.len() == 0,
        crate::compile::service_plugins(cfg, i).len() == 0,
    ensures
        tree.entries@[i].endpoint.handlers@.len() == 1,
        tree.entries@[i].endpoint.handlers@[0].consumer is None,
        tree.entries@[i].endpoint.handlers@[0].plugins@.len() == 0,
        first_accepting(cfg.consumers@, tree.entries@[i].endpoint.handlers@, req) == 0,
{
    assert(crate::compile::entry_compiled(cfg, i, tree.entries@[i]));
    assert(crate::compile::declared_plugins(cfg, i, None) =~= Seq::empty());
    assert(crate::chain::sort_by_priority(Seq::empty()) == Seq::<crate::chain::PluginRef>::empty());
}

} // verus!
