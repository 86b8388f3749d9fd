//! The configuration compiler: from a snapshot to a routing tree whose
//! routes carry their resolved service and their ordered handlers.

use vstd::prelude::*;
use crate::chain::{PluginRef, PluginScope, sort_by_priority, sort_plugins};
use crate::config::{PluginConfig, ProxyConfig, RouteConfig, ServiceConfig, ServiceRef, priority_of};

verus! {

/// The service that serves a route.
#[derive(Clone, Copy, Debug, PartialEq, Eq, Structural)]
pub enum ServiceSource {
    /// The declared service at this position of the snapshot's services.
    Named(usize),
    /// The service written inline in the route.
    Inline,
}

/// One way of serving a request on a route: as a consumer, or anonymously.
#[derive(Clone, Debug)]
pub struct Handler {
    /// The consumer's position in the snapshot; `None` for the anonymous handler.
    pub consumer: Option<usize>,
    /// The plugin chain, in execution order.
    pub plugins: Vec<PluginRef>,
}

/// What serves a matched route.
#[derive(Clone, Debug)]
pub struct RouteEndpoint {
    /// The route's position in the snapshot.
    pub route: usize,
    pub service: ServiceSource,
    /// Consumer handlers in declaration order, then the anonymous handler.
    pub handlers: Vec<Handler>,
}

/// A route registered under a host, `*` standing for any host.
#[derive(Clone, Debug)]
pub struct RouteEntry {
    pub host: String,
    pub path: String,
    pub strip: bool,
    pub endpoint: RouteEndpoint,
}

/// A compiled snapshot: its routes in declaration order.
#[derive(Clone, Debug)]
pub struct RoutingTree {
    pub entries: Vec<RouteEntry>,
}

/// Why a snapshot does not compile.
#[derive(Clone, Debug)]
pub enum CompileError {
    /// A declared service has no name.
    MissingServiceName,
    /// A route refers to a service that is not declared.
    ServiceNotDefined(String),
}

/// The compiled form of a list of plugins declared in `scope`.
pub open spec fn refs_of(scope: PluginScope, ps: Seq<PluginConfig>) -> Seq<PluginRef> {
    Seq::new(ps.len(), |k: int| PluginRef { scope, index: k as usize, priority: priority_of(ps[k]) })
}

pub open spec fn is_named(s: ServiceConfig, n: Seq<char>) -> bool {
    s.name is Some && s.name->0@ == n
}

/// The last declared service named `n`, or -1.
pub open spec fn last_named(services: Seq<ServiceConfig>, n: Seq<char>) -> int
    decreases services.len(),
{
    if services.len() == 0 {
        -1
    } else if is_named(services.last(), n) {
        services.len() - 1
    } else {
        last_named(services.drop_last(), n)
    }
}

proof fn lemma_last_named_bounds(services: Seq<ServiceConfig>, n: Seq<char>)
    ensures
        -1 <= last_named(services, n) < services.len(),
        last_named(services, n) >= 0 ==> is_named(services[last_named(services, n)], n),
    decreases services.len(),
{
    if services.len() > 0 && !is_named(services.last(), n) {
        lemma_last_named_bounds(services.drop_last(), n);
    }
}

/// Every declared service has a name.
pub open spec fn all_named(cfg: ProxyConfig) -> bool {
    forall|j: int| 0 <= j < cfg.services@.len() ==> (#[trigger] cfg.services@[j]).name is Some
}

/// Route `i` refers to a service that is not declared.
pub open spec fn unresolved(cfg: ProxyConfig, i: int) -> bool {
    match cfg.routes@[i].service_ref {
        ServiceRef::Reference(n) => last_named(cfg.services@, n@) < 0,
        ServiceRef::Inline(_) => false,
    }
}

pub open spec fn service_of(cfg: ProxyConfig, i: int) -> ServiceSource {
    match cfg.routes@[i].service_ref {
        ServiceRef::Reference(n) => ServiceSource::Named(last_named(cfg.services@, n@) as usize),
        ServiceRef::Inline(_) => ServiceSource::Inline,
    }
}

pub open spec fn service_plugins(cfg: ProxyConfig, i: int) -> Seq<PluginConfig> {
    match cfg.routes@[i].service_ref {
        ServiceRef::Reference(n) => cfg.services@[last_named(cfg.services@, n@)].plugins@,
        ServiceRef::Inline(s) => s.plugins@,
    }
}

/// The plugins of route `i` for consumer `c` (anonymous when `None`), in
/// declaration order: service, route, consumer, global.
pub open spec fn declared_plugins(cfg: ProxyConfig, i: int, c: Option<int>) -> Seq<PluginRef> {
    refs_of(PluginScope::Service, service_plugins(cfg, i)) + refs_of(
        PluginScope::Route,
        cfg.routes@[i].plugins@,
    ) + match c {
        Some(c) => refs_of(PluginScope::Consumer, cfg.consumers@[c].plugins@),
        None => Seq::empty(),
    } + refs_of(PluginScope::Global, cfg.global_plugins@)
}

/// The host key of a route: its host, or `*` when it has none.
pub open spec fn host_key(h: Option<String>) -> Seq<char> {
    match h {
        Some(s) => if s@.len() > 0 { s@ } else { "*"@ },
        None => "*"@,
    }
}

/// `e` is the compiled form of route `i` of `cfg`.
pub open spec fn entry_compiled(cfg: ProxyConfig, i: int, e: RouteEntry) -> bool {
    let hs = e.endpoint.handlers@;
    let n = cfg.consumers@.len();
    &&& e.host@ == host_key(cfg.routes@[i].host)
    &&& e.path@ == cfg.routes@[i].path@
    &&& e.strip == cfg.routes@[i].strip
    &&& e.endpoint.route == i
    &&& e.endpoint.service == service_of(cfg, i)
    &&& hs.len() == if cfg.allow_anonymous { n + 1 } else { n }
    &&& forall|c: int|
        0 <= c < n ==> (#[trigger] hs[c]).consumer == Some(c as usize) && hs[c].plugins@
            == sort_by_priority(declared_plugins(cfg, i, Some(c)))
    &&& cfg.allow_anonymous ==> hs[n as int].consumer is None && hs[n as int].plugins@
        == sort_by_priority(declared_plugins(cfg, i, None))
}

/// `tree` is the compiled form of `cfg`.
pub open spec fn compiled(cfg: ProxyConfig, tree: RoutingTree) -> bool {
    &&& tree.entries@.len() == cfg.routes@.len()
    &&& forall|i: int|
        0 <= i < cfg.routes@.len() ==> entry_compiled(cfg, i, #[trigger] tree.entries@[i])
}

/// `cfg` is accepted by the compiler, and `tree` is what it produces.
pub open spec fn compiles_to(cfg: ProxyConfig, tree: RoutingTree) -> bool {
    &&& all_named(cfg)
    &&& forall|i: int| 0 <= i < cfg.routes@.len() ==> !unresolved(cfg, i)
    &&& compiled(cfg, tree)
}

/// What a handler is, as values.
pub struct HandlerView {
    pub consumer: Option<usize>,
    pub plugins: Seq<PluginRef>,
}

/// What a compiled route is, as values.
pub struct RouteEntryView {
    pub host: Seq<char>,
    pub path: Seq<char>,
    pub strip: bool,
    pub route: usize,
    pub service: ServiceSource,
    pub handlers: Seq<HandlerView>,
}

pub open spec fn handler_view(h: Handler) -> HandlerView {
    HandlerView { consumer: h.consumer, plugins: h.plugins@ }
}

pub open spec fn entry_view(e: RouteEntry) -> RouteEntryView {
    RouteEntryView {
        host: e.host@,
        path: e.path@,
        strip: e.strip,
        route: e.endpoint.route,
        service: e.endpoint.service,
        handlers: e.endpoint.handlers@.map_values(|h: Handler| handler_view(h)),
    }
}

pub open spec fn tree_view(t: RoutingTree) -> Seq<RouteEntryView> {
    t.entries@.map_values(|e: RouteEntry| entry_view(e))
}

fn append_refs(v: &mut Vec<PluginRef>, scope: PluginScope, ps: &Vec<PluginConfig>)
    ensures
        final(v)@ == old(v)@ + refs_of(scope, ps@),
{
    let ghost start = v@;
    let mut k: usize = 0;
    while k < ps.len()
        invariant
            k <= ps@.len(),
            v@ == start + refs_of(scope, ps@.subrange(0, k as int)),
        decreases ps@.len() - k,
    {
        let priority = ps[k].priority();
        v.push(PluginRef { scope, index: k, priority });
        k = k + 1;
        assert(refs_of(scope, ps@.subrange(0, k as int)) =~= refs_of(
            scope,
            ps@.subrange(0, k - 1 as int),
        ).push(PluginRef { scope, index: (k - 1) as usize, priority }));
    }
    assert(ps@.subrange(0, ps@.len() as int) =~= ps@);
}

/// Finds the last declared service with the given name.
fn find_service(services: &Vec<ServiceConfig>, name: &String) -> (r: Option<usize>)
    ensures
        match r {
            Some(j) => j as int == last_named(services@, name@) && j < services@.len(),
            None => last_named(services@, name@) < 0,
        },
{
    let mut j: usize = services.len();
    assert(services@.subrange(0, j as int) =~= services@);
    while j > 0
        invariant
            j <= services@.len(),
            last_named(services@, name@) == last_named(services@.subrange(0, j as int), name@),
        decreases j,
    {
        let s = &services[j - 1];
        let ghost pre = services@.subrange(0, j as int);
        assert(pre.last() == services@[j - 1]);
        assert(pre.drop_last() =~= services@.subrange(0, j - 1));
        match &s.name {
            Some(n) => {
                if n.eq(name) {
                    return Some(j - 1);
                }
            },
            None => {},
        }
        assert(!is_named(pre.last(), name@));
        j = j - 1;
    }
    None
}

fn host_of(route: &RouteConfig) -> (r: String)
    ensures
        r@ == host_key(route.host),
{
    match &route.host {
        Some(h) => {
            if !h.as_str().is_empty() {
                h.clone()
            } else {
                String::from_str("*")
            }
        },
        None => String::from_str("*"),
    }
}

fn compile_route(cfg: &ProxyConfig, i: usize, service: ServiceSource, svc_plugins: &Vec<PluginConfig>) -> (e: RouteEntry)
    requires
        i < cfg.routes@.len(),
        service == service_of(*cfg, i as int),
        svc_plugins@ == service_plugins(*cfg, i as int),
    ensures
        entry_compiled(*cfg, i as int, e),
{
    let route = &cfg.routes[i];
    let mut handlers: Vec<Handler> = Vec::new();
    let mut c: usize = 0;
    while c < cfg.consumers.len()
        invariant
            c <= cfg.consumers@.len(),
            route == cfg.routes@[i as int],
            svc_plugins@ == service_plugins(*cfg, i as int),
            handlers@.len() == c,
            forall|k: int|
                0 <= k < c ==> (#[trigger] handlers@[k]).consumer == Some(k as usize)
                    && handlers@[k].plugins@ == sort_by_priority(
                    declared_plugins(*cfg, i as int, Some(k)),
                ),
        decreases cfg.consumers@.len() - c,
    {
        let mut declared: Vec<PluginRef> = Vec::new();
        append_refs(&mut declared, PluginScope::Service, svc_plugins);
        append_refs(&mut declared, PluginScope::Route, &route.plugins);
        append_refs(&mut declared, PluginScope::Consumer, &cfg.consumers[c].plugins);
        append_refs(&mut declared, PluginScope::Global, &cfg.global_plugins);
        assert(declared@ =~= declared_plugins(*cfg, i as int, Some(c as int)));
        let plugins = sort_plugins(&declared);
        handlers.push(Handler { consumer: Some(c), plugins });
        c = c + 1;
    }
    if cfg.allow_anonymous {
        let mut declared: Vec<PluginRef> = Vec::new();
        append_refs(&mut declared, PluginScope::Service, svc_plugins);
        append_refs(&mut declared, PluginScope::Route, &route.plugins);
        append_refs(&mut declared, PluginScope::Global, &cfg.global_plugins);
        assert(declared@ =~= declared_plugins(*cfg, i as int, None));
        let plugins = sort_plugins(&declared);
        handlers.push(Handler { consumer: None, plugins });
    }
    RouteEntry {
        host: host_of(route),
        path: route.path.clone(),
        strip: route.strip,
        endpoint: RouteEndpoint { route: i, service, handlers },
    }
}

impl ProxyConfig {
    /// Compiles a snapshot into a routing tree.
    ///
    /// Fails with `MissingServiceName` when a declared service has no name, else
    /// with `ServiceNotDefined` naming the reference of the first route whose
    /// service is not declared; otherwise every route is compiled.
    pub fn create_endpoint(&self) -> (r: Result<RoutingTree, CompileError>)
        ensures
            match r {
                Err(CompileError::MissingServiceName) => !all_named(*self),
                Err(CompileError::ServiceNotDefined(n)) => {
                    &&& all_named(*self)
                    &&& exists|i: int|
                        0 <= i < self.routes@.len() && unresolved(*self, i) && (forall|k: int|
                            0 <= k < i ==> !unresolved(*self, k)) && self.routes@[i].service_ref
                            == ServiceRef::Reference(n)
                },
                Ok(tree) => compiles_to(*self, tree),
            },
    {
        let mut j: usize = 0;
        while j < self.services.len()
            invariant
                j <= self.services@.len(),
                forall|k: int| 0 <= k < j ==> (#[trigger] self.services@[k]).name is Some,
            decreases self.services@.len() - j,
        {
            if self.services[j].name.is_none() {
                return Err(CompileError::MissingServiceName);
            }
            j = j + 1;
        }
        let mut entries: Vec<RouteEntry> = Vec::new();
        let mut i: usize = 0;
        while i < self.routes.len()
            invariant
                i <= self.routes@.len(),
                all_named(*self),
                entries@.len() == i,
                forall|k: int| 0 <= k < i ==> !unresolved(*self, k),
                forall|k: int| 0 <= k < i ==> entry_compiled(*self, k, #[trigger] entries@[k]),
            decreases self.routes@.len() - i,
        {
            let route = &self.routes[i];
            let e = match &route.service_ref {
                ServiceRef::Reference(n) => {
                    match find_service(&self.services, n) {
                        Some(j) => compile_route(self, i, ServiceSource::Named(j), &self.services[j].plugins),
                        None => {
                            assert(unresolved(*self, i as int));
                            return Err(CompileError::ServiceNotDefined(n.clone()));
                        },
                    }
                },
                ServiceRef::Inline(s) => compile_route(self, i, ServiceSource::Inline, &s.plugins),
            };
            entries.push(e);
            i = i + 1;
        }
        Ok(RoutingTree { entries })
    }
}


/// The configuration of a compiled plugin of route `i` for consumer `c`.
pub open spec fn plugin_config(cfg: ProxyConfig, i: int, c: Option<usize>, p: PluginRef) -> Option<PluginConfig> {
    let list = match p.scope {
        PluginScope::Service => service_plugins(cfg, i),
        PluginScope::Route => cfg.routes@[i].plugins@,
        PluginScope::Consumer => match c {
            Some(c) => if c < cfg.consumers@.len() { cfg.consumers@[c as int].plugins@ } else { Seq::empty() },
            None => Seq::empty(),
        },
        PluginScope::Global => cfg.global_plugins@,
    };
    if p.index < list.len() { Some(list[p.index as int]) } else { None }
}

/// Finds the configuration of a compiled plugin.
pub fn resolve_plugin<'a>(cfg: &'a ProxyConfig, entry: &RouteEntry, consumer: Option<usize>, p: PluginRef) -> (r: Option<&'a PluginConfig>)
    requires
        entry.endpoint.route < cfg.routes@.len(),
        entry.endpoint.service == service_of(*cfg, entry.endpoint.route as int),
        all_named(*cfg),
        !unresolved(*cfg, entry.endpoint.route as int),
    ensures
        match r {
            Some(pc) => plugin_config(*cfg, entry.endpoint.route as int, consumer, p) == Some(*pc),
            None => plugin_config(*cfg, entry.endpoint.route as int, consumer, p) is None,
        },
{
    let i = entry.endpoint.route;
    let list: &Vec<PluginConfig> = match p.scope {
        PluginScope::Service => {
            match &cfg.routes[i].service_ref {
                ServiceRef::Reference(n) => {
                    proof { lemma_last_named_bounds(cfg.services@, n@); }
                    match entry.endpoint.service {
                        ServiceSource::Named(j) => {
                            if j >= cfg.services.len() {
                                return None;
                            }
                            assert(cfg.routes@[i as int].service_ref == ServiceRef::Reference(*n));
                            assert(!unresolved(*cfg, i as int));
                            &cfg.services[j].plugins
                        },
                        ServiceSource::Inline => { return None; },
                    }
                },
                ServiceRef::Inline(s) => &s.plugins,
            }
        },
        PluginScope::Route => &cfg.routes[i].plugins,
        PluginScope::Consumer => match consumer {
            Some(c) => {
                if c < cfg.consumers.len() {
                    &cfg.consumers[c].plugins
                } else {
                    return None;
                }
            },
            None => { return None; },
        },
        PluginScope::Global => &cfg.global_plugins,
    };
    assert(list@ == match p.scope {
        PluginScope::Service => service_plugins(*cfg, i as int),
        PluginScope::Route => cfg.routes@[i as int].plugins@,
        PluginScope::Consumer => match consumer {
            Some(c) => if c < cfg.consumers@.len() { cfg.consumers@[c as int].plugins@ } else { Seq::empty() },
            None => Seq::empty(),
        },
        PluginScope::Global => cfg.global_plugins@,
    });
    if p.index < list.len() {
        Some(&list[p.index])
    } else {
        None
    }
}

/// Law: a compiled snapshot has no dangling service reference. Every route
/// that refers to a service by name is served by a declared service of that
/// name.
pub proof fn lemma_reference_integrity(cfg: ProxyConfig, tree: RoutingTree, i: int)
    requires
        compiles_to(cfg, tree),
        0 <= i < cfg.routes@.len(),
        cfg.routes@[i].service_ref is Reference,
    ensures
        exists|j: int|
            0 <= j < cfg.services@.len() && is_named(
                cfg.services@[j],
                cfg.routes@[i].service_ref->Reference_0@,
            ) && tree.entries@[i].endpoint.service == ServiceSource::Named(j as usize),
{
    let n = cfg.routes@[i].service_ref->Reference_0@;
    lemma_last_named_bounds(cfg.services@, n);
    assert(entry_compiled(cfg, i, tree.entries@[i]));
    let j = last_named(cfg.services@, n);
    assert(!unresolved(cfg, i));
}

/// Law: in every handler of a compiled route the chain is the stable sort of
/// the handler's plugins (service, route, consumer, global) by descending
/// priority: ordered by descending priority, nothing added or lost, and
/// plugins of equal priority in declaration order.
pub proof fn lemma_compiled_plugin_order(cfg: ProxyConfig, tree: RoutingTree, i: int, h: int)
    requires
        compiles_to(cfg, tree),
        0 <= i < cfg.routes@.len(),
        0 <= h < cfg.consumers@.len() || (h == cfg.consumers@.len() && cfg.allow_anonymous),
    ensures
        ({
            let declared = if h < cfg.consumers@.len() {
                declared_plugins(cfg, i, Some(h))
            } else {
                declared_plugins(cfg, i, None)
            };
            let chain = tree.entries@[i].endpoint.handlers@[h].plugins@;
            &&& chain == sort_by_priority(declared)
            &&& crate::chain::priority_descending(chain)
            &&& chain.len() == declared.len()
            &&& forall|p: i32| #[trigger] crate::chain::with_priority(chain, p)
                == crate::chain::with_priority(declared, p)
        }),
{
    assert(entry_compiled(cfg, i, tree.entries@[i]));
    let hs = tree.entries@[i].endpoint.handlers@;
    if h < cfg.consumers@.len() {
        assert(hs[h].consumer == Some(h as usize));
        crate::chain::lemma_plugin_order(declared_plugins(cfg, i, Some(h)));
    } else {
        crate::chain::lemma_plugin_order(declared_plugins(cfg, i, None));
    }
}

/// Law: compiling one snapshot twice gives the same routing tree, so
/// reloading an unchanged snapshot serves requests as before.
pub proof fn lemma_compile_deterministic(cfg: ProxyConfig, t1: RoutingTree, t2: RoutingTree)
    requires
        compiles_to(cfg, t1),
        compiles_to(cfg, t2),
    ensures
        tree_view(t1) == tree_view(t2),
{
    assert forall|i: int| 0 <= i < cfg.routes@.len() implies #[trigger] entry_view(t1.entries@[i])
        == entry_view(t2.entries@[i]) by {
        let e1 = t1.entries@[i];
        let e2 = t2.entries@[i];
        assert(entry_compiled(cfg, i, e1));
        assert(entry_compiled(cfg, i, e2));
        let h1 = e1.endpoint.handlers@.map_values(|h: Handler| handler_view(h));
        let h2 = e2.endpoint.handlers@.map_values(|h: Handler| handler_view(h));
        let n = cfg.consumers@.len();
        assert forall|c: int| 0 <= c < h1.len() implies h1[c] == h2[c] by {
            if c < n {
                assert(e1.endpoint.handlers@[c].consumer == Some(c as usize));
                assert(e2.endpoint.handlers@[c].consumer == Some(c as usize));
            }
        }
        assert(h1 =~= h2);
    }
    assert(tree_view(t1) =~= tree_view(t2));
}

} // verus!
