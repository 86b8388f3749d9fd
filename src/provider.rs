//! Configuration providers: change detection of a watched file, the
//! key-value watch cache, and the reload controller that swaps the serving
//! data plane.

use vstd::prelude::*;
use crate::resources::{ResourceKind, ResourceTable, ServiceNotFoundError, parse_key, parse_resource_key, stored};
use crate::text::dec;

verus! {

/// Watches a configuration file; a snapshot is emitted when its text changes.
pub struct FileProvider {
    pub path: String,
    pub current: Option<String>,
}

impl FileProvider {
    pub fn new(path: String) -> (r: FileProvider)
        ensures
            r.path@ == path@,
            r.current is None,
    {
        FileProvider { path, current: None }
    }

    /// The file was read and holds `data`: whether it changed since the
    /// last read, in which case it is to be parsed and emitted.
    pub fn on_read(&mut self, data: String) -> (r: bool)
        ensures
            r == match old(self).current {
                Some(c) => c@ != data@,
                None => true,
            },
            final(self).current matches Some(c) && c@ == data@,
            final(self).path == old(self).path,
    {
        let changed = match &self.current {
            Some(c) => !c.eq(&data),
            None => true,
        };
        self.current = Some(data);
        changed
    }
}

/// The resources seen on a key-value store, by kind and id, kept up to date
/// from its change events.
pub struct ConfigValues {
    pub listeners: ResourceTable,
    pub consumers: ResourceTable,
    pub routes: ResourceTable,
    pub services: ResourceTable,
    pub global_plugins: ResourceTable,
}

pub open spec fn table_of(v: ConfigValues, k: ResourceKind) -> ResourceTable {
    match k {
        ResourceKind::Listeners => v.listeners,
        ResourceKind::Consumers => v.consumers,
        ResourceKind::Routes => v.routes,
        ResourceKind::Services => v.services,
        ResourceKind::GlobalPlugins => v.global_plugins,
    }
}

/// Only table `k` differs between `a` and `b`.
pub open spec fn others_same(a: ConfigValues, b: ConfigValues, k: ResourceKind) -> bool {
    forall|j: ResourceKind| j != k ==> #[trigger] table_of(a, j) == table_of(b, j)
}

impl ConfigValues {
    pub fn new() -> (r: ConfigValues)
        ensures
            forall|k: ResourceKind| (#[trigger] table_of(r, k)).entries@.len() == 0,
    {
        ConfigValues {
            listeners: ResourceTable::new(),
            consumers: ResourceTable::new(),
            routes: ResourceTable::new(),
            services: ResourceTable::new(),
            global_plugins: ResourceTable::new(),
        }
    }

    /// A resource was written under `key`: store it. Returns whether the key
    /// names a resource; other keys are ignored.
    pub fn add(&mut self, key: &String, prefix: &String, value: Vec<u8>) -> (r: bool)
        ensures
            match parse_key(key@, prefix@) {
                Some((k, id)) => r && stored(table_of(*final(self), k).entries@, id) == Some(value@)
                    && (forall|o: Seq<char>| o != id ==> #[trigger] stored(table_of(*final(self), k).entries@, o)
                    == stored(table_of(*old(self), k).entries@, o)) && others_same(*old(self), *final(self), k),
                None => !r && *final(self) == *old(self),
            },
    {
        match parse_resource_key(key, prefix) {
            None => false,
            Some((kind, id)) => {
                match kind {
                    ResourceKind::Listeners => self.listeners.put(id, value),
                    ResourceKind::Consumers => self.consumers.put(id, value),
                    ResourceKind::Routes => self.routes.put(id, value),
                    ResourceKind::Services => self.services.put(id, value),
                    ResourceKind::GlobalPlugins => self.global_plugins.put(id, value),
                }
                true
            },
        }
    }

    /// The resource under `key` was deleted: forget it. Returns whether the
    /// key names a resource.
    pub fn remove(&mut self, key: &String, prefix: &String) -> (r: bool)
        ensures
            match parse_key(key@, prefix@) {
                Some((k, id)) => r && stored(table_of(*final(self), k).entries@, id) is None
                    && (forall|o: Seq<char>| o != id ==> #[trigger] stored(table_of(*final(self), k).entries@, o)
                    == stored(table_of(*old(self), k).entries@, o)) && others_same(*old(self), *final(self), k),
                None => !r && *final(self) == *old(self),
            },
    {
        match parse_resource_key(key, prefix) {
            None => false,
            Some((kind, id)) => {
                match kind {
                    ResourceKind::Listeners => { self.listeners.remove_value(&id); },
                    ResourceKind::Consumers => { self.consumers.remove_value(&id); },
                    ResourceKind::Routes => { self.routes.remove_value(&id); },
                    ResourceKind::Services => { self.services.remove_value(&id); },
                    ResourceKind::GlobalPlugins => { self.global_plugins.remove_value(&id); },
                }
                true
            },
        }
    }
}

/// Stores a new route. A route that refers to a service by id is refused
/// when no such service exists; otherwise it gets a fresh id (`None` when
/// the id counter is exhausted).
pub fn create_route(routes: &mut ResourceTable, services: &ResourceTable, service_ref: Option<&String>, value: Vec<u8>) -> (r: Result<Option<String>, ServiceNotFoundError>)
    ensures
        match r {
            Err(e) => service_ref matches Some(id) && stored(services.entries@, id@) is None && e.0@ == id@
                && *final(routes) == *old(routes),
            Ok(Some(id)) => {
                &&& (service_ref matches Some(s) ==> stored(services.entries@, s@) is Some)
                &&& old(routes).last_id < u64::MAX
                &&& final(routes).last_id == old(routes).last_id + 1
                &&& id@ == dec(final(routes).last_id as nat)
                &&& stored(final(routes).entries@, id@) == Some(value@)
                &&& forall|o: Seq<char>| o != id@ ==> #[trigger] stored(final(routes).entries@, o)
                    == stored(old(routes).entries@, o)
            },
            Ok(None) => (service_ref matches Some(s) ==> stored(services.entries@, s@) is Some)
                && old(routes).last_id == u64::MAX && final(routes).entries@ == old(routes).entries@,
        },
{
    match service_ref {
        Some(id) => {
            match services.get_value(id) {
                None => { return Err(ServiceNotFoundError(id.clone())); },
                Some(_) => {},
            }
        },
        None => {},
    }
    Ok(routes.create_value(value))
}

/// The decision on an emitted snapshot.
#[derive(Clone, Copy, Debug, PartialEq, Eq, Structural)]
pub enum ReloadStep {
    /// The snapshot did not compile: keep serving as before.
    Retain,
    /// Abort the running data plane, if any, after the drain window, and
    /// start data plane `start` on the new routing tree.
    Replace { abort: Option<u64>, start: u64 },
}

/// Which data plane serves, and how many have been started.
pub struct ReloadController {
    pub serving: Option<u64>,
    pub generation: u64,
}

/// Only the newest data plane can be serving.
pub open spec fn newest_serves(c: ReloadController) -> bool {
    c.serving matches Some(g) ==> g == c.generation
}

/// The controller after an emitted snapshot, and its decision.
pub open spec fn snapshot_step(c: ReloadController, compiled: bool) -> (ReloadController, ReloadStep) {
    if !compiled || c.generation == u64::MAX {
        (c, ReloadStep::Retain)
    } else {
        let start = (c.generation + 1) as u64;
        (
            ReloadController { serving: Some(start), generation: start },
            ReloadStep::Replace { abort: c.serving, start },
        )
    }
}

impl ReloadController {
    pub fn new() -> (r: ReloadController)
        ensures
            r.serving is None,
            r.generation == 0,
            newest_serves(r),
    {
        ReloadController { serving: None, generation: 0 }
    }

    /// A snapshot was emitted and compiled (`compiled`) or not. A compiled
    /// snapshot replaces the serving data plane with a new one; newly
    /// accepted connections go to the new one only.
    pub fn on_snapshot(&mut self, compiled: bool) -> (r: ReloadStep)
        ensures
            (*final(self), r) == snapshot_step(*old(self), compiled),
    {
        if !compiled || self.generation == u64::MAX {
            return ReloadStep::Retain;
        }
        let start = self.generation + 1;
        let abort = self.serving;
        self.serving = Some(start);
        self.generation = start;
        ReloadStep::Replace { abort, start }
    }

    /// Data plane `g` could not bind its listeners: nothing serves.
    pub fn on_start_failed(&mut self, g: u64)
        ensures
            final(self).generation == old(self).generation,
            final(self).serving == if old(self).serving == Some(g) { None } else { old(self).serving },
            newest_serves(*old(self)) ==> newest_serves(*final(self)),
    {
        if self.serving == Some(g) {
            self.serving = None;
        }
    }
}

/// Law: swaps are atomic. When a snapshot replaces the data plane, the one
/// that served is the one aborted, the new one is started after every
/// earlier one, and it alone serves from then on; a snapshot that does not
/// compile changes nothing. Only the newest data plane ever serves.
pub proof fn lemma_swap(before: ReloadController, compiled: bool)
    requires
        newest_serves(before),
    ensures
        ({
            let (after, step) = snapshot_step(before, compiled);
            &&& newest_serves(after)
            &&& match step {
                ReloadStep::Retain => after == before,
                ReloadStep::Replace { abort, start } => {
                    &&& abort == before.serving
                    &&& (abort matches Some(g) ==> g < start)
                    &&& start > before.generation
                    &&& after.serving == Some(start)
                },
            }
        }),
{
}

} // verus!
