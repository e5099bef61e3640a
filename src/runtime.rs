use vstd::prelude::*;
use crate::event::Event;
use crate::event::EventKind;
use crate::instance::{contains_client, contains_kind, HeldEvent, InstanceView, PluginDefinition, PluginInstance, PluginState};
use crate::router::{
    after_batch, batch_deliveries, buffered_events, buffers, delivers, entry_deliveries,
    is_addressed, is_delivered, receives_any, render_targets, Delivery, RouteEntry,
    RoutingOutcome,
};

verus! {

/// The registry of plugin instances and the routing state around it.
#[derive(Debug)]
pub struct PluginRuntime {
    pub instances: Vec<PluginInstance>,
    /// Clients eligible for broadcast delivery.
    pub clients: Vec<u16>,
    /// The id the next loaded instance gets.
    pub next_id: u32,
    /// Watched filesystem roots and the plugins watching them.
    pub watches: Vec<(String, u32)>,
}

impl PluginRuntime {
    /// The instances' abstract contents, in registry order.
    pub open spec fn insts(&self) -> Seq<InstanceView> {
        self.instances@.map_values(|i: PluginInstance| i@)
    }

    /// Instance ids are unique and all below `next_id`, so a new id is never
    /// one in use.
    pub open spec fn wf(&self) -> bool {
        &&& forall|i: int, j: int|
            0 <= i < j < self.instances@.len() ==> self.instances@[i].id != self.instances@[j].id
        &&& forall|i: int| 0 <= i < self.instances@.len() ==> self.instances@[i].id < self.next_id
    }

    /// A runtime with no instances, no clients and no watches.
    pub fn new() -> (r: PluginRuntime)
        ensures
            r.wf(),
            r.instances@.len() == 0,
            r.clients@.len() == 0,
            r.watches@.len() == 0,
            r.next_id == 0,
    {
        PluginRuntime { instances: Vec::new(), clients: Vec::new(), next_id: 0, watches: Vec::new() }
    }

    /// Routes an update batch. A ready instance gets, as deliveries in batch
    /// order, the events addressed to it by id and the broadcast events of
    /// kinds it subscribed to; a loading instance holds back every event
    /// addressed to it; every instance that got a delivery is rendered once.
    pub fn route(&mut self, batch: Vec<RouteEntry>) -> (out: RoutingOutcome)
        requires
            old(self).wf(),
        ensures
            final(self).wf(),
            final(self).clients@ == old(self).clients@,
            final(self).next_id == old(self).next_id,
            final(self).watches@ == old(self).watches@,
            final(self).instances@.len() == old(self).instances@.len(),
            forall|i: int| 0 <= i < old(self).instances@.len() ==>
                (#[trigger] final(self).instances@[i])@ == after_batch(old(self).instances@[i]@, batch@, old(self).clients@),
            out.deliveries@ == batch_deliveries(old(self).insts(), batch@, old(self).clients@),
            out.renders@ == render_targets(old(self).insts(), batch@, old(self).clients@, old(self).instances@.len() as int),
    {
        let ghost insts0 = self.insts();
        let ghost ids0 = self.instances@.map_values(|i: PluginInstance| i.id);
        let ghost clients = self.clients@;
        let ghost watches = self.watches@;
        let ghost next = self.next_id;
        let mut deliveries: Vec<Delivery> = Vec::new();
        let mut k: usize = 0;
        while k < batch.len()
            invariant
                0 <= k <= batch.len(),
                self.clients@ == clients,
                self.watches@ == watches,
                self.next_id == next,
                self.instances@.len() == insts0.len(),
                insts0.len() == ids0.len(),
                forall|i: int| 0 <= i < insts0.len() ==>
                    (#[trigger] self.instances@[i])@ == after_batch(insts0[i], batch@.take(k as int), clients),
                forall|i: int| 0 <= i < insts0.len() ==> (#[trigger] insts0[i]).id == ids0[i],
                deliveries@ == batch_deliveries(insts0, batch@.take(k as int), clients),
            decreases batch.len() - k,
        {
            let entry = &batch[k];
            let ghost upto = batch@.take(k as int);
            let ghost next_upto = batch@.take(k as int + 1);
            assert(next_upto.drop_last() =~= upto);
            assert(next_upto.last() == *entry);
            let mut j: usize = 0;
            while j < self.instances.len()
                invariant
                    0 <= j <= self.instances@.len(),
                    0 <= k < batch.len(),
                    *entry == batch@[k as int],
                    upto == batch@.take(k as int),
                    next_upto == batch@.take(k as int + 1),
                    next_upto.drop_last() == upto,
                    next_upto.last() == *entry,
                    self.clients@ == clients,
                    self.watches@ == watches,
                    self.next_id == next,
                    self.instances@.len() == insts0.len(),
                    forall|i: int| 0 <= i < j ==>
                        (#[trigger] self.instances@[i])@ == after_batch(insts0[i], next_upto, clients),
                    forall|i: int| j <= i < insts0.len() ==>
                        (#[trigger] self.instances@[i])@ == after_batch(insts0[i], upto, clients),
                    deliveries@ == batch_deliveries(insts0, upto, clients)
                        + entry_deliveries(insts0, *entry, clients, j as int),
                decreases self.instances@.len() - j,
            {
                let ghost cur = self.instances@[j as int]@;
                assert(delivers(cur, *entry, clients) == delivers(insts0[j as int], *entry, clients));
                assert(buffers(cur, *entry, clients) == buffers(insts0[j as int], *entry, clients));
                if is_delivered(&self.instances[j], entry, &self.clients) {
                    let d = Delivery {
                        plugin_id: self.instances[j].id,
                        client_id: self.instances[j].client_id,
                        event: entry.event.duplicate(),
                    };
                    deliveries.push(d);
                    assert(deliveries@ =~= batch_deliveries(insts0, upto, clients)
                        + entry_deliveries(insts0, *entry, clients, j as int + 1));
                } else {
                    if self.instances[j].state == PluginState::Loading
                        && is_addressed(&self.instances[j], entry, &self.clients) {
                        let mut inst = self.instances.remove(j);
                        inst.pending.push(HeldEvent { by_id: entry.plugin_id.is_some(), event: entry.event.duplicate() });
                        self.instances.insert(j, inst);
                        assert(inst.pending@ =~= insts0[j as int].pending
                            + buffered_events(insts0[j as int], next_upto, clients));
                    }
                    assert(deliveries@ =~= batch_deliveries(insts0, upto, clients)
                        + entry_deliveries(insts0, *entry, clients, j as int + 1));
                }
                assert(self.instances@[j as int]@ == after_batch(insts0[j as int], next_upto, clients));
                j = j + 1;
            }
            assert(deliveries@ == batch_deliveries(insts0, next_upto, clients));
            k = k + 1;
        }
        assert(batch@.take(batch@.len() as int) =~= batch@);
        let mut renders: Vec<(u32, u16)> = Vec::new();
        let mut j: usize = 0;
        while j < self.instances.len()
            invariant
                0 <= j <= self.instances@.len(),
                self.instances@.len() == insts0.len(),
                forall|i: int| 0 <= i < insts0.len() ==>
                    (#[trigger] self.instances@[i])@ == after_batch(insts0[i], batch@, clients),
                self.clients@ == clients,
                renders@ == render_targets(insts0, batch@, clients, j as int),
            decreases self.instances@.len() - j,
        {
            let mut any = false;
            let mut k: usize = 0;
            while k < batch.len()
                invariant
                    0 <= k <= batch.len(),
                    0 <= j < self.instances@.len(),
                    self.instances@.len() == insts0.len(),
                    self.instances@[j as int]@ == after_batch(insts0[j as int], batch@, clients),
                    self.clients@ == clients,
                    any == exists|m: int| 0 <= m < k && delivers(insts0[j as int], #[trigger] batch@[m], clients),
                decreases batch.len() - k,
            {
                if is_delivered(&self.instances[j], &batch[k], &self.clients) {
                    any = true;
                }
                k = k + 1;
            }
            assert(any == receives_any(insts0[j as int], batch@, clients));
            if any {
                renders.push((self.instances[j].id, self.instances[j].client_id));
            }
            j = j + 1;
        }
        assert forall|i: int| 0 <= i < self.instances@.len() implies
            self.instances@[i].id == ids0[i] by {
            assert(self.instances@[i]@.id == insts0[i].id);
        }
        RoutingOutcome { deliveries, renders }
    }
}

/// Why a plugin could not be loaded.
#[derive(Clone, Copy, Debug, PartialEq, Eq, Structural)]
pub enum LoadError {
    /// The definition names no code to load.
    InvalidReference,
    /// Every plugin id has been handed out.
    IdsExhausted,
}

/// The instance once it became ready: its held-back events are handed out.
pub open spec fn made_ready(v: InstanceView) -> InstanceView {
    InstanceView { state: PluginState::Ready, pending: seq![], ..v }
}

/// The instance once loading failed: its held-back events are discarded.
pub open spec fn made_failed(v: InstanceView) -> InstanceView {
    InstanceView { state: PluginState::Failed, pending: seq![], ..v }
}

/// The instance once destroyed.
pub open spec fn made_destroyed(v: InstanceView) -> InstanceView {
    InstanceView { state: PluginState::Destroyed, pending: seq![], subscriptions: seq![], ..v }
}

/// The held events handed out when an instance becomes ready, in order:
/// every one addressed to it by id, and the broadcast ones of a kind in
/// `subs`.
pub open spec fn released_events(held: Seq<HeldEvent>, subs: Seq<EventKind>) -> Seq<Event>
    decreases held.len(),
{
    if held.len() == 0 {
        seq![]
    } else {
        let prev = released_events(held.drop_last(), subs);
        if held.last().by_id || subs.contains(held.last().event.spec_kind()) {
            prev.push(held.last().event)
        } else {
            prev
        }
    }
}

/// `s` with `x` added at the end unless it is already there.
pub open spec fn with_added<T>(s: Seq<T>, x: T) -> Seq<T> {
    if s.contains(x) {
        s
    } else {
        s.push(x)
    }
}

impl PluginRuntime {
    /// Some instance with id `id` is ready.
    pub open spec fn is_ready(&self, id: u32) -> bool {
        exists|i: int| 0 <= i < self.instances@.len() && self.instances@[i].id == id
            && self.instances@[i].state == PluginState::Ready
    }

    /// Whether the instance with id `id` is ready.
    pub fn ready(&self, id: u32) -> (r: bool)
        requires
            self.wf(),
        ensures
            r == self.is_ready(id),
    {
        match self.position(id) {
            None => false,
            Some(i) => self.instances[i].state == PluginState::Ready,
        }
    }

    /// The position of the instance with id `id`.
    pub fn position(&self, id: u32) -> (r: Option<usize>)
        requires
            self.wf(),
        ensures
            match r {
                Some(i) => i < self.instances@.len() && self.instances@[i as int].id == id,
                None => forall|i: int| 0 <= i < self.instances@.len() ==> self.instances@[i].id != id,
            },
    {
        let mut i: usize = 0;
        while i < self.instances.len()
            invariant
                0 <= i <= self.instances@.len(),
                forall|j: int| 0 <= j < i ==> self.instances@[j].id != id,
            decreases self.instances@.len() - i,
        {
            if self.instances[i].id == id {
                return Some(i);
            }
            i = i + 1;
        }
        None
    }

    /// Moves instance `i` to `state` and hands back its held-back events.
    fn transition(&mut self, i: usize, state: PluginState) -> (pending: Vec<HeldEvent>)
        requires
            old(self).wf(),
            i < old(self).instances@.len(),
        ensures
            final(self).wf(),
            final(self).clients@ == old(self).clients@,
            final(self).next_id == old(self).next_id,
            final(self).watches@ == old(self).watches@,
            final(self).instances@.len() == old(self).instances@.len(),
            pending@ == old(self).instances@[i as int].pending@,
            final(self).instances@[i as int]@ == (InstanceView {
                state,
                pending: seq![],
                ..old(self).instances@[i as int]@
            }),
            forall|j: int| 0 <= j < old(self).instances@.len() && j != i ==>
                #[trigger] final(self).instances@[j] == old(self).instances@[j],
    {
        let mut inst = self.instances.remove(i);
        let mut pending: Vec<HeldEvent> = Vec::new();
        std::mem::swap(&mut pending, &mut inst.pending);
        inst.state = state;
        self.instances.insert(i, inst);
        pending
    }

    /// Registers a client as eligible for broadcast delivery.
    pub fn add_client(&mut self, client_id: u16)
        requires
            old(self).wf(),
        ensures
            final(self).wf(),
            final(self).clients@ == with_added(old(self).clients@, client_id),
            final(self).instances@ == old(self).instances@,
            final(self).next_id == old(self).next_id,
            final(self).watches@ == old(self).watches@,
    {
        if !contains_client(&self.clients, client_id) {
            self.clients.push(client_id);
        }
    }

    /// Registers a new instance of `definition`, loading, and returns its id.
    /// A definition without a location is refused, and so is a load once every
    /// id has been handed out.
    pub fn load(&mut self, definition: &PluginDefinition, tab_index: usize, client_id: u16, rows: usize, cols: usize) -> (r: Result<u32, LoadError>)
        requires
            old(self).wf(),
        ensures
            final(self).wf(),
            definition.location@.len() == 0 ==> r == Err::<u32, LoadError>(LoadError::InvalidReference),
            definition.location@.len() > 0 && old(self).next_id == u32::MAX ==>
                r == Err::<u32, LoadError>(LoadError::IdsExhausted),
            r.is_err() ==> *final(self) == *old(self),
            definition.location@.len() > 0 && old(self).next_id < u32::MAX ==> {
                &&& r == Ok::<u32, LoadError>(old(self).next_id)
                &&& final(self).next_id == old(self).next_id + 1
                &&& final(self).clients@ == old(self).clients@
                &&& final(self).watches@ == old(self).watches@
                &&& final(self).instances@.len() == old(self).instances@.len() + 1
                &&& forall|j: int| 0 <= j < old(self).instances@.len() ==>
                    #[trigger] final(self).instances@[j] == old(self).instances@[j]
                &&& final(self).instances@.last()@ == (InstanceView {
                    id: old(self).next_id,
                    tab_index,
                    client_id,
                    rows,
                    cols,
                    allow_exec_host_cmd: definition.allow_exec_host_cmd,
                    state: PluginState::Loading,
                    pending: seq![],
                    subscriptions: seq![],
                })
            },
    {
        if definition.location.as_str().is_empty() {
            return Err(LoadError::InvalidReference);
        }
        if self.next_id == u32::MAX {
            return Err(LoadError::IdsExhausted);
        }
        let id = self.next_id;
        let inst = PluginInstance {
            id,
            tab_index,
            client_id,
            rows,
            cols,
            allow_exec_host_cmd: definition.allow_exec_host_cmd,
            state: PluginState::Loading,
            pending: Vec::new(),
            subscriptions: Vec::new(),
        };
        self.instances.push(inst);
        self.next_id = id + 1;
        Ok(id)
    }

    /// Marks a loading instance ready and hands out, in arrival order, its
    /// held-back events: all those addressed to it by id, and the broadcast
    /// ones of kinds it subscribed to. `None` when no loading instance has
    /// that id.
    pub fn mark_ready(&mut self, id: u32) -> (r: Option<Vec<Event>>)
        requires
            old(self).wf(),
        ensures
            final(self).wf(),
            final(self).clients@ == old(self).clients@,
            final(self).next_id == old(self).next_id,
            final(self).watches@ == old(self).watches@,
            final(self).instances@.len() == old(self).instances@.len(),
            r.is_some() <==> exists|i: int| 0 <= i < old(self).instances@.len()
                && old(self).instances@[i].id == id && old(self).instances@[i].state == PluginState::Loading,
            forall|i: int| 0 <= i < old(self).instances@.len() ==>
                (#[trigger] final(self).instances@[i])@ == if old(self).instances@[i].id == id
                    && old(self).instances@[i].state == PluginState::Loading {
                    made_ready(old(self).instances@[i]@)
                } else {
                    old(self).instances@[i]@
                },
            forall|i: int| 0 <= i < old(self).instances@.len() && old(self).instances@[i].id == id && r.is_some() ==>
                r.unwrap()@ == released_events((#[trigger] old(self).instances@[i]).pending@, old(self).instances@[i].subscriptions@),
    {
        match self.position(id) {
            None => None,
            Some(i) => {
                if self.instances[i].state != PluginState::Loading {
                    return None;
                }
                let pending = self.transition(i, PluginState::Ready);
                let subs = &self.instances[i].subscriptions;
                let mut out: Vec<Event> = Vec::new();
                let mut k: usize = 0;
                while k < pending.len()
                    invariant
                        0 <= k <= pending@.len(),
                        out@ == released_events(pending@.take(k as int), subs@),
                    decreases pending@.len() - k,
                {
                    assert(pending@.take(k as int + 1).drop_last() =~= pending@.take(k as int));
                    if pending[k].by_id || contains_kind(subs, pending[k].event.kind()) {
                        out.push(pending[k].event.duplicate());
                    }
                    k = k + 1;
                }
                assert(pending@.take(pending@.len() as int) =~= pending@);
                Some(out)
            },
        }
    }

    /// Marks a loading instance failed, discarding its held-back events.
    /// Returns whether a loading instance had that id.
    pub fn mark_failed(&mut self, id: u32) -> (r: bool)
        requires
            old(self).wf(),
        ensures
            final(self).wf(),
            final(self).clients@ == old(self).clients@,
            final(self).next_id == old(self).next_id,
            final(self).watches@ == old(self).watches@,
            final(self).instances@.len() == old(self).instances@.len(),
            r <==> exists|i: int| 0 <= i < old(self).instances@.len()
                && old(self).instances@[i].id == id && old(self).instances@[i].state == PluginState::Loading,
            forall|i: int| 0 <= i < old(self).instances@.len() ==>
                (#[trigger] final(self).instances@[i])@ == if old(self).instances@[i].id == id
                    && old(self).instances@[i].state == PluginState::Loading {
                    made_failed(old(self).instances@[i]@)
                } else {
                    old(self).instances@[i]@
                },
    {
        match self.position(id) {
            None => false,
            Some(i) => {
                if self.instances[i].state != PluginState::Loading {
                    return false;
                }
                let _discarded = self.transition(i, PluginState::Failed);
                true
            },
        }
    }

    /// Records that an instance that is loading or ready receives broadcast
    /// events of `kind`. Returns whether such an instance had that id.
    pub fn subscribe(&mut self, id: u32, kind: EventKind) -> (r: bool)
        requires
            old(self).wf(),
        ensures
            final(self).wf(),
            final(self).clients@ == old(self).clients@,
            final(self).next_id == old(self).next_id,
            final(self).watches@ == old(self).watches@,
            final(self).instances@.len() == old(self).instances@.len(),
            r <==> exists|i: int| 0 <= i < old(self).instances@.len()
                && old(self).instances@[i].id == id && (old(self).instances@[i].state == PluginState::Loading
                || old(self).instances@[i].state == PluginState::Ready),
            forall|i: int| 0 <= i < old(self).instances@.len() ==>
                (#[trigger] final(self).instances@[i])@ == if r && old(self).instances@[i].id == id {
                    InstanceView {
                        subscriptions: with_added(old(self).instances@[i].subscriptions@, kind),
                        ..old(self).instances@[i]@
                    }
                } else {
                    old(self).instances@[i]@
                },
    {
        match self.position(id) {
            None => false,
            Some(i) => {
                let st = self.instances[i].state;
                if st != PluginState::Loading && st != PluginState::Ready {
                    return false;
                }
                let mut inst = self.instances.remove(i);
                if !contains_kind(&inst.subscriptions, kind) {
                    inst.subscriptions.push(kind);
                }
                self.instances.insert(i, inst);
                true
            },
        }
    }
}


/// What the filesystem watcher saw happen to a path.
#[derive(Clone, Copy, Debug, PartialEq, Eq, Structural)]
pub enum FsChange {
    Created,
    Updated,
    Deleted,
}

/// The event that reports `change` at `path`.
pub open spec fn fs_event(change: FsChange, path: String) -> Event {
    match change {
        FsChange::Created => Event::FileSystemCreate(path),
        FsChange::Updated => Event::FileSystemUpdate(path),
        FsChange::Deleted => Event::FileSystemDelete(path),
    }
}

/// Executable form of `fs_event`.
pub fn make_fs_event(change: FsChange, path: &String) -> (e: Event)
    ensures
        e == fs_event(change, *path),
{
    match change {
        FsChange::Created => Event::FileSystemCreate(path.clone()),
        FsChange::Updated => Event::FileSystemUpdate(path.clone()),
        FsChange::Deleted => Event::FileSystemDelete(path.clone()),
    }
}

/// Some instance with id `id` subscribed to `kind`.
pub open spec fn subscribed_to(insts: Seq<PluginInstance>, id: u32, kind: EventKind) -> bool {
    exists|i: int| 0 <= i < insts.len() && insts[i].id == id && insts[i].subscriptions@.contains(kind)
}

/// The entries that route `event` to each plugin watching `root` and
/// subscribed to the event's kind, in watch order, among the first `n`
/// watches.
pub open spec fn fs_entries(insts: Seq<PluginInstance>, watches: Seq<(String, u32)>, root: Seq<char>, event: Event, n: int) -> Seq<RouteEntry>
    decreases n,
{
    if n <= 0 {
        seq![]
    } else {
        let prev = fs_entries(insts, watches, root, event, n - 1);
        if watches[n - 1].0@ == root && subscribed_to(insts, watches[n - 1].1, event.spec_kind()) {
            prev.push(RouteEntry { plugin_id: Some(watches[n - 1].1), client_id: None, event })
        } else {
            prev
        }
    }
}

/// The watches of plugins other than `id`, among the first `n`, in order.
pub open spec fn watches_without(watches: Seq<(String, u32)>, id: u32, n: int) -> Seq<(String, u32)>
    decreases n,
{
    if n <= 0 {
        seq![]
    } else {
        let prev = watches_without(watches, id, n - 1);
        if watches[n - 1].1 != id {
            prev.push(watches[n - 1])
        } else {
            prev
        }
    }
}

/// Why a plugin's request for a host capability was turned down.
#[derive(Clone, Copy, Debug, PartialEq, Eq, Structural)]
pub enum CapabilityError {
    /// No ready instance has that id.
    NoSuchPlugin,
    /// The plugin was not granted the capability when it was loaded.
    Denied,
}

impl PluginRuntime {
    /// Destroys a ready or failed instance: it is kept in the registry, so its
    /// id is never reused, receives nothing more, and its watches are dropped.
    /// Returns whether such an instance had that id.
    pub fn destroy(&mut self, id: u32) -> (r: bool)
        requires
            old(self).wf(),
        ensures
            final(self).wf(),
            final(self).clients@ == old(self).clients@,
            final(self).next_id == old(self).next_id,
            final(self).instances@.len() == old(self).instances@.len(),
            r <==> exists|i: int| 0 <= i < old(self).instances@.len()
                && old(self).instances@[i].id == id && (old(self).instances@[i].state == PluginState::Ready
                || old(self).instances@[i].state == PluginState::Failed),
            forall|i: int| 0 <= i < old(self).instances@.len() ==>
                (#[trigger] final(self).instances@[i])@ == if r && old(self).instances@[i].id == id {
                    made_destroyed(old(self).instances@[i]@)
                } else {
                    old(self).instances@[i]@
                },
            final(self).watches@ == if r {
                watches_without(old(self).watches@, id, old(self).watches@.len() as int)
            } else {
                old(self).watches@
            },
    {
        match self.position(id) {
            None => false,
            Some(i) => {
                let st = self.instances[i].state;
                if st != PluginState::Ready && st != PluginState::Failed {
                    return false;
                }
                let _discarded = self.transition(i, PluginState::Destroyed);
                let mut inst = self.instances.remove(i);
                inst.subscriptions = Vec::new();
                self.instances.insert(i, inst);
                let mut kept: Vec<(String, u32)> = Vec::new();
                let mut k: usize = 0;
                while k < self.watches.len()
                    invariant
                        0 <= k <= self.watches@.len(),
                        kept@ == watches_without(self.watches@, id, k as int),
                    decreases self.watches@.len() - k,
                {
                    if self.watches[k].1 != id {
                        kept.push((self.watches[k].0.clone(), self.watches[k].1));
                    }
                    k = k + 1;
                }
                self.watches = kept;
                true
            },
        }
    }

    /// Starts watching `root` for a loading or ready instance. Returns whether
    /// such an instance had that id.
    pub fn watch(&mut self, id: u32, root: String) -> (r: bool)
        requires
            old(self).wf(),
        ensures
            final(self).wf(),
            final(self).clients@ == old(self).clients@,
            final(self).next_id == old(self).next_id,
            final(self).instances@ == old(self).instances@,
            r <==> exists|i: int| 0 <= i < old(self).instances@.len()
                && old(self).instances@[i].id == id && (old(self).instances@[i].state == PluginState::Loading
                || old(self).instances@[i].state == PluginState::Ready),
            final(self).watches@ == if r {
                old(self).watches@.push((root, id))
            } else {
                old(self).watches@
            },
    {
        match self.position(id) {
            None => false,
            Some(i) => {
                let st = self.instances[i].state;
                if st != PluginState::Loading && st != PluginState::Ready {
                    return false;
                }
                self.watches.push((root, id));
                true
            },
        }
    }

    /// Whether the instance with id `id` subscribed to `kind`.
    pub fn has_subscribed(&self, id: u32, kind: EventKind) -> (r: bool)
        requires
            self.wf(),
        ensures
            r == subscribed_to(self.instances@, id, kind),
    {
        match self.position(id) {
            None => false,
            Some(i) => contains_kind(&self.instances[i].subscriptions, kind),
        }
    }

    /// Turns a change reported by the filesystem watcher under `root` into
    /// one entry per plugin that watches `root` and subscribed to the
    /// change's kind, addressed to it by id: no other plugin receives it.
    pub fn fs_notification(&self, root: &String, change: FsChange, path: &String) -> (entries: Vec<RouteEntry>)
        requires
            self.wf(),
        ensures
            entries@ == fs_entries(self.instances@, self.watches@, root@, fs_event(change, *path), self.watches@.len() as int),
    {
        let kind = make_fs_event(change, path).kind();
        let mut entries: Vec<RouteEntry> = Vec::new();
        let mut k: usize = 0;
        while k < self.watches.len()
            invariant
                0 <= k <= self.watches@.len(),
                self.wf(),
                kind == fs_event(change, *path).spec_kind(),
                entries@ == fs_entries(self.instances@, self.watches@, root@, fs_event(change, *path), k as int),
            decreases self.watches@.len() - k,
        {
            if self.watches[k].0 == *root && self.has_subscribed(self.watches[k].1, kind) {
                entries.push(RouteEntry {
                    plugin_id: Some(self.watches[k].1),
                    client_id: None,
                    event: make_fs_event(change, path),
                });
            }
            k = k + 1;
        }
        entries
    }

    /// Decides whether a plugin may run a command on the host: only a ready
    /// instance that was granted the capability when loaded may.
    pub fn authorize_host_command(&self, id: u32) -> (r: Result<(), CapabilityError>)
        requires
            self.wf(),
        ensures
            r == Ok::<(), CapabilityError>(()) <==> exists|i: int| 0 <= i < self.instances@.len()
                && self.instances@[i].id == id && self.instances@[i].state == PluginState::Ready
                && self.instances@[i].allow_exec_host_cmd,
            r == Err::<(), CapabilityError>(CapabilityError::NoSuchPlugin) <==> forall|i: int|
                0 <= i < self.instances@.len() && self.instances@[i].id == id
                    ==> self.instances@[i].state != PluginState::Ready,
            r == Err::<(), CapabilityError>(CapabilityError::Denied) <==> exists|i: int| 0 <= i < self.instances@.len()
                && self.instances@[i].id == id && self.instances@[i].state == PluginState::Ready
                && !self.instances@[i].allow_exec_host_cmd,
    {
        match self.position(id) {
            None => Err(CapabilityError::NoSuchPlugin),
            Some(i) => {
                if self.instances[i].state != PluginState::Ready {
                    Err(CapabilityError::NoSuchPlugin)
                } else if !self.instances[i].allow_exec_host_cmd {
                    Err(CapabilityError::Denied)
                } else {
                    Ok(())
                }
            },
        }
    }
}

} // verus!
