use vstd::prelude::*;
use crate::event::Event;
use crate::instance::{contains_client, contains_kind, HeldEvent, InstanceView, PluginInstance, PluginState};

verus! {

/// One entry of an update batch: an optional target plugin, an optional
/// target client, and the event. No plugin id means a broadcast.
#[derive(Debug)]
pub struct RouteEntry {
    pub plugin_id: Option<u32>,
    pub client_id: Option<u16>,
    pub event: Event,
}

/// An event handed to a ready instance's entry point.
#[derive(Debug)]
pub struct Delivery {
    pub plugin_id: u32,
    pub client_id: u16,
    pub event: Event,
}

/// What one routing cycle decided: the deliveries, in order, and the
/// instances to render afterwards, each once.
#[derive(Debug)]
pub struct RoutingOutcome {
    pub deliveries: Vec<Delivery>,
    pub renders: Vec<(u32, u16)>,
}

/// The entry selects the instance: by its id, or, for a broadcast, because
/// its client is registered and passes the entry's client filter, if any.
pub open spec fn addressed(inst: InstanceView, entry: RouteEntry, clients: Seq<u16>) -> bool {
    match entry.plugin_id {
        Some(p) => p == inst.id,
        None => clients.contains(inst.client_id) && match entry.client_id {
            Some(c) => c == inst.client_id,
            None => true,
        },
    }
}

/// The entry's event is handed to the instance at once: the instance is
/// ready and addressed, and a broadcast also needs its subscription.
pub open spec fn delivers(inst: InstanceView, entry: RouteEntry, clients: Seq<u16>) -> bool {
    &&& inst.state == PluginState::Ready
    &&& addressed(inst, entry, clients)
    &&& (entry.plugin_id.is_some() || inst.subscriptions.contains(entry.event.spec_kind()))
}

/// The entry's event is held back until the instance is ready.
pub open spec fn buffers(inst: InstanceView, entry: RouteEntry, clients: Seq<u16>) -> bool {
    inst.state == PluginState::Loading && addressed(inst, entry, clients)
}

/// The events of `batch` that a loading instance holds back, in batch order.
pub open spec fn buffered_events(inst: InstanceView, batch: Seq<RouteEntry>, clients: Seq<u16>) -> Seq<HeldEvent>
    decreases batch.len(),
{
    if batch.len() == 0 {
        seq![]
    } else {
        let prev = buffered_events(inst, batch.drop_last(), clients);
        if buffers(inst, batch.last(), clients) {
            prev.push(HeldEvent { by_id: batch.last().plugin_id.is_some(), event: batch.last().event })
        } else {
            prev
        }
    }
}

/// An instance after a batch was routed: its held-back events grow.
pub open spec fn after_batch(inst: InstanceView, batch: Seq<RouteEntry>, clients: Seq<u16>) -> InstanceView {
    InstanceView { pending: inst.pending + buffered_events(inst, batch, clients), ..inst }
}

/// The deliveries of one entry to the first `n` instances, in instance order.
pub open spec fn entry_deliveries(insts: Seq<InstanceView>, entry: RouteEntry, clients: Seq<u16>, n: int) -> Seq<Delivery>
    decreases n,
{
    if n <= 0 {
        seq![]
    } else {
        let prev = entry_deliveries(insts, entry, clients, n - 1);
        if delivers(insts[n - 1], entry, clients) {
            prev.push(Delivery { plugin_id: insts[n - 1].id, client_id: insts[n - 1].client_id, event: entry.event })
        } else {
            prev
        }
    }
}

/// All deliveries of a batch: entry by entry, and within an entry instance
/// by instance.
pub open spec fn batch_deliveries(insts: Seq<InstanceView>, batch: Seq<RouteEntry>, clients: Seq<u16>) -> Seq<Delivery>
    decreases batch.len(),
{
    if batch.len() == 0 {
        seq![]
    } else {
        batch_deliveries(insts, batch.drop_last(), clients)
            + entry_deliveries(insts, batch.last(), clients, insts.len() as int)
    }
}

/// Some entry of the batch is delivered to the instance.
pub open spec fn receives_any(inst: InstanceView, batch: Seq<RouteEntry>, clients: Seq<u16>) -> bool {
    exists|k: int| 0 <= k < batch.len() && delivers(inst, #[trigger] batch[k], clients)
}

/// Among the first `n` instances, those that a batch delivers to, each once,
/// in instance order.
pub open spec fn render_targets(insts: Seq<InstanceView>, batch: Seq<RouteEntry>, clients: Seq<u16>, n: int) -> Seq<(u32, u16)>
    decreases n,
{
    if n <= 0 {
        seq![]
    } else {
        let prev = render_targets(insts, batch, clients, n - 1);
        if receives_any(insts[n - 1], batch, clients) {
            prev.push((insts[n - 1].id, insts[n - 1].client_id))
        } else {
            prev
        }
    }
}

/// Executable form of `addressed`.
pub fn is_addressed(inst: &PluginInstance, entry: &RouteEntry, clients: &Vec<u16>) -> (r: bool)
    ensures
        r == addressed(inst@, *entry, clients@),
{
    match entry.plugin_id {
        Some(p) => p == inst.id,
        None => {
            let by_client = match entry.client_id {
                Some(c) => c == inst.client_id,
                None => true,
            };
            contains_client(clients, inst.client_id) && by_client
        },
    }
}

/// Executable form of `delivers`.
pub fn is_delivered(inst: &PluginInstance, entry: &RouteEntry, clients: &Vec<u16>) -> (r: bool)
    ensures
        r == delivers(inst@, *entry, clients@),
{
    inst.state == PluginState::Ready && is_addressed(inst, entry, clients)
        && (entry.plugin_id.is_some() || contains_kind(&inst.subscriptions, entry.event.kind()))
}

} // verus!
