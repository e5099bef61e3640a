use vstd::prelude::*;
use crate::event::Event;
use crate::instance::{InstanceView, PluginState};
use crate::render::flush_result;
use crate::router::{
    addressed, after_batch, batch_deliveries, buffered_events, delivers, entry_deliveries,
    receives_any, render_targets, Delivery, RouteEntry,
};
use crate::runtime::{made_ready, released_events};
use crate::worker::{count_of, is_worker, pool_bumped, WorkerInstance};

verus! {

/// No two instances share an id.
pub open spec fn ids_unique(insts: Seq<InstanceView>) -> bool {
    forall|a: int, b: int| 0 <= a < b < insts.len() ==> insts[a].id != insts[b].id
}

/// Some delivery of `ds` goes to instance `id`.
pub open spec fn delivered_to(ds: Seq<Delivery>, id: u32) -> bool {
    exists|m: int| 0 <= m < ds.len() && (#[trigger] ds[m]).plugin_id == id
}

/// Each delivery of an entry goes to one of the instances it delivers to,
/// and each of those gets one.
pub proof fn lemma_entry_deliveries_members(insts: Seq<InstanceView>, e: RouteEntry, clients: Seq<u16>, n: int)
    requires
        0 <= n <= insts.len(),
    ensures
        forall|m: int| 0 <= m < entry_deliveries(insts, e, clients, n).len() ==> exists|j: int|
            0 <= j < n && (#[trigger] entry_deliveries(insts, e, clients, n)[m]).plugin_id == insts[j].id
                && delivers(insts[j], e, clients),
        forall|j: int| 0 <= j < n && delivers(#[trigger] insts[j], e, clients) ==>
            delivered_to(entry_deliveries(insts, e, clients, n), insts[j].id),
    decreases n,
{
    if n > 0 {
        lemma_entry_deliveries_members(insts, e, clients, n - 1);
        let prev = entry_deliveries(insts, e, clients, n - 1);
        let cur = entry_deliveries(insts, e, clients, n);
        assert forall|j: int| 0 <= j < n && delivers(#[trigger] insts[j], e, clients) implies delivered_to(cur, insts[j].id) by {
            if j < n - 1 {
                let m = choose|m: int| 0 <= m < prev.len() && (#[trigger] prev[m]).plugin_id == insts[j].id;
                assert(cur[m] == prev[m]);
            } else {
                assert(cur[prev.len() as int].plugin_id == insts[j].id);
            }
        }
        assert forall|m: int| 0 <= m < cur.len() implies exists|j: int|
            0 <= j < n && (#[trigger] cur[m]).plugin_id == insts[j].id && delivers(insts[j], e, clients) by {
            if m < prev.len() {
                assert(cur[m] == prev[m]);
            } else {
                assert(cur[m].plugin_id == insts[n - 1].id);
            }
        }
    }
}

/// A batch delivers to an instance exactly when one of its entries does.
pub proof fn lemma_batch_deliveries_members(insts: Seq<InstanceView>, batch: Seq<RouteEntry>, clients: Seq<u16>)
    requires
        ids_unique(insts),
    ensures
        forall|i: int| 0 <= i < insts.len() ==>
            (delivered_to(batch_deliveries(insts, batch, clients), (#[trigger] insts[i]).id)
                <==> receives_any(insts[i], batch, clients)),
    decreases batch.len(),
{
    if batch.len() > 0 {
        let init = batch.drop_last();
        let e = batch.last();
        lemma_batch_deliveries_members(insts, init, clients);
        lemma_entry_deliveries_members(insts, e, clients, insts.len() as int);
        let prev = batch_deliveries(insts, init, clients);
        let ed = entry_deliveries(insts, e, clients, insts.len() as int);
        let all = batch_deliveries(insts, batch, clients);
        assert(all == prev + ed);
        assert forall|i: int| 0 <= i < insts.len() implies
            (delivered_to(all, (#[trigger] insts[i]).id) <==> receives_any(insts[i], batch, clients)) by {
            if delivered_to(all, insts[i].id) {
                let m = choose|m: int| 0 <= m < all.len() && (#[trigger] all[m]).plugin_id == insts[i].id;
                if m < prev.len() {
                    assert(prev[m] == all[m]);
                    assert(delivered_to(prev, insts[i].id));
                    let k = choose|k: int| 0 <= k < init.len() && delivers(insts[i], #[trigger] init[k], clients);
                    assert(batch[k] == init[k]);
                } else {
                    assert(ed[m - prev.len()] == all[m]);
                    let j = choose|j: int| 0 <= j < insts.len() && (#[trigger] ed[m - prev.len()]).plugin_id == insts[j].id
                        && delivers(insts[j], e, clients);
                    assert(j == i);
                    assert(batch[batch.len() - 1] == e);
                }
            }
            if receives_any(insts[i], batch, clients) {
                let k = choose|k: int| 0 <= k < batch.len() && delivers(insts[i], #[trigger] batch[k], clients);
                if k < batch.len() - 1 {
                    assert(init[k] == batch[k]);
                    assert(receives_any(insts[i], init, clients));
                    let m = choose|m: int| 0 <= m < prev.len() && (#[trigger] prev[m]).plugin_id == insts[i].id;
                    assert(all[m] == prev[m]);
                } else {
                    assert(delivered_to(ed, insts[i].id));
                    let m = choose|m: int| 0 <= m < ed.len() && (#[trigger] ed[m]).plugin_id == insts[i].id;
                    assert(all[prev.len() + m] == ed[m]);
                }
            }
        }
    }
}

/// A broadcast event reaches every ready instance that subscribed to its
/// kind, belongs to a registered client and passes the client filter, and
/// no other instance.
pub proof fn lemma_broadcast_reaches_exactly_subscribed(insts: Seq<InstanceView>, e: RouteEntry, clients: Seq<u16>)
    requires
        ids_unique(insts),
        e.plugin_id.is_none(),
    ensures
        forall|i: int| 0 <= i < insts.len() ==>
            (delivered_to(entry_deliveries(insts, e, clients, insts.len() as int), (#[trigger] insts[i]).id) <==> {
                &&& insts[i].state == PluginState::Ready
                &&& insts[i].subscriptions.contains(e.event.spec_kind())
                &&& clients.contains(insts[i].client_id)
                &&& (e.client_id.is_none() || e.client_id == Some(insts[i].client_id))
            }),
{
    lemma_entry_deliveries_members(insts, e, clients, insts.len() as int);
    let ed = entry_deliveries(insts, e, clients, insts.len() as int);
    assert forall|i: int| 0 <= i < insts.len() && delivered_to(ed, (#[trigger] insts[i]).id) implies
        delivers(insts[i], e, clients) by {
        let m = choose|m: int| 0 <= m < ed.len() && (#[trigger] ed[m]).plugin_id == insts[i].id;
        let j = choose|j: int| 0 <= j < insts.len() && (#[trigger] ed[m]).plugin_id == insts[j].id
            && delivers(insts[j], e, clients);
        assert(j == i);
    }
}

/// The events a loading instance holds back over two batches are those of
/// the first batch, then those of the second.
pub proof fn lemma_buffered_concat(inst: InstanceView, b1: Seq<RouteEntry>, b2: Seq<RouteEntry>, clients: Seq<u16>)
    ensures
        buffered_events(inst, b1 + b2, clients) == buffered_events(inst, b1, clients) + buffered_events(inst, b2, clients),
        buffered_events(after_batch(inst, b1, clients), b2, clients) == buffered_events(inst, b2, clients),
    decreases b2.len(),
{
    if b2.len() == 0 {
        assert(b1 + b2 =~= b1);
        assert(buffered_events(inst, b1, clients) + seq![] =~= buffered_events(inst, b1, clients));
    } else {
        lemma_buffered_concat(inst, b1, b2.drop_last(), clients);
        assert((b1 + b2).drop_last() =~= b1 + b2.drop_last());
        assert((b1 + b2).last() == b2.last());
        assert(buffered_events(inst, b1 + b2, clients) =~= buffered_events(inst, b1, clients) + buffered_events(inst, b2, clients));
    }
}

/// Once ready, an instance holds nothing back.
pub proof fn lemma_ready_holds_nothing(inst: InstanceView, batch: Seq<RouteEntry>, clients: Seq<u16>)
    requires
        inst.state == PluginState::Ready,
    ensures
        buffered_events(inst, batch, clients) == Seq::<crate::instance::HeldEvent>::empty(),
    decreases batch.len(),
{
    if batch.len() > 0 {
        lemma_ready_holds_nothing(inst, batch.drop_last(), clients);
    }
}

/// While an instance loads, nothing is delivered to it; every event routed
/// to it is held back, batch after batch, in arrival order, behind those
/// already held; and once it is ready nothing more is held back, so what
/// arrives later is delivered after what was held.
pub proof fn lemma_loading_holds_back_in_order(
    insts: Seq<InstanceView>,
    i: int,
    b1: Seq<RouteEntry>,
    b2: Seq<RouteEntry>,
    later: Seq<RouteEntry>,
    clients: Seq<u16>,
)
    requires
        ids_unique(insts),
        0 <= i < insts.len(),
        insts[i].state == PluginState::Loading,
    ensures
        after_batch(after_batch(insts[i], b1, clients), b2, clients) == after_batch(insts[i], b1 + b2, clients),
        after_batch(insts[i], b1 + b2, clients).pending == insts[i].pending
            + buffered_events(insts[i], b1, clients) + buffered_events(insts[i], b2, clients),
        !delivered_to(batch_deliveries(insts, b1 + b2, clients), insts[i].id),
        buffered_events(made_ready(after_batch(insts[i], b1 + b2, clients)), later, clients)
            == Seq::<crate::instance::HeldEvent>::empty(),
{
    let inst = insts[i];
    lemma_buffered_concat(inst, b1, b2, clients);
    let a1 = after_batch(inst, b1, clients);
    assert(a1.pending + buffered_events(a1, b2, clients) =~= inst.pending + buffered_events(inst, b1 + b2, clients));
    assert(inst.pending + buffered_events(inst, b1 + b2, clients) =~= inst.pending
        + buffered_events(inst, b1, clients) + buffered_events(inst, b2, clients));
    lemma_batch_deliveries_members(insts, b1 + b2, clients);
    lemma_ready_holds_nothing(made_ready(after_batch(inst, b1 + b2, clients)), later, clients);
}

/// The events of `batch` that a ready `inst` receives, in batch order.
pub open spec fn received_events(inst: InstanceView, batch: Seq<RouteEntry>, clients: Seq<u16>) -> Seq<Event>
    decreases batch.len(),
{
    if batch.len() == 0 {
        seq![]
    } else {
        let prev = received_events(inst, batch.drop_last(), clients);
        if delivers(inst, batch.last(), clients) {
            prev.push(batch.last().event)
        } else {
            prev
        }
    }
}

/// Nothing is lost or reordered by loading: what a loading instance holds
/// back from a batch and hands out on becoming ready is exactly what it would
/// have received, in the same order, had it been ready all along: every
/// event addressed to it by id, and the broadcast ones of kinds it
/// subscribed to.
pub proof fn lemma_held_events_match_ready_delivery(inst: InstanceView, batch: Seq<RouteEntry>, clients: Seq<u16>)
    requires
        inst.state == PluginState::Loading,
    ensures
        released_events(buffered_events(inst, batch, clients), inst.subscriptions)
            == received_events(made_ready(inst), batch, clients),
    decreases batch.len(),
{
    if batch.len() > 0 {
        lemma_held_events_match_ready_delivery(inst, batch.drop_last(), clients);
        let held = buffered_events(inst, batch, clients);
        let prev = buffered_events(inst, batch.drop_last(), clients);
        if held.len() > prev.len() {
            assert(held.drop_last() =~= prev);
        } else {
            assert(held == prev);
        }
    }
}

/// One routing cycle renders each instance that got a delivery exactly
/// once, however many of its deliveries asked for a render, and no other.
pub proof fn lemma_render_once_per_instance(insts: Seq<InstanceView>, batch: Seq<RouteEntry>, clients: Seq<u16>, n: int)
    requires
        ids_unique(insts),
        0 <= n <= insts.len(),
    ensures
        forall|a: int, b: int| 0 <= a < b < render_targets(insts, batch, clients, n).len() ==>
            (#[trigger] render_targets(insts, batch, clients, n)[a]).0
                != (#[trigger] render_targets(insts, batch, clients, n)[b]).0,
        forall|m: int| 0 <= m < render_targets(insts, batch, clients, n).len() ==> exists|j: int|
            0 <= j < n && (#[trigger] render_targets(insts, batch, clients, n)[m]).0 == insts[j].id
                && receives_any(insts[j], batch, clients),
        forall|j: int| 0 <= j < insts.len() ==>
            ((exists|m: int| 0 <= m < render_targets(insts, batch, clients, n).len()
                && (#[trigger] render_targets(insts, batch, clients, n)[m]).0 == insts[j].id)
            <==> (j < n && delivered_to(batch_deliveries(insts, batch, clients), (#[trigger] insts[j]).id))),
    decreases n,
{
    lemma_batch_deliveries_members(insts, batch, clients);
    if n > 0 {
        lemma_render_once_per_instance(insts, batch, clients, n - 1);
        let prev = render_targets(insts, batch, clients, n - 1);
        let cur = render_targets(insts, batch, clients, n);
        assert forall|m: int| 0 <= m < cur.len() implies exists|j: int|
            0 <= j < n && (#[trigger] cur[m]).0 == insts[j].id && receives_any(insts[j], batch, clients) by {
            if m < prev.len() {
                assert(cur[m] == prev[m]);
            }
        }
        assert forall|a: int, b: int| 0 <= a < b < cur.len() implies (#[trigger] cur[a]).0 != (#[trigger] cur[b]).0 by {
            if b < prev.len() {
                assert(cur[a] == prev[a] && cur[b] == prev[b]);
            } else {
                assert(cur[a] == prev[a]);
                let j = choose|j: int| 0 <= j < n - 1 && (#[trigger] prev[a]).0 == insts[j].id
                    && receives_any(insts[j], batch, clients);
                assert(cur[b].0 == insts[n - 1].id);
            }
        }
        assert forall|j: int| 0 <= j < insts.len() implies
            ((exists|m: int| 0 <= m < cur.len() && (#[trigger] cur[m]).0 == insts[j].id)
            <==> (j < n && delivered_to(batch_deliveries(insts, batch, clients), (#[trigger] insts[j]).id))) by {
            if exists|m: int| 0 <= m < cur.len() && (#[trigger] cur[m]).0 == insts[j].id {
                let m = choose|m: int| 0 <= m < cur.len() && (#[trigger] cur[m]).0 == insts[j].id;
                let jj = choose|jj: int| 0 <= jj < n && (#[trigger] cur[m]).0 == insts[jj].id
                    && receives_any(insts[jj], batch, clients);
                assert(jj == j);
            }
            if j < n && delivered_to(batch_deliveries(insts, batch, clients), insts[j].id) {
                if j < n - 1 {
                    let m = choose|m: int| 0 <= m < prev.len() && (#[trigger] prev[m]).0 == insts[j].id;
                    assert(cur[m] == prev[m]);
                } else {
                    assert(cur[prev.len() as int].0 == insts[j].id);
                }
            }
        }
    }
}

/// A cycle ends in one flush that hands out the gathered batch if it is not
/// empty; the collector is then empty, so a second flush in the same cycle
/// hands out nothing.
pub proof fn lemma_one_flush_per_cycle(batch: Seq<(u32, u16, Vec<u8>)>)
    ensures
        flush_result(batch).is_some() <==> batch.len() > 0,
        flush_result(batch).is_some() ==> flush_result(batch).unwrap() == batch,
        flush_result(Seq::<(u32, u16, Vec<u8>)>::empty()).is_none(),
{
}

/// A worker's persisted count survives between messages: counting the same
/// key while processing two messages, from no count, leaves 2, and no other
/// worker is touched.
pub proof fn lemma_worker_count_persists(
    first: Seq<WorkerInstance>,
    second: Seq<WorkerInstance>,
    third: Seq<WorkerInstance>,
    p: u32,
    name: Seq<char>,
    key: Seq<char>,
    i: int,
)
    requires
        0 <= i < first.len(),
        is_worker(first[i]@, p, name),
        count_of(first[i]@.state, key) == 0,
        pool_bumped(first, second, p, name, key),
        pool_bumped(second, third, p, name, key),
    ensures
        count_of(third[i]@.state, key) == 2,
        forall|j: int| 0 <= j < first.len() && !is_worker(#[trigger] first[j]@, p, name) ==> third[j]@ == first[j]@,
{
    assert(is_worker(second[i]@, p, name));
    assert forall|j: int| 0 <= j < first.len() && !is_worker(#[trigger] first[j]@, p, name) implies third[j]@ == first[j]@ by {
        assert(second[j]@ == first[j]@);
        assert(!is_worker(second[j]@, p, name));
    }
}

} // verus!
