use plugin_runtime::event::{Event, EventKind};
use plugin_runtime::instance::{PluginDefinition, PluginState};
use plugin_runtime::render::RenderCollector;
use plugin_runtime::router::RouteEntry;
use plugin_runtime::runtime::{CapabilityError, FsChange, LoadError, PluginRuntime};
use plugin_runtime::worker::{post_to_plugin, WorkerError, WorkerPool};

fn definition(location: &str, allow_exec_host_cmd: bool) -> PluginDefinition {
    PluginDefinition {
        location: location.to_string(),
        allow_exec_host_cmd,
        should_float: None,
        title: None,
    }
}

fn entry(plugin_id: Option<u32>, client_id: Option<u16>, event: Event) -> RouteEntry {
    RouteEntry { plugin_id, client_id, event }
}

fn input_for(client: u16) -> RouteEntry {
    entry(None, Some(client), Event::InputReceived)
}

#[test]
fn held_back_events_come_out_in_arrival_order() {
    let mut rt = PluginRuntime::new();
    rt.add_client(1);
    let id = rt.load(&definition("a.wasm", false), 0, 1, 10, 10).unwrap();
    rt.subscribe(id, EventKind::InputReceived);
    rt.subscribe(id, EventKind::FileSystemCreate);
    let first = rt.route(vec![
        entry(None, Some(1), Event::FileSystemCreate("x".to_string())),
        input_for(1),
    ]);
    let second = rt.route(vec![entry(Some(id), None, Event::FileSystemCreate("y".to_string()))]);
    assert!(first.deliveries.is_empty() && second.deliveries.is_empty());
    let held = rt.mark_ready(id).unwrap();
    let names: Vec<String> = held.iter().map(|e| format!("{:?}", e)).collect();
    assert_eq!(
        names,
        vec![
            "FileSystemCreate(\"x\")".to_string(),
            "InputReceived".to_string(),
            "FileSystemCreate(\"y\")".to_string(),
        ]
    );
    assert_eq!(rt.instances[0].state, PluginState::Ready);
    assert!(rt.instances[0].pending.is_empty());
    // later events go straight through
    let later = rt.route(vec![input_for(1)]);
    assert_eq!(later.deliveries.len(), 1);
    assert!(rt.instances[0].pending.is_empty());
    // a second readiness report finds nothing loading
    assert!(rt.mark_ready(id).is_none());
}

#[test]
fn held_back_events_of_unsubscribed_kinds_are_not_handed_out() {
    let mut rt = PluginRuntime::new();
    rt.add_client(1);
    let id = rt.load(&definition("a.wasm", false), 0, 1, 10, 10).unwrap();
    rt.route(vec![input_for(1), entry(None, Some(1), Event::SystemClipboardFailure)]);
    rt.subscribe(id, EventKind::SystemClipboardFailure);
    let held = rt.mark_ready(id).unwrap();
    assert_eq!(held.len(), 1);
    assert!(matches!(held[0], Event::SystemClipboardFailure));
}

#[test]
fn broadcast_reaches_ready_subscribed_instances_only() {
    let mut rt = PluginRuntime::new();
    rt.add_client(1);
    rt.add_client(2);
    let a = rt.load(&definition("a.wasm", false), 0, 1, 10, 10).unwrap();
    let b = rt.load(&definition("b.wasm", false), 0, 2, 10, 10).unwrap();
    let c = rt.load(&definition("c.wasm", false), 0, 1, 10, 10).unwrap();
    let d = rt.load(&definition("d.wasm", false), 0, 1, 10, 10).unwrap();
    let e = rt.load(&definition("e.wasm", false), 0, 3, 10, 10).unwrap();
    for id in [a, b, d, e] {
        rt.subscribe(id, EventKind::InputReceived);
    }
    for id in [a, b, c, e] {
        rt.mark_ready(id).unwrap();
    }
    // d is still loading, c is not subscribed, e's client is not registered
    let out = rt.route(vec![entry(None, None, Event::InputReceived)]);
    let ids: Vec<u32> = out.deliveries.iter().map(|x| x.plugin_id).collect();
    assert_eq!(ids, vec![a, b]);
    assert_eq!(rt.instances[3].pending.len(), 1);
    // with a client filter only that client's instance is reached
    let filtered = rt.route(vec![input_for(2)]);
    let ids: Vec<u32> = filtered.deliveries.iter().map(|x| x.plugin_id).collect();
    assert_eq!(ids, vec![b]);
}

#[test]
fn addressed_event_reaches_only_its_target() {
    let mut rt = PluginRuntime::new();
    rt.add_client(1);
    let a = rt.load(&definition("a.wasm", false), 0, 1, 10, 10).unwrap();
    let b = rt.load(&definition("b.wasm", false), 0, 1, 10, 10).unwrap();
    for id in [a, b] {
        rt.subscribe(id, EventKind::InputReceived);
        rt.mark_ready(id).unwrap();
    }
    let out = rt.route(vec![entry(Some(b), None, Event::InputReceived)]);
    assert_eq!(out.deliveries.len(), 1);
    assert_eq!(out.deliveries[0].plugin_id, b);
    // an id that does not exist is dropped silently
    let gone = rt.route(vec![entry(Some(77), None, Event::InputReceived)]);
    assert!(gone.deliveries.is_empty() && gone.renders.is_empty());
}

#[test]
fn many_deliveries_one_render_and_one_flush() {
    let mut rt = PluginRuntime::new();
    rt.add_client(1);
    let a = rt.load(&definition("a.wasm", false), 0, 1, 10, 10).unwrap();
    let b = rt.load(&definition("b.wasm", false), 0, 1, 10, 10).unwrap();
    for id in [a, b] {
        rt.subscribe(id, EventKind::InputReceived);
        rt.mark_ready(id).unwrap();
    }
    let out = rt.route(vec![input_for(1), input_for(1), input_for(1)]);
    assert_eq!(out.deliveries.len(), 6);
    assert_eq!(out.renders, vec![(a, 1), (b, 1)]);
    let mut collector = RenderCollector::new();
    for (p, c) in &out.renders {
        collector.on_instance_rendered(*p, *c, vec![1, 2, 3]);
    }
    let batch = collector.flush().unwrap();
    assert_eq!(batch, vec![(a, 1, vec![1, 2, 3]), (b, 1, vec![1, 2, 3])]);
    assert!(collector.flush().is_none());
}

#[test]
fn flush_of_empty_cycle_emits_nothing() {
    let mut collector = RenderCollector::new();
    assert!(collector.flush().is_none());
    assert!(collector.batch.is_empty());
}

#[test]
fn load_assigns_fresh_ids_and_rejects_bad_input() {
    let mut rt = PluginRuntime::new();
    assert_eq!(rt.load(&definition("a.wasm", false), 2, 1, 20, 121), Ok(0));
    assert_eq!(rt.load(&definition("b.wasm", false), 2, 1, 20, 121), Ok(1));
    assert_eq!(rt.instances[1].state, PluginState::Loading);
    assert_eq!(rt.instances[1].tab_index, 2);
    assert_eq!(rt.load(&definition("", false), 2, 1, 20, 121), Err(LoadError::InvalidReference));
    assert_eq!(rt.instances.len(), 2);
    rt.next_id = u32::MAX;
    assert_eq!(rt.load(&definition("c.wasm", false), 2, 1, 20, 121), Err(LoadError::IdsExhausted));
    assert_eq!(rt.instances.len(), 2);
}

#[test]
fn add_client_registers_once() {
    let mut rt = PluginRuntime::new();
    rt.add_client(4);
    rt.add_client(4);
    rt.add_client(5);
    assert_eq!(rt.clients, vec![4, 5]);
    assert!(rt.instances.is_empty());
}

#[test]
fn failed_load_discards_held_events() {
    let mut rt = PluginRuntime::new();
    rt.add_client(1);
    let id = rt.load(&definition("a.wasm", false), 0, 1, 10, 10).unwrap();
    rt.route(vec![input_for(1)]);
    assert!(rt.mark_failed(id));
    assert_eq!(rt.instances[0].state, PluginState::Failed);
    assert!(rt.instances[0].pending.is_empty());
    assert!(!rt.mark_failed(id));
    assert!(rt.mark_ready(id).is_none());
    let out = rt.route(vec![input_for(1)]);
    assert!(out.deliveries.is_empty());
    assert!(rt.instances[0].pending.is_empty());
}

#[test]
fn destroy_follows_the_lifecycle() {
    let mut rt = PluginRuntime::new();
    rt.add_client(1);
    let id = rt.load(&definition("a.wasm", false), 0, 1, 10, 10).unwrap();
    assert!(rt.watch(id, "/w".to_string()));
    // a loading instance cannot be destroyed
    assert!(!rt.destroy(id));
    rt.subscribe(id, EventKind::InputReceived);
    rt.mark_ready(id).unwrap();
    assert!(rt.destroy(id));
    assert_eq!(rt.instances[0].state, PluginState::Destroyed);
    assert!(rt.watches.is_empty());
    assert!(!rt.destroy(id));
    assert!(!rt.subscribe(id, EventKind::InputReceived));
    assert!(rt.route(vec![input_for(1)]).deliveries.is_empty());
    // the id is not handed out again
    assert_eq!(rt.load(&definition("b.wasm", false), 0, 1, 10, 10), Ok(1));
}

#[test]
fn filesystem_changes_reach_watching_subscribers() {
    let mut rt = PluginRuntime::new();
    rt.add_client(1);
    let a = rt.load(&definition("a.wasm", false), 0, 1, 10, 10).unwrap();
    let b = rt.load(&definition("b.wasm", false), 0, 1, 10, 10).unwrap();
    let c = rt.load(&definition("c.wasm", false), 0, 1, 10, 10).unwrap();
    rt.watch(a, "/w".to_string());
    rt.watch(b, "/w".to_string());
    rt.watch(c, "/other".to_string());
    for id in [a, c] {
        rt.subscribe(id, EventKind::FileSystemUpdate);
    }
    rt.subscribe(c, EventKind::FileSystemDelete);
    for id in [a, b, c] {
        rt.mark_ready(id).unwrap();
    }
    // b watches but did not subscribe, c subscribed but watches elsewhere
    let entries = rt.fs_notification(&"/w".to_string(), FsChange::Updated, &"/w/f".to_string());
    assert_eq!(entries.len(), 1);
    assert_eq!(entries[0].plugin_id, Some(a));
    let out = rt.route(entries);
    assert_eq!(out.deliveries.len(), 1);
    assert_eq!(out.deliveries[0].plugin_id, a);
    assert!(matches!(&out.deliveries[0].event, Event::FileSystemUpdate(p) if p == "/w/f"));
    let deleted = rt.fs_notification(&"/other".to_string(), FsChange::Deleted, &"/other/g".to_string());
    assert_eq!(deleted.len(), 1);
    assert!(matches!(&deleted[0].event, Event::FileSystemDelete(p) if p == "/other/g"));
    // a subscribed to updates only
    let created = rt.fs_notification(&"/w".to_string(), FsChange::Created, &"/w/h".to_string());
    assert!(created.is_empty());
}

#[test]
fn event_addressed_by_id_needs_no_subscription() {
    let mut rt = PluginRuntime::new();
    rt.add_client(1);
    let a = rt.load(&definition("a.wasm", false), 0, 1, 10, 10).unwrap();
    rt.mark_ready(a).unwrap();
    let out = rt.route(vec![entry(Some(a), None, Event::SystemClipboardFailure)]);
    assert_eq!(out.deliveries.len(), 1);
    assert_eq!(out.deliveries[0].plugin_id, a);
    assert_eq!(out.renders, vec![(a, 1)]);
    // a broadcast of the same kind does not reach it
    let broadcast = rt.route(vec![entry(None, Some(1), Event::SystemClipboardFailure)]);
    assert!(broadcast.deliveries.is_empty());
}

#[test]
fn client_filter_applies_to_broadcasts_only() {
    let mut rt = PluginRuntime::new();
    rt.add_client(1);
    let a = rt.load(&definition("a.wasm", false), 0, 1, 10, 10).unwrap();
    rt.subscribe(a, EventKind::InputReceived);
    rt.mark_ready(a).unwrap();
    let by_id = rt.route(vec![entry(Some(a), Some(9), Event::InputReceived)]);
    assert_eq!(by_id.deliveries.len(), 1);
    let filtered = rt.route(vec![entry(None, Some(9), Event::InputReceived)]);
    assert!(filtered.deliveries.is_empty());
}

#[test]
fn held_events_addressed_by_id_are_all_handed_out() {
    let mut rt = PluginRuntime::new();
    rt.add_client(1);
    let a = rt.load(&definition("a.wasm", false), 0, 1, 10, 10).unwrap();
    rt.route(vec![
        entry(Some(a), None, Event::SystemClipboardFailure),
        entry(None, Some(1), Event::InputReceived),
        entry(Some(a), None, Event::InputReceived),
    ]);
    assert_eq!(rt.instances[0].pending.len(), 3);
    assert!(rt.instances[0].pending[0].by_id);
    assert!(!rt.instances[0].pending[1].by_id);
    // never subscribed: the broadcast is dropped, both addressed ones stay
    let held = rt.mark_ready(a).unwrap();
    let names: Vec<String> = held.iter().map(|e| format!("{:?}", e)).collect();
    assert_eq!(names, vec!["SystemClipboardFailure".to_string(), "InputReceived".to_string()]);
}

#[test]
fn host_commands_need_the_granted_permission() {
    let mut rt = PluginRuntime::new();
    let plain = rt.load(&definition("a.wasm", false), 0, 1, 10, 10).unwrap();
    let trusted = rt.load(&definition("b.wasm", true), 0, 1, 10, 10).unwrap();
    assert_eq!(rt.authorize_host_command(trusted), Err(CapabilityError::NoSuchPlugin));
    rt.mark_ready(plain).unwrap();
    rt.mark_ready(trusted).unwrap();
    assert_eq!(rt.authorize_host_command(plain), Err(CapabilityError::Denied));
    assert_eq!(rt.authorize_host_command(trusted), Ok(()));
    assert_eq!(rt.authorize_host_command(9), Err(CapabilityError::NoSuchPlugin));
}

#[test]
fn event_kind_and_copy() {
    let e = Event::CustomMessage("n".to_string(), "p".to_string());
    assert_eq!(e.kind(), EventKind::CustomMessage);
    assert_eq!(format!("{:?}", e.duplicate()), format!("{:?}", e));
    assert_eq!(Event::FileSystemDelete("q".to_string()).kind(), EventKind::FileSystemDelete);
}

/// A runtime whose instances with ids 0 to `n - 1` are ready.
fn ready_runtime(n: u32) -> PluginRuntime {
    let mut rt = PluginRuntime::new();
    for _ in 0..n {
        let id = rt.load(&definition("w.wasm", false), 0, 1, 10, 10).unwrap();
        rt.mark_ready(id).unwrap();
    }
    rt
}

#[test]
fn workers_are_declared_only_for_ready_plugins() {
    let mut rt = PluginRuntime::new();
    let id = rt.load(&definition("a.wasm", false), 0, 1, 10, 10).unwrap();
    let mut pool = WorkerPool::new();
    assert!(!pool.declare_workers(&rt, id, &vec!["w".to_string()]));
    assert!(pool.workers.is_empty());
    rt.mark_ready(id).unwrap();
    assert!(pool.declare_workers(&rt, id, &vec!["w".to_string()]));
    assert_eq!(pool.workers.len(), 1);
    assert!(!pool.declare_workers(&rt, 5, &vec!["w".to_string()]));
}

#[test]
fn worker_reply_is_routed_to_its_plugin_only() {
    let mut rt = ready_runtime(2);
    rt.add_client(1);
    for id in [0, 1] {
        rt.subscribe(id, EventKind::CustomMessage);
    }
    let e = post_to_plugin(1, "w".to_string(), "hello".to_string());
    assert_eq!(e.plugin_id, Some(1));
    assert_eq!(e.client_id, None);
    let out = rt.route(vec![e]);
    assert_eq!(out.deliveries.len(), 1);
    assert_eq!(out.deliveries[0].plugin_id, 1);
    assert!(matches!(&out.deliveries[0].event, Event::CustomMessage(n, p) if n == "w" && p == "hello"));
}

#[test]
fn worker_counts_persist_per_worker() {
    let mut pool = WorkerPool::new();
    let a = "a".to_string();
    let b = "b".to_string();
    let key = "count".to_string();
    let rt = ready_runtime(8);
    pool.declare_workers(&rt, 7, &vec![a.clone(), b.clone(), a.clone()]);
    assert_eq!(pool.workers.len(), 2);
    assert_eq!(pool.value(7, &a, &key), None);
    assert_eq!(pool.bump(7, &a, &key), Some(1));
    assert_eq!(pool.bump(7, &a, &key), Some(2));
    assert_eq!(pool.value(7, &a, &key), Some(2));
    assert_eq!(pool.value(7, &b, &key), None);
    assert_eq!(pool.bump(7, &b, &key), Some(1));
    assert_eq!(pool.value(7, &a, &key), Some(2));
    pool.workers[0].state[0].1 = u64::MAX;
    assert_eq!(pool.bump(7, &a, &key), None);
    assert_eq!(pool.value(8, &a, &key), None);
}

#[test]
fn worker_messages_are_taken_in_order() {
    let mut pool = WorkerPool::new();
    let w = "w".to_string();
    let rt = ready_runtime(2);
    pool.declare_workers(&rt, 1, &vec![w.clone()]);
    pool.post_to_worker(1, &w, "one".to_string()).unwrap();
    pool.post_to_worker(1, &w, "two".to_string()).unwrap();
    assert_eq!(pool.take_message(1, &w), Some("one".to_string()));
    assert_eq!(pool.take_message(1, &w), Some("two".to_string()));
    assert_eq!(pool.take_message(1, &w), None);
}

#[test]
fn posting_to_missing_or_dead_worker_fails() {
    let mut pool = WorkerPool::new();
    let w = "w".to_string();
    assert_eq!(pool.post_to_worker(1, &w, "x".to_string()), Err(WorkerError::NoSuchWorker));
    let rt = ready_runtime(2);
    pool.declare_workers(&rt, 1, &vec![w.clone()]);
    pool.post_to_worker(1, &w, "x".to_string()).unwrap();
    assert!(pool.mark_crashed(1, &w));
    assert!(pool.workers[0].queue.is_empty());
    assert_eq!(pool.post_to_worker(1, &w, "y".to_string()), Err(WorkerError::WorkerDead));
    assert_eq!(pool.take_message(1, &w), None);
    assert_eq!(pool.bump(1, &w, &"k".to_string()), None);
    assert!(!pool.mark_crashed(2, &w));
}

#[test]
fn stopping_workers_discards_their_state() {
    let mut pool = WorkerPool::new();
    let w = "w".to_string();
    let k = "k".to_string();
    let rt = ready_runtime(3);
    pool.declare_workers(&rt, 1, &vec![w.clone()]);
    pool.declare_workers(&rt, 2, &vec![w.clone()]);
    pool.bump(1, &w, &k);
    pool.bump(2, &w, &k);
    pool.stop_plugin(1);
    assert!(!pool.workers[0].alive);
    assert_eq!(pool.value(1, &w, &k), None);
    assert_eq!(pool.value(2, &w, &k), Some(1));
    pool.stop_all();
    assert!(pool.workers.iter().all(|x| !x.alive && x.state.is_empty()));
}

