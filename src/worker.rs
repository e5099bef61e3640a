use vstd::prelude::*;
use crate::event::Event;
use crate::router::RouteEntry;
use crate::runtime::PluginRuntime;

verus! {

/// A stateful helper execution context owned by one plugin instance.
#[derive(Debug)]
pub struct WorkerInstance {
    pub plugin_id: u32,
    pub name: String,
    /// Messages waiting to be processed, oldest first.
    pub queue: Vec<String>,
    /// The worker's own persisted values, by key; a later entry for a key
    /// overrides an earlier one.
    pub state: Vec<(String, u64)>,
    /// A crashed worker is dead: posts to it fail and it processes nothing.
    pub alive: bool,
}

/// The abstract content of a worker.
pub struct WorkerView {
    pub plugin_id: u32,
    pub name: Seq<char>,
    pub queue: Seq<String>,
    pub state: Seq<(String, u64)>,
    pub alive: bool,
}

impl View for WorkerInstance {
    type V = WorkerView;

    open spec fn view(&self) -> WorkerView {
        WorkerView {
            plugin_id: self.plugin_id,
            name: self.name@,
            queue: self.queue@,
            state: self.state@,
            alive: self.alive,
        }
    }
}

/// Why a message could not be posted to a worker.
#[derive(Clone, Copy, Debug, PartialEq, Eq, Structural)]
pub enum WorkerError {
    /// The plugin declared no worker of that name.
    NoSuchWorker,
    /// The worker crashed earlier.
    WorkerDead,
}

/// The value stored under `key`: the last entry for it wins.
pub open spec fn store_value(s: Seq<(String, u64)>, key: Seq<char>) -> Option<u64>
    decreases s.len(),
{
    if s.len() == 0 {
        None
    } else if s.last().0@ == key {
        Some(s.last().1)
    } else {
        store_value(s.drop_last(), key)
    }
}

/// The count stored under `key`, zero when there is none.
pub open spec fn count_of(s: Seq<(String, u64)>, key: Seq<char>) -> nat {
    match store_value(s, key) {
        Some(v) => v as nat,
        None => 0,
    }
}

/// The worker is the one of plugin `p` named `name`.
pub open spec fn is_worker(w: WorkerView, p: u32, name: Seq<char>) -> bool {
    w.plugin_id == p && w.name == name
}

/// `new` is `old` after the count under `key` of worker (`p`, `name`) went up
/// by one: no other value and no other worker changed.
pub open spec fn pool_bumped(old: Seq<WorkerInstance>, new: Seq<WorkerInstance>, p: u32, name: Seq<char>, key: Seq<char>) -> bool {
    &&& new.len() == old.len()
    &&& forall|i: int| 0 <= i < old.len() ==> if is_worker(#[trigger] old[i]@, p, name) {
        &&& new[i]@ == WorkerView { state: new[i]@.state, ..old[i]@ }
        &&& count_of(new[i]@.state, key) == count_of(old[i]@.state, key) + 1
        &&& forall|k: Seq<char>| k != key ==> #[trigger] store_value(new[i]@.state, k) == store_value(old[i]@.state, k)
    } else {
        new[i]@ == old[i]@
    }
}

/// The value under the last entry `j` for `key` is what `key` holds.
pub proof fn lemma_store_last(s: Seq<(String, u64)>, key: Seq<char>, j: int)
    requires
        0 <= j < s.len(),
        s[j].0@ == key,
        forall|m: int| j < m < s.len() ==> s[m].0@ != key,
    ensures
        store_value(s, key) == Some(s[j].1),
    decreases s.len(),
{
    if j < s.len() - 1 {
        lemma_store_last(s.drop_last(), key, j);
    }
}

/// Without an entry for `key`, nothing is stored under it.
pub proof fn lemma_store_absent(s: Seq<(String, u64)>, key: Seq<char>)
    requires
        forall|m: int| 0 <= m < s.len() ==> s[m].0@ != key,
    ensures
        store_value(s, key) == None::<u64>,
    decreases s.len(),
{
    if s.len() > 0 {
        lemma_store_absent(s.drop_last(), key);
    }
}

/// Overwriting the last entry for `key` changes what `key` holds and nothing
/// else.
pub proof fn lemma_store_update(s: Seq<(String, u64)>, key: Seq<char>, j: int, v: (String, u64), other: Seq<char>)
    requires
        0 <= j < s.len(),
        s[j].0@ == key,
        v.0@ == key,
        forall|m: int| j < m < s.len() ==> s[m].0@ != key,
    ensures
        store_value(s.update(j, v), key) == Some(v.1),
        other != key ==> store_value(s.update(j, v), other) == store_value(s, other),
    decreases s.len(),
{
    let t = s.update(j, v);
    lemma_store_last(t, key, j);
    if j < s.len() - 1 {
        assert(t.drop_last() =~= s.drop_last().update(j, v));
        lemma_store_update(s.drop_last(), key, j, v, other);
    } else {
        assert(t.drop_last() =~= s.drop_last());
    }
}

/// Adding an entry for `key` at the end changes what `key` holds and
/// nothing else.
pub proof fn lemma_store_push(s: Seq<(String, u64)>, v: (String, u64), other: Seq<char>)
    ensures
        store_value(s.push(v), v.0@) == Some(v.1),
        other != v.0@ ==> store_value(s.push(v), other) == store_value(s, other),
{
    assert(s.push(v).drop_last() =~= s);
}

/// Position of the last entry for `key`.
pub fn last_entry(s: &Vec<(String, u64)>, key: &String) -> (r: Option<usize>)
    ensures
        match r {
            Some(j) => j < s@.len() && s@[j as int].0@ == key@
                && forall|m: int| j < m < s@.len() ==> s@[m].0@ != key@,
            None => forall|m: int| 0 <= m < s@.len() ==> s@[m].0@ != key@,
        },
{
    let mut k: usize = s.len();
    while k > 0
        invariant
            0 <= k <= s@.len(),
            forall|m: int| k <= m < s@.len() ==> s@[m].0@ != key@,
        decreases k,
    {
        if s[k - 1].0 == *key {
            return Some(k - 1);
        }
        k = k - 1;
    }
    None
}


/// The entry by which worker `name` sends `payload` back to its plugin: it
/// is routed to that plugin alone, like any other event, so the plugin's main
/// context still handles one event at a time.
pub fn post_to_plugin(plugin_id: u32, name: String, payload: String) -> (e: RouteEntry)
    ensures
        e == (RouteEntry { plugin_id: Some(plugin_id), client_id: None, event: Event::CustomMessage(name, payload) }),
{
    RouteEntry { plugin_id: Some(plugin_id), client_id: None, event: Event::CustomMessage(name, payload) }
}

/// The workers of every plugin instance.
#[derive(Debug)]
pub struct WorkerPool {
    pub workers: Vec<WorkerInstance>,
}

/// Whether some worker in `ws` is (`p`, `name`).
pub open spec fn has_worker(ws: Seq<WorkerView>, p: u32, name: Seq<char>) -> bool {
    exists|i: int| 0 <= i < ws.len() && is_worker(#[trigger] ws[i], p, name)
}

/// A newly declared worker: alive, with nothing queued and nothing stored.
pub open spec fn fresh_worker(p: u32, name: Seq<char>) -> WorkerView {
    WorkerView { plugin_id: p, name, queue: seq![], state: seq![], alive: true }
}

/// `ws` after plugin `p` declared `names`, in order: each name it has no
/// worker of yet gets a fresh one at the end.
pub open spec fn declared(ws: Seq<WorkerView>, p: u32, names: Seq<String>) -> Seq<WorkerView>
    decreases names.len(),
{
    if names.len() == 0 {
        ws
    } else {
        let prev = declared(ws, p, names.drop_last());
        if has_worker(prev, p, names.last()@) {
            prev
        } else {
            prev.push(fresh_worker(p, names.last()@))
        }
    }
}

impl WorkerPool {
    /// The workers' abstract contents, in order.
    pub open spec fn views(&self) -> Seq<WorkerView> {
        self.workers@.map_values(|w: WorkerInstance| w@)
    }

    /// Whether the pool has worker (`p`, `name`).
    pub open spec fn has(&self, p: u32, name: Seq<char>) -> bool {
        exists|i: int| 0 <= i < self.workers@.len() && is_worker(#[trigger] self.workers@[i]@, p, name)
    }

    /// No two workers share a plugin and a name.
    pub open spec fn wf(&self) -> bool {
        forall|i: int, j: int| 0 <= i < j < self.workers@.len() ==>
            !is_worker(#[trigger] self.workers@[i]@, (#[trigger] self.workers@[j]).plugin_id, self.workers@[j].name@)
    }

    /// A pool without workers.
    pub fn new() -> (r: WorkerPool)
        ensures
            r.wf(),
            r.workers@.len() == 0,
    {
        WorkerPool { workers: Vec::new() }
    }

    /// The position of worker (`plugin_id`, `name`).
    pub fn find(&self, plugin_id: u32, name: &String) -> (r: Option<usize>)
        requires
            self.wf(),
        ensures
            match r {
                Some(i) => i < self.workers@.len() && is_worker(self.workers@[i as int]@, plugin_id, name@),
                None => forall|i: int| 0 <= i < self.workers@.len() ==> !is_worker(#[trigger] self.workers@[i]@, plugin_id, name@),
            },
    {
        let mut i: usize = 0;
        while i < self.workers.len()
            invariant
                0 <= i <= self.workers@.len(),
                forall|j: int| 0 <= j < i ==> !is_worker(#[trigger] self.workers@[j]@, plugin_id, name@),
            decreases self.workers@.len() - i,
        {
            if self.workers[i].plugin_id == plugin_id && self.workers[i].name == *name {
                return Some(i);
            }
            i = i + 1;
        }
        None
    }

    /// Spawns one worker per declared name of a plugin once it is ready; a
    /// name it already has a worker of is skipped. Nothing is spawned, and
    /// `false` returned, while the plugin is not ready.
    pub fn declare_workers(&mut self, runtime: &PluginRuntime, plugin_id: u32, names: &Vec<String>) -> (r: bool)
        requires
            old(self).wf(),
            runtime.wf(),
        ensures
            final(self).wf(),
            r == runtime.is_ready(plugin_id),
            final(self).views() == if r {
                declared(old(self).views(), plugin_id, names@)
            } else {
                old(self).views()
            },
    {
        if !runtime.ready(plugin_id) {
            return false;
        }
        let mut k: usize = 0;
        while k < names.len()
            invariant
                0 <= k <= names@.len(),
                self.wf(),
                self.views() == declared(old(self).views(), plugin_id, names@.take(k as int)),
            decreases names@.len() - k,
        {
            assert(names@.take(k as int + 1).drop_last() =~= names@.take(k as int));
            let ghost before = self.views();
            match self.find(plugin_id, &names[k]) {
                Some(i) => {
                    assert(before[i as int] == self.workers@[i as int]@);
                    assert(is_worker(before[i as int], plugin_id, names@[k as int]@));
                },
                None => {
                    assert forall|m: int| 0 <= m < before.len() implies !is_worker(#[trigger] before[m], plugin_id, names@[k as int]@) by {
                        assert(before[m] == self.workers@[m]@);
                    }
                    assert(!has_worker(before, plugin_id, names@[k as int]@));
                    let w = WorkerInstance {
                        plugin_id,
                        name: names[k].clone(),
                        queue: Vec::new(),
                        state: Vec::new(),
                        alive: true,
                    };
                    self.workers.push(w);
                    assert(self.views() =~= before.push(fresh_worker(plugin_id, names@[k as int]@)));
                },
            }
            k = k + 1;
        }
        assert(names@.take(names@.len() as int) =~= names@);
        true
    }

    /// Queues a message for a worker. Fails when the plugin has no worker of
    /// that name, or the worker is dead.
    pub fn post_to_worker(&mut self, plugin_id: u32, name: &String, payload: String) -> (r: Result<(), WorkerError>)
        requires
            old(self).wf(),
        ensures
            final(self).wf(),
            r == Err::<(), WorkerError>(WorkerError::NoSuchWorker) <==> !old(self).has(plugin_id, name@),
            r.is_err() ==> final(self).workers@ == old(self).workers@,
            final(self).workers@.len() == old(self).workers@.len(),
            forall|i: int| 0 <= i < old(self).workers@.len() && is_worker(#[trigger] old(self).workers@[i]@, plugin_id, name@) ==> {
                &&& (r == Err::<(), WorkerError>(WorkerError::WorkerDead) <==> !old(self).workers@[i]@.alive)
                &&& (r.is_ok() ==> final(self).workers@[i]@ == WorkerView {
                    queue: old(self).workers@[i]@.queue.push(payload),
                    ..old(self).workers@[i]@
                })
            },
            r.is_ok() ==> forall|i: int| 0 <= i < old(self).workers@.len() && !is_worker(#[trigger] old(self).workers@[i]@, plugin_id, name@)
                ==> final(self).workers@[i]@ == old(self).workers@[i]@,
    {
        match self.find(plugin_id, name) {
            None => Err(WorkerError::NoSuchWorker),
            Some(i) => {
                if !self.workers[i].alive {
                    return Err(WorkerError::WorkerDead);
                }
                let ghost before = self.workers@;
                let mut w = self.workers.remove(i);
                w.queue.push(payload);
                self.workers.insert(i, w);
                assert forall|j: int| 0 <= j < before.len() && j != i implies self.workers@[j] == before[j] by {}
                Ok(())
            },
        }
    }

    /// Takes the oldest queued message of a live worker, so that it is
    /// processed to completion before the next one is taken.
    pub fn take_message(&mut self, plugin_id: u32, name: &String) -> (r: Option<String>)
        requires
            old(self).wf(),
        ensures
            final(self).wf(),
            final(self).workers@.len() == old(self).workers@.len(),
            r.is_none() ==> final(self).workers@ == old(self).workers@,
            r.is_some() <==> exists|i: int| 0 <= i < old(self).workers@.len()
                && is_worker(#[trigger] old(self).workers@[i]@, plugin_id, name@)
                && old(self).workers@[i]@.alive && old(self).workers@[i]@.queue.len() > 0,
            forall|i: int| 0 <= i < old(self).workers@.len() ==> if r.is_some() && is_worker(#[trigger] old(self).workers@[i]@, plugin_id, name@) {
                &&& r.unwrap() == old(self).workers@[i]@.queue[0]
                &&& final(self).workers@[i]@ == WorkerView { queue: old(self).workers@[i]@.queue.drop_first(), ..old(self).workers@[i]@ }
            } else {
                final(self).workers@[i]@ == old(self).workers@[i]@
            },
    {
        match self.find(plugin_id, name) {
            None => None,
            Some(i) => {
                if !self.workers[i].alive || self.workers[i].queue.len() == 0 {
                    return None;
                }
                let ghost before = self.workers@;
                let mut w = self.workers.remove(i);
                let m = w.queue.remove(0);
                assert(w.queue@ =~= before[i as int]@.queue.drop_first());
                self.workers.insert(i, w);
                assert forall|j: int| 0 <= j < before.len() && j != i implies self.workers@[j] == before[j] by {}
                Some(m)
            },
        }
    }

    /// The value a worker holds under `key`, if the worker exists.
    pub fn value(&self, plugin_id: u32, name: &String, key: &String) -> (r: Option<u64>)
        requires
            self.wf(),
        ensures
            !self.has(plugin_id, name@) ==> r.is_none(),
            forall|i: int| 0 <= i < self.workers@.len() && is_worker(#[trigger] self.workers@[i]@, plugin_id, name@)
                ==> r == store_value(self.workers@[i]@.state, key@),
    {
        match self.find(plugin_id, name) {
            None => None,
            Some(i) => {
                let st = &self.workers[i].state;
                match last_entry(st, key) {
                    Some(j) => {
                        proof { lemma_store_last(st@, key@, j as int); }
                        Some(st[j].1)
                    },
                    None => {
                        proof { lemma_store_absent(st@, key@); }
                        None
                    },
                }
            },
        }
    }

    /// Raises by one the count a live worker keeps under `key`, and returns
    /// the new count. `None`, with nothing changed, when there is no such live
    /// worker or the count is already the largest `u64`.
    pub fn bump(&mut self, plugin_id: u32, name: &String, key: &String) -> (r: Option<u64>)
        requires
            old(self).wf(),
        ensures
            final(self).wf(),
            r.is_none() ==> final(self).workers@ == old(self).workers@,
            r.is_some() <==> exists|i: int| 0 <= i < old(self).workers@.len()
                && is_worker(#[trigger] old(self).workers@[i]@, plugin_id, name@)
                && old(self).workers@[i]@.alive && count_of(old(self).workers@[i]@.state, key@) < u64::MAX,
            r.is_some() ==> pool_bumped(old(self).workers@, final(self).workers@, plugin_id, name@, key@),
            forall|i: int| 0 <= i < old(self).workers@.len() && r.is_some()
                && is_worker(#[trigger] old(self).workers@[i]@, plugin_id, name@)
                ==> r.unwrap() == count_of(old(self).workers@[i]@.state, key@) + 1,
    {
        match self.find(plugin_id, name) {
            None => None,
            Some(i) => {
                if !self.workers[i].alive {
                    return None;
                }
                let ghost before = self.workers@;
                let found = last_entry(&self.workers[i].state, key);
                match found {
                    Some(j) => {
                        proof { lemma_store_last(self.workers@[i as int].state@, key@, j as int); }
                        let cur = self.workers[i].state[j].1;
                        if cur == u64::MAX {
                            return None;
                        }
                        let mut w = self.workers.remove(i);
                        let ghost s0 = w.state@;
                        let entry = (key.clone(), cur + 1);
                        w.state.remove(j);
                        w.state.insert(j, entry);
                        assert(w.state@ =~= s0.update(j as int, entry));
                        proof {
                            assert forall|k: Seq<char>| k != key@ implies #[trigger] store_value(w.state@, k) == store_value(s0, k) by {
                                lemma_store_update(s0, key@, j as int, entry, k);
                            }
                            lemma_store_update(s0, key@, j as int, entry, key@);
                        }
                        self.workers.insert(i, w);
                        assert forall|m: int| 0 <= m < before.len() && m != i implies self.workers@[m] == before[m] by {}
                        Some(cur + 1)
                    },
                    None => {
                        proof { lemma_store_absent(self.workers@[i as int].state@, key@); }
                        let mut w = self.workers.remove(i);
                        let ghost s0 = w.state@;
                        let entry = (key.clone(), 1u64);
                        w.state.push(entry);
                        proof {
                            assert forall|k: Seq<char>| k != key@ implies #[trigger] store_value(w.state@, k) == store_value(s0, k) by {
                                lemma_store_push(s0, entry, k);
                            }
                            lemma_store_push(s0, entry, key@);
                        }
                        self.workers.insert(i, w);
                        assert forall|m: int| 0 <= m < before.len() && m != i implies self.workers@[m] == before[m] by {}
                        Some(1)
                    },
                }
            },
        }
    }

    /// Marks a worker dead after it failed while processing a message: its
    /// queue is discarded and later posts to it fail. Returns whether the
    /// worker exists.
    pub fn mark_crashed(&mut self, plugin_id: u32, name: &String) -> (r: bool)
        requires
            old(self).wf(),
        ensures
            final(self).wf(),
            r == old(self).has(plugin_id, name@),
            final(self).workers@.len() == old(self).workers@.len(),
            forall|i: int| 0 <= i < old(self).workers@.len() ==> final(self).workers@[i]@ == if is_worker(#[trigger] old(self).workers@[i]@, plugin_id, name@) {
                WorkerView { alive: false, queue: seq![], ..old(self).workers@[i]@ }
            } else {
                old(self).workers@[i]@
            },
    {
        match self.find(plugin_id, name) {
            None => false,
            Some(i) => {
                let ghost before = self.workers@;
                let mut w = self.workers.remove(i);
                w.alive = false;
                w.queue = Vec::new();
                self.workers.insert(i, w);
                assert forall|m: int| 0 <= m < before.len() && m != i implies self.workers@[m] == before[m] by {}
                true
            },
        }
    }

    /// Stops every worker of a plugin instance that is being destroyed: each
    /// becomes dead, and its queue and state are discarded.
    pub fn stop_plugin(&mut self, plugin_id: u32)
        requires
            old(self).wf(),
        ensures
            final(self).wf(),
            final(self).workers@.len() == old(self).workers@.len(),
            forall|i: int| 0 <= i < old(self).workers@.len() ==> final(self).workers@[i]@ == if (#[trigger] old(self).workers@[i]@).plugin_id == plugin_id {
                WorkerView { alive: false, queue: seq![], state: seq![], ..old(self).workers@[i]@ }
            } else {
                old(self).workers@[i]@
            },
    {
        let ghost before = self.workers@;
        let mut i: usize = 0;
        while i < self.workers.len()
            invariant
                0 <= i <= self.workers@.len(),
                self.wf(),
                self.workers@.len() == before.len(),
                forall|m: int| 0 <= m < before.len() ==> (#[trigger] self.workers@[m]@).plugin_id == before[m]@.plugin_id
                    && self.workers@[m]@.name == before[m]@.name,
                forall|m: int| 0 <= m < i ==> self.workers@[m]@ == if (#[trigger] before[m])@.plugin_id == plugin_id {
                    WorkerView { alive: false, queue: seq![], state: seq![], ..before[m]@ }
                } else {
                    before[m]@
                },
                forall|m: int| i <= m < before.len() ==> #[trigger] self.workers@[m] == before[m],
            decreases self.workers@.len() - i,
        {
            if self.workers[i].plugin_id == plugin_id {
                let ghost cur = self.workers@;
                let mut w = self.workers.remove(i);
                w.alive = false;
                w.queue = Vec::new();
                w.state = Vec::new();
                self.workers.insert(i, w);
                assert forall|m: int| 0 <= m < cur.len() && m != i implies self.workers@[m] == cur[m] by {}
            }
            i = i + 1;
        }
    }

    /// Stops every worker on exit: each becomes dead, and its queue and state
    /// are discarded.
    pub fn stop_all(&mut self)
        requires
            old(self).wf(),
        ensures
            final(self).wf(),
            final(self).workers@.len() == old(self).workers@.len(),
            forall|i: int| 0 <= i < old(self).workers@.len() ==> (#[trigger] final(self).workers@[i])@
                == (WorkerView { alive: false, queue: seq![], state: seq![], ..old(self).workers@[i]@ }),
    {
        let ghost before = self.workers@;
        let mut i: usize = 0;
        while i < self.workers.len()
            invariant
                0 <= i <= self.workers@.len(),
                self.wf(),
                self.workers@.len() == before.len(),
                forall|m: int| 0 <= m < before.len() ==> (#[trigger] self.workers@[m]@).plugin_id == before[m]@.plugin_id
                    && self.workers@[m]@.name == before[m]@.name,
                forall|m: int| 0 <= m < i ==> (#[trigger] self.workers@[m])@
                    == (WorkerView { alive: false, queue: seq![], state: seq![], ..before[m]@ }),
                forall|m: int| i <= m < before.len() ==> #[trigger] self.workers@[m] == before[m],
            decreases self.workers@.len() - i,
        {
            let ghost cur = self.workers@;
            let mut w = self.workers.remove(i);
            w.alive = false;
            w.queue = Vec::new();
            w.state = Vec::new();
            self.workers.insert(i, w);
            assert forall|m: int| 0 <= m < cur.len() && m != i implies self.workers@[m] == cur[m] by {}
            i = i + 1;
        }
    }
}

} // verus!
