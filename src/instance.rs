use vstd::prelude::*;
use crate::event::{Event, EventKind};

verus! {

/// Lifecycle of a plugin instance.
#[derive(Clone, Copy, Debug, PartialEq, Eq, Structural)]
pub enum PluginState {
    Loading,
    Ready,
    Failed,
    Destroyed,
}

/// What a plugin is loaded from, and what it is allowed to do.
#[derive(Debug)]
pub struct PluginDefinition {
    /// Where the plugin's code lives (a file location or a built-in alias).
    pub location: String,
    /// Whether the plugin may run commands on the host.
    pub allow_exec_host_cmd: bool,
    pub should_float: Option<bool>,
    pub title: Option<String>,
}

/// An event held back for a loading instance, and whether it was addressed
/// to the instance by id (rather than broadcast).
#[derive(Debug)]
pub struct HeldEvent {
    pub by_id: bool,
    pub event: Event,
}

/// One running (or loading) occurrence of a plugin.
#[derive(Debug)]
pub struct PluginInstance {
    pub id: u32,
    pub tab_index: usize,
    pub client_id: u16,
    pub rows: usize,
    pub cols: usize,
    pub allow_exec_host_cmd: bool,
    pub state: PluginState,
    /// Events held back while the instance is loading, oldest first.
    pub pending: Vec<HeldEvent>,
    /// Event kinds the instance receives when they are broadcast.
    pub subscriptions: Vec<EventKind>,
}

/// The abstract content of a plugin instance.
pub struct InstanceView {
    pub id: u32,
    pub tab_index: usize,
    pub client_id: u16,
    pub rows: usize,
    pub cols: usize,
    pub allow_exec_host_cmd: bool,
    pub state: PluginState,
    pub pending: Seq<HeldEvent>,
    pub subscriptions: Seq<EventKind>,
}

impl View for PluginInstance {
    type V = InstanceView;

    open spec fn view(&self) -> InstanceView {
        InstanceView {
            id: self.id,
            tab_index: self.tab_index,
            client_id: self.client_id,
            rows: self.rows,
            cols: self.cols,
            allow_exec_host_cmd: self.allow_exec_host_cmd,
            state: self.state,
            pending: self.pending@,
            subscriptions: self.subscriptions@,
        }
    }
}

/// Whether `k` occurs in `v`.
pub fn contains_kind(v: &Vec<EventKind>, k: EventKind) -> (r: bool)
    ensures
        r == v@.contains(k),
{
    let mut i: usize = 0;
    while i < v.len()
        invariant
            0 <= i <= v.len(),
            forall|j: int| 0 <= j < i ==> v@[j] != k,
        decreases v.len() - i,
    {
        if v[i] == k {
            return true;
        }
        i = i + 1;
    }
    false
}

/// Whether `c` occurs in `v`.
pub fn contains_client(v: &Vec<u16>, c: u16) -> (r: bool)
    ensures
        r == v@.contains(c),
{
    let mut i: usize = 0;
    while i < v.len()
        invariant
            0 <= i <= v.len(),
            forall|j: int| 0 <= j < i ==> v@[j] != c,
        decreases v.len() - i,
    {
        if v[i] == c {
            return true;
        }
        i = i + 1;
    }
    false
}

} // verus!
