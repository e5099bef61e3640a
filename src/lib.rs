// A plugin runtime's decision logic: which plugin instances an event
// reaches and when (`router`, `runtime`), the lifecycle of instances and
// their permissions (`instance`, `runtime`), per-plugin workers with state of
// their own (`worker`), and the batching of rendered output (`render`).
// Running plugin code in a sandbox is left to the host, which hands the
// runtime plain values and acts on what it returns. `laws` states and proves
// the properties that hold across these operations.
use vstd::prelude::*;

pub mod event;
pub mod instance;
pub mod laws;
pub mod render;
pub mod router;
pub mod runtime;
pub mod worker;

verus! {

} // verus!
