use vstd::prelude::*;

verus! {

/// Rendered output gathered during one routing cycle: plugin id, client id
/// and the raw bytes, in the order they were rendered.
#[derive(Debug)]
pub struct RenderCollector {
    pub batch: Vec<(u32, u16, Vec<u8>)>,
}

/// What a flush of `batch` hands out: the whole batch, or nothing when it is
/// empty.
pub open spec fn flush_result(batch: Seq<(u32, u16, Vec<u8>)>) -> Option<Seq<(u32, u16, Vec<u8>)>> {
    if batch.len() == 0 {
        None
    } else {
        Some(batch)
    }
}

impl RenderCollector {
    /// A collector with an empty batch.
    pub fn new() -> (r: RenderCollector)
        ensures
            r.batch@.len() == 0,
    {
        RenderCollector { batch: Vec::new() }
    }

    /// Appends one instance's rendered output to the current batch.
    pub fn on_instance_rendered(&mut self, plugin_id: u32, client_id: u16, bytes: Vec<u8>)
        ensures
            final(self).batch@ == old(self).batch@.push((plugin_id, client_id, bytes)),
    {
        self.batch.push((plugin_id, client_id, bytes));
    }

    /// Ends a cycle: hands out the whole batch as one notification if it is
    /// not empty, and leaves the collector empty.
    pub fn flush(&mut self) -> (r: Option<Vec<(u32, u16, Vec<u8>)>>)
        ensures
            final(self).batch@.len() == 0,
            r.is_some() == flush_result(old(self).batch@).is_some(),
            r.is_some() ==> Some(r.unwrap()@) == flush_result(old(self).batch@),
    {
        if self.batch.len() == 0 {
            return None;
        }
        let mut out: Vec<(u32, u16, Vec<u8>)> = Vec::new();
        std::mem::swap(&mut out, &mut self.batch);
        Some(out)
    }
}

} // verus!
