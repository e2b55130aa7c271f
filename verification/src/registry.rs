//! Registry of the threads eligible for sampling.
//!
//! A registration appends the thread's handle to the ordered target list and
//! associates it with the runtime's identity for that thread. Registration is
//! deliberately not deduplicating: registering a thread twice makes it a
//! sampling target twice. There is no deregistration; a handle of a thread
//! that has exited stays in the list and its trigger simply fails to deliver.

use std::collections::HashMap;
use vstd::prelude::*;

verus! {

/// Maps each registered thread handle to its runtime thread identity and
/// keeps the ordered list of current sampling targets. Handles are opaque to
/// this library and carried as plain integers.
pub struct Registry {
    pub targets: Vec<u64>,
    pub runtime_handles: HashMap<u64, u64>,
}

impl Registry {
    /// A registry with no targets.
    pub fn new() -> (r: Registry)
        ensures
            r.targets@ == Seq::<u64>::empty(),
            r.runtime_handles@ == Map::<u64, u64>::empty(),
    {
        Registry { targets: Vec::new(), runtime_handles: HashMap::new() }
    }

    /// Registers a thread as a sampling target. Appends the handle to the
    /// target list unconditionally — a duplicate registration adds a second
    /// target — and records (or overwrites) its runtime identity.
    pub fn register(&mut self, thread: u64, runtime_thread: u64)
        ensures
            final(self).targets@ == old(self).targets@.push(thread),
            final(self).runtime_handles@ == old(self).runtime_handles@.insert(
                thread,
                runtime_thread,
            ),
    {
        self.targets.push(thread);
        self.runtime_handles.insert(thread, runtime_thread);
    }

    /// The ordered list of targets for one trigger round, as the scheduler
    /// sees it at the moment of the call.
    pub fn snapshot_targets(&self) -> (r: Vec<u64>)
        ensures
            r@ == self.targets@,
    {
        let mut r: Vec<u64> = Vec::new();
        let mut i: usize = 0;
        while i < self.targets.len()
            invariant
                i <= self.targets@.len(),
                r@ == self.targets@.take(i as int),
            decreases self.targets@.len() - i,
        {
            r.push(self.targets[i]);
            i = i + 1;
        }
        proof {
            assert(r@ =~= self.targets@);
        }
        r
    }
}

} // verus!
