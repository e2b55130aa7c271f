//! Lossy, fixed-capacity circular store for captured samples.
//!
//! The buffer keeps a monotonically growing write cursor; a push writes into
//! slot `cursor % capacity` and advances the cursor, so once more values have
//! been pushed than there are slots, the oldest values are silently
//! overwritten. The ghost `history` field records every value ever pushed;
//! the invariant ties each slot to the most recent push that landed in it.

use vstd::prelude::*;

verus! {

/// Default number of slots, on the order recommended for a sampling buffer.
pub const DEFAULT_CAPACITY: usize = 100_000;

/// Reserved sentinel delimiting records; never a legitimate frame count or
/// frame identifier.
pub const SEPARATOR: u64 = u64::MAX;

pub struct Buffer {
    pub data: Vec<u64>,
    pub cursor: usize,
    pub history: Ghost<Seq<u64>>,
}

/// The value a slot holds after the pushes in `h` have hit a buffer of
/// `cap` slots: the latest element of `h` whose position is congruent to
/// `i` modulo `cap`, or `0` if no push has reached slot `i` yet.
pub open spec fn slot_after(h: Seq<u64>, cap: int, i: int) -> u64
    decreases h.len(),
{
    if h.len() == 0 {
        0u64
    } else if (h.len() - 1) % cap == i {
        h.last()
    } else {
        slot_after(h.drop_last(), cap, i)
    }
}

impl Buffer {
    pub open spec fn capacity(self) -> int {
        self.data@.len() as int
    }

    pub open spec fn wf(self) -> bool {
        &&& 2 <= self.data@.len()
        &&& self.cursor == self.history@.len()
        &&& forall|i: int|
            0 <= i < self.data@.len() ==> self.data@[i] == slot_after(
                self.history@,
                self.capacity(),
                i,
            )
    }

    /// A buffer of `capacity` zeroed slots with nothing pushed yet.
    pub fn with_capacity(capacity: usize) -> (r: Buffer)
        requires
            2 <= capacity,
        ensures
            r.wf(),
            r.capacity() == capacity,
            r.history@ == Seq::<u64>::empty(),
            r.cursor == 0,
    {
        let mut data: Vec<u64> = Vec::new();
        while data.len() < capacity
            invariant
                data@.len() <= capacity,
                forall|i: int| 0 <= i < data@.len() ==> data@[i] == 0u64,
            decreases capacity - data@.len(),
        {
            data.push(0);
        }
        Buffer { data, cursor: 0, history: Ghost(Seq::empty()) }
    }

    /// A buffer with the default capacity.
    pub fn new() -> (r: Buffer)
        ensures
            r.wf(),
            r.capacity() == DEFAULT_CAPACITY,
            r.history@ == Seq::<u64>::empty(),
            r.cursor == 0,
    {
        Buffer::with_capacity(DEFAULT_CAPACITY)
    }

    /// Appends one value, overwriting the oldest entry once the buffer has
    /// wrapped; never fails and never resizes.
    pub fn push(&mut self, item: u64)
        requires
            old(self).wf(),
            old(self).history@.len() < usize::MAX,
        ensures
            final(self).wf(),
            final(self).capacity() == old(self).capacity(),
            final(self).history@ == old(self).history@.push(item),
            final(self).cursor == old(self).cursor + 1,
    {
        let ghost h0: Seq<u64> = self.history@;
        let idx: usize = self.cursor % self.data.len();
        self.data.set(idx, item);
        self.cursor = self.cursor + 1;
        self.history = Ghost(h0.push(item));
        proof {
            assert(h0.push(item).drop_last() =~= h0);
            assert forall|i: int| 0 <= i < self.data@.len() implies self.data@[i] == slot_after(
                self.history@,
                self.capacity(),
                i,
            ) by {
                if i != idx as int {
                    assert(self.data@[i] == old(self).data@[i]);
                }
            }
        }
    }

    /// Pushes the sentinel twice: a defensive double separator, so a reader
    /// can resynchronize even if it mistakes a single sentinel for data.
    pub fn push_seperator(&mut self)
        requires
            old(self).wf(),
            old(self).history@.len() + 2 <= usize::MAX,
        ensures
            final(self).wf(),
            final(self).capacity() == old(self).capacity(),
            final(self).history@ == old(self).history@.push(SEPARATOR).push(SEPARATOR),
            final(self).cursor == old(self).cursor + 2,
    {
        self.push(SEPARATOR);
        self.push(SEPARATOR);
    }
}

/// Two positions less than `cap` apart never share a slot.
proof fn lemma_distinct_residues(a: int, b: int, cap: int)
    requires
        0 <= a < b,
        b - a < cap,
    ensures
        a % cap != b % cap,
{
    vstd::arithmetic::div_mod::lemma_fundamental_div_mod(a, cap);
    vstd::arithmetic::div_mod::lemma_fundamental_div_mod(b, cap);
    let qa = a / cap;
    let qb = b / cap;
    if a % cap == b % cap {
        assert(false) by (nonlinear_arith)
            requires
                a == cap * qa + a % cap,
                b == cap * qb + a % cap,
                a < b,
                b - a < cap,
        ;
    }
}

/// The value pushed at position `j` is still in slot `j % cap` as long as
/// fewer than `cap` pushes followed it.
proof fn lemma_slot_after_recent(h: Seq<u64>, cap: int, j: int)
    requires
        1 <= cap,
        0 <= j < h.len(),
        h.len() <= j + cap,
    ensures
        slot_after(h, cap, j % cap) == h[j],
    decreases h.len(),
{
    if j < h.len() - 1 {
        lemma_distinct_residues(j, h.len() - 1, cap);
        lemma_slot_after_recent(h.drop_last(), cap, j);
    }
}

/// A well-formed buffer holds every one of the most recent `capacity` pushed
/// values: the value pushed at position `j` of the history still sits in slot
/// `j % capacity` whenever fewer than `capacity` pushes followed it, so after
/// any sequence of pushes the slots hold exactly the latest `capacity` values.
pub proof fn lemma_recent_push_present(b: Buffer, j: int)
    requires
        b.wf(),
        0 <= j < b.history@.len(),
        b.history@.len() <= j + b.capacity(),
    ensures
        b.data@[j % b.capacity()] == b.history@[j],
{
    lemma_slot_after_recent(b.history@, b.capacity(), j);
}

/// Right after the two sentinel pushes of `push_seperator`, a drain finds the
/// two sentinel values in the two slots written last: slots `(n - 2) %
/// capacity` and `(n - 1) % capacity`, `n` being the cursor after the call.
pub proof fn lemma_separator_pair_present(b: Buffer)
    requires
        b.wf(),
        2 <= b.history@.len(),
        b.history@[b.history@.len() - 2] == SEPARATOR,
        b.history@[b.history@.len() - 1] == SEPARATOR,
    ensures
        b.data@[(b.history@.len() - 2) % b.capacity()] == SEPARATOR,
        b.data@[(b.history@.len() - 1) % b.capacity()] == SEPARATOR,
{
    lemma_recent_push_present(b, b.history@.len() - 2);
    lemma_recent_push_present(b, b.history@.len() - 1);
}

} // verus!
