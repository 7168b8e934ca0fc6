//! The snapshot register: a single-slot, overwrite-on-write store that holds
//! the most recently ingested feed value. `set` overwrites unconditionally,
//! `get` returns the current value; no history is kept.

use vstd::prelude::*;

verus! {

/// Single-slot store for the latest ingested value. Last write wins.
pub struct SnapshotRegister {
    value: String,
}

impl View for SnapshotRegister {
    type V = Seq<char>;

    closed spec fn view(&self) -> Seq<char> {
        self.value@
    }
}

impl SnapshotRegister {
    /// A fresh register holds the empty value.
    pub fn new() -> (r: SnapshotRegister)
        ensures
            r@ == Seq::<char>::empty(),
    {
        SnapshotRegister { value: String::new() }
    }

    /// Overwrite the stored value. Never fails, keeps no history.
    pub fn set(&mut self, value: String)
        ensures
            final(self)@ == value@,
    {
        self.value = value;
    }

    /// Read the current value; the empty value if no `set` has happened yet.
    pub fn get(&self) -> (r: String)
        ensures
            r@ == self@,
    {
        self.value.clone()
    }
}

/// The model of a run of `set` calls: each overwrites the state in turn.
pub open spec fn apply_sets(init: Seq<char>, writes: Seq<Seq<char>>) -> Seq<char>
    decreases writes.len(),
{
    if writes.len() == 0 {
        init
    } else {
        apply_sets(writes[0], writes.drop_first())
    }
}

/// Last write wins: after any non-empty run of `set` calls completes, a `get`
/// observes exactly the last value written, whatever came before.
pub proof fn lemma_last_write_wins(init: Seq<char>, writes: Seq<Seq<char>>)
    requires
        writes.len() > 0,
    ensures
        apply_sets(init, writes) == writes.last(),
    decreases writes.len(),
{
    let rest = writes.drop_first();
    assert(apply_sets(init, writes) == apply_sets(writes[0], rest));
    if writes.len() > 1 {
        lemma_last_write_wins(writes[0], rest);
        assert(rest.last() == writes.last());
    } else {
        assert(rest.len() == 0);
        assert(apply_sets(writes[0], rest) == writes[0]);
    }
}

} // verus!
