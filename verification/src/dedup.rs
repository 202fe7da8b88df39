//! Telling the first sight of a slot from every later one.

use std::collections::HashSet;
use vstd::prelude::*;

verus! {

broadcast use vstd::std_specs::hash::group_hash_axioms;

/// The slots seen in one session. Its view is the set of their ids.
pub struct SlotDeduplicator {
    seen: HashSet<u64>,
}

impl View for SlotDeduplicator {
    type V = Set<u64>;

    closed spec fn view(&self) -> Set<u64> {
        self.seen@
    }
}

impl SlotDeduplicator {
    /// A set of seen slots that is empty, as every session starts with.
    pub fn new() -> (seen: Self)
        ensures
            seen@ == Set::<u64>::empty(),
    {
        SlotDeduplicator { seen: HashSet::new() }
    }

    /// Records `slot` as seen and says whether this was its first time.
    /// Looking and recording are one step.
    pub fn mark_if_new(&mut self, slot: u64) -> (fresh: bool)
        ensures
            fresh == !old(self)@.contains(slot),
            final(self)@ == old(self)@.insert(slot),
    {
        self.seen.insert(slot)
    }

    /// Whether `slot` has been seen.
    pub fn contains(&self, slot: u64) -> (seen: bool)
        ensures
            seen == self@.contains(slot),
    {
        self.seen.contains(&slot)
    }
}

/// The slots seen after marking each of `slots` in turn starting with none seen.
pub open spec fn seen_after(slots: Seq<u64>) -> Set<u64>
    decreases slots.len(),
{
    if slots.len() == 0 {
        Set::empty()
    } else {
        seen_after(slots.drop_last()).insert(slots.last())
    }
}

/// What the call for `slots[k]` answers when each of `slots` is marked in turn
/// starting with none seen.
pub open spec fn answer_at(slots: Seq<u64>, k: int) -> bool {
    !seen_after(slots.take(k)).contains(slots[k])
}

/// Marking a run of slots leaves exactly the ids that occur in it as seen.
pub proof fn lemma_seen_after_is_content(slots: Seq<u64>)
    ensures
        forall|slot: u64| seen_after(slots).contains(slot) <==> slots.contains(slot),
    decreases slots.len(),
{
    if slots.len() > 0 {
        let rest = slots.drop_last();
        lemma_seen_after_is_content(rest);
        assert forall|slot: u64| seen_after(slots).contains(slot) <==> slots.contains(
            slot,
        ) by {
            if slots.contains(slot) {
                let i = choose|i: int| 0 <= i < slots.len() && slots[i] == slot;
                if i < rest.len() {
                    assert(rest[i] == slot);
                }
            }
            if rest.contains(slot) {
                let i = choose|i: int| 0 <= i < rest.len() && rest[i] == slot;
                assert(slots[i] == slot);
            }
            if slot == slots.last() {
                assert(slots[slots.len() - 1] == slot);
            }
        }
    }
}

/// In one session the call for a slot answers `true` exactly where the slot
/// occurs for the first time: once for each id, and never again after it.
pub proof fn lemma_first_occurrence_wins(slots: Seq<u64>, k: int)
    requires
        0 <= k < slots.len(),
    ensures
        answer_at(slots, k) <==> forall|j: int| 0 <= j < k ==> slots[j] != slots[k],
{
    let before = slots.take(k);
    lemma_seen_after_is_content(before);
    if before.contains(slots[k]) {
        let j = choose|j: int| 0 <= j < before.len() && before[j] == slots[k];
        assert(slots[j] == slots[k]);
    } else {
        assert forall|j: int| 0 <= j < k implies slots[j] != slots[k] by {
            assert(before[j] == slots[j]);
        }
    }
}

} // verus!
