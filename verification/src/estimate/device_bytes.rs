//! Byte counts by device.

use crate::estimate::types::DeviceSlot;
use vstd::prelude::*;

verus! {

/// Position of a slot: the CPU before every GPU, GPUs by number.
pub open spec fn slot_rank(slot: DeviceSlot) -> int {
    match slot {
        DeviceSlot::Cpu => 0,
        DeviceSlot::Gpu(n) => n + 1,
    }
}

/// Entries in strictly ascending order of their slots.
pub open spec fn slots_ascend(entries: Seq<(DeviceSlot, u64)>) -> bool {
    forall|i: int, j: int|
        0 <= i < j < entries.len() ==> slot_rank(#[trigger] entries[i].0) < slot_rank(
            #[trigger] entries[j].0,
        )
}

/// Whether `slot` has an entry.
pub open spec fn has_slot(entries: Seq<(DeviceSlot, u64)>, slot: DeviceSlot) -> bool {
    exists|i: int| 0 <= i < entries.len() && (#[trigger] entries[i]).0 == slot
}

/// The count of `slot`, zero without an entry.
pub open spec fn count_of(entries: Seq<(DeviceSlot, u64)>, slot: DeviceSlot) -> int
    decreases entries.len(),
{
    if entries.len() == 0 {
        0
    } else if entries.last().0 == slot {
        entries.last().1 as int
    } else {
        count_of(entries.drop_last(), slot)
    }
}

/// All counts together.
pub open spec fn count_total(entries: Seq<(DeviceSlot, u64)>) -> int
    decreases entries.len(),
{
    if entries.len() == 0 {
        0
    } else {
        count_total(entries.drop_last()) + entries.last().1
    }
}

/// Byte counts by device, one for each device that has any.
#[derive(Debug)]
pub struct DeviceBytes {
    entries: Vec<(DeviceSlot, u64)>,
}

fn place(slot: DeviceSlot) -> (r: u64)
    ensures
        r == slot_rank(slot),
{
    match slot {
        DeviceSlot::Cpu => 0,
        DeviceSlot::Gpu(n) => n as u64 + 1,
    }
}

impl DeviceBytes {
    /// The counts in order of their devices.
    pub closed spec fn counts(&self) -> Seq<(DeviceSlot, u64)> {
        self.entries@
    }

    /// Whether `slot` has a count.
    pub open spec fn holds(&self, slot: DeviceSlot) -> bool {
        has_slot(self.counts(), slot)
    }

    /// The count of `slot`, zero without one.
    pub open spec fn bytes_on(&self, slot: DeviceSlot) -> int {
        count_of(self.counts(), slot)
    }

    /// All counts together.
    pub open spec fn sum(&self) -> int {
        count_total(self.counts())
    }

    #[verifier::type_invariant]
    spec fn ordered(self) -> bool {
        slots_ascend(self.entries@)
    }

    /// No counts.
    pub fn new() -> (r: Self)
        ensures
            r.counts() == Seq::<(DeviceSlot, u64)>::empty(),
    {
        DeviceBytes { entries: Vec::new() }
    }

    /// How many devices have a count.
    pub fn len(&self) -> (r: usize)
        ensures
            r == self.counts().len(),
            slots_ascend(self.counts()),
    {
        proof {
            use_type_invariant(self);
        }
        self.entries.len()
    }

    /// The device and count at position `i`.
    pub fn entry_at(&self, i: usize) -> (r: (DeviceSlot, u64))
        requires
            i < self.counts().len(),
        ensures
            r == self.counts()[i as int],
    {
        self.entries[i]
    }

    /// The count of `slot`, where it has one.
    pub fn get(&self, slot: DeviceSlot) -> (r: Option<u64>)
        ensures
            match r {
                Some(n) => self.holds(slot) && n == self.bytes_on(slot),
                None => !self.holds(slot) && self.bytes_on(slot) == 0,
            },
    {
        proof {
            use_type_invariant(self);
        }
        for i in 0..self.entries.len()
            invariant
                slots_ascend(self.entries@),
                forall|j: int| 0 <= j < i ==> (#[trigger] self.entries@[j]).0 != slot,
        {
            if self.entries[i].0 == slot {
                proof {
                    lemma_count_at(self.entries@, i as int);
                }
                return Some(self.entries[i].1);
            }
        }
        proof {
            lemma_count_absent(self.entries@, slot);
        }
        None
    }

    /// All counts together.
    pub fn total(&self) -> (r: u64)
        requires
            self.sum() <= u64::MAX,
        ensures
            r == self.sum(),
    {
        let mut r: u64 = 0;
        for i in 0..self.entries.len()
            invariant
                count_total(self.entries@) <= u64::MAX,
                r == count_total(self.entries@.take(i as int)),
        {
            proof {
                lemma_total_grows(self.entries@, i + 1);
                assert(self.entries@.take(i + 1).drop_last() =~= self.entries@.take(i as int));
            }
            r = r + self.entries[i].1;
        }
        assert(self.entries@.take(self.entries@.len() as int) =~= self.entries@);
        r
    }

    /// Adds `bytes` to the count of `slot`.
    pub fn charge(&mut self, slot: DeviceSlot, bytes: u64)
        requires
            old(self).bytes_on(slot) + bytes <= u64::MAX,
        ensures
            final(self).holds(slot),
            final(self).bytes_on(slot) == old(self).bytes_on(slot) + bytes,
            forall|s: DeviceSlot|
                s != slot ==> final(self).holds(s) == old(self).holds(s) && final(self).bytes_on(s)
                    == old(self).bytes_on(s),
            final(self).sum() == old(self).sum() + bytes,
    {
        proof {
            use_type_invariant(&*self);
        }
        let ghost before = self.entries@;
        let mut i: usize = 0;
        while i < self.entries.len() && place(self.entries[i].0) < place(slot)
            invariant
                self.entries@ == before,
                i <= before.len(),
                forall|j: int| 0 <= j < i ==> slot_rank(#[trigger] before[j].0) < slot_rank(slot),
            decreases before.len() - i,
        {
            i += 1;
        }
        let known: bool = i < self.entries.len() && self.entries[i].0 == slot;
        let mut entries: Vec<(DeviceSlot, u64)> = Vec::new();
        std::mem::swap(&mut entries, &mut self.entries);
        let mut count: u64 = bytes;
        if known {
            proof {
                lemma_count_at(before, i as int);
            }
            let (_, was) = entries.remove(i);
            count = was + bytes;
        } else {
            proof {
                assert forall|j: int| 0 <= j < before.len() implies (#[trigger] before[j]).0
                    != slot by {
                    if j >= i {
                        assert(slot_rank(before[i as int].0) >= slot_rank(slot));
                        if j > i {
                            assert(slot_rank(before[i as int].0) < slot_rank(before[j].0));
                        }
                    }
                }
                lemma_count_absent(before, slot);
            }
        }
        entries.insert(i, (slot, count));
        proof {
            if known {
                assert(entries@ =~= before.update(i as int, (slot, count)));
            }
            lemma_charged(before, entries@, slot, count, i as int, known);
        }
        self.entries = entries;
    }
}

proof fn lemma_count_at(entries: Seq<(DeviceSlot, u64)>, i: int)
    requires
        slots_ascend(entries),
        0 <= i < entries.len(),
    ensures
        has_slot(entries, entries[i].0),
        count_of(entries, entries[i].0) == entries[i].1,
    decreases entries.len(),
{
    if i < entries.len() - 1 {
        assert(slot_rank(entries[i].0) < slot_rank(entries[entries.len() - 1].0));
        lemma_count_at(entries.drop_last(), i);
    }
}

proof fn lemma_count_absent(entries: Seq<(DeviceSlot, u64)>, slot: DeviceSlot)
    requires
        forall|j: int| 0 <= j < entries.len() ==> (#[trigger] entries[j]).0 != slot,
    ensures
        !has_slot(entries, slot),
        count_of(entries, slot) == 0,
    decreases entries.len(),
{
    if entries.len() > 0 {
        lemma_count_absent(entries.drop_last(), slot);
    }
}

proof fn lemma_total_grows(entries: Seq<(DeviceSlot, u64)>, i: int)
    requires
        0 <= i <= entries.len(),
    ensures
        0 <= count_total(entries.take(i)) <= count_total(entries),
    decreases entries.len(),
{
    if i < entries.len() {
        lemma_total_grows(entries.drop_last(), i);
        assert(entries.drop_last().take(i) =~= entries.take(i));
    } else {
        assert(entries.take(i) =~= entries);
        if entries.len() > 0 {
            lemma_total_grows(entries.drop_last(), entries.len() - 1);
        }
    }
}

proof fn lemma_total_update(entries: Seq<(DeviceSlot, u64)>, i: int, entry: (DeviceSlot, u64))
    requires
        0 <= i < entries.len(),
    ensures
        count_total(entries.update(i, entry)) == count_total(entries) - entries[i].1 + entry.1,
    decreases entries.len(),
{
    let after = entries.update(i, entry);
    if i < entries.len() - 1 {
        lemma_total_update(entries.drop_last(), i, entry);
        assert(after.drop_last() =~= entries.drop_last().update(i, entry));
    } else {
        assert(after.drop_last() =~= entries.drop_last());
    }
}

proof fn lemma_total_insert(entries: Seq<(DeviceSlot, u64)>, i: int, entry: (DeviceSlot, u64))
    requires
        0 <= i <= entries.len(),
    ensures
        count_total(entries.insert(i, entry)) == count_total(entries) + entry.1,
    decreases entries.len(),
{
    let after = entries.insert(i, entry);
    if i < entries.len() {
        lemma_total_insert(entries.drop_last(), i, entry);
        assert(after.drop_last() =~= entries.drop_last().insert(i, entry));
        assert(after.last() == entries.last());
    } else {
        assert(after.drop_last() =~= entries);
    }
}

proof fn lemma_charged(
    before: Seq<(DeviceSlot, u64)>,
    after: Seq<(DeviceSlot, u64)>,
    slot: DeviceSlot,
    count: u64,
    i: int,
    known: bool,
)
    requires
        slots_ascend(before),
        0 <= i <= before.len(),
        known ==> i < before.len() && before[i].0 == slot && after == before.update(
            i,
            (slot, count),
        ),
        !known ==> after == before.insert(i, (slot, count)),
        forall|j: int| 0 <= j < i ==> slot_rank(#[trigger] before[j].0) < slot_rank(slot),
        i < before.len() ==> slot_rank(before[i].0) >= slot_rank(slot),
        !known && i < before.len() ==> before[i].0 != slot,
    ensures
        slots_ascend(after),
        has_slot(after, slot),
        count_of(after, slot) == count,
        forall|s: DeviceSlot|
            s != slot ==> has_slot(after, s) == has_slot(before, s) && count_of(after, s)
                == count_of(before, s),
        count_total(after) == count_total(before) + count - (if known {
            before[i].1 as int
        } else {
            0
        }),
{
    assert(slots_ascend(after)) by {
        if !known {
            assert forall|j: int, k: int| 0 <= j < k < after.len() implies slot_rank(
                #[trigger] after[j].0,
            ) < slot_rank(#[trigger] after[k].0) by {
                if k == i {
                    assert(after[j] == before[j]);
                } else if k > i {
                    assert(after[k] == before[k - 1]);
                    if j == i {
                        assert(slot_rank(before[i].0) <= slot_rank(before[k - 1].0));
                        assert(slot_rank(before[i].0) > slot_rank(slot));
                    } else if j > i {
                        assert(after[j] == before[j - 1]);
                    } else {
                        assert(after[j] == before[j]);
                    }
                } else {
                    assert(after[j] == before[j]);
                    assert(after[k] == before[k]);
                }
            }
        }
    }
    assert(after[i] == (slot, count));
    lemma_count_at(after, i);
    assert forall|s: DeviceSlot| s != slot implies has_slot(after, s) == has_slot(before, s)
        && count_of(after, s) == count_of(before, s) by {
        if has_slot(before, s) {
            let j = choose|j: int| 0 <= j < before.len() && (#[trigger] before[j]).0 == s;
            lemma_count_at(before, j);
            if known || j < i {
                assert(after[j] == before[j]);
                lemma_count_at(after, j);
            } else {
                assert(after[j + 1] == before[j]);
                lemma_count_at(after, j + 1);
            }
        } else {
            assert forall|j: int| 0 <= j < after.len() implies (#[trigger] after[j]).0 != s by {
                if after[j].0 == s {
                    if known || j < i {
                        assert(before[j].0 == s);
                    } else if j > i {
                        assert(before[j - 1].0 == s);
                    }
                }
            }
            lemma_count_absent(after, s);
            assert forall|j: int| 0 <= j < before.len() implies (#[trigger] before[j]).0 != s by {
            }
            lemma_count_absent(before, s);
        }
    }
    if known {
        lemma_total_update(before, i, (slot, count));
    } else {
        lemma_total_insert(before, i, (slot, count));
    }
}

/// The CPU comes before every GPU, and GPUs come by number.
pub proof fn lemma_devices_in_order(a: u32, b: u32)
    ensures
        slot_rank(DeviceSlot::Cpu) < slot_rank(DeviceSlot::Gpu(a)),
        slot_rank(DeviceSlot::Gpu(a)) < slot_rank(DeviceSlot::Gpu(b)) <==> a < b,
{
}

/// In a list with one entry for each device, the count of a device is that
/// of its entry, a device without one has none, and one more entry adds its
/// count to the total.
pub proof fn lemma_entries_count(
    entries: Seq<(DeviceSlot, u64)>,
    entry: (DeviceSlot, u64),
    i: int,
)
    requires
        slots_ascend(entries),
    ensures
        0 <= i < entries.len() ==> has_slot(entries, entries[i].0) && count_of(
            entries,
            entries[i].0,
        ) == entries[i].1,
        (forall|j: int| 0 <= j < entries.len() ==> (#[trigger] entries[j]).0 != entry.0)
            ==> !has_slot(entries, entry.0) && count_of(entries, entry.0) == 0,
        count_total(Seq::<(DeviceSlot, u64)>::empty()) == 0,
        count_total(entries.push(entry)) == count_total(entries) + entry.1,
{
    if 0 <= i < entries.len() {
        lemma_count_at(entries, i);
    }
    if forall|j: int| 0 <= j < entries.len() ==> (#[trigger] entries[j]).0 != entry.0 {
        lemma_count_absent(entries, entry.0);
    }
    assert(entries.push(entry).drop_last() =~= entries);
}

} // verus!
