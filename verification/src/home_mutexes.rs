//! Which in-process mutex guards which home directory.
//!
//! The mutexes themselves belong to the caller, who keeps them in numbered
//! slots and only as long as somebody holds them. This module decides the slot.

use crate::home::HomePath;
use vstd::prelude::*;

verus! {

/// The home that each slot's mutex guards, where the slot is taken.
pub struct HomeMutexes {
    slots: Vec<Option<HomePath>>,
}

/// The slot of a home's mutex. A fresh slot holds no mutex for the home yet:
/// the caller puts a new one there.
#[derive(Debug, Clone, Copy, PartialEq, Eq)]
pub struct MutexSlot {
    pub index: usize,
    pub fresh: bool,
}

/// The slots that are still taken: those whose mutex somebody holds.
pub open spec fn retained(slots: Seq<Option<Seq<Seq<u8>>>>, live: Seq<bool>) -> Seq<
    Option<Seq<Seq<u8>>>,
> {
    Seq::new(
        slots.len(),
        |i: int|
            if live[i] {
                slots[i]
            } else {
                None
            },
    )
}

/// The first slot with this content, or the number of slots if there is none.
pub open spec fn first_slot(
    slots: Seq<Option<Seq<Seq<u8>>>>,
    content: Option<Seq<Seq<u8>>>,
) -> int
    decreases slots.len(),
{
    if slots.len() == 0 {
        0
    } else {
        let before = first_slot(slots.drop_last(), content);
        if before < slots.len() - 1 || slots.last() == content {
            before
        } else {
            slots.len() as int
        }
    }
}

/// The slot for `home`: the one that it has, else the first free one, else a
/// new one.
pub open spec fn slot_for(slots: Seq<Option<Seq<Seq<u8>>>>, home: Seq<Seq<u8>>) -> int {
    if first_slot(slots, Some(home)) < slots.len() {
        first_slot(slots, Some(home))
    } else {
        first_slot(slots, None)
    }
}

/// The slots once `home` has its slot.
pub open spec fn with_home(slots: Seq<Option<Seq<Seq<u8>>>>, home: Seq<Seq<u8>>) -> Seq<
    Option<Seq<Seq<u8>>>,
> {
    if slot_for(slots, home) < slots.len() {
        slots.update(slot_for(slots, home), Some(home))
    } else {
        slots.push(Some(home))
    }
}

/// No home has two slots.
pub open spec fn one_slot_each(slots: Seq<Option<Seq<Seq<u8>>>>) -> bool {
    forall|i: int, j: int|
        0 <= i < j < slots.len() && #[trigger] slots[i] is Some ==> slots[i] != #[trigger] slots[j]
}

/// The first slot with some content has it, and no earlier slot does.
pub proof fn first_slot_is_first(
    slots: Seq<Option<Seq<Seq<u8>>>>,
    content: Option<Seq<Seq<u8>>>,
)
    ensures
        0 <= first_slot(slots, content) <= slots.len(),
        first_slot(slots, content) < slots.len() ==> slots[first_slot(slots, content)] == content,
        forall|i: int| 0 <= i < first_slot(slots, content) ==> #[trigger] slots[i] != content,
    decreases slots.len(),
{
    if slots.len() > 0 {
        first_slot_is_first(slots.drop_last(), content);
        assert forall|i: int| 0 <= i < first_slot(slots, content) implies #[trigger] slots[i]
            != content by {
            if i < slots.len() - 1 {
                assert(slots.drop_last()[i] == slots[i]);
            }
        }
    }
}

/// A slot that has some content, while no earlier one does, is the first.
proof fn first_slot_is_unique(
    slots: Seq<Option<Seq<Seq<u8>>>>,
    content: Option<Seq<Seq<u8>>>,
    at: int,
)
    requires
        0 <= at <= slots.len(),
        at < slots.len() ==> slots[at] == content,
        forall|i: int| 0 <= i < at ==> #[trigger] slots[i] != content,
    ensures
        first_slot(slots, content) == at,
{
    first_slot_is_first(slots, content);
    let first = first_slot(slots, content);
    if first < at {
        assert(slots[first] != content);
    } else if at < first {
        assert(slots[at] != content);
    }
}

impl HomeMutexes {
    /// The home of each slot.
    pub closed spec fn view(&self) -> Seq<Option<Seq<Seq<u8>>>> {
        self.slots@.map_values(
            |slot: Option<HomePath>|
                match slot {
                    Some(home) => Some(home@),
                    None => None,
                },
        )
    }

    /// No home has two slots.
    pub open spec fn wf(&self) -> bool {
        one_slot_each(self@)
    }

    /// No slot at all.
    pub fn new() -> (mutexes: HomeMutexes)
        ensures
            mutexes@ == Seq::<Option<Seq<Seq<u8>>>>::empty(),
            mutexes.wf(),
    {
        let mutexes = HomeMutexes { slots: Vec::new() };
        assert(mutexes@ =~= Seq::<Option<Seq<Seq<u8>>>>::empty());
        mutexes
    }

    /// How many slots there are, taken or free.
    pub fn len(&self) -> (count: usize)
        ensures
            count == self@.len(),
    {
        self.slots.len()
    }

    /// Frees the slots whose mutex nobody holds any more.
    fn retain(&mut self, live: &[bool])
        requires
            live@.len() == old(self)@.len(),
        ensures
            final(self)@ == retained(old(self)@, live@),
    {
        let mut i: usize = 0;
        while i < self.slots.len()
            invariant
                i <= self.slots.len(),
                live@.len() == self.slots@.len(),
                self@.len() == old(self)@.len(),
                forall|j: int|
                    0 <= j < i ==> #[trigger] self@[j] == retained(old(self)@, live@)[j],
                forall|j: int| i <= j < self@.len() ==> #[trigger] self@[j] == old(self)@[j],
            decreases self.slots.len() - i,
        {
            let ghost before = self@;
            if !live[i] {
                self.slots.set(i, None);
            }
            assert forall|j: int| 0 <= j < self@.len() && j != i implies #[trigger] self@[j]
                == before[j] by {}
            i += 1;
        }
        assert(self@ =~= retained(old(self)@, live@));
    }

    /// The first slot that guards `home`, or the number of slots.
    fn find_home(&self, home: &HomePath) -> (index: usize)
        ensures
            index == first_slot(self@, Some(home@)),
    {
        let mut i: usize = 0;
        while i < self.slots.len()
            invariant
                i <= self.slots.len(),
                forall|j: int| 0 <= j < i ==> #[trigger] self@[j] != Some(home@),
            decreases self.slots.len() - i,
        {
            if let Some(guarded) = &self.slots[i] {
                if guarded.same_path(home) {
                    proof {
                        assert(self@[i as int] == Some(home@));
                        first_slot_is_unique(self@, Some(home@), i as int);
                    }
                    return i;
                }
            }
            i += 1;
        }
        proof {
            first_slot_is_unique(self@, Some(home@), i as int);
        }
        i
    }

    /// The first free slot, or the number of slots.
    fn find_free(&self) -> (index: usize)
        ensures
            index == first_slot(self@, None),
    {
        let mut i: usize = 0;
        while i < self.slots.len()
            invariant
                i <= self.slots.len(),
                forall|j: int| 0 <= j < i ==> #[trigger] self@[j] is Some,
            decreases self.slots.len() - i,
        {
            if self.slots[i].is_none() {
                proof {
                    first_slot_is_unique(self@, None, i as int);
                }
                return i;
            }
            i += 1;
        }
        proof {
            first_slot_is_unique(self@, None, i as int);
        }
        i
    }

    /// The slot of the mutex that guards `canonical_home`. `live[i]` says
    /// whether somebody still holds the mutex in slot `i`; slots that nobody
    /// holds are freed first.
    pub fn process_mutex_for_home(&mut self, live: &[bool], canonical_home: &HomePath) -> (slot:
        MutexSlot)
        requires
            old(self).wf(),
            live@.len() == old(self)@.len(),
        ensures
            final(self)@ == with_home(retained(old(self)@, live@), canonical_home@),
            final(self).wf(),
            slot.index == slot_for(retained(old(self)@, live@), canonical_home@),
            slot.fresh == !retained(old(self)@, live@).contains(Some(canonical_home@)),
    {
        self.retain(live);
        let ghost kept = self@;
        proof {
            first_slot_is_first(kept, Some(canonical_home@));
            first_slot_is_first(kept, None);
            slots_stay_distinct(kept, canonical_home@);
        }
        let index: usize = self.find_home(canonical_home);
        if index < self.slots.len() {
            assert(kept.contains(Some(canonical_home@))) by {
                assert(kept[index as int] == Some(canonical_home@));
            }
            assert(self@ =~= with_home(kept, canonical_home@));
            return MutexSlot { index, fresh: false };
        }
        let index: usize = self.find_free();
        let home = Some(canonical_home.copied());
        if index < self.slots.len() {
            self.slots.set(index, home);
        } else {
            self.slots.push(home);
        }
        assert(self@ =~= with_home(kept, canonical_home@));
        MutexSlot { index, fresh: true }
    }
}

/// Giving a home its slot gives no home two.
pub proof fn slots_stay_distinct(slots: Seq<Option<Seq<Seq<u8>>>>, home: Seq<Seq<u8>>)
    requires
        one_slot_each(slots),
    ensures
        one_slot_each(with_home(slots, home)),
{
    first_slot_is_first(slots, Some(home));
    first_slot_is_first(slots, None);
}

/// A home whose mutex somebody holds keeps it: whoever asks next, for the same
/// home, gets the same mutex and waits on it.
pub proof fn same_home_same_mutex(
    slots: Seq<Option<Seq<Seq<u8>>>>,
    home: Seq<Seq<u8>>,
    live: Seq<bool>,
)
    requires
        one_slot_each(slots),
        live.len() == with_home(slots, home).len(),
        live[slot_for(slots, home)],
    ensures
        slot_for(retained(with_home(slots, home), live), home) == slot_for(slots, home),
        retained(with_home(slots, home), live).contains(Some(home)),
{
    let next = retained(with_home(slots, home), live);
    let at = slot_for(slots, home);
    first_slot_is_first(slots, Some(home));
    first_slot_is_first(slots, None);
    slots_stay_distinct(slots, home);
    assert(next[at] == Some(home));
    assert forall|i: int| 0 <= i < at implies #[trigger] next[i] != Some(home) by {
        assert(with_home(slots, home)[i] != Some(home));
    }
    first_slot_is_unique(next, Some(home), at);
}

/// A mutex that somebody holds is never handed out for another home: different
/// homes do not wait on each other.
pub proof fn different_homes_different_mutexes(
    slots: Seq<Option<Seq<Seq<u8>>>>,
    home: Seq<Seq<u8>>,
    other: Seq<Seq<u8>>,
    live: Seq<bool>,
)
    requires
        home != other,
        live.len() == with_home(slots, home).len(),
        live[slot_for(slots, home)],
    ensures
        slot_for(retained(with_home(slots, home), live), other) != slot_for(slots, home),
{
    let next = retained(with_home(slots, home), live);
    first_slot_is_first(slots, Some(home));
    first_slot_is_first(slots, None);
    first_slot_is_first(next, Some(other));
    first_slot_is_first(next, None);
    assert(next[slot_for(slots, home)] == Some(home));
}

/// Homes that nobody works in leave nothing behind: afterwards only slots whose
/// mutex somebody holds, and the one just handed out, are taken.
pub proof fn unused_homes_leave_no_slot(
    slots: Seq<Option<Seq<Seq<u8>>>>,
    live: Seq<bool>,
    home: Seq<Seq<u8>>,
    at: int,
)
    requires
        live.len() == slots.len(),
        0 <= at < with_home(retained(slots, live), home).len(),
        with_home(retained(slots, live), home)[at] is Some,
    ensures
        at == slot_for(retained(slots, live), home) || live[at],
{
    first_slot_is_first(retained(slots, live), Some(home));
    first_slot_is_first(retained(slots, live), None);
}

/// A slot stays taken exactly as long as somebody holds its mutex, and by the
/// home that it had.
pub proof fn held_slots_stay(slots: Seq<Option<Seq<Seq<u8>>>>, live: Seq<bool>, i: int)
    requires
        live.len() == slots.len(),
        0 <= i < slots.len(),
    ensures
        retained(slots, live).len() == slots.len(),
        live[i] ==> retained(slots, live)[i] == slots[i],
        !live[i] ==> retained(slots, live)[i] is None,
{
}

/// A mutex is fresh exactly where nobody holds one of this home.
pub proof fn mutex_is_shared_where_somebody_holds_it(
    slots: Seq<Option<Seq<Seq<u8>>>>,
    live: Seq<bool>,
    home: Seq<Seq<u8>>,
)
    requires
        live.len() == slots.len(),
    ensures
        retained(slots, live).contains(Some(home)) == exists|i: int|
            0 <= i < slots.len() && #[trigger] live[i] && slots[i] == Some(home),
{
    let kept = retained(slots, live);
    if kept.contains(Some(home)) {
        let i = choose|i: int| 0 <= i < kept.len() && kept[i] == Some(home);
        assert(live[i] && slots[i] == Some(home));
    }
    if exists|i: int| 0 <= i < slots.len() && #[trigger] live[i] && slots[i] == Some(home) {
        let i = choose|i: int|
            0 <= i < slots.len() && #[trigger] live[i] && slots[i] == Some(home);
        assert(kept[i] == Some(home));
    }
}

/// The slot that is handed out guards the home that was asked for, and all others
/// guard what they guarded.
pub proof fn only_the_slot_handed_out_changes(
    slots: Seq<Option<Seq<Seq<u8>>>>,
    home: Seq<Seq<u8>>,
    i: int,
)
    requires
        0 <= i < slots.len(),
    ensures
        0 <= slot_for(slots, home) < with_home(slots, home).len(),
        with_home(slots, home)[slot_for(slots, home)] == Some(home),
        i != slot_for(slots, home) ==> with_home(slots, home)[i] == slots[i],
        slots[i] is Some && slots[i] != Some(home) ==> with_home(slots, home)[i] == slots[i],
{
    first_slot_is_first(slots, Some(home));
    first_slot_is_first(slots, None);
}

/// Slots are used again: there is one more only where the home has none and none
/// is free.
pub proof fn slots_do_not_accumulate(slots: Seq<Option<Seq<Seq<u8>>>>, home: Seq<Seq<u8>>)
    ensures
        slots.contains(Some(home)) || slots.contains(None) ==> with_home(slots, home).len()
            == slots.len(),
        !slots.contains(Some(home)) && !slots.contains(None) ==> with_home(slots, home)
            == slots.push(Some(home)),
{
    first_slot_is_first(slots, Some(home));
    first_slot_is_first(slots, None);
    if slots.contains(Some(home)) {
        let i = choose|i: int| 0 <= i < slots.len() && slots[i] == Some(home);
        assert(slots[i] == Some(home));
    }
    if slots.contains(None) {
        let i = choose|i: int| 0 <= i < slots.len() && slots[i] == None::<Seq<Seq<u8>>>;
        assert(slots[i] == None::<Seq<Seq<u8>>>);
    }
}

} // verus!
