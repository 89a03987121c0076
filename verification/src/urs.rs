//! Shared ownership of universal reference strings.
//!
//! A reference string lives in a registry slot and is named by a handle. The
//! slot counts its strong references; the string is released exactly once,
//! when the count falls to zero. An index stores a handle, never a borrow,
//! so it cannot outlive the string unnoticed: a dead handle is an ordinary
//! lookup failure.

use vstd::prelude::*;

verus! {

/// A handle on a reference string in a registry.
#[derive(Clone, Copy, Debug, PartialEq, Eq, Structural)]
pub struct CamlPastaFqUrs {
    pub id: usize,
}

/// The state of one reference string.
#[derive(Clone, Copy, Debug, PartialEq, Eq, Structural)]
pub struct UrsSlot {
    /// Strong references now held.
    pub strong: usize,
    /// How often the string was released.
    pub released: usize,
}

/// The slots after one more reference to slot `id` was taken.
pub open spec fn spec_share(slots: Seq<UrsSlot>, id: int) -> Seq<UrsSlot> {
    if spec_live(slots, id) && slots[id].strong < usize::MAX {
        slots.update(id, UrsSlot { strong: (slots[id].strong + 1) as usize, released: slots[id].released })
    } else {
        slots
    }
}

/// The slots after one reference to slot `id` was given up.
pub open spec fn spec_drop(slots: Seq<UrsSlot>, id: int) -> Seq<UrsSlot> {
    if !spec_live(slots, id) {
        slots
    } else if slots[id].strong == 1 {
        slots.update(id, UrsSlot { strong: 0, released: 1 })
    } else {
        slots.update(id, UrsSlot { strong: (slots[id].strong - 1) as usize, released: slots[id].released })
    }
}

/// Slot `id` exists and its string has not been released.
pub open spec fn spec_live(slots: Seq<UrsSlot>, id: int) -> bool {
    0 <= id < slots.len() && slots[id].strong > 0
}

/// A string is live exactly while it was never released, and a dead one was
/// released exactly once.
pub open spec fn spec_wf(slots: Seq<UrsSlot>) -> bool {
    forall|i: int|
        0 <= i < slots.len() ==> if (#[trigger] slots[i]).strong > 0 {
            slots[i].released == 0
        } else {
            slots[i].released == 1
        }
}

/// The registry of reference strings.
#[derive(Clone, Debug, PartialEq, Eq)]
pub struct UrsRegistry {
    pub slots: Vec<UrsSlot>,
}

impl UrsRegistry {
    pub open spec fn view(&self) -> Seq<UrsSlot> {
        self.slots@
    }

    pub open spec fn wf(&self) -> bool {
        spec_wf(self@)
    }

    /// A registry without strings.
    pub fn new() -> (r: UrsRegistry)
        ensures
            r@ == Seq::<UrsSlot>::empty(),
            r.wf(),
    {
        UrsRegistry { slots: Vec::new() }
    }

    /// Enters a new string and hands out its first reference.
    pub fn register(&mut self) -> (h: CamlPastaFqUrs)
        requires
            old(self).wf(),
        ensures
            final(self).wf(),
            h.id == old(self)@.len(),
            final(self)@ == old(self)@.push(UrsSlot { strong: 1, released: 0 }),
    {
        let id = self.slots.len();
        self.slots.push(UrsSlot { strong: 1, released: 0 });
        CamlPastaFqUrs { id }
    }

    /// Says whether the string behind `h` is still there.
    pub fn is_live(&self, h: CamlPastaFqUrs) -> (b: bool)
        ensures
            b == spec_live(self@, h.id as int),
    {
        h.id < self.slots.len() && self.slots[h.id].strong > 0
    }

    /// The number of strong references to the string behind `h`: zero for a
    /// released or unknown string.
    pub fn strong_count(&self, h: CamlPastaFqUrs) -> (c: usize)
        ensures
            c == (if spec_live(self@, h.id as int) { self@[h.id as int].strong } else { 0 }),
    {
        if h.id < self.slots.len() {
            self.slots[h.id].strong
        } else {
            0
        }
    }

    /// How often the string behind `h` was released: zero for an unknown one.
    pub fn release_count(&self, h: CamlPastaFqUrs) -> (c: usize)
        ensures
            c == (if h.id < self@.len() { self@[h.id as int].released } else { 0 }),
    {
        if h.id < self.slots.len() {
            self.slots[h.id].released
        } else {
            0
        }
    }

    /// Takes one more reference to the string behind `h`. Succeeds exactly
    /// when the string is live and its count can still grow; otherwise the
    /// registry stays as it was.
    pub fn share_ref(&mut self, h: CamlPastaFqUrs) -> (r: Option<CamlPastaFqUrs>)
        requires
            old(self).wf(),
        ensures
            final(self).wf(),
            final(self)@ == spec_share(old(self)@, h.id as int),
            r is Some <==> spec_live(old(self)@, h.id as int) && old(self)@[h.id as int].strong < usize::MAX,
            r is Some ==> r == Some(h),
    {
        if h.id < self.slots.len() {
            let slot = self.slots[h.id];
            if slot.strong > 0 && slot.strong < usize::MAX {
                self.slots.set(h.id, UrsSlot { strong: slot.strong + 1, released: slot.released });
                return Some(h);
            }
        }
        None
    }

    /// Gives up one reference to the string behind `h`. Returns `true`
    /// exactly when this was the last one, so that the string is released
    /// now. A dead or unknown handle changes nothing.
    pub fn drop_ref(&mut self, h: CamlPastaFqUrs) -> (released: bool)
        requires
            old(self).wf(),
        ensures
            final(self).wf(),
            final(self)@ == spec_drop(old(self)@, h.id as int),
            released <==> spec_live(old(self)@, h.id as int) && old(self)@[h.id as int].strong == 1,
    {
        if h.id < self.slots.len() {
            let slot = self.slots[h.id];
            if slot.strong == 1 {
                self.slots.set(h.id, UrsSlot { strong: 0, released: 1 });
                return true;
            } else if slot.strong > 1 {
                self.slots.set(h.id, UrsSlot { strong: slot.strong - 1, released: slot.released });
            }
        }
        false
    }
}

/// Sharing a live string and dropping the first reference leaves it live and
/// unreleased, with the count it had. Dropping the last reference releases
/// it once, and further drops release nothing more.
pub proof fn lemma_share_then_drop(slots: Seq<UrsSlot>, id: int)
    requires
        spec_wf(slots),
        spec_live(slots, id),
        slots[id].strong < usize::MAX,
    ensures
        spec_live(spec_share(slots, id), id),
        spec_drop(spec_share(slots, id), id) =~= slots,
        spec_live(spec_drop(spec_share(slots, id), id), id),
        spec_drop(spec_share(slots, id), id)[id].released == 0,
        slots[id].strong == 1 ==> {
            let gone = spec_drop(spec_drop(spec_share(slots, id), id), id);
            &&& !spec_live(gone, id)
            &&& gone[id].released == 1
            &&& spec_drop(gone, id) == gone
            &&& spec_share(gone, id) == gone
        },
{
}

/// Sharing and dropping keep every registry well formed and touch no slot
/// but the one named.
pub proof fn lemma_sharing_is_local(slots: Seq<UrsSlot>, id: int)
    requires
        spec_wf(slots),
    ensures
        spec_wf(spec_share(slots, id)),
        spec_wf(spec_drop(slots, id)),
        spec_share(slots, id).len() == slots.len(),
        spec_drop(slots, id).len() == slots.len(),
        forall|j: int| 0 <= j < slots.len() && j != id ==> spec_share(slots, id)[j] == slots[j]
            && spec_drop(slots, id)[j] == slots[j],
{
}

} // verus!
