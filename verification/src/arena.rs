//! The registry of live selectable entities.
//!
//! Entities are created into slots and addressed by a stable handle (their
//! slot index). Delivering an event grants exclusive access to that one
//! entity for the duration of the call; an entity whose fate is `Die` is
//! removed, and its handle is never reused for it again.

use vstd::prelude::*;

use crate::path::Path;
use crate::selectable::{Action, DragState, Event, Fate, LaneStrokeSelectable, StrokeRef};

verus! {

/// An arena of selectable entities, indexed by stable handle.
pub struct SelectableArena {
    slots: Vec<Option<LaneStrokeSelectable>>,
}

impl View for SelectableArena {
    type V = Seq<Option<LaneStrokeSelectable>>;

    closed spec fn view(&self) -> Seq<Option<LaneStrokeSelectable>> {
        self.slots@
    }
}

impl SelectableArena {
    /// Every live entity is well formed and registered under its own slot
    /// index.
    pub open spec fn well_formed(self) -> bool {
        forall|i: int|
            0 <= i < self@.len() ==> ((#[trigger] self@[i]) matches Some(ent)
                ==> ent.well_formed() && ent.id == Some(i as u64))
    }

    pub fn new() -> (r: SelectableArena)
        ensures
            r@.len() == 0,
            r.well_formed(),
    {
        SelectableArena { slots: Vec::new() }
    }

    /// Number of slots ever created (live or vacated).
    pub fn slot_count(&self) -> (r: usize)
        ensures
            r == self@.len(),
    {
        self.slots.len()
    }

    /// Creates a selectable entity for one stroke and returns its handle.
    pub fn create(&mut self, stroke_ref: StrokeRef, path: Path) -> (h: usize)
        requires
            old(self).well_formed(),
            path.well_formed(),
        ensures
            h == old(self)@.len(),
            final(self)@ == old(self)@.push(
                Some(
                    (LaneStrokeSelectable {
                        id: Some(h as u64),
                        stroke_ref,
                        path,
                        state: DragState::Idle,
                    }),
                ),
            ),
            final(self).well_formed(),
    {
        let h = self.slots.len();
        let mut ent = LaneStrokeSelectable::new(stroke_ref, path);
        ent.id = Some(h as u64);
        self.slots.push(Some(ent));
        h
    }

    /// Delivers one event to the entity at handle `h`.
    ///
    /// Returns `None` when no entity lives there (an unknown or vacated
    /// handle); otherwise the entity handles the event and the emitted action
    /// and fate are returned, the slot being vacated when the fate is `Die`.
    pub fn deliver(&mut self, h: usize, msg: &Event) -> (r: Option<(Option<Action>, Fate)>)
        requires
            old(self).well_formed(),
            h < old(self)@.len() ==> (old(self)@[h as int] matches Some(ent)
                ==> ent.event_in_range(*msg)),
        ensures
            final(self).well_formed(),
            h >= old(self)@.len() || old(self)@[h as int] is None ==> r is None && final(self)@
                == old(self)@,
            h < old(self)@.len() ==> (old(self)@[h as int] matches Some(ent) ==> ({
                let (after, action, fate) = ent.spec_receive(*msg);
                &&& r == Some((action, fate))
                &&& final(self)@ == old(self)@.update(
                    h as int,
                    if fate is Die {
                        None
                    } else {
                        Some(after)
                    },
                )
            })),
    {
        if h >= self.slots.len() {
            return None;
        }
        let slot = self.slots.remove(h);
        match slot {
            None => {
                self.slots.insert(h, None);
                proof {
                    assert(old(self)@.remove(h as int).insert(h as int, None) =~= old(self)@);
                }
                None
            },
            Some(mut ent) => {
                let (action, fate) = ent.receive(msg);
                if fate == Fate::Die {
                    self.slots.insert(h, None);
                    proof {
                        assert(old(self)@.remove(h as int).insert(h as int, None)
                            =~= old(self)@.update(h as int, None));
                    }
                } else {
                    let ghost after = ent;
                    self.slots.insert(h, Some(ent));
                    proof {
                        assert(old(self)@.remove(h as int).insert(h as int, Some(after))
                            =~= old(self)@.update(h as int, Some(after)));
                    }
                }
                Some((action, fate))
            },
        }
    }
}

} // verus!
