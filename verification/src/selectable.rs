//! The selectable entity: one per drawn path while selection mode is active.
//!
//! It owns the drag-gesture state machine. The host delivers events to it
//! (with world-space pointer positions already projected to arc-length
//! offsets) and performs the actions it returns: registering the pickable
//! shape, and sending selection updates and commits to the plan authority.

use vstd::prelude::*;

use crate::path::Path;
use crate::selection::{
    initial_interval, lemma_initial_interval_invariant, lemma_short_path_initial_interval,
    lemma_short_path_updated_interval, lemma_updated_interval_in_bounds,
    lemma_updated_interval_min_width, snapped_ends, updated_interval, END_MARGIN,
    MIN_SELECTION_WIDTH,
};

verus! {

/// Radius (5 units) of the pickable tube registered around the path
/// centerline.
pub const INTERACTABLE_RADIUS: u64 = 50;

/// Priority tier at which the pickable shape is registered.
pub const INTERACTABLE_PRIORITY: u64 = 1;

/// Opaque reference correlating a selectable entity to the canonical stroke
/// it stands for.
#[derive(Clone, Copy, Debug, PartialEq, Eq, Structural)]
pub struct StrokeRef {
    pub index: u64,
}

/// Gesture state of one entity: `Idle` between gestures, `Dragging` from a
/// hit drag start until the drag ends.
#[derive(Clone, Copy, Debug, PartialEq, Eq, Structural)]
pub enum DragState {
    Idle,
    Dragging,
}

/// An inbound event. Pointer positions arrive already projected onto the
/// path: `None` where the pointer missed the path, otherwise the arc-length
/// offset (tenths of a unit) of the closest point.
#[derive(Clone, Copy, Debug, PartialEq, Eq)]
pub enum Event {
    /// Register this entity's path as a pickable shape.
    AddToUI,
    /// Unregister the pickable shape; the entity is to be destroyed.
    ClearSelectables,
    /// A drag began; `offset` is the projection of its starting point.
    DragStarted { offset: Option<u64> },
    /// A drag moved; `from` and `to` are the projections of the previous and
    /// the current pointer position.
    DragOngoing { from: Option<u64>, to: Option<u64> },
    /// The drag ended. The host keeps the raw end point itself: it forwards
    /// it, in its native world-space form, alongside the commit.
    DragFinished,
    /// Any other interaction event: ignored.
    Other,
}

/// An outbound action for the host to perform.
#[derive(Clone, Copy, Debug, PartialEq, Eq, Structural)]
pub enum Action {
    /// Register entity `id`'s path with the interaction layer, as a tube of
    /// the given radius around the centerline, at the given priority.
    AddInteractable { id: u64, radius: u64, priority: u64 },
    /// Unregister entity `id`'s shape from the interaction layer.
    RemoveInteractable { id: u64 },
    /// Report the currently selected interval of the stroke to the plan
    /// authority.
    Select { stroke_ref: StrokeRef, start: u64, end: u64 },
    /// Ask the plan authority to finalize the gesture. The host appends the
    /// raw end point of the drag.
    Commit { confirm: bool },
}

/// Whether the entity lives on after handling an event.
#[derive(Clone, Copy, Debug, PartialEq, Eq, Structural)]
pub enum Fate {
    Live,
    Die,
}

/// One selectable path, with its gesture state.
pub struct LaneStrokeSelectable {
    /// Identity under which the host addresses this entity; assigned when the
    /// entity is placed into an arena.
    pub id: Option<u64>,
    pub stroke_ref: StrokeRef,
    pub path: Path,
    pub state: DragState,
}

impl LaneStrokeSelectable {
    pub open spec fn well_formed(self) -> bool {
        &&& self.id is Some
        &&& self.path.well_formed()
    }

    /// Every projected offset an event carries lies on the path.
    pub open spec fn event_in_range(self, msg: Event) -> bool {
        match msg {
            Event::DragStarted { offset } => (offset matches Some(o) ==> o <= self.path.total()),
            Event::DragOngoing { from, to } => {
                &&& (from matches Some(a) ==> a <= self.path.total())
                &&& (to matches Some(b) ==> b <= self.path.total())
            },
            _ => true,
        }
    }

    /// What handling an event does: the entity afterwards, the action emitted
    /// (if any), and whether the entity lives on.
    ///
    /// A drag start that hits the path opens a gesture with a symmetric
    /// interval around the hit; one that misses changes nothing. While
    /// dragging, an update with both ends projected emits the snapped and
    /// re-clamped interval, and an update with either end missing keeps the
    /// previous interval by emitting nothing. The drag end commits and
    /// returns the entity to `Idle`. Events that do not belong to the current
    /// state are ignored.
    pub open spec fn spec_receive(self, msg: Event) -> (LaneStrokeSelectable, Option<Action>, Fate) {
        match msg {
            Event::AddToUI => (
                self,
                Some(
                    Action::AddInteractable {
                        id: self.id->0,
                        radius: INTERACTABLE_RADIUS,
                        priority: INTERACTABLE_PRIORITY,
                    },
                ),
                Fate::Live,
            ),
            Event::ClearSelectables => (
                self,
                Some(Action::RemoveInteractable { id: self.id->0 }),
                Fate::Die,
            ),
            Event::DragStarted { offset } => {
                if self.state is Idle && offset is Some {
                    let o = offset->0;
                    let interval = initial_interval(o as int, self.path.total());
                    (
                        LaneStrokeSelectable { state: DragState::Dragging, ..self },
                        Some(
                            Action::Select {
                                stroke_ref: self.stroke_ref,
                                start: interval.0 as u64,
                                end: interval.1 as u64,
                            },
                        ),
                        Fate::Live,
                    )
                } else {
                    (self, None, Fate::Live)
                }
            },
            Event::DragOngoing { from, to } => {
                if self.state is Dragging && from is Some && to is Some {
                    let interval = updated_interval(self.path@, from->0 as int, to->0 as int);
                    (
                        self,
                        Some(
                            Action::Select {
                                stroke_ref: self.stroke_ref,
                                start: interval.0 as u64,
                                end: interval.1 as u64,
                            },
                        ),
                        Fate::Live,
                    )
                } else {
                    (self, None, Fate::Live)
                }
            },
            Event::DragFinished => {
                if self.state is Dragging {
                    (
                        LaneStrokeSelectable { state: DragState::Idle, ..self },
                        Some(Action::Commit { confirm: true }),
                        Fate::Live,
                    )
                } else {
                    (self, None, Fate::Live)
                }
            },
            Event::Other => (self, None, Fate::Live),
        }
    }

    /// The drag this event reports keeps clear of the path ends: a drag
    /// start hits strictly inside the end margins, and a drag update's
    /// snapped ends do not hug a path end closer than the margins allow.
    pub open spec fn event_clear_of_ends(self, msg: Event) -> bool {
        match msg {
            Event::DragStarted { offset } => (offset matches Some(o)
                ==> END_MARGIN <= o <= self.path.total() - END_MARGIN),
            Event::DragOngoing { from, to } => ((from is Some && to is Some) ==> ({
                let (s2, e2) = snapped_ends(self.path@, from->0 as int, to->0 as int);
                let len = self.path.total();
                &&& !(s2 == 0 && e2 <= MIN_SELECTION_WIDTH)
                &&& !(e2 == len && s2 >= len - MIN_SELECTION_WIDTH)
            })),
            _ => true,
        }
    }

    /// A fresh entity, `Idle`, not yet registered under an identity.
    pub fn new(stroke_ref: StrokeRef, path: Path) -> (r: LaneStrokeSelectable)
        ensures
            r.id is None,
            r.stroke_ref == stroke_ref,
            r.path == path,
            r.state is Idle,
    {
        LaneStrokeSelectable { id: None, stroke_ref, path, state: DragState::Idle }
    }

    /// Handles one inbound event; returns the action to perform (if any) and
    /// whether the entity lives on.
    pub fn receive(&mut self, msg: &Event) -> (r: (Option<Action>, Fate))
        requires
            old(self).well_formed(),
            old(self).event_in_range(*msg),
        ensures
            *final(self) == old(self).spec_receive(*msg).0,
            r.0 == old(self).spec_receive(*msg).1,
            r.1 == old(self).spec_receive(*msg).2,
            final(self).well_formed(),
    {
        match *msg {
            Event::AddToUI => {
                let id = self.id.unwrap();
                (
                    Some(
                        Action::AddInteractable {
                            id,
                            radius: INTERACTABLE_RADIUS,
                            priority: INTERACTABLE_PRIORITY,
                        },
                    ),
                    Fate::Live,
                )
            },
            Event::ClearSelectables => {
                let id = self.id.unwrap();
                (Some(Action::RemoveInteractable { id }), Fate::Die)
            },
            Event::DragStarted { offset } => {
                match (self.state, offset) {
                    (DragState::Idle, Some(o)) => {
                        let (start, end) = self.path.compute_initial_interval(o);
                        self.state = DragState::Dragging;
                        (
                            Some(Action::Select { stroke_ref: self.stroke_ref, start, end }),
                            Fate::Live,
                        )
                    },
                    _ => (None, Fate::Live),
                }
            },
            Event::DragOngoing { from, to } => {
                match (self.state, from, to) {
                    (DragState::Dragging, Some(a), Some(b)) => {
                        let (start, end) = self.path.compute_updated_interval(a, b);
                        (
                            Some(Action::Select { stroke_ref: self.stroke_ref, start, end }),
                            Fate::Live,
                        )
                    },
                    _ => (None, Fate::Live),
                }
            },
            Event::DragFinished => {
                match self.state {
                    DragState::Dragging => {
                        self.state = DragState::Idle;
                        (Some(Action::Commit { confirm: true }), Fate::Live)
                    },
                    DragState::Idle => (None, Fate::Live),
                }
            },
            Event::Other => (None, Fate::Live),
        }
    }

    /// On a path long enough for both end margins and the minimum selection
    /// width, every selection interval this entity emits is non-degenerate
    /// and in bounds: it keeps the end margins and is at least fourteen
    /// tenths wide. It has the full minimum width of fifteen tenths whenever
    /// the drag kept clear of the path ends.
    pub proof fn lemma_emitted_interval_invariant(self, msg: Event)
        requires
            self.path.well_formed(),
            self.event_in_range(msg),
            self.path.total() >= 32,
        ensures
            ({
                let action = self.spec_receive(msg).1;
                action matches Some(Action::Select { start, end, .. }) ==> ({
                    &&& END_MARGIN <= start < end <= self.path.total() - END_MARGIN
                    &&& end - start >= MIN_SELECTION_WIDTH - 1
                    &&& (self.event_clear_of_ends(msg) ==> end - start >= MIN_SELECTION_WIDTH)
                })
            }),
    {
        match msg {
            Event::DragStarted { offset } => {
                if self.state is Idle && offset is Some {
                    lemma_initial_interval_invariant(offset->0 as int, self.path.total());
                }
            },
            Event::DragOngoing { from, to } => {
                if self.state is Dragging && from is Some && to is Some {
                    lemma_updated_interval_in_bounds(self.path@, from->0 as int, to->0 as int);
                    if self.event_clear_of_ends(msg) {
                        lemma_updated_interval_min_width(self.path@, from->0 as int, to->0 as int);
                    }
                }
            },
            _ => {},
        }
    }

    /// On a path shorter than the two end margins plus the minimum selection
    /// width, every emitted interval collapses to the margins themselves,
    /// whatever the drag did; its two ends coincide when the path has the
    /// minimum length of two tenths.
    pub proof fn lemma_short_path_emission(self, msg: Event)
        requires
            self.path.well_formed(),
            self.event_in_range(msg),
            self.path.total() <= 16,
        ensures
            ({
                let action = self.spec_receive(msg).1;
                action matches Some(Action::Select { start, end, .. }) ==> start == END_MARGIN
                    && end == self.path.total() - END_MARGIN
            }),
    {
        match msg {
            Event::DragStarted { offset } => {
                if self.state is Idle && offset is Some {
                    lemma_short_path_initial_interval(offset->0 as int, self.path.total());
                }
            },
            Event::DragOngoing { from, to } => {
                if self.state is Dragging && from is Some && to is Some {
                    lemma_short_path_updated_interval(self.path@, from->0 as int, to->0 as int);
                }
            },
            _ => {},
        }
    }

    /// Handling the same drag update twice in a row changes nothing the
    /// second time: the entity is unchanged and the same interval (if any) is
    /// emitted again, with the same fate.
    pub proof fn lemma_redrag_idempotent(self, from: Option<u64>, to: Option<u64>)
        ensures
            ({
                let msg = Event::DragOngoing { from, to };
                let (once, first_action, first_fate) = self.spec_receive(msg);
                let (twice, second_action, second_fate) = once.spec_receive(msg);
                twice == once && second_action == first_action && second_fate == first_fate
            }),
    {
    }

    /// A drag start whose point projects to none emits nothing and leaves the
    /// entity exactly as it was.
    pub proof fn lemma_missed_drag_start_is_noop(self)
        ensures
            self.spec_receive(Event::DragStarted { offset: None }) == (
                self,
                None::<Action>,
                Fate::Live,
            ),
    {
    }
}

} // verus!
