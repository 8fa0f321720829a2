use stroke_selection::arena::SelectableArena;
use stroke_selection::path::Path;
use stroke_selection::selectable::{Action, Event, Fate, StrokeRef};

fn path(segments: Vec<u64>) -> Path {
    Path::new(segments).expect("segments should form a well-formed path")
}

fn arena_with(segments: Vec<u64>) -> (SelectableArena, usize) {
    let mut arena = SelectableArena::new();
    let h = arena.create(StrokeRef { index: 7 }, path(segments));
    (arena, h)
}

fn select(start: u64, end: u64) -> Action {
    Action::Select {
        stroke_ref: StrokeRef { index: 7 },
        start,
        end,
    }
}

#[test]
fn path_accepts_positive_segments() {
    let p = path(vec![200, 300]);
    assert_eq!(p.length(), 500);
    assert_eq!(p.segment_count(), 2);
    assert_eq!(p.segment(0), 200);
    assert_eq!(p.segment(1), 300);
}

#[test]
fn path_rejects_zero_segment() {
    assert!(Path::new(vec![200, 0, 300]).is_none());
}

#[test]
fn path_rejects_too_short_total() {
    assert!(Path::new(vec![1]).is_none());
    assert!(Path::new(vec![]).is_none());
    assert!(Path::new(vec![2]).is_some());
}

#[test]
fn path_rejects_too_long_total() {
    let huge: u64 = 0x1000_0000_0000_0000;
    assert!(Path::new(vec![huge]).is_some());
    assert!(Path::new(vec![huge, 1]).is_none());
}

#[test]
fn drag_start_emits_symmetric_interval() {
    // Offsets in tenths: a path of length 50.0, hit at 25.0.
    let (mut arena, h) = arena_with(vec![500]);
    let r = arena.deliver(h, &Event::DragStarted { offset: Some(250) });
    assert_eq!(r, Some((Some(select(235, 265)), Fate::Live)));
}

#[test]
fn edge_snap_pulls_both_ends_to_the_path_ends() {
    // Path of length 100.0; ends projecting to 3.0 and 95.0 snap to the path
    // ends and re-clamp to [0.1, 99.9].
    let (mut arena, h) = arena_with(vec![1000]);
    arena.deliver(h, &Event::DragStarted { offset: Some(500) });
    let r = arena.deliver(
        h,
        &Event::DragOngoing {
            from: Some(30),
            to: Some(950),
        },
    );
    assert_eq!(r, Some((Some(select(1, 999)), Fate::Live)));
}

#[test]
fn boundary_snap_pulls_near_ends_to_segment_joints() {
    // Segments of length 20.0 and 30.0, boundary at 20.0; a drag spanning
    // 18.0..40.0 snaps its start to the boundary, its end stays.
    let (mut arena, h) = arena_with(vec![200, 300]);
    arena.deliver(h, &Event::DragStarted { offset: Some(300) });
    let r = arena.deliver(
        h,
        &Event::DragOngoing {
            from: Some(180),
            to: Some(400),
        },
    );
    assert_eq!(r, Some((Some(select(200, 400)), Fate::Live)));
}

#[test]
fn update_reclamps_to_minimum_width() {
    // A drag spanning 20.0..20.1 far from ends and boundaries grows back to
    // the 1.5 minimum width around its ends.
    let (mut arena, h) = arena_with(vec![500]);
    arena.deliver(h, &Event::DragStarted { offset: Some(250) });
    let r = arena.deliver(
        h,
        &Event::DragOngoing {
            from: Some(201),
            to: Some(200),
        },
    );
    assert_eq!(r, Some((Some(select(186, 215)), Fate::Live)));
}

#[test]
fn update_near_start_keeps_margin_at_reduced_width() {
    // A drag hugging the path start is clamped to begin at the 0.1 margin;
    // the emitted width there is 1.4, a tenth under the general minimum.
    let (mut arena, h) = arena_with(vec![500]);
    arena.deliver(h, &Event::DragStarted { offset: Some(250) });
    let r = arena.deliver(
        h,
        &Event::DragOngoing {
            from: Some(0),
            to: Some(10),
        },
    );
    assert_eq!(r, Some((Some(select(1, 15)), Fate::Live)));
}

#[test]
fn missed_drag_start_is_a_noop() {
    let (mut arena, h) = arena_with(vec![500]);
    let r = arena.deliver(h, &Event::DragStarted { offset: None });
    assert_eq!(r, Some((None, Fate::Live)));
    // No gesture began, so a later update is ignored as well.
    let r = arena.deliver(
        h,
        &Event::DragOngoing {
            from: Some(100),
            to: Some(200),
        },
    );
    assert_eq!(r, Some((None, Fate::Live)));
}

#[test]
fn missed_update_keeps_previous_interval() {
    let (mut arena, h) = arena_with(vec![500]);
    arena.deliver(h, &Event::DragStarted { offset: Some(250) });
    let r = arena.deliver(
        h,
        &Event::DragOngoing {
            from: None,
            to: Some(400),
        },
    );
    // Nothing is emitted, so the previously reported interval stands.
    assert_eq!(r, Some((None, Fate::Live)));
    // The gesture is still alive: the next full update emits again.
    let r = arena.deliver(
        h,
        &Event::DragOngoing {
            from: Some(300),
            to: Some(400),
        },
    );
    assert_eq!(r, Some((Some(select(300, 400)), Fate::Live)));
}

#[test]
fn identical_updates_emit_identical_intervals() {
    let (mut arena, h) = arena_with(vec![200, 300]);
    arena.deliver(h, &Event::DragStarted { offset: Some(300) });
    let msg = Event::DragOngoing {
        from: Some(180),
        to: Some(400),
    };
    let first = arena.deliver(h, &msg);
    let second = arena.deliver(h, &msg);
    assert_eq!(first, second);
    assert_eq!(first, Some((Some(select(200, 400)), Fate::Live)));
}

#[test]
fn end_to_end_gesture() {
    // Path of length 50.0: start at 25.0, sweep out to 2.0..48.0, release.
    let (mut arena, h) = arena_with(vec![500]);
    let r = arena.deliver(h, &Event::DragStarted { offset: Some(250) });
    assert_eq!(r, Some((Some(select(235, 265)), Fate::Live)));
    let r = arena.deliver(
        h,
        &Event::DragOngoing {
            from: Some(20),
            to: Some(480),
        },
    );
    assert_eq!(r, Some((Some(select(1, 499)), Fate::Live)));
    let r = arena.deliver(h, &Event::DragFinished);
    assert_eq!(r, Some((Some(Action::Commit { confirm: true }), Fate::Live)));
    // Back to idle: an update without a new drag start is ignored.
    let r = arena.deliver(
        h,
        &Event::DragOngoing {
            from: Some(20),
            to: Some(480),
        },
    );
    assert_eq!(r, Some((None, Fate::Live)));
}

#[test]
fn short_path_clamps_to_margins() {
    // Length 1.0, under the 1.7 needed for margins plus minimum width:
    // every emitted interval is exactly [0.1, 0.9].
    let (mut arena, h) = arena_with(vec![10]);
    let r = arena.deliver(h, &Event::DragStarted { offset: Some(5) });
    assert_eq!(r, Some((Some(select(1, 9)), Fate::Live)));
    let r = arena.deliver(
        h,
        &Event::DragOngoing {
            from: Some(0),
            to: Some(10),
        },
    );
    assert_eq!(r, Some((Some(select(1, 9)), Fate::Live)));
}

#[test]
fn minimum_length_path_collapses_interval() {
    // At the minimum path length of 0.2 the two margins meet: start and end
    // coincide at 0.1.
    let (mut arena, h) = arena_with(vec![2]);
    let r = arena.deliver(h, &Event::DragStarted { offset: Some(1) });
    assert_eq!(r, Some((Some(select(1, 1)), Fate::Live)));
}

#[test]
fn registration_and_teardown() {
    let (mut arena, h) = arena_with(vec![500]);
    let r = arena.deliver(h, &Event::AddToUI);
    assert_eq!(
        r,
        Some((
            Some(Action::AddInteractable {
                id: h as u64,
                radius: 50,
                priority: 1,
            }),
            Fate::Live,
        ))
    );
    let r = arena.deliver(h, &Event::ClearSelectables);
    assert_eq!(
        r,
        Some((Some(Action::RemoveInteractable { id: h as u64 }), Fate::Die))
    );
    // The entity is gone; its handle is vacated, not reused.
    assert_eq!(arena.deliver(h, &Event::DragStarted { offset: Some(250) }), None);
    assert_eq!(arena.slot_count(), 1);
}

#[test]
fn arena_keeps_entities_independent() {
    let mut arena = SelectableArena::new();
    let a = arena.create(StrokeRef { index: 1 }, path(vec![500]));
    let b = arena.create(StrokeRef { index: 2 }, path(vec![1000]));
    assert_eq!((a, b), (0, 1));
    arena.deliver(a, &Event::ClearSelectables);
    // Entity `b` is untouched by `a`'s teardown.
    let r = arena.deliver(b, &Event::DragStarted { offset: Some(500) });
    assert_eq!(
        r,
        Some((
            Some(Action::Select {
                stroke_ref: StrokeRef { index: 2 },
                start: 485,
                end: 515,
            }),
            Fate::Live,
        ))
    );
    assert_eq!(arena.deliver(a, &Event::DragStarted { offset: Some(250) }), None);
}

#[test]
fn other_events_are_ignored() {
    let (mut arena, h) = arena_with(vec![500]);
    let r = arena.deliver(h, &Event::Other);
    assert_eq!(r, Some((None, Fate::Live)));
    let r = arena.deliver(h, &Event::DragFinished);
    assert_eq!(r, Some((None, Fate::Live)));
}

#[test]
fn unknown_handle_is_rejected() {
    let (mut arena, _) = arena_with(vec![500]);
    assert_eq!(arena.deliver(9, &Event::Other), None);
}
