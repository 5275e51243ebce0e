use fjord_monitor::config::{frame_rate, placement, Corner, Geometry, Placement};
use fjord_monitor::surface::{SurfaceAction, SurfaceEvent, SurfaceKeeper, REBUILD_DELAY_NS};

fn geometry() -> Geometry {
    Geometry { width: 480, height: 400, margin: 16, corner: Corner::TopRight }
}

#[test]
fn default_corner_is_top_right() {
    assert_eq!(Corner::default(), Corner::TopRight);
}

#[test]
fn placement_of_each_corner() {
    assert_eq!(
        placement(Corner::TopRight, 16),
        Placement {
            top: true,
            bottom: false,
            left: false,
            right: true,
            margin_top: 16,
            margin_right: 16,
            margin_bottom: 0,
            margin_left: 0,
        }
    );
    assert_eq!(
        placement(Corner::TopLeft, 8),
        Placement {
            top: true,
            bottom: false,
            left: true,
            right: false,
            margin_top: 8,
            margin_right: 0,
            margin_bottom: 0,
            margin_left: 8,
        }
    );
    assert_eq!(
        placement(Corner::BottomRight, -3),
        Placement {
            top: false,
            bottom: true,
            left: false,
            right: true,
            margin_top: 0,
            margin_right: -3,
            margin_bottom: -3,
            margin_left: 0,
        }
    );
    assert_eq!(
        placement(Corner::BottomLeft, 0),
        Placement {
            top: false,
            bottom: true,
            left: true,
            right: false,
            margin_top: 0,
            margin_right: 0,
            margin_bottom: 0,
            margin_left: 0,
        }
    );
}

#[test]
fn corners_anchor_one_edge_each_way() {
    for corner in [Corner::TopRight, Corner::TopLeft, Corner::BottomRight, Corner::BottomLeft] {
        let p = placement(corner, 12);
        assert_ne!(p.top, p.bottom);
        assert_ne!(p.left, p.right);
        assert_eq!(p.margin_top + p.margin_bottom + p.margin_left + p.margin_right, 24);
    }
}

#[test]
fn frame_rate_is_clamped() {
    assert_eq!(frame_rate(0), 5);
    assert_eq!(frame_rate(4), 5);
    assert_eq!(frame_rate(5), 5);
    assert_eq!(frame_rate(30), 30);
    assert_eq!(frame_rate(120), 120);
    assert_eq!(frame_rate(121), 120);
    assert_eq!(frame_rate(u16::MAX), 120);
}

#[test]
fn tick_without_loss_does_nothing() {
    let mut k = SurfaceKeeper::new(geometry(), 0);
    assert_eq!(k.update(SurfaceEvent::Tick { now_ns: 10 * REBUILD_DELAY_NS }), SurfaceAction::Idle);
    assert_eq!(k, SurfaceKeeper::new(geometry(), 0));
}

#[test]
fn sample_due_takes_a_sample() {
    let mut k = SurfaceKeeper::new(geometry(), 5);
    assert_eq!(k.update(SurfaceEvent::SampleDue), SurfaceAction::TakeSample);
    assert_eq!(k, SurfaceKeeper::new(geometry(), 5));
}

#[test]
fn loss_is_deferred_until_two_seconds() {
    let start = 7_000_000_000;
    let mut k = SurfaceKeeper::new(geometry(), start);
    assert_eq!(k.update(SurfaceEvent::SurfaceLost), SurfaceAction::Idle);
    assert!(k.lost);
    for ns in [0, start, start + 500_000_000, start + 1_999_999_999] {
        assert_eq!(k.update(SurfaceEvent::Tick { now_ns: ns }), SurfaceAction::Idle);
        assert_eq!(k.update(SurfaceEvent::SampleDue), SurfaceAction::TakeSample);
        assert!(k.lost);
    }
    let due = start + 2_000_000_000;
    assert_eq!(k.update(SurfaceEvent::Tick { now_ns: due }), SurfaceAction::Rebuild);
    assert!(!k.lost);
    assert_eq!(k.created_ns, due);
    assert_eq!(k.update(SurfaceEvent::Tick { now_ns: due + 5 * REBUILD_DELAY_NS }), SurfaceAction::Idle);
}

#[test]
fn rebuild_restarts_the_clock() {
    let mut k = SurfaceKeeper::new(geometry(), 0);
    k.update(SurfaceEvent::SurfaceLost);
    assert_eq!(k.update(SurfaceEvent::Tick { now_ns: 3_000_000_000 }), SurfaceAction::Rebuild);
    k.update(SurfaceEvent::SurfaceLost);
    assert_eq!(k.update(SurfaceEvent::Tick { now_ns: 4_000_000_000 }), SurfaceAction::Idle);
    assert_eq!(k.update(SurfaceEvent::Tick { now_ns: 5_000_000_000 }), SurfaceAction::Rebuild);
}

#[test]
fn geometry_change_replaces_the_surface() {
    let mut k = SurfaceKeeper::new(geometry(), 0);
    let moved = Geometry { corner: Corner::BottomLeft, ..geometry() };
    assert_eq!(
        k.update(SurfaceEvent::ConfigChanged { geometry: moved, now_ns: 9 }),
        SurfaceAction::Replace
    );
    assert_eq!(k.geometry, moved);
    assert_eq!(k.created_ns, 9);
    assert_eq!(
        k.update(SurfaceEvent::ConfigChanged { geometry: moved, now_ns: 10 }),
        SurfaceAction::RedrawScenery
    );
    assert_eq!(k.created_ns, 9);
    let wider = Geometry { width: 481, ..moved };
    assert_eq!(
        k.update(SurfaceEvent::ConfigChanged { geometry: wider, now_ns: 11 }),
        SurfaceAction::Replace
    );
    let taller = Geometry { height: 1, ..wider };
    assert_eq!(
        k.update(SurfaceEvent::ConfigChanged { geometry: taller, now_ns: 12 }),
        SurfaceAction::Replace
    );
    let spaced = Geometry { margin: 0, ..taller };
    assert_eq!(
        k.update(SurfaceEvent::ConfigChanged { geometry: spaced, now_ns: 13 }),
        SurfaceAction::Replace
    );
}

#[test]
fn settings_change_without_new_geometry_keeps_a_pending_loss() {
    let mut k = SurfaceKeeper::new(geometry(), 0);
    k.update(SurfaceEvent::SurfaceLost);
    assert_eq!(
        k.update(SurfaceEvent::ConfigChanged { geometry: geometry(), now_ns: 100 }),
        SurfaceAction::RedrawScenery
    );
    assert!(k.lost);
    assert_eq!(k.update(SurfaceEvent::Tick { now_ns: REBUILD_DELAY_NS }), SurfaceAction::Rebuild);
}

#[test]
fn replacement_settles_a_pending_loss() {
    let mut k = SurfaceKeeper::new(geometry(), 0);
    k.update(SurfaceEvent::SurfaceLost);
    let moved = Geometry { corner: Corner::TopLeft, ..geometry() };
    assert_eq!(
        k.update(SurfaceEvent::ConfigChanged { geometry: moved, now_ns: 1_000_000_000 }),
        SurfaceAction::Replace
    );
    assert!(!k.lost);
    for ns in [2_000_000_000, 3_000_000_000, 60_000_000_000] {
        assert_eq!(k.update(SurfaceEvent::Tick { now_ns: ns }), SurfaceAction::Idle);
    }
}
