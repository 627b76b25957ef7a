use text_layout::{Action, Affinity, Cursor, HitPoint, LayoutCursor, Metrics, Point, Size};

#[test]
fn affinity_tells_its_side() {
    assert!(Affinity::Before.before());
    assert!(!Affinity::Before.after());
    assert!(Affinity::After.after());
    assert!(!Affinity::After.before());
}

#[test]
fn affinity_from_flags() {
    assert_eq!(Affinity::from_before(true), Affinity::Before);
    assert_eq!(Affinity::from_before(false), Affinity::After);
    assert_eq!(Affinity::from_after(true), Affinity::After);
    assert_eq!(Affinity::from_after(false), Affinity::Before);
    assert_eq!(Affinity::default(), Affinity::Before);
}

#[test]
fn cursor_constructors() {
    assert_eq!(Cursor::new(3, 7), Cursor { line: 3, index: 7, affinity: Affinity::Before });
    assert_eq!(
        Cursor::new_with_affinity(3, 7, Affinity::After),
        Cursor { line: 3, index: 7, affinity: Affinity::After }
    );
    assert_eq!(Cursor::default(), Cursor::new(0, 0));
    assert_eq!(LayoutCursor::new(1, 2, 3), LayoutCursor { line: 1, layout: 2, glyph: 3 });
}

#[test]
fn cursors_are_ordered_by_line_index_and_affinity() {
    let cursors = [
        Cursor::new_with_affinity(0, 0, Affinity::Before),
        Cursor::new_with_affinity(0, 0, Affinity::After),
        Cursor::new_with_affinity(0, 5, Affinity::Before),
        Cursor::new_with_affinity(0, 5, Affinity::After),
        Cursor::new_with_affinity(1, 0, Affinity::Before),
        Cursor::new_with_affinity(1, 2, Affinity::After),
        Cursor::new_with_affinity(2, 0, Affinity::Before),
    ];
    for (i, a) in cursors.iter().enumerate() {
        for (j, b) in cursors.iter().enumerate() {
            assert_eq!(a.at_most(b), i <= j);
            assert_eq!(a.at_most(b), a <= b);
            assert_eq!(a == b, i == j);
        }
    }
}

#[test]
fn hit_point_holds_its_fields() {
    let hit = HitPoint { line: 1, index: 4, is_inside: true };
    assert_eq!(hit.line, 1);
    assert_eq!(hit.index, 4);
    assert!(hit.is_inside);
}

#[test]
fn actions_compare() {
    assert_eq!(Action::Click { x: 1, y: 2 }, Action::Click { x: 1, y: 2 });
    assert_ne!(Action::Click { x: 1, y: 2 }, Action::Drag { x: 1, y: 2 });
    assert_ne!(Action::Insert('a'), Action::Insert('b'));
    assert_eq!(Action::Scroll { lines: -3 }, Action::Scroll { lines: -3 });
    assert_ne!(Action::Vertical(1), Action::Vertical(-1));
    assert_ne!(Action::Home, Action::End);
}

#[test]
fn metrics_scale_in_64ths() {
    let metrics = Metrics::new(1024, 1280);
    assert_eq!(metrics, Metrics { font_size: 1024, line_height: 1280 });
    assert_eq!(metrics.scale(64), metrics);
    assert_eq!(metrics.scale(128), Metrics::new(2048, 2560));
    assert_eq!(metrics.scale(32), Metrics::new(512, 640));
    assert_eq!(metrics.scale(0), Metrics::new(0, 0));
    // 7 * 3 / 64 and 100 * 3 / 64, rounded towards 0.
    assert_eq!(Metrics::new(7, 100).scale(3), Metrics::new(0, 4));
    assert_eq!(Metrics::new(-100, 100).scale(3), Metrics::new(-4, 4));
    assert_eq!(Metrics::new(100, 100).scale(-3), Metrics::new(-4, -4));
}

#[test]
fn metrics_scale_stays_in_range() {
    let metrics = Metrics::new(i32::MAX, i32::MIN);
    assert_eq!(metrics.scale(i32::MAX), Metrics::new(i32::MAX, i32::MIN));
    assert_eq!(metrics.scale(i32::MIN), Metrics::new(i32::MIN, i32::MAX));
    assert_eq!(metrics.scale(64), metrics);
}

#[test]
fn points_and_sizes() {
    assert_eq!(Point::new(3, -4), Point { x: 3, y: -4 });
    assert_eq!(Size::new(3, 4), Size { width: 3, height: 4 });
}
