use idlescreen::monitor::{get_primary_monitor_bounds, published_bounds, MonitorCellBounds};

fn bounds(start_col: usize, end_col: usize, start_row: usize, end_row: usize) -> MonitorCellBounds {
    MonitorCellBounds { start_col, end_col, start_row, end_row, is_primary: true }
}

#[test]
fn bounds_contains_inside() {
    let b = bounds(0, 10, 0, 5);
    assert!(b.contains(5, 3));
}

#[test]
fn bounds_excludes_outside() {
    let b = bounds(0, 10, 0, 5);
    assert!(!b.contains(11, 3));
    assert!(!b.contains(5, 6));
}

#[test]
fn bounds_excludes_end_exclusive() {
    let b = bounds(0, 10, 0, 5);
    assert!(!b.contains(10, 0));
    assert!(!b.contains(0, 5));
}

#[test]
fn bounds_width_height() {
    let b = bounds(0, 10, 0, 5);
    assert_eq!(b.width(), 10);
    assert_eq!(b.height(), 5);
}

#[test]
fn bounds_width_height_saturate_when_inverted() {
    let b = bounds(8, 4, 6, 2);
    assert_eq!(b.width(), 0);
    assert_eq!(b.height(), 0);
}

#[test]
fn bounds_centers() {
    let b = bounds(0, 10, 0, 6);
    assert_eq!(b.center_col(), 5);
    assert_eq!(b.center_row(), 3);
}

#[test]
fn get_primary_monitor_bounds_default_is_full_grid() {
    let b = get_primary_monitor_bounds(80, 24, None);
    assert_eq!(b.start_col, 0);
    assert_eq!(b.end_col, 80);
    assert_eq!(b.start_row, 0);
    assert_eq!(b.end_row, 24);
}

#[test]
fn publish_then_get_primary_bounds_round_trip() {
    let b = get_primary_monitor_bounds(80, 24, Some(bounds(2, 8, 1, 4)));
    assert_eq!(b.start_col, 2);
    assert_eq!(b.end_col, 8);
    assert_eq!(b.start_row, 1);
    assert_eq!(b.end_row, 4);
}

#[test]
fn published_bounds_parse_and_validate() {
    let b = published_bounds(Some("2"), Some("8"), Some("1"), Some("4")).expect("valid bounds");
    assert_eq!((b.start_col, b.end_col, b.start_row, b.end_row), (2, 8, 1, 4));
    assert!(published_bounds(Some("8"), Some("2"), Some("1"), Some("4")).is_none());
    assert!(published_bounds(Some("2"), None, Some("1"), Some("4")).is_none());
    assert!(published_bounds(Some("x"), Some("8"), Some("1"), Some("4")).is_none());
    assert!(published_bounds(Some("0"), Some("16385"), Some("0"), Some("4")).is_none());
}
