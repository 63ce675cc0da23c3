//! The refresh timer and the current-index slot.

use proximity_index::geom::{Collidable, Point2};
use proximity_index::world::{IndexSlot, REFRESH_INTERVAL_MS};

fn pt(entity: u64, x: i32, y: i32) -> Collidable {
    Collidable::new(entity, Point2::new(x, y))
}

#[test]
fn query_before_first_rebuild_is_empty() {
    let slot = IndexSlot::new(REFRESH_INTERVAL_MS);
    assert_eq!(slot.len(), 0);
    assert!(slot.query_radius(Point2::new(0, 0), 10_000).is_empty());
}

#[test]
fn timer_fires_when_interval_elapses() {
    let mut slot = IndexSlot::new(100);
    assert!(!slot.tick(40));
    assert!(!slot.tick(59));
    assert!(slot.tick(1));
    // The timer keeps reporting due until a refresh resets it.
    assert!(slot.tick(0));
    slot.refresh(Vec::new());
    assert!(!slot.tick(99));
    assert!(slot.tick(1));
}

#[test]
fn timer_saturates_instead_of_wrapping() {
    let mut slot = IndexSlot::new(1000);
    assert!(!slot.tick(500));
    assert!(slot.tick(u64::MAX));
    slot.refresh(Vec::new());
    assert!(!slot.tick(999));
}

#[test]
fn refresh_swaps_the_whole_snapshot() {
    let mut slot = IndexSlot::new(REFRESH_INTERVAL_MS);
    slot.refresh(vec![pt(1, 0, 0), pt(2, 5, 5)]);
    assert_eq!(slot.len(), 2);
    let first = slot.query_radius(Point2::new(0, 0), 10);
    assert_eq!(first.len(), 2);

    // A rebuild fully replaces the old contents: nothing carries over.
    slot.refresh(vec![pt(3, -20, 0)]);
    assert_eq!(slot.len(), 1);
    assert!(slot.query_radius(Point2::new(0, 0), 10).is_empty());
    let res = slot.query_radius(Point2::new(-20, 0), 0);
    assert_eq!(res.len(), 1);
    assert_eq!(res[0].entity, 3);
}
