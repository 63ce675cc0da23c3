//! End-to-end collision scenarios over the slot, the policies, and the
//! documented staleness of the periodically rebuilt index.

use proximity_index::geom::{Collidable, Point2};
use proximity_index::policy::{
    apply_hit_damage, is_dead, player_collision_step, projectile_hit_step,
    resolve_player_collisions, resolve_projectile_hits, BULLET_DAMAGE, ENEMY_MAX_HEALTH,
    PLAYER_ENGAGEMENT_RADIUS, PROJECTILE_ENGAGEMENT_RADIUS,
};
use proximity_index::world::{IndexSlot, REFRESH_INTERVAL_MS};

fn pt(entity: u64, x: i32, y: i32) -> Collidable {
    Collidable::new(entity, Point2::new(x, y))
}

#[test]
fn staleness_bound_removed_entity_matches_until_rebuild() {
    // Entity store: A at (0,0), B at (100,100).
    let mut store = vec![pt(1, 0, 0), pt(2, 100, 100)];
    let mut slot = IndexSlot::new(REFRESH_INTERVAL_MS);
    slot.refresh(store.clone());

    // Remove A from the store without rebuilding: the stale index still
    // returns A.
    store.retain(|c| c.entity != 1);
    let res = slot.query_radius(Point2::new(0, 0), 1);
    assert_eq!(res.len(), 1);
    assert_eq!(res[0].entity, 1);

    // After the next rebuild the removal takes effect.
    slot.refresh(store.clone());
    assert!(slot.query_radius(Point2::new(0, 0), 1).is_empty());
}

#[test]
fn projectile_hit_consumes_projectile_and_damages_target() {
    // One target T at (10,0); a projectile at (10,0) with the projectile
    // engagement radius matches it.
    let target = pt(77, 10, 0);
    let mut slot = IndexSlot::new(REFRESH_INTERVAL_MS);
    slot.refresh(vec![target]);

    let o = projectile_hit_step(
        slot.current(),
        500,
        Point2::new(10, 0),
        PROJECTILE_ENGAGEMENT_RADIUS,
    );
    assert!(o.consumed);
    assert_eq!(o.hits.len(), 1);
    assert_eq!(o.hits[0].projectile, 500);
    assert_eq!(o.hits[0].target, 77);

    // Health-tracking variant: the hit takes the fixed damage off.
    let health = apply_hit_damage(ENEMY_MAX_HEALTH, BULLET_DAMAGE);
    assert_eq!(health, 85);
    assert!(!is_dead(health));
    // No-health variant: the hit removes the target outright; the next
    // rebuild without it finds nothing.
    slot.refresh(Vec::new());
    assert!(slot
        .query_radius(Point2::new(10, 0), PROJECTILE_ENGAGEMENT_RADIUS)
        .is_empty());
}

#[test]
fn projectile_miss_is_not_consumed() {
    let mut slot = IndexSlot::new(REFRESH_INTERVAL_MS);
    slot.refresh(vec![pt(1, 1000, 1000)]);
    let o = projectile_hit_step(
        slot.current(),
        9,
        Point2::new(0, 0),
        PROJECTILE_ENGAGEMENT_RADIUS,
    );
    assert!(!o.consumed);
    assert!(o.hits.is_empty());
}

#[test]
fn projectile_hits_every_overlapping_target() {
    // A projectile scores against every target inside its radius in one
    // query, not just the nearest.
    let mut slot = IndexSlot::new(REFRESH_INTERVAL_MS);
    slot.refresh(vec![pt(1, 0, 0), pt(2, 3, 3), pt(3, 500, 0)]);
    let o = projectile_hit_step(slot.current(), 8, Point2::new(0, 0), 25);
    assert!(o.consumed);
    let mut targets: Vec<u64> = o.hits.iter().map(|h| h.target).collect();
    targets.sort();
    assert_eq!(targets, vec![1, 2]);
    assert!(o.hits.iter().all(|h| h.projectile == 8));
}

#[test]
fn player_collision_notifies_once_per_target_and_is_stale_same_tick() {
    // Target T at (0,0), player at (0,0): one notification, T scheduled
    // for removal.
    let target = pt(13, 0, 0);
    let mut slot = IndexSlot::new(REFRESH_INTERVAL_MS);
    slot.refresh(vec![target]);

    let o = player_collision_step(slot.current(), Point2::new(0, 0), PLAYER_ENGAGEMENT_RADIUS);
    assert_eq!(o.notifications, 1);
    assert_eq!(o.removed, vec![13]);

    // A second query in the same tick, before any rebuild, still matches
    // T: the removal has not reached the index yet.
    let again = player_collision_step(slot.current(), Point2::new(0, 0), PLAYER_ENGAGEMENT_RADIUS);
    assert_eq!(again.notifications, 1);
    assert_eq!(again.removed, vec![13]);

    // Only the rebuild makes the removal visible.
    slot.refresh(Vec::new());
    let after = player_collision_step(slot.current(), Point2::new(0, 0), PLAYER_ENGAGEMENT_RADIUS);
    assert_eq!(after.notifications, 0);
    assert!(after.removed.is_empty());
}

#[test]
fn player_collision_radius_boundary() {
    // (30,40) is at distance exactly 50: inside the inclusive radius.
    let mut slot = IndexSlot::new(REFRESH_INTERVAL_MS);
    slot.refresh(vec![pt(4, 30, 40), pt(5, 31, 40)]);
    let o = player_collision_step(slot.current(), Point2::new(0, 0), PLAYER_ENGAGEMENT_RADIUS);
    assert_eq!(o.notifications, 1);
    assert_eq!(o.removed, vec![4]);
}

#[test]
fn resolve_projectile_hits_exact_pairs() {
    let matches = vec![pt(3, 0, 0), pt(1, 1, 1)];
    let o = resolve_projectile_hits(99, &matches);
    assert!(o.consumed);
    assert_eq!(o.hits.len(), 2);
    assert_eq!(o.hits[0].projectile, 99);
    assert_eq!(o.hits[0].target, 3);
    assert_eq!(o.hits[1].projectile, 99);
    assert_eq!(o.hits[1].target, 1);

    let none = resolve_projectile_hits(99, &Vec::new());
    assert!(!none.consumed);
    assert!(none.hits.is_empty());
}

#[test]
fn resolve_player_collisions_exact() {
    let matches = vec![pt(6, 0, 0), pt(2, 1, 0), pt(6, 2, 0)];
    let o = resolve_player_collisions(&matches);
    assert_eq!(o.notifications, 3);
    assert_eq!(o.removed, vec![6, 2, 6]);
}

#[test]
fn hit_damage_saturates_at_zero() {
    assert_eq!(apply_hit_damage(100, 15), 85);
    assert_eq!(apply_hit_damage(15, 15), 0);
    assert_eq!(apply_hit_damage(10, 15), 0);
    assert_eq!(apply_hit_damage(0, 15), 0);
    assert!(is_dead(0));
    assert!(!is_dead(1));
}
