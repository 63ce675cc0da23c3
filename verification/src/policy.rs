//! The two collision policies built on the proximity query: resolving
//! projectile-versus-target hits and target-versus-player contacts.
//!
//! Both are pure read-only consumers of the index.  They report what was
//! hit or touched; applying the consequences (removing entities, applying
//! damage to health) is the caller's business against its own entity store,
//! and only shows up in the next rebuilt index.

use vstd::prelude::*;
use vstd::multiset::Multiset;

use crate::geom::{Collidable, Point2};
use crate::index::{matched, SpatialIndex};

verus! {

/// Engagement radius of a projectile: targets within this distance of a
/// projectile's position count as hit, in world units.
pub const PROJECTILE_ENGAGEMENT_RADIUS: u32 = 25;

/// Engagement radius around the player: targets within this distance of
/// the player's position count as colliding, in world units.
pub const PLAYER_ENGAGEMENT_RADIUS: u32 = 50;

/// Damage one projectile hit applies to a target's health, in the
/// health-tracking variant.
pub const BULLET_DAMAGE: u32 = 15;

/// Damage the player takes per target collision notification.
pub const ENEMY_DAMAGE: u32 = 1;

/// Health a freshly spawned target starts with.
pub const ENEMY_MAX_HEALTH: u32 = 100;

/// Health the player starts with.
pub const PLAYER_MAX_HEALTH: u32 = 10;

/// One resolved projectile hit: which projectile struck which target.
#[derive(Clone, Copy, PartialEq, Eq, Structural, Debug)]
pub struct HitPair {
    pub projectile: u64,
    pub target: u64,
}

/// What one projectile's query resolved to: the hit pairs it scored — one
/// per overlapping target, not just the nearest — and whether the
/// projectile was consumed (it is on any hit, and must then not be
/// processed again).
#[derive(Debug)]
pub struct ProjectileOutcome {
    pub hits: Vec<HitPair>,
    pub consumed: bool,
}

/// What the per-tick player query resolved to: one collision notification
/// per touching target, and the handles of those targets, all of which are
/// to be removed from the entity store.
#[derive(Debug)]
pub struct PlayerCollisionOutcome {
    pub notifications: usize,
    pub removed: Vec<u64>,
}

/// The hit pairs a projectile scores against a sequence of matched targets.
pub open spec fn hits_of(projectile: u64, targets: Seq<Collidable>) -> Seq<HitPair> {
    targets.map_values(|c: Collidable| HitPair { projectile, target: c.entity })
}

/// The entity handles of a sequence of matched points.
pub open spec fn entities_of(targets: Seq<Collidable>) -> Seq<u64> {
    targets.map_values(|c: Collidable| c.entity)
}

/// Turns the matches of one projectile's query into its outcome: every
/// matched target becomes a hit pair, in match order, and the projectile
/// is consumed exactly when it hit anything.
pub fn resolve_projectile_hits(projectile: u64, targets: &Vec<Collidable>) -> (o:
    ProjectileOutcome)
    ensures
        o.hits@ == hits_of(projectile, targets@),
        o.consumed == (targets@.len() > 0),
{
    let mut hits: Vec<HitPair> = Vec::new();
    let mut i: usize = 0;
    while i < targets.len()
        invariant
            i <= targets@.len(),
            hits@.len() == i,
            forall|k: int|
                0 <= k < i ==> hits@[k] == (HitPair {
                    projectile,
                    target: targets@[k].entity,
                }),
        decreases targets@.len() - i,
    {
        hits.push(HitPair { projectile, target: targets[i].entity });
        i = i + 1;
    }
    proof {
        assert(hits@ =~= hits_of(projectile, targets@));
    }
    ProjectileOutcome { hits, consumed: targets.len() > 0 }
}

/// Turns the matches of the player query into its outcome: exactly one
/// collision notification per matched target, and every matched target
/// scheduled for removal, in match order.
pub fn resolve_player_collisions(targets: &Vec<Collidable>) -> (o: PlayerCollisionOutcome)
    ensures
        o.removed@ == entities_of(targets@),
        o.notifications == targets@.len(),
{
    let mut removed: Vec<u64> = Vec::new();
    let mut i: usize = 0;
    while i < targets.len()
        invariant
            i <= targets@.len(),
            removed@.len() == i,
            forall|k: int| 0 <= k < i ==> removed@[k] == targets@[k].entity,
        decreases targets@.len() - i,
    {
        removed.push(targets[i].entity);
        i = i + 1;
    }
    let n = removed.len();
    proof {
        assert(removed@ =~= entities_of(targets@));
    }
    PlayerCollisionOutcome { notifications: n, removed }
}

/// Projectile-versus-target step: queries the current index at the
/// projectile's position with its engagement radius and resolves every
/// match as a hit.  The hit pairs are the matched targets, each paired
/// with this projectile, in some order; the projectile is consumed exactly
/// when at least one target was within the radius.
pub fn projectile_hit_step(idx: &SpatialIndex, projectile: u64, pos: Point2, radius: u32) -> (o:
    ProjectileOutcome)
    requires
        idx.inv(),
    ensures
        o.consumed == (matched(idx@, pos, radius as int).len() > 0),
        exists|q: Seq<Collidable>|
            q.to_multiset() == matched(idx@, pos, radius as int) && o.hits@ == #[trigger] hits_of(
                projectile,
                q,
            ),
{
    broadcast use vstd::seq_lib::group_to_multiset_ensures;

    let targets = idx.query_radius(pos, radius);
    let o = resolve_projectile_hits(projectile, &targets);
    proof {
        assert(targets@.to_multiset() == matched(idx@, pos, radius as int) && o.hits@ == hits_of(
            projectile,
            targets@,
        ));
    }
    o
}

/// Target-versus-player step: queries the current index at the player's
/// position with the player engagement radius; every match yields one
/// collision notification and is scheduled for removal.  A pure read —
/// repeating the query against the same index before a rebuild reports
/// the same targets again.
pub fn player_collision_step(idx: &SpatialIndex, player_pos: Point2, radius: u32) -> (o:
    PlayerCollisionOutcome)
    requires
        idx.inv(),
    ensures
        o.notifications == matched(idx@, player_pos, radius as int).len(),
        o.removed@.len() == o.notifications,
        exists|q: Seq<Collidable>|
            q.to_multiset() == matched(idx@, player_pos, radius as int) && o.removed@
                == #[trigger] entities_of(q),
{
    broadcast use vstd::seq_lib::group_to_multiset_ensures;

    let targets = idx.query_radius(player_pos, radius);
    let o = resolve_player_collisions(&targets);
    proof {
        assert(targets@.to_multiset() == matched(idx@, player_pos, radius as int) && o.removed@
            == entities_of(targets@));
    }
    o
}

/// One projectile hit's effect on a target's health in the
/// health-tracking variant: the fixed damage is taken, saturating at
/// zero.
pub fn apply_hit_damage(health: u32, damage: u32) -> (h: u32)
    ensures
        h == if damage <= health {
            health - damage
        } else {
            0
        },
{
    if damage <= health {
        health - damage
    } else {
        0
    }
}

/// Whether a health-tracked target is dead and due for removal.
pub fn is_dead(health: u32) -> (b: bool)
    ensures
        b == (health == 0),
{
    health == 0
}

} // verus!
