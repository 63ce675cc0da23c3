//! A verified two-dimensional proximity query subsystem.
//!
//! The library maintains a periodically rebuilt spatial index (a k-d tree)
//! over a snapshot of collidable entity positions and answers "which entities
//! lie within radius `r` of point `c`" queries against it.  On top of the
//! index sit the two collision policies that drive it in the game loop:
//! projectile-versus-target and target-versus-player resolution, plus the
//! refresh scheduling that bounds how stale the index may get.

pub mod geom;
pub mod index;
pub mod policy;
pub mod world;
