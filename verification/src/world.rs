//! The shared "current index" slot and its refresh schedule.
//!
//! One writer — the periodic rebuild — fully replaces the index; any
//! number of reads run against whatever index is current.  Queries between
//! rebuilds therefore see a snapshot that is at most one refresh interval
//! stale: an entity removed from the entity store keeps matching until the
//! next rebuild, and an entity added keeps missing until then.

use vstd::prelude::*;
use vstd::multiset::Multiset;

use crate::geom::{Collidable, Point2};
use crate::index::{matched, SpatialIndex};

verus! {

/// How often the index is rebuilt from live entity positions, in
/// milliseconds of simulation time.
pub const REFRESH_INTERVAL_MS: u64 = 100;

/// The owned, swappable slot holding the current spatial index together
/// with the timer that schedules its rebuilds.  The component driving the
/// simulation tick owns one and passes it by reference to the rebuild
/// step and to each query call site.
pub struct IndexSlot {
    current: SpatialIndex,
    interval_ms: u64,
    elapsed_ms: u64,
}

impl View for IndexSlot {
    type V = Multiset<Collidable>;

    closed spec fn view(&self) -> Multiset<Collidable> {
        self.current@
    }
}

impl IndexSlot {
    /// The slot's invariant: a well-formed current index and a positive
    /// refresh interval.
    pub closed spec fn inv(self) -> bool {
        self.current.inv() && self.interval_ms > 0
    }

    /// The configured refresh interval.
    pub closed spec fn interval(self) -> u64 {
        self.interval_ms
    }

    /// Simulation time accumulated since the last rebuild (or creation).
    pub closed spec fn elapsed(self) -> u64 {
        self.elapsed_ms
    }

    /// A fresh slot holding the implicit empty index, so that a query
    /// issued before the first rebuild finds no matches rather than
    /// failing.
    pub fn new(interval_ms: u64) -> (slot: IndexSlot)
        requires
            interval_ms > 0,
        ensures
            slot.inv(),
            slot@ == Multiset::<Collidable>::empty(),
            slot.interval() == interval_ms,
            slot.elapsed() == 0,
    {
        IndexSlot { current: SpatialIndex::new(), interval_ms, elapsed_ms: 0 }
    }

    /// Advances the refresh timer by one tick's worth of simulation time
    /// (saturating) and reports whether a rebuild is due.  The current
    /// index is untouched: queries keep running against it until the
    /// caller actually refreshes.
    pub fn tick(&mut self, delta_ms: u64) -> (due: bool)
        requires
            old(self).inv(),
        ensures
            final(self).inv(),
            final(self)@ == old(self)@,
            final(self).interval() == old(self).interval(),
            final(self).elapsed() == if old(self).elapsed() + delta_ms <= u64::MAX {
                old(self).elapsed() + delta_ms
            } else {
                u64::MAX as int
            },
            due == (final(self).elapsed() >= final(self).interval()),
    {
        if delta_ms <= u64::MAX - self.elapsed_ms {
            self.elapsed_ms = self.elapsed_ms + delta_ms;
        } else {
            self.elapsed_ms = u64::MAX;
        }
        self.elapsed_ms >= self.interval_ms
    }

    /// Rebuilds the index from a snapshot of the live collidable
    /// positions and atomically replaces the current one; the refresh
    /// timer starts over.  The new index holds exactly the snapshot,
    /// duplicates included; an empty snapshot yields a valid empty index.
    pub fn refresh(&mut self, points: Vec<Collidable>)
        requires
            old(self).inv(),
        ensures
            final(self).inv(),
            final(self)@ == points@.to_multiset(),
            final(self).interval() == old(self).interval(),
            final(self).elapsed() == 0,
    {
        self.current = SpatialIndex::rebuild(points);
        self.elapsed_ms = 0;
    }

    /// Queries the current index: exactly the indexed points within
    /// (inclusive) `radius` of `center`, in no promised order.  A pure
    /// read against whatever snapshot is current.
    pub fn query_radius(&self, center: Point2, radius: u32) -> (res: Vec<Collidable>)
        requires
            self.inv(),
        ensures
            res@.to_multiset() == matched(self@, center, radius as int),
    {
        self.current.query_radius(center, radius)
    }

    /// Read-only access to the current index, for the policy steps that
    /// take the index itself.
    pub fn current(&self) -> (idx: &SpatialIndex)
        requires
            self.inv(),
        ensures
            idx.inv(),
            idx@ == self@,
    {
        &self.current
    }

    /// How many points the current index holds.
    pub fn len(&self) -> (n: usize)
        requires
            self.inv(),
        ensures
            n == self@.len(),
    {
        self.current.len()
    }
}

} // verus!
