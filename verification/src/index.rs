//! The spatial index: an immutable two-dimensional k-d tree over a snapshot
//! of collidable entities, with a pruned radius search.
//!
//! The tree alternates its splitting axis by depth (`x` at the root, then
//! `y`, then `x`, ...).  At every split, points on the left have a
//! coordinate on the splitting axis at most the split coordinate and points
//! on the right a strictly greater one, so ties resolve deterministically to
//! the left.  The index is a value: rebuilding produces a brand-new tree
//! and never edits an existing one.
//!
//! The contents of a tree are modelled as a `Multiset<Collidable>` — the
//! index stores duplicates faithfully and promises nothing about the order
//! in which a query reports its matches.

use vstd::prelude::*;
use vstd::multiset::Multiset;

use crate::geom::{
    axis_coord,
    axis_key,
    dist_sq,
    within_radius,
    within_radius_exec,
    lemma_axis_gap_excludes,
    lemma_square_monotonic,
    Collidable,
    Point2,
};

verus! {

/// One node of the k-d tree.
enum KdNode {
    Empty,
    Split { item: Collidable, left: Box<KdNode>, right: Box<KdNode> },
}

/// The membership test of the search circle around `center` of radius `r`,
/// as a predicate on collidable points.
pub open spec fn circle_pred(center: Point2, r: int) -> spec_fn(Collidable) -> bool {
    |c: Collidable| within_radius(c.pos, center, r)
}

/// The matches of a radius query: the indexed points within (inclusive)
/// radius `r` of `center`.  This is the exhaustive-test oracle every query
/// is proved against.
pub open spec fn matched(points: Multiset<Collidable>, center: Point2, r: int) -> Multiset<
    Collidable,
> {
    points.filter(circle_pred(center, r))
}

impl KdNode {
    /// The points stored in this subtree, duplicates included.
    spec fn points(self) -> Multiset<Collidable>
        decreases self,
    {
        match self {
            KdNode::Empty => Multiset::empty(),
            KdNode::Split { item, left, right } => left.points().add(right.points()).insert(item),
        }
    }

    /// The splitting invariant, with `x_axis` telling which axis this
    /// node splits on: left descendants sit at or before the split
    /// coordinate, right descendants strictly after it, and the children
    /// split on the other axis.
    spec fn wf(self, x_axis: bool) -> bool
        decreases self,
    {
        match self {
            KdNode::Empty => true,
            KdNode::Split { item, left, right } => {
                &&& forall|q: Collidable|
                    left.points().contains(q) ==> axis_coord(q.pos, x_axis) <= axis_coord(
                        item.pos,
                        x_axis,
                    )
                &&& forall|q: Collidable|
                    right.points().contains(q) ==> axis_coord(q.pos, x_axis) > axis_coord(
                        item.pos,
                        x_axis,
                    )
                &&& left.wf(!x_axis)
                &&& right.wf(!x_axis)
            },
        }
    }

    /// Radius search with subtree pruning: a child is descended into only
    /// when the search circle reaches across the splitting line; the
    /// matches found are appended to `out`.
    fn query(&self, center: Point2, radius: u32, x_axis: bool, out: &mut Vec<Collidable>)
        requires
            self.wf(x_axis),
        ensures
            final(out)@.to_multiset() == old(out)@.to_multiset().add(
                matched(self.points(), center, radius as int),
            ),
        decreases self,
    {
        broadcast use vstd::multiset::group_multiset_axioms;
        broadcast use vstd::seq_lib::group_to_multiset_ensures;

        let ghost r: int = radius as int;
        match self {
            KdNode::Empty => {
                proof {
                    assert(out@.to_multiset() =~= out@.to_multiset().add(
                        matched(Multiset::empty(), center, r),
                    ));
                }
            },
            KdNode::Split { item, left, right } => {
                let split: i32 = if x_axis {
                    item.pos.x
                } else {
                    item.pos.y
                };
                let c: i32 = if x_axis {
                    center.x
                } else {
                    center.y
                };
                let ghost mid = out@.to_multiset().add(matched(left.points(), center, r));

                if (c as i64) - (radius as i64) <= (split as i64) {
                    left.query(center, radius, !x_axis, out);
                } else {
                    proof {
                        assert forall|q: Collidable| matched(left.points(), center, r).count(q)
                            == 0 by {
                            if left.points().contains(q) {
                                lemma_axis_gap_excludes(q.pos, center, x_axis, r);
                            }
                        }
                        assert(out@.to_multiset() =~= mid);
                    }
                }

                if within_radius_exec(item.pos, center, radius) {
                    out.push(*item);
                    proof {
                        assert(out@.to_multiset() =~= mid.insert(*item));
                    }
                }
                let ghost mid2 = out@.to_multiset();

                if (c as i64) + (radius as i64) > (split as i64) {
                    right.query(center, radius, !x_axis, out);
                } else {
                    proof {
                        assert forall|q: Collidable| matched(right.points(), center, r).count(q)
                            == 0 by {
                            if right.points().contains(q) {
                                lemma_axis_gap_excludes(q.pos, center, x_axis, r);
                            }
                        }
                        assert(out@.to_multiset() =~= mid2.add(matched(right.points(), center, r)));
                    }
                }

                proof {
                    assert(out@.to_multiset() =~= old(out)@.to_multiset().add(
                        matched(self.points(), center, r),
                    ));
                }
            },
        }
    }
}

/// `s` is ordered by coordinate on the given axis.
spec fn sorted_by_axis(s: Seq<Collidable>, x_axis: bool) -> bool {
    forall|i: int, j: int|
        0 <= i <= j < s.len() ==> axis_coord(s[i].pos, x_axis) <= axis_coord(s[j].pos, x_axis)
}

/// The index of a point of `v` whose coordinate on the axis is least;
/// the first such index, so the choice is deterministic.
fn min_axis_index(v: &Vec<Collidable>, x_axis: bool) -> (m: usize)
    requires
        v@.len() > 0,
    ensures
        m < v@.len(),
        forall|j: int|
            0 <= j < v@.len() ==> axis_coord(v@[m as int].pos, x_axis) <= axis_coord(
                v@[j].pos,
                x_axis,
            ),
{
    let mut m: usize = 0;
    let mut i: usize = 1;
    while i < v.len()
        invariant
            m < i <= v@.len(),
            forall|j: int|
                0 <= j < i ==> axis_coord(v@[m as int].pos, x_axis) <= axis_coord(
                    v@[j].pos,
                    x_axis,
                ),
        decreases v@.len() - i,
    {
        if axis_key(v[i].pos, x_axis) < axis_key(v[m].pos, x_axis) {
            m = i;
        }
        i = i + 1;
    }
    m
}

/// Selection sort by the coordinate on the given axis.  Reorders the
/// points; none is added, dropped, or changed.
fn sort_by_axis(v: &mut Vec<Collidable>, x_axis: bool)
    ensures
        final(v)@.len() == old(v)@.len(),
        final(v)@.to_multiset() == old(v)@.to_multiset(),
        sorted_by_axis(final(v)@, x_axis),
{
    broadcast use vstd::multiset::group_multiset_axioms;
    broadcast use vstd::seq_lib::group_to_multiset_ensures;

    let mut out: Vec<Collidable> = Vec::new();
    proof {
        assert(out@.to_multiset() =~= Multiset::<Collidable>::empty());
        assert(out@.to_multiset().add(v@.to_multiset()) =~= v@.to_multiset());
    }
    while v.len() > 0
        invariant
            out@.len() + v@.len() == old(v)@.len(),
            out@.to_multiset().add(v@.to_multiset()) == old(v)@.to_multiset(),
            sorted_by_axis(out@, x_axis),
            forall|i: int, q: Collidable|
                0 <= i < out@.len() && v@.to_multiset().contains(q) ==> axis_coord(
                    out@[i].pos,
                    x_axis,
                ) <= axis_coord(q.pos, x_axis),
        decreases v@.len(),
    {
        broadcast use vstd::multiset::group_multiset_axioms;
        broadcast use vstd::seq_lib::group_to_multiset_ensures;

        let m = min_axis_index(v, x_axis);
        let ghost pre = v@;
        let ghost out_pre = out@;
        let x = v.remove(m);
        proof {
            assert(pre.remove(m as int).to_multiset() == pre.to_multiset().remove(x));
            assert(pre.contains(x));
        }
        assert forall|q: Collidable| v@.to_multiset().contains(q) || q == x implies axis_coord(
            x.pos,
            x_axis,
        ) <= axis_coord(q.pos, x_axis) by {
            if q != x {
                assert(pre.to_multiset().contains(q));
                assert(pre.contains(q));
                let jj = choose|jj: int| 0 <= jj < pre.len() && pre[jj] == q;
                assert(axis_coord(pre[m as int].pos, x_axis) <= axis_coord(pre[jj].pos, x_axis));
            }
        }
        out.push(x);
        proof {
            assert(out@ == out_pre.push(x));
            assert(out_pre.push(x).to_multiset() =~= out_pre.to_multiset().insert(x));
            assert(out@.to_multiset().add(v@.to_multiset()) =~= out_pre.to_multiset().add(
                pre.to_multiset(),
            ));
            assert forall|i: int, q: Collidable|
                0 <= i < out@.len() && v@.to_multiset().contains(q) implies axis_coord(
                out@[i].pos,
                x_axis,
            ) <= axis_coord(q.pos, x_axis) by {
                assert(pre.to_multiset().contains(q));
                if i == out@.len() - 1 {
                    assert(out@[i] == x);
                }
            }
            assert forall|i: int, j2: int| 0 <= i <= j2 < out@.len() implies axis_coord(
                out@[i].pos,
                x_axis,
            ) <= axis_coord(out@[j2].pos, x_axis) by {
                if j2 == out@.len() - 1 && i < j2 {
                    assert(pre.to_multiset().contains(x));
                    assert(axis_coord(out_pre[i].pos, x_axis) <= axis_coord(x.pos, x_axis));
                }
            }
        }
    }
    proof {
        assert(out@.to_multiset() =~= out@.to_multiset().add(v@.to_multiset()));
    }
    *v = out;
}

impl KdNode {
    /// Builds a subtree over `pts`, splitting on the given axis at this
    /// level: the true median point along that axis becomes the node (the
    /// last of its tie run, so ties go left), and the two halves recurse
    /// on the other axis.
    fn build(pts: Vec<Collidable>, x_axis: bool) -> (n: KdNode)
        ensures
            n.points() == pts@.to_multiset(),
            n.wf(x_axis),
        decreases pts@.len(),
    {
        broadcast use vstd::multiset::group_multiset_axioms;
        broadcast use vstd::seq_lib::group_to_multiset_ensures;

        let mut v = pts;
        if v.len() == 0 {
            proof {
                assert(pts@.to_multiset() =~= Multiset::<Collidable>::empty());
            }
            return KdNode::Empty;
        }
        sort_by_axis(&mut v, x_axis);
        let ghost s = v@;
        let len = v.len();
        let mid = len / 2;
        let mut j = mid;
        while j + 1 < len && axis_key(v[j + 1].pos, x_axis) == axis_key(v[j].pos, x_axis)
            invariant
                mid <= j < len,
                v@ == s,
                len == s.len(),
            decreases len - j,
        {
            j = j + 1;
        }
        let item = v[j];
        let right_vec = v.split_off(j + 1);
        let _ = v.pop();
        let left_vec = v;
        proof {
            assert(left_vec@ =~= s.subrange(0, j as int));
            assert(s =~= left_vec@ + seq![item] + right_vec@);
            lemma_split_three_to_multiset(left_vec@, item, right_vec@);
        }
        let l = KdNode::build(left_vec, !x_axis);
        let r = KdNode::build(right_vec, !x_axis);
        let n = KdNode::Split { item, left: Box::new(l), right: Box::new(r) };
        proof {
            assert(n.points() =~= pts@.to_multiset());
            assert forall|q: Collidable| l.points().contains(q) implies axis_coord(q.pos, x_axis)
                <= axis_coord(item.pos, x_axis) by {
                assert(left_vec@.contains(q));
                let k = choose|k: int| 0 <= k < left_vec@.len() && left_vec@[k] == q;
                assert(s[k] == q);
            }
            assert forall|q: Collidable| r.points().contains(q) implies axis_coord(q.pos, x_axis)
                > axis_coord(item.pos, x_axis) by {
                assert(right_vec@.contains(q));
                let k = choose|k: int| 0 <= k < right_vec@.len() && right_vec@[k] == q;
                assert(s[j + 1 + k] == q);
                assert(axis_coord(s[j as int].pos, x_axis) < axis_coord(s[j + 1].pos, x_axis));
            }
        }
        n
    }
}

/// Splitting a sorted run into a left part, a pivot, and a right part
/// partitions its contents.
proof fn lemma_split_three_to_multiset(a: Seq<Collidable>, x: Collidable, b: Seq<Collidable>)
    ensures
        (a + seq![x] + b).to_multiset() == a.to_multiset().add(b.to_multiset()).insert(x),
{
    broadcast use vstd::multiset::group_multiset_axioms;
    broadcast use vstd::seq_lib::group_to_multiset_ensures;

    vstd::seq_lib::lemma_multiset_commutative(a + seq![x], b);
    vstd::seq_lib::lemma_multiset_commutative(a, seq![x]);
    assert(seq![x] =~= Seq::<Collidable>::empty().push(x));
    assert(Seq::<Collidable>::empty().to_multiset() =~= Multiset::<Collidable>::empty());
    assert((a + seq![x] + b).to_multiset() =~= a.to_multiset().add(b.to_multiset()).insert(x));
}

/// The immutable spatial index.  Its abstract view is the multiset of
/// collidable points it was built from.
pub struct SpatialIndex {
    root: KdNode,
    count: usize,
}

impl View for SpatialIndex {
    type V = Multiset<Collidable>;

    closed spec fn view(&self) -> Multiset<Collidable> {
        self.root.points()
    }
}

impl SpatialIndex {
    /// Well-formedness: the root splits on `x`, the splitting invariant
    /// holds everywhere, and the stored size matches the contents.
    pub closed spec fn inv(self) -> bool {
        self.root.wf(true) && self.count == self.root.points().len()
    }

    /// The empty index: what queries run against before any rebuild has
    /// ever happened.  Every query on it returns no matches.
    pub fn new() -> (idx: SpatialIndex)
        ensures
            idx.inv(),
            idx@ == Multiset::<Collidable>::empty(),
    {
        SpatialIndex { root: KdNode::Empty, count: 0 }
    }

    /// Builds a balanced index over a snapshot of collidable points,
    /// replacing nothing: the caller decides which index the new one
    /// supersedes.  Tolerates duplicates and an empty snapshot; the
    /// result holds exactly the given points.
    pub fn rebuild(points: Vec<Collidable>) -> (idx: SpatialIndex)
        ensures
            idx.inv(),
            idx@ == points@.to_multiset(),
    {
        broadcast use vstd::seq_lib::group_to_multiset_ensures;

        let n = points.len();
        let root = KdNode::build(points, true);
        SpatialIndex { root, count: n }
    }

    /// How many points the index holds, duplicates included.
    pub fn len(&self) -> (n: usize)
        requires
            self.inv(),
        ensures
            n == self@.len(),
    {
        self.count
    }

    /// Returns every indexed point within (inclusive) radius `radius` of
    /// `center`, in no promised order: the result is exactly the multiset
    /// of indexed points whose squared distance to `center` is at most
    /// `radius * radius`.  A pure read; the index is unchanged.
    pub fn query_radius(&self, center: Point2, radius: u32) -> (res: Vec<Collidable>)
        requires
            self.inv(),
        ensures
            res@.to_multiset() == matched(self@, center, radius as int),
    {
        broadcast use vstd::multiset::group_multiset_axioms;
        broadcast use vstd::seq_lib::group_to_multiset_ensures;

        let mut res: Vec<Collidable> = Vec::new();
        proof {
            assert(res@.to_multiset() =~= Multiset::<Collidable>::empty());
        }
        self.root.query(center, radius, true, &mut res);
        proof {
            assert(res@.to_multiset() =~= matched(self@, center, radius as int));
        }
        res
    }
}

/// The naive pairwise scan the index replaces: tests every snapshot point
/// against the search circle, keeping the snapshot order.  It is the
/// executable form of the oracle that [`SpatialIndex::query_radius`] is
/// proved equivalent to.
pub fn query_radius_linear(points: &Vec<Collidable>, center: Point2, radius: u32) -> (res: Vec<
    Collidable,
>)
    ensures
        res@ == points@.filter(circle_pred(center, radius as int)),
{
    let ghost pred = circle_pred(center, radius as int);
    let mut res: Vec<Collidable> = Vec::new();
    proof {
        reveal(Seq::filter);
        assert(points@.take(0) =~= Seq::<Collidable>::empty());
        assert(res@ =~= points@.take(0).filter(pred));
    }
    let mut i: usize = 0;
    while i < points.len()
        invariant
            i <= points@.len(),
            res@ == points@.take(i as int).filter(pred),
            pred == circle_pred(center, radius as int),
        decreases points@.len() - i,
    {
        if within_radius_exec(points[i].pos, center, radius) {
            res.push(points[i]);
        }
        proof {
            reveal(Seq::filter);
            let t = points@.take(i + 1);
            assert(t.drop_last() =~= points@.take(i as int));
            assert(t.last() == points@[i as int]);
        }
        i = i + 1;
    }
    proof {
        assert(points@.take(points@.len() as int) =~= points@);
    }
    res
}

/// Build correctness: every indexed point is returned by a radius-zero
/// query at its own position.
pub proof fn lemma_query_at_own_position(points: Multiset<Collidable>, q: Collidable)
    requires
        points.contains(q),
    ensures
        matched(points, q.pos, 0).contains(q),
{
    broadcast use vstd::multiset::group_multiset_axioms;

    assert(dist_sq(q.pos, q.pos) == 0);
    assert(matched(points, q.pos, 0).count(q) == points.count(q));
}

/// Radius monotonicity: enlarging the search radius never drops a match.
pub proof fn lemma_radius_monotonic(
    points: Multiset<Collidable>,
    center: Point2,
    r1: int,
    r2: int,
)
    requires
        0 <= r1 <= r2,
    ensures
        matched(points, center, r1).subset_of(matched(points, center, r2)),
{
    broadcast use vstd::multiset::group_multiset_axioms;

    assert forall|q: Collidable|
        matched(points, center, r1).count(q) <= matched(points, center, r2).count(q) by {
        if within_radius(q.pos, center, r1) {
            lemma_square_monotonic(r1, r2);
        }
    }
}

/// Completeness against the exhaustive scan: filtering the snapshot in
/// order and querying its multiset agree, so the index and the naive
/// pairwise scan return the same matches.
pub proof fn lemma_query_matches_exhaustive_scan(points: Seq<Collidable>, center: Point2, r: int)
    ensures
        points.filter(circle_pred(center, r)).to_multiset() == matched(
            points.to_multiset(),
            center,
            r,
        ),
    decreases points.len(),
{
    broadcast use vstd::multiset::group_multiset_axioms;
    broadcast use vstd::seq_lib::group_to_multiset_ensures;

    reveal(Seq::filter);
    let pred = circle_pred(center, r);
    if points.len() == 0 {
        assert(points.to_multiset() =~= Multiset::<Collidable>::empty());
        assert(points.filter(pred).to_multiset() =~= matched(points.to_multiset(), center, r));
    } else {
        let butlast = points.drop_last();
        let x = points.last();
        lemma_query_matches_exhaustive_scan(butlast, center, r);
        assert(butlast.push(x) =~= points);
        assert(butlast.push(x).to_multiset() == butlast.to_multiset().insert(x));
        if pred(x) {
            assert(points.filter(pred) == butlast.filter(pred).push(x));
            assert(matched(points.to_multiset(), center, r) =~= matched(
                butlast.to_multiset(),
                center,
                r,
            ).insert(x));
        } else {
            assert(points.filter(pred) == butlast.filter(pred));
            assert(matched(points.to_multiset(), center, r) =~= matched(
                butlast.to_multiset(),
                center,
                r,
            ));
        }
    }
}

/// Idempotent rebuild: two indexes over the same snapshot answer every
/// query identically, whatever their physical shape.
pub proof fn lemma_same_snapshot_same_answers(
    i1: SpatialIndex,
    i2: SpatialIndex,
    center: Point2,
    r: int,
)
    requires
        i1@ == i2@,
    ensures
        matched(i1@, center, r) == matched(i2@, center, r),
{
}

} // verus!
