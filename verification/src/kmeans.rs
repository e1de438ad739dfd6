//! Dominant colours by k-means clustering over pixel positions.
//!
//! A point is a pixel: its position and its colour. A centroid is a point
//! too; it moves to the mean position of the points assigned to it and keeps
//! the colour it started with.

use rand::seq::SliceRandom;
use vstd::prelude::*;
use crate::error::ErrorKind;

verus! {

/// A pixel: column, row and colour. Positions are kept in eight bits.
#[derive(Debug, Clone, Copy, PartialEq, Eq)]
pub struct Point {
    pub x: u8,
    pub y: u8,
    pub color: (u8, u8, u8),
}

/// A centroid with the points that were assigned to it last.
pub struct Cluster {
    pub centroid: Point,
    pub points: Vec<Point>,
}

/// The squared distance between the positions of two points.
pub open spec fn distance(p: Point, c: Point) -> int {
    (p.x - c.x) * (p.x - c.x) + (p.y - c.y) * (p.y - c.y)
}

/// The index of the centroid nearest to `p`; of several that are equally
/// near, the first. `0` where there is no centroid.
pub open spec fn nearest(cents: Seq<Point>, p: Point) -> int
    decreases cents.len(),
{
    if cents.len() <= 1 {
        0
    } else {
        let best = nearest(cents.drop_last(), p);
        if distance(p, cents.last()) < distance(p, cents[best]) {
            cents.len() - 1
        } else {
            best
        }
    }
}

/// The points assigned to centroid `c`: those of `points` that are nearest to
/// it, in their order.
pub open spec fn assigned(points: Seq<Point>, cents: Seq<Point>, c: int) -> Seq<Point> {
    points.filter(|p: Point| nearest(cents, p) == c)
}

/// The sum of the columns of `points`.
pub open spec fn sum_x(points: Seq<Point>) -> int
    decreases points.len(),
{
    if points.len() == 0 {
        0
    } else {
        sum_x(points.drop_last()) + points.last().x
    }
}

/// The sum of the rows of `points`.
pub open spec fn sum_y(points: Seq<Point>) -> int
    decreases points.len(),
{
    if points.len() == 0 {
        0
    } else {
        sum_y(points.drop_last()) + points.last().y
    }
}

/// Where a centroid stands after an update: at the mean position of its
/// members, rounded down, with its colour unchanged; where it was, if it has
/// no members.
pub open spec fn moved(centroid: Point, members: Seq<Point>) -> Point {
    if members.len() == 0 {
        centroid
    } else {
        Point {
            x: (sum_x(members) / members.len() as int) as u8,
            y: (sum_y(members) / members.len() as int) as u8,
            color: centroid.color,
        }
    }
}

/// The centroids after one round of assignment and update.
pub open spec fn step(points: Seq<Point>, cents: Seq<Point>) -> Seq<Point> {
    Seq::new(cents.len(), |c: int| moved(cents[c], assigned(points, cents, c)))
}

/// The centroids after `n` rounds.
pub open spec fn run(points: Seq<Point>, cents: Seq<Point>, n: nat) -> Seq<Point>
    decreases n,
{
    if n == 0 {
        cents
    } else {
        step(points, run(points, cents, (n - 1) as nat))
    }
}

/// The centroids of a sequence of clusters.
pub open spec fn centroids(clusters: Seq<Cluster>) -> Seq<Point> {
    Seq::new(clusters.len(), |i: int| clusters[i].centroid)
}

/// `clusters` is what `n` rounds from the centroids `init` leave: the
/// centroids of the last update, each with the points of the last assignment.
pub open spec fn clusters_after(clusters: Seq<Cluster>, points: Seq<Point>, init: Seq<Point>, n: nat) -> bool {
    &&& clusters.len() == init.len()
    &&& centroids(clusters) == run(points, init, n)
    &&& forall|c: int|
        0 <= c < clusters.len() ==> (#[trigger] clusters[c]).points@ == if n == 0 {
            Seq::<Point>::empty()
        } else {
            assigned(points, run(points, init, (n - 1) as nat), c)
        }
}

/// The number of points assigned to the first `k` centroids.
pub open spec fn members_total(points: Seq<Point>, cents: Seq<Point>, k: nat) -> nat
    decreases k,
{
    if k == 0 {
        0
    } else {
        members_total(points, cents, (k - 1) as nat) + assigned(points, cents, k - 1).len()
    }
}

/// `nearest` names a centroid that no other is nearer than, and that every
/// earlier one is farther than.
pub proof fn lemma_nearest(cents: Seq<Point>, p: Point)
    requires
        cents.len() > 0,
    ensures
        0 <= nearest(cents, p) < cents.len(),
        forall|j: int|
            0 <= j < cents.len() ==> distance(p, cents[nearest(cents, p)]) <= distance(p, #[trigger] cents[j]),
        forall|j: int|
            0 <= j < nearest(cents, p) ==> distance(p, cents[nearest(cents, p)]) < distance(
                p,
                #[trigger] cents[j],
            ),
    decreases cents.len(),
{
    if cents.len() > 1 {
        lemma_nearest(cents.drop_last(), p);
        let best = nearest(cents.drop_last(), p);
        assert forall|j: int| 0 <= j < cents.len() - 1 implies cents.drop_last()[j] == cents[j] by {}
        assert(cents.drop_last()[best] == cents[best]);
    }
}

/// One more point at the end joins the cluster of its nearest centroid and no
/// other.
pub proof fn lemma_assigned_push(points: Seq<Point>, p: Point, cents: Seq<Point>, c: int)
    ensures
        assigned(points.push(p), cents, c) == if nearest(cents, p) == c {
            assigned(points, cents, c).push(p)
        } else {
            assigned(points, cents, c)
        },
{
    reveal(Seq::filter);
    assert(points.push(p).drop_last() == points);
}

/// A point is a member of a cluster exactly if it is an input point and the
/// cluster's centroid is its nearest.
pub proof fn lemma_assigned_members(points: Seq<Point>, cents: Seq<Point>, c: int, p: Point)
    ensures
        assigned(points, cents, c).contains(p) <==> points.contains(p) && nearest(cents, p) == c,
    decreases points.len(),
{
    reveal(Seq::filter);
    if points.len() > 0 {
        let front = points.drop_last();
        let last = points.last();
        lemma_assigned_members(front, cents, c, p);
        assert(front.push(last) == points);
        lemma_assigned_push(front, last, cents, c);
        let a = assigned(front, cents, c);
        if points.contains(p) {
            let i = choose|i: int| 0 <= i < points.len() && points[i] == p;
            if i < front.len() {
                assert(front[i] == p);
            }
        }
        if front.contains(p) {
            let i = choose|i: int| 0 <= i < front.len() && front[i] == p;
            assert(points[i] == p);
        }
        if nearest(cents, last) == c {
            assert(a.push(last)[a.len() as int] == last);
            if a.contains(p) {
                let i = choose|i: int| 0 <= i < a.len() && a[i] == p;
                assert(a.push(last)[i] == p);
            }
            if a.push(last).contains(p) {
                let i = choose|i: int| 0 <= i < a.push(last).len() && a.push(last)[i] == p;
                if i < a.len() {
                    assert(a[i] == p);
                }
            }
        }
        assert(points[points.len() - 1] == last);
    } else {
        assert(assigned(points, cents, c) =~= Seq::<Point>::empty());
    }
}

/// One more point adds one member to the first `k` clusters if its nearest
/// centroid is among them, and none otherwise.
proof fn lemma_members_total_push(points: Seq<Point>, p: Point, cents: Seq<Point>, k: nat)
    ensures
        members_total(points.push(p), cents, k) == members_total(points, cents, k) + if 0 <= nearest(
            cents,
            p,
        ) < k {
            1nat
        } else {
            0nat
        },
    decreases k,
{
    if k > 0 {
        lemma_members_total_push(points, p, cents, (k - 1) as nat);
        lemma_assigned_push(points, p, cents, k - 1);
    }
}

/// The clusters part the input: every point has a nearest centroid, it is a
/// member of that centroid's cluster and of no other, and the clusters
/// together have as many members as there are points.
pub proof fn lemma_assignment_partitions(points: Seq<Point>, cents: Seq<Point>)
    requires
        cents.len() > 0,
    ensures
        forall|p: Point| 0 <= #[trigger] nearest(cents, p) < cents.len(),
        forall|p: Point, c: int|
            #[trigger] assigned(points, cents, c).contains(p) <==> points.contains(p) && nearest(cents, p)
                == c,
        members_total(points, cents, cents.len()) == points.len(),
    decreases points.len(),
{
    assert forall|p: Point| 0 <= #[trigger] nearest(cents, p) < cents.len() by {
        lemma_nearest(cents, p);
    }
    assert forall|p: Point, c: int|
        #[trigger] assigned(points, cents, c).contains(p) <==> points.contains(p) && nearest(cents, p)
            == c by {
        lemma_assigned_members(points, cents, c, p);
    }
    if points.len() == 0 {
        lemma_members_total_empty(cents, cents.len());
        assert(points =~= Seq::<Point>::empty());
    } else {
        lemma_assignment_partitions(points.drop_last(), cents);
        lemma_members_total_push(points.drop_last(), points.last(), cents, cents.len());
        assert(points.drop_last().push(points.last()) == points);
        lemma_nearest(cents, points.last());
    }
}

/// Without points no cluster has members.
proof fn lemma_members_total_empty(cents: Seq<Point>, k: nat)
    ensures
        members_total(Seq::<Point>::empty(), cents, k) == 0,
    decreases k,
{
    reveal(Seq::filter);
    if k > 0 {
        lemma_members_total_empty(cents, (k - 1) as nat);
        assert(assigned(Seq::<Point>::empty(), cents, k - 1) =~= Seq::<Point>::empty());
    }
}

/// The rounds move the centroids and change neither their number nor their
/// colours.
pub proof fn lemma_run_keeps_colors(points: Seq<Point>, start: Seq<Point>, n: nat)
    ensures
        run(points, start, n).len() == start.len(),
        forall|c: int| 0 <= c < start.len() ==> (#[trigger] run(points, start, n)[c]).color == start[c].color,
    decreases n,
{
    if n > 0 {
        lemma_run_keeps_colors(points, start, (n - 1) as nat);
    }
}

/// The number of points in the first `k` of `clusters`.
pub open spec fn sizes_total(clusters: Seq<Cluster>, k: nat) -> nat
    decreases k,
{
    if k == 0 {
        0
    } else {
        sizes_total(clusters, (k - 1) as nat) + clusters[k - 1].points@.len()
    }
}

/// Clusters that hold the points assigned to `cents` have the sizes of the
/// assignment.
proof fn lemma_sizes_total(clusters: Seq<Cluster>, points: Seq<Point>, cents: Seq<Point>, k: nat)
    requires
        k <= clusters.len(),
        forall|c: int| 0 <= c < clusters.len() ==> (#[trigger] clusters[c]).points@ == assigned(points, cents, c),
    ensures
        sizes_total(clusters, k) == members_total(points, cents, k),
    decreases k,
{
    if k > 0 {
        lemma_sizes_total(clusters, points, cents, (k - 1) as nat);
        assert(clusters[k - 1].points@ == assigned(points, cents, k - 1));
    }
}

/// What the rounds leave parts the input. After one round or more from at
/// least one centroid, every point of the input lies in the cluster of its
/// nearest centroid and in no other, no cluster holds anything else, and the
/// clusters together hold as many points as the input has.
pub proof fn lemma_clusters_part_the_points(clusters: Seq<Cluster>, points: Seq<Point>, start: Seq<Point>, n: nat)
    requires
        clusters_after(clusters, points, start, n),
        n > 0,
        start.len() > 0,
    ensures
        sizes_total(clusters, clusters.len()) == points.len(),
        forall|p: Point|
            points.contains(p) ==> 0 <= #[trigger] nearest(run(points, start, (n - 1) as nat), p) < clusters.len(),
        forall|p: Point, c: int|
            0 <= c < clusters.len() ==> (#[trigger] clusters[c].points@.contains(p) <==> points.contains(p)
                && nearest(run(points, start, (n - 1) as nat), p) == c),
{
    let cents = run(points, start, (n - 1) as nat);
    lemma_run_keeps_colors(points, start, (n - 1) as nat);
    lemma_assignment_partitions(points, cents);
    lemma_sizes_total(clusters, points, cents, clusters.len());
    assert forall|p: Point, c: int| 0 <= c < clusters.len() implies (#[trigger] clusters[c].points@.contains(p)
        <==> points.contains(p) && nearest(cents, p) == c) by {
        assert(clusters[c].points@ == assigned(points, cents, c));
        lemma_assigned_members(points, cents, c, p);
    }
}

/// The sums of the coordinates are at most 255 for each point.
proof fn lemma_sums_bounded(points: Seq<Point>)
    ensures
        0 <= sum_x(points) <= 255 * points.len(),
        0 <= sum_y(points) <= 255 * points.len(),
    decreases points.len(),
{
    if points.len() > 0 {
        lemma_sums_bounded(points.drop_last());
    }
}

/// `rand::seq::SliceRandom::choose` on the points, drawing from
/// `rand::thread_rng()`: a member picked at random, or `None` if there is
/// none to pick. Which member it is stays open.
#[verifier::external_body]
fn choose_point(points: &Vec<Point>) -> (r: Option<Point>)
    ensures
        r is None <==> points@.len() == 0,
        r matches Some(p) ==> points@.contains(p),
{
    points.choose(&mut rand::thread_rng()).copied()
}

/// The squared distance between the positions of `p` and `c`.
pub fn squared_distance(p: &Point, c: &Point) -> (d: u32)
    ensures
        d == distance(*p, *c),
{
    let dx: i32 = p.x as i32 - c.x as i32;
    let dy: i32 = p.y as i32 - c.y as i32;
    assert(0 <= dx * dx <= 65025) by (nonlinear_arith)
        requires
            -255 <= dx <= 255,
    ;
    assert(0 <= dy * dy <= 65025) by (nonlinear_arith)
        requires
            -255 <= dy <= 255,
    ;
    (dx * dx + dy * dy) as u32
}

/// The index of the centroid nearest to `p`.
pub fn nearest_centroid(cents: &Vec<Point>, p: &Point) -> (best: usize)
    requires
        cents.len() > 0,
    ensures
        best == nearest(cents@, *p),
        best < cents.len(),
{
    let mut best: usize = 0;
    let mut best_d: u32 = squared_distance(p, &cents[0]);
    let mut i: usize = 1;
    while i < cents.len()
        invariant
            1 <= i <= cents.len(),
            best < i,
            best == nearest(cents@.take(i as int), *p),
            best_d == distance(*p, cents@[best as int]),
        decreases cents.len() - i,
    {
        let d = squared_distance(p, &cents[i]);
        proof {
            assert(cents@.take(i + 1).drop_last() =~= cents@.take(i as int));
        }
        if d < best_d {
            best = i;
            best_d = d;
        }
        i += 1;
    }
    assert(cents@.take(i as int) =~= cents@);
    best
}

impl Cluster {
    /// Moves the centroid to the mean position of the cluster's points.
    pub fn update_centroid(&mut self)
        ensures
            final(self).points == old(self).points,
            final(self).centroid == moved(old(self).centroid, old(self).points@),
    {
        if self.points.len() > 0 {
            let mut total_x: u128 = 0;
            let mut total_y: u128 = 0;
            let mut i: usize = 0;
            assert(self.points@.take(0) =~= Seq::<Point>::empty());
            while i < self.points.len()
                invariant
                    i <= self.points.len(),
                    total_x == sum_x(self.points@.take(i as int)),
                    total_y == sum_y(self.points@.take(i as int)),
                decreases self.points.len() - i,
            {
                proof {
                    lemma_sums_bounded(self.points@.take(i as int));
                    assert(self.points@.take(i + 1).drop_last() =~= self.points@.take(i as int));
                }
                total_x = total_x + self.points[i].x as u128;
                total_y = total_y + self.points[i].y as u128;
                i += 1;
            }
            let n: u128 = self.points.len() as u128;
            proof {
                assert(self.points@.take(i as int) =~= self.points@);
                lemma_sums_bounded(self.points@);
                assert(total_x / n <= 255) by (nonlinear_arith)
                    requires
                        0 <= total_x <= 255 * n,
                        n > 0,
                ;
                assert(total_y / n <= 255) by (nonlinear_arith)
                    requires
                        0 <= total_y <= 255 * n,
                        n > 0,
                ;
            }
            let avg_x: u8 = (total_x / n) as u8;
            let avg_y: u8 = (total_y / n) as u8;
            self.centroid.x = avg_x;
            self.centroid.y = avg_y;
        }
    }
}

/// The centroids of `clusters`.
pub fn centroids_of(clusters: &Vec<Cluster>) -> (out: Vec<Point>)
    ensures
        out@ == centroids(clusters@),
{
    let mut out: Vec<Point> = Vec::new();
    let mut i: usize = 0;
    while i < clusters.len()
        invariant
            i <= clusters.len(),
            out.len() == i,
            forall|j: int| 0 <= j < i ==> out@[j] == clusters@[j].centroid,
        decreases clusters.len() - i,
    {
        out.push(clusters[i].centroid);
        i += 1;
    }
    assert(out@ =~= centroids(clusters@));
    out
}

/// Gives every cluster the points that are nearest to its centroid, and no
/// others. The centroids stay.
pub fn assign_to_clusters(points: &Vec<Point>, clusters: &mut Vec<Cluster>)
    ensures
        centroids(final(clusters)@) == centroids(old(clusters)@),
        final(clusters)@.len() == old(clusters)@.len(),
        forall|c: int|
            0 <= c < old(clusters)@.len() ==> (#[trigger] final(clusters)@[c]).points@ == assigned(
                points@,
                centroids(old(clusters)@),
                c,
            ),
{
    let cents = centroids_of(clusters);
    let k = cents.len();
    if k == 0 {
        return ;
    }
    let mut labels: Vec<usize> = Vec::new();
    let mut i: usize = 0;
    while i < points.len()
        invariant
            i <= points.len(),
            cents.len() == k,
            k > 0,
            labels.len() == i,
            forall|j: int| 0 <= j < i ==> labels@[j] == nearest(cents@, points@[j]),
        decreases points.len() - i,
    {
        let label = nearest_centroid(&cents, &points[i]);
        labels.push(label);
        i += 1;
    }
    let mut fresh: Vec<Cluster> = Vec::new();
    let mut c: usize = 0;
    while c < k
        invariant
            c <= k,
            cents.len() == k,
            labels.len() == points.len(),
            forall|j: int| 0 <= j < points.len() ==> labels@[j] == nearest(cents@, points@[j]),
            fresh.len() == c,
            forall|d: int|
                0 <= d < c ==> (#[trigger] fresh@[d]).centroid == cents@[d] && fresh@[d].points@ == assigned(
                    points@,
                    cents@,
                    d,
                ),
        decreases k - c,
    {
        let mut members: Vec<Point> = Vec::new();
        let mut i: usize = 0;
        assert(points@.take(0) =~= Seq::<Point>::empty());
        assert(assigned(Seq::<Point>::empty(), cents@, c as int) =~= Seq::<Point>::empty()) by {
            reveal(Seq::filter);
        }
        while i < points.len()
            invariant
                i <= points.len(),
                labels.len() == points.len(),
                forall|j: int| 0 <= j < points.len() ==> labels@[j] == nearest(cents@, points@[j]),
                members@ == assigned(points@.take(i as int), cents@, c as int),
            decreases points.len() - i,
        {
            proof {
                lemma_assigned_push(points@.take(i as int), points@[i as int], cents@, c as int);
                assert(points@.take(i + 1) =~= points@.take(i as int).push(points@[i as int]));
            }
            if labels[i] == c {
                members.push(points[i]);
            }
            i += 1;
        }
        assert(points@.take(i as int) =~= points@);
        fresh.push(Cluster { centroid: cents[c], points: members });
        c += 1;
    }
    assert(centroids(fresh@) =~= cents@);
    *clusters = fresh;
}

/// Moves every centroid to the mean position of its cluster's points.
pub fn update_centroids(clusters: Vec<Cluster>) -> (out: Vec<Cluster>)
    ensures
        out@.len() == clusters@.len(),
        forall|c: int|
            0 <= c < clusters@.len() ==> (#[trigger] out@[c]).points == clusters@[c].points && out@[c].centroid
                == moved(clusters@[c].centroid, clusters@[c].points@),
{
    broadcast use vstd::std_specs::vec::axiom_spec_into_iter;

    let mut out: Vec<Cluster> = Vec::new();
    let ghost all = clusters@;
    for cluster in it: clusters.into_iter()
        invariant
            it.seq() == all,
            out.len() == it.index(),
            forall|c: int|
                0 <= c < it.index() ==> (#[trigger] out@[c]).points == all[c].points && out@[c].centroid == moved(
                    all[c].centroid,
                    all[c].points@,
                ),
    {
        let mut cluster = cluster;
        cluster.update_centroid();
        out.push(cluster);
    }
    out
}

/// Runs `max_iterations` rounds of assignment and update from the centroids
/// `start`.
pub fn k_means_from(points: &Vec<Point>, start: Vec<Point>, max_iterations: usize) -> (out: Vec<Cluster>)
    ensures
        clusters_after(out@, points@, start@, max_iterations as nat),
{
    let mut clusters: Vec<Cluster> = Vec::new();
    let mut i: usize = 0;
    while i < start.len()
        invariant
            i <= start.len(),
            clusters.len() == i,
            forall|j: int|
                0 <= j < i ==> (#[trigger] clusters@[j]).centroid == start@[j] && clusters@[j].points@
                    == Seq::<Point>::empty(),
        decreases start.len() - i,
    {
        clusters.push(Cluster { centroid: start[i], points: Vec::new() });
        i += 1;
    }
    assert(centroids(clusters@) =~= start@);
    let mut round: usize = 0;
    while round < max_iterations
        invariant
            round <= max_iterations,
            clusters_after(clusters@, points@, start@, round as nat),
        decreases max_iterations - round,
    {
        let ghost before = centroids(clusters@);
        assign_to_clusters(points, &mut clusters);
        clusters = update_centroids(clusters);
        round += 1;
        assert(centroids(clusters@) =~= step(points@, before));
    }
    clusters
}

/// Reduces `points` to `k` clusters in `max_iterations` rounds, starting from
/// `k` centroids drawn at random from the points. Without points there is
/// nothing to draw from, and the call fails. With points, the result is what
/// the rounds make of some `k` of them.
pub fn k_means(points: Vec<Point>, k: usize, max_iterations: usize) -> (r: Result<Vec<Cluster>, ErrorKind>)
    ensures
        r is Err <==> points@.len() == 0,
        r matches Err(e) ==> e == ErrorKind::EmptyImage,
        r matches Ok(clusters) ==> clusters@.len() == k && exists|start: Seq<Point>|
            {
                &&& start.len() == k
                &&& forall|i: int| 0 <= i < k ==> points@.contains(#[trigger] start[i])
                &&& clusters_after(clusters@, points@, start, max_iterations as nat)
            },
{
    if points.len() == 0 {
        return Err(ErrorKind::EmptyImage);
    }
    let mut start: Vec<Point> = Vec::new();
    let mut i: usize = 0;
    while i < k
        invariant
            i <= k,
            points@.len() > 0,
            start.len() == i,
            forall|j: int| 0 <= j < i ==> points@.contains(#[trigger] start@[j]),
        decreases k - i,
    {
        match choose_point(&points) {
            Some(p) => {
                start.push(p);
            },
            None => {
                assert(false);
            },
        }
        i += 1;
    }
    let ghost picked = start@;
    let clusters = k_means_from(&points, start, max_iterations);
    assert(clusters_after(clusters@, points@, picked, max_iterations as nat));
    Ok(clusters)
}

} // verus!
