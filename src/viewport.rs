//! The padded data-space rectangle that a chart's axes span.
use vstd::prelude::*;
use crate::input::{Axis, Sample, UNITS_PER_ONE, all_in_range, points};

verus! {

/// The padded bounds of a chart, in tenths of a sample unit (ten-millionths),
/// so that a margin of a tenth of an extent is exact.
#[derive(Clone, Copy, Debug, PartialEq, Eq, Structural)]
pub struct Viewport {
    pub min_x: i128,
    pub max_x: i128,
    pub min_y: i128,
    pub max_y: i128,
}

impl View for Viewport {
    type V = (int, int, int, int);

    open spec fn view(&self) -> (int, int, int, int) {
        (self.min_x as int, self.max_x as int, self.min_y as int, self.max_y as int)
    }
}

pub open spec fn coord(p: (int, int), a: Axis) -> int {
    match a {
        Axis::X => p.0,
        Axis::Y => p.1,
    }
}

/// The least coordinate on axis `a` of a non-empty sequence of points.
pub open spec fn lowest(s: Seq<(int, int)>, a: Axis) -> int
    decreases s.len(),
{
    if s.len() <= 1 {
        coord(s[0], a)
    } else {
        let m = lowest(s.drop_last(), a);
        let c = coord(s.last(), a);
        if c < m {
            c
        } else {
            m
        }
    }
}

/// The greatest coordinate on axis `a` of a non-empty sequence of points.
pub open spec fn highest(s: Seq<(int, int)>, a: Axis) -> int
    decreases s.len(),
{
    if s.len() <= 1 {
        coord(s[0], a)
    } else {
        let m = highest(s.drop_last(), a);
        let c = coord(s.last(), a);
        if c > m {
            c
        } else {
            m
        }
    }
}

/// The margin added on each side of the extent `lo..hi`, in tenths of a
/// unit: a tenth of the extent, or one whole unit where the extent is zero.
pub open spec fn margin(lo: int, hi: int) -> int {
    if hi == lo {
        10 * UNITS_PER_ONE
    } else {
        hi - lo
    }
}

/// The padded bounds of a non-empty sequence of points, in tenths of a unit.
pub open spec fn viewport_of(s: Seq<(int, int)>) -> (int, int, int, int) {
    let lx = lowest(s, Axis::X);
    let hx = highest(s, Axis::X);
    let ly = lowest(s, Axis::Y);
    let hy = highest(s, Axis::Y);
    (10 * lx - margin(lx, hx), 10 * hx + margin(lx, hx), 10 * ly - margin(ly, hy), 10 * hy
        + margin(ly, hy))
}

/// Computes the padded bounds of the samples.
pub fn compute_viewport(samples: &Vec<Sample>) -> (r: Viewport)
    requires
        samples@.len() > 0,
        all_in_range(samples@),
    ensures
        r@ == viewport_of(points(samples@)),
{
    let ghost pts = points(samples@);
    let mut lo_x = samples[0].x;
    let mut hi_x = samples[0].x;
    let mut lo_y = samples[0].y;
    let mut hi_y = samples[0].y;
    let mut i: usize = 1;
    proof {
        assert(samples@[0].in_range());
        assert(pts.take(1) =~= seq![samples@[0].point()]);
    }
    while i < samples.len()
        invariant
            1 <= i <= samples@.len(),
            pts == points(samples@),
            all_in_range(samples@),
            lo_x == lowest(pts.take(i as int), Axis::X),
            hi_x == highest(pts.take(i as int), Axis::X),
            lo_y == lowest(pts.take(i as int), Axis::Y),
            hi_y == highest(pts.take(i as int), Axis::Y),
            samples@[0].in_range(),
            samples@[0].x <= hi_x && lo_x <= samples@[0].x,
            samples@[0].y <= hi_y && lo_y <= samples@[0].y,
            (exists|j: int| 0 <= j < samples@.len() && samples@[j].x == lo_x),
            (exists|j: int| 0 <= j < samples@.len() && samples@[j].x == hi_x),
            (exists|j: int| 0 <= j < samples@.len() && samples@[j].y == lo_y),
            (exists|j: int| 0 <= j < samples@.len() && samples@[j].y == hi_y),
        decreases samples@.len() - i,
    {
        let p = samples[i];
        proof {
            assert(pts.take(i + 1).drop_last() =~= pts.take(i as int));
            assert(pts.take(i + 1).last() == p.point());
        }
        if p.x < lo_x {
            lo_x = p.x;
        }
        if p.x > hi_x {
            hi_x = p.x;
        }
        if p.y < lo_y {
            lo_y = p.y;
        }
        if p.y > hi_y {
            hi_y = p.y;
        }
        i += 1;
    }
    proof {
        assert(pts.take(i as int) =~= pts);
        let j = choose|j: int| 0 <= j < samples@.len() && samples@[j].x == lo_x;
        assert(samples@[j].in_range());
        let j = choose|j: int| 0 <= j < samples@.len() && samples@[j].x == hi_x;
        assert(samples@[j].in_range());
        let j = choose|j: int| 0 <= j < samples@.len() && samples@[j].y == lo_y;
        assert(samples@[j].in_range());
        let j = choose|j: int| 0 <= j < samples@.len() && samples@[j].y == hi_y;
        assert(samples@[j].in_range());
    }
    let mx = if hi_x == lo_x { 10 * UNITS_PER_ONE } else { hi_x - lo_x };
    let my = if hi_y == lo_y { 10 * UNITS_PER_ONE } else { hi_y - lo_y };
    Viewport { min_x: 10 * lo_x - mx, max_x: 10 * hi_x + mx, min_y: 10 * lo_y - my, max_y: 10 * hi_y + my }
}


/// The least coordinate is one of the points' and no point lies below it;
/// likewise the greatest.
pub proof fn lemma_extrema_attained(s: Seq<(int, int)>, a: Axis)
    requires
        s.len() > 0,
    ensures
        exists|i: int| 0 <= i < s.len() && coord(s[i], a) == lowest(s, a),
        exists|i: int| 0 <= i < s.len() && coord(s[i], a) == highest(s, a),
        forall|i: int| 0 <= i < s.len() ==> lowest(s, a) <= #[trigger] coord(s[i], a),
        forall|i: int| 0 <= i < s.len() ==> #[trigger] coord(s[i], a) <= highest(s, a),
    decreases s.len(),
{
    if s.len() == 1 {
        assert(coord(s[0], a) == lowest(s, a));
        assert(coord(s[0], a) == highest(s, a));
    } else {
        let t = s.drop_last();
        lemma_extrema_attained(t, a);
        let last = s.len() - 1;
        let il = choose|i: int| 0 <= i < t.len() && coord(t[i], a) == lowest(t, a);
        let ih = choose|i: int| 0 <= i < t.len() && coord(t[i], a) == highest(t, a);
        if coord(s[last], a) < lowest(t, a) {
            assert(coord(s[last], a) == lowest(s, a));
        } else {
            assert(coord(s[il], a) == lowest(s, a));
        }
        if coord(s[last], a) > highest(t, a) {
            assert(coord(s[last], a) == highest(s, a));
        } else {
            assert(coord(s[ih], a) == highest(s, a));
        }
        assert forall|i: int| 0 <= i < s.len() implies lowest(s, a) <= #[trigger] coord(s[i], a)
            && coord(s[i], a) <= highest(s, a) by {
            if i < last {
                assert(s[i] == t[i]);
            }
        }
    }
}

proof fn lemma_extrema_of_same_points(s1: Seq<(int, int)>, s2: Seq<(int, int)>, a: Axis)
    requires
        s1.len() > 0,
        s2.len() > 0,
        forall|i: int| 0 <= i < s1.len() ==> s2.contains(#[trigger] s1[i]),
        forall|i: int| 0 <= i < s2.len() ==> s1.contains(#[trigger] s2[i]),
    ensures
        lowest(s1, a) == lowest(s2, a),
        highest(s1, a) == highest(s2, a),
{
    lemma_extrema_attained(s1, a);
    lemma_extrema_attained(s2, a);
    let i1 = choose|i: int| 0 <= i < s1.len() && coord(s1[i], a) == lowest(s1, a);
    let i2 = choose|i: int| 0 <= i < s2.len() && coord(s2[i], a) == lowest(s2, a);
    let h1 = choose|i: int| 0 <= i < s1.len() && coord(s1[i], a) == highest(s1, a);
    let h2 = choose|i: int| 0 <= i < s2.len() && coord(s2[i], a) == highest(s2, a);
    assert(s2.contains(s1[i1]));
    assert(s1.contains(s2[i2]));
    assert(s2.contains(s1[h1]));
    assert(s1.contains(s2[h2]));
}

/// Reordering the samples changes neither their extrema nor the viewport.
pub proof fn lemma_viewport_order_independent(a: Seq<Sample>, b: Seq<Sample>)
    requires
        a.len() > 0,
        a.to_multiset() =~= b.to_multiset(),
    ensures
        lowest(points(a), Axis::X) == lowest(points(b), Axis::X),
        highest(points(a), Axis::X) == highest(points(b), Axis::X),
        lowest(points(a), Axis::Y) == lowest(points(b), Axis::Y),
        highest(points(a), Axis::Y) == highest(points(b), Axis::Y),
        viewport_of(points(a)) == viewport_of(points(b)),
{
    a.to_multiset_ensures();
    b.to_multiset_ensures();
    assert(b.len() == a.len());
    let pa = points(a);
    let pb = points(b);
    assert forall|i: int| 0 <= i < pa.len() implies pb.contains(#[trigger] pa[i]) by {
        assert(a.contains(a[i]));
        assert(a.to_multiset().count(a[i]) == b.to_multiset().count(a[i]));
        let j = choose|j: int| 0 <= j < b.len() && b[j] == a[i];
        assert(pb[j] == pa[i]);
    }
    assert forall|i: int| 0 <= i < pb.len() implies pa.contains(#[trigger] pb[i]) by {
        assert(b.contains(b[i]));
        assert(a.to_multiset().count(b[i]) == b.to_multiset().count(b[i]));
        let j = choose|j: int| 0 <= j < a.len() && a[j] == b[i];
        assert(pa[j] == pb[i]);
    }
    lemma_extrema_of_same_points(pa, pb, Axis::X);
    lemma_extrema_of_same_points(pa, pb, Axis::Y);
}

/// Every point with both coordinates multiplied by `k`.
pub open spec fn scaled(s: Seq<(int, int)>, k: int) -> Seq<(int, int)> {
    s.map_values(|p: (int, int)| (k * p.0, k * p.1))
}

proof fn lemma_extrema_scale(s: Seq<(int, int)>, k: int, a: Axis)
    requires
        s.len() > 0,
        k > 0,
    ensures
        lowest(scaled(s, k), a) == k * lowest(s, a),
        highest(scaled(s, k), a) == k * highest(s, a),
    decreases s.len(),
{
    let t = scaled(s, k);
    assert(coord(t[0], a) == k * coord(s[0], a));
    if s.len() > 1 {
        assert(t.drop_last() =~= scaled(s.drop_last(), k));
        lemma_extrema_scale(s.drop_last(), k, a);
        let c = coord(s.last(), a);
        let m = lowest(s.drop_last(), a);
        let h = highest(s.drop_last(), a);
        assert(coord(t.last(), a) == k * c);
        assert(c < m <==> k * c < k * m) by (nonlinear_arith)
            requires
                k > 0,
        ;
        assert(c > h <==> k * c > k * h) by (nonlinear_arith)
            requires
                k > 0,
        ;
    }
}

proof fn lemma_points_scale(s: Seq<(int, int)>, k: int)
    requires
        s.len() > 0,
        k > 0,
        lowest(s, Axis::X) < highest(s, Axis::X),
        lowest(s, Axis::Y) < highest(s, Axis::Y),
    ensures
        viewport_of(scaled(s, k)) == (k * viewport_of(s).0, k * viewport_of(s).1, k
            * viewport_of(s).2, k * viewport_of(s).3),
{
    lemma_extrema_scale(s, k, Axis::X);
    lemma_extrema_scale(s, k, Axis::Y);
    let lx = lowest(s, Axis::X);
    let hx = highest(s, Axis::X);
    let ly = lowest(s, Axis::Y);
    let hy = highest(s, Axis::Y);
    assert(k * lx < k * hx && k * ly < k * hy) by (nonlinear_arith)
        requires
            k > 0,
            lx < hx,
            ly < hy,
    ;
    assert(10 * (k * lx) - (k * hx - k * lx) == k * (10 * lx - (hx - lx))) by (nonlinear_arith);
    assert(10 * (k * hx) + (k * hx - k * lx) == k * (10 * hx + (hx - lx))) by (nonlinear_arith);
    assert(10 * (k * ly) - (k * hy - k * ly) == k * (10 * ly - (hy - ly))) by (nonlinear_arith);
    assert(10 * (k * hy) + (k * hy - k * ly) == k * (10 * hy + (hy - ly))) by (nonlinear_arith);
}

/// When every coordinate of `b` is `k > 0` times that of `a`, each bound of
/// the viewport of `b` is `k` times that of `a`, wherever neither extent of
/// `a` is zero.
pub proof fn lemma_viewport_scales(a: Seq<Sample>, b: Seq<Sample>, k: int)
    requires
        a.len() > 0,
        k > 0,
        b.len() == a.len(),
        forall|i: int| 0 <= i < a.len() ==> #[trigger] b[i].x == k * a[i].x && b[i].y == k * a[i].y,
        lowest(points(a), Axis::X) < highest(points(a), Axis::X),
        lowest(points(a), Axis::Y) < highest(points(a), Axis::Y),
    ensures
        viewport_of(points(b)) == (k * viewport_of(points(a)).0, k * viewport_of(points(a)).1, k
            * viewport_of(points(a)).2, k * viewport_of(points(a)).3),
{
    assert(points(b) =~= scaled(points(a), k));
    lemma_points_scale(points(a), k);
}

/// A single sample has zero extent on both axes, and its viewport reaches one
/// whole unit to each side of it.
pub proof fn lemma_single_sample_viewport(p: Sample)
    ensures
        highest(points(seq![p]), Axis::X) - lowest(points(seq![p]), Axis::X) == 0,
        highest(points(seq![p]), Axis::Y) - lowest(points(seq![p]), Axis::Y) == 0,
        viewport_of(points(seq![p])) == (10 * p.x - 10 * UNITS_PER_ONE, 10 * p.x + 10
            * UNITS_PER_ONE, 10 * p.y - 10 * UNITS_PER_ONE, 10 * p.y + 10 * UNITS_PER_ONE),
{
    assert(points(seq![p]) =~= seq![p.point()]);
}

} // verus!
