use vstd::prelude::*;

verus! {

/// A lattice position.
#[derive(Clone, Copy, Debug, PartialEq, Eq, Structural)]
pub struct Point {
    pub x: i16,
    pub y: i16,
    pub z: i16,
}

/// A lattice displacement (a ray direction, for instance).
#[derive(Clone, Copy, Debug, PartialEq, Eq, Structural)]
pub struct Vector {
    pub x: i16,
    pub y: i16,
    pub z: i16,
}

/// An unnormalised face normal: the cross product of two triangle edges.
#[derive(Clone, Copy, Debug, PartialEq, Eq, Structural)]
pub struct Normal {
    pub x: i64,
    pub y: i64,
    pub z: i64,
}

/// A mathematical 3-vector.
pub type V3 = (int, int, int);

/// Bound on a difference of two lattice coordinates.
pub const EDGE_MAX: i64 = 65535;

pub open spec fn dir(v: Vector) -> V3 {
    (v.x as int, v.y as int, v.z as int)
}

pub open spec fn normal_view(n: Normal) -> V3 {
    (n.x as int, n.y as int, n.z as int)
}

pub open spec fn zero() -> V3 {
    (0, 0, 0)
}

pub open spec fn diff(p: Point, q: Point) -> V3 {
    (p.x - q.x, p.y - q.y, p.z - q.z)
}

pub open spec fn cross(a: V3, b: V3) -> V3 {
    (a.1 * b.2 - a.2 * b.1, a.2 * b.0 - a.0 * b.2, a.0 * b.1 - a.1 * b.0)
}

pub open spec fn dot(a: V3, b: V3) -> int {
    a.0 * b.0 + a.1 * b.1 + a.2 * b.2
}

/// The outward normal of the triangle `a b c` by the right-hand rule.
pub open spec fn normal_of(a: Point, b: Point, c: Point) -> V3 {
    cross(diff(b, a), diff(c, a))
}

pub open spec fn bounded(a: V3, m: int) -> bool {
    -m <= a.0 <= m && -m <= a.1 <= m && -m <= a.2 <= m
}

pub open spec fn view3(a: (i64, i64, i64)) -> V3 {
    (a.0 as int, a.1 as int, a.2 as int)
}

proof fn lemma_mul_bound(a: int, b: int, ma: int, mb: int)
    requires
        -ma <= a <= ma,
        -mb <= b <= mb,
    ensures
        -(ma * mb) <= a * b <= ma * mb,
{
    assert(-(ma * mb) <= a * b <= ma * mb) by (nonlinear_arith)
        requires -ma <= a <= ma, -mb <= b <= mb;
}

/// The difference `p - q`, widened so that it cannot overflow.
pub fn sub_points(p: Point, q: Point) -> (r: (i64, i64, i64))
    ensures
        view3(r) == diff(p, q),
        bounded(view3(r), EDGE_MAX as int),
{
    (p.x as i64 - q.x as i64, p.y as i64 - q.y as i64, p.z as i64 - q.z as i64)
}

/// The direction of `v`, widened.
pub fn widen(v: Vector) -> (r: (i64, i64, i64))
    ensures
        view3(r) == dir(v),
        bounded(view3(r), EDGE_MAX as int),
{
    (v.x as i64, v.y as i64, v.z as i64)
}

/// The cross product of two edge-sized vectors.
pub fn cross3(a: (i64, i64, i64), b: (i64, i64, i64)) -> (r: (i64, i64, i64))
    requires
        bounded(view3(a), EDGE_MAX as int),
        bounded(view3(b), EDGE_MAX as int),
    ensures
        view3(r) == cross(view3(a), view3(b)),
        bounded(view3(r), 2 * EDGE_MAX * EDGE_MAX),
{
    proof {
        let m = EDGE_MAX as int;
        lemma_mul_bound(a.1 as int, b.2 as int, m, m);
        lemma_mul_bound(a.2 as int, b.1 as int, m, m);
        lemma_mul_bound(a.2 as int, b.0 as int, m, m);
        lemma_mul_bound(a.0 as int, b.2 as int, m, m);
        lemma_mul_bound(a.0 as int, b.1 as int, m, m);
        lemma_mul_bound(a.1 as int, b.0 as int, m, m);
    }
    (a.1 * b.2 - a.2 * b.1, a.2 * b.0 - a.0 * b.2, a.0 * b.1 - a.1 * b.0)
}

/// The dot product of an edge-sized vector with a cross product.
pub fn dot3(a: (i64, i64, i64), b: (i64, i64, i64)) -> (r: i64)
    requires
        bounded(view3(a), EDGE_MAX as int),
        bounded(view3(b), 2 * EDGE_MAX * EDGE_MAX),
    ensures
        r as int == dot(view3(a), view3(b)),
        -6 * EDGE_MAX * EDGE_MAX * EDGE_MAX <= r <= 6 * EDGE_MAX * EDGE_MAX * EDGE_MAX,
{
    proof {
        let m = EDGE_MAX as int;
        let mm = 2 * EDGE_MAX * EDGE_MAX;
        lemma_mul_bound(a.0 as int, b.0 as int, m, mm as int);
        lemma_mul_bound(a.1 as int, b.1 as int, m, mm as int);
        lemma_mul_bound(a.2 as int, b.2 as int, m, mm as int);
        assert(m * mm == 2 * EDGE_MAX * EDGE_MAX * EDGE_MAX) by (nonlinear_arith)
            requires m == EDGE_MAX, mm == 2 * EDGE_MAX * EDGE_MAX;
    }
    a.0 * b.0 + a.1 * b.1 + a.2 * b.2
}

} // verus!
