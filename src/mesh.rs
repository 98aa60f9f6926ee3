use vstd::prelude::*;
use crate::geometry::{Point, Normal, V3, diff, cross, normal_of, normal_view, zero, sub_points, cross3};

verus! {

/// Three indices into a mesh's points, in right-hand (outward) order.
#[derive(Clone, Copy, Debug, PartialEq, Eq, Structural)]
pub struct Triangle {
    pub a: usize,
    pub b: usize,
    pub c: usize,
}

/// Errors reported by construction and by queries.
#[derive(Clone, Copy, Debug, PartialEq, Eq, Structural)]
pub enum MeshError {
    /// An index out of range, a repeated index, or a triangle of zero area.
    InvalidGeometry,
    /// A ray whose direction is the zero vector.
    InvalidRay,
}

/// An indexed triangle surface that never changes once built.
pub struct Mesh {
    points: Vec<Point>,
    triangles: Vec<Triangle>,
}

/// The triangle `t` is usable against `pts`: its indices are in range and
/// distinct and its corners span a non-zero area.
pub open spec fn valid_triangle(pts: Seq<Point>, t: Triangle) -> bool {
    &&& t.a < pts.len()
    &&& t.b < pts.len()
    &&& t.c < pts.len()
    &&& t.a != t.b
    &&& t.b != t.c
    &&& t.a != t.c
    &&& normal_of(pts[t.a as int], pts[t.b as int], pts[t.c as int]) != zero()
}

pub open spec fn valid_mesh(pts: Seq<Point>, tris: Seq<Triangle>) -> bool {
    forall|i: int| 0 <= i < tris.len() ==> #[trigger] valid_triangle(pts, tris[i])
}

/// The corners of triangle `i`, in stored order.
pub open spec fn corners(pts: Seq<Point>, tris: Seq<Triangle>, i: int) -> (Point, Point, Point) {
    (pts[tris[i].a as int], pts[tris[i].b as int], pts[tris[i].c as int])
}

/// The outward normal of triangle `i`.
pub open spec fn face_normal(pts: Seq<Point>, tris: Seq<Triangle>, i: int) -> V3 {
    let (a, b, c) = corners(pts, tris, i);
    normal_of(a, b, c)
}

/// Decides whether one triangle is usable against `points`.
pub fn check_triangle(points: &Vec<Point>, t: Triangle) -> (r: bool)
    ensures
        r == valid_triangle(points@, t),
{
    let n = points.len();
    if t.a >= n || t.b >= n || t.c >= n || t.a == t.b || t.b == t.c || t.a == t.c {
        return false;
    }
    let nv = cross3(sub_points(points[t.b], points[t.a]), sub_points(points[t.c], points[t.a]));
    !(nv.0 == 0 && nv.1 == 0 && nv.2 == 0)
}

impl Mesh {
    pub closed spec fn points(&self) -> Seq<Point> {
        self.points@
    }

    pub closed spec fn triangles(&self) -> Seq<Triangle> {
        self.triangles@
    }

    pub open spec fn wf(&self) -> bool {
        valid_mesh(self.points(), self.triangles())
    }

    /// Builds a mesh, refusing it when any triangle is not valid.
    pub fn new(points: Vec<Point>, triangles: Vec<Triangle>) -> (r: Result<Mesh, MeshError>)
        ensures
            r is Ok <==> valid_mesh(points@, triangles@),
            r matches Ok(m) ==> m.points() == points@ && m.triangles() == triangles@ && m.wf(),
            r matches Err(e) ==> e == MeshError::InvalidGeometry,
    {
        let mut i: usize = 0;
        while i < triangles.len()
            invariant
                i <= triangles.len(),
                forall|j: int| 0 <= j < i ==> #[trigger] valid_triangle(points@, triangles@[j]),
            decreases triangles.len() - i,
        {
            if !check_triangle(&points, triangles[i]) {
                return Err(MeshError::InvalidGeometry);
            }
            i = i + 1;
        }
        Ok(Mesh { points, triangles })
    }

    pub fn num_points(&self) -> (r: usize)
        ensures
            r == self.points().len(),
    {
        self.points.len()
    }

    pub fn num_triangles(&self) -> (r: usize)
        ensures
            r == self.triangles().len(),
    {
        self.triangles.len()
    }

    /// Triangle `i` as stored.
    pub fn triangle(&self, i: usize) -> (r: Triangle)
        requires
            i < self.triangles().len(),
        ensures
            r == self.triangles()[i as int],
    {
        self.triangles[i]
    }

    /// The three corner points of triangle `i`, in stored order.
    pub fn triangle_vertices(&self, i: usize) -> (r: (Point, Point, Point))
        requires
            self.wf(),
            i < self.triangles().len(),
        ensures
            r == corners(self.points(), self.triangles(), i as int),
    {
        let t = self.triangles[i];
        proof {
            assert(valid_triangle(self.points(), self.triangles()[i as int]));
        }
        (self.points[t.a], self.points[t.b], self.points[t.c])
    }

    /// The outward normal of triangle `i`: the cross product of its edges
    /// `v1 - v0` and `v2 - v0`, never the zero vector.
    pub fn triangle_normal(&self, i: usize) -> (r: Normal)
        requires
            self.wf(),
            i < self.triangles().len(),
        ensures
            normal_view(r) == face_normal(self.points(), self.triangles(), i as int),
            normal_view(r) != zero(),
    {
        let (a, b, c) = self.triangle_vertices(i);
        proof {
            assert(valid_triangle(self.points(), self.triangles()[i as int]));
        }
        let nv = cross3(sub_points(b, a), sub_points(c, a));
        Normal { x: nv.0, y: nv.1, z: nv.2 }
    }
}


/// Building a mesh and reading it back reproduces the input: each triangle
/// gives exactly the points its indices name, and a non-zero normal equal to
/// the cross product of its edges `v1 - v0` and `v2 - v0`.
pub proof fn lemma_round_trip(points: Seq<Point>, triangles: Seq<Triangle>, m: &Mesh, i: int)
    requires
        m.wf(),
        m.points() == points,
        m.triangles() == triangles,
        0 <= i < triangles.len(),
    ensures
        corners(m.points(), m.triangles(), i) == (
            points[triangles[i].a as int],
            points[triangles[i].b as int],
            points[triangles[i].c as int],
        ),
        face_normal(m.points(), m.triangles(), i) == cross(
            diff(points[triangles[i].b as int], points[triangles[i].a as int]),
            diff(points[triangles[i].c as int], points[triangles[i].a as int]),
        ),
        face_normal(m.points(), m.triangles(), i) != zero(),
{
    assert(valid_triangle(points, triangles[i]));
}

/// A triangle that repeats an index is refused.
pub proof fn lemma_repeated_index_refused(pts: Seq<Point>, t: Triangle)
    requires
        t.a == t.b || t.b == t.c || t.a == t.c,
    ensures
        !valid_triangle(pts, t),
{
}

/// A triangle whose corners are collinear is refused: when `m (v2 - v0)`
/// equals `k (v1 - v0)` for some `m != 0`, the normal is zero.
pub proof fn lemma_collinear_refused(pts: Seq<Point>, t: Triangle, k: int, m: int)
    requires
        t.a < pts.len(),
        t.b < pts.len(),
        t.c < pts.len(),
        m != 0,
        m * diff(pts[t.c as int], pts[t.a as int]).0 == k * diff(pts[t.b as int], pts[t.a as int]).0,
        m * diff(pts[t.c as int], pts[t.a as int]).1 == k * diff(pts[t.b as int], pts[t.a as int]).1,
        m * diff(pts[t.c as int], pts[t.a as int]).2 == k * diff(pts[t.b as int], pts[t.a as int]).2,
    ensures
        !valid_triangle(pts, t),
{
    let (u0, u1, u2) = diff(pts[t.b as int], pts[t.a as int]);
    let (w0, w1, w2) = diff(pts[t.c as int], pts[t.a as int]);
    assert(u1 * w2 - u2 * w1 == 0) by (nonlinear_arith)
        requires m != 0, m * w1 == k * u1, m * w2 == k * u2;
    assert(u2 * w0 - u0 * w2 == 0) by (nonlinear_arith)
        requires m != 0, m * w0 == k * u0, m * w2 == k * u2;
    assert(u0 * w1 - u1 * w0 == 0) by (nonlinear_arith)
        requires m != 0, m * w0 == k * u0, m * w1 == k * u1;
}

} // verus!
