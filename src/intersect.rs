use vstd::prelude::*;
use crate::geometry::{
    Point, Vector, V3, EDGE_MAX, dir, diff, cross, dot, zero, sub_points, widen,
    cross3, dot3,
};
use crate::mesh::{Mesh, MeshError, Triangle, corners, face_normal};

verus! {

/// A half-line `origin + t * direction`, `t >= 0`.
#[derive(Clone, Copy, Debug, PartialEq, Eq, Structural)]
pub struct Ray {
    pub origin: Point,
    pub direction: Vector,
}

/// The part of a triangle that a ray strikes.
#[derive(Clone, Copy, Debug, PartialEq, Eq, Structural)]
pub enum Feature {
    /// The open interior of the triangle.
    Face,
    /// Edge 0 joins v0 and v1, edge 1 joins v1 and v2, edge 2 joins v2 and v0.
    Edge(u8),
    /// Corner v0, v1 or v2.
    Vertex(u8),
}

/// The nearest hit of a ray. The hit lies at parameter `t_num / t_den`
/// along the ray, with `t_den > 0`.
#[derive(Clone, Copy, Debug, PartialEq, Eq, Structural)]
pub struct Intersection {
    pub triangle: usize,
    pub t_num: i64,
    pub t_den: i64,
    pub feature: Feature,
    pub is_backface: bool,
}

/// Bound on every quantity of the exact solve.
pub open spec fn solve_max() -> int {
    6 * EDGE_MAX * EDGE_MAX * EDGE_MAX
}

/// Cramer's rule for `u (b - a) + v (c - a) - t d = o - a`, each unknown
/// given as a numerator over the common determinant: `(det, t, u, v)`.
pub open spec fn raw_solution(a: Point, b: Point, c: Point, o: Point, d: Vector) -> (int, int, int, int) {
    let e1 = diff(b, a);
    let e2 = diff(c, a);
    let s = diff(o, a);
    let p = cross(dir(d), e2);
    let q = cross(s, e1);
    (dot(e1, p), dot(e2, q), dot(s, p), dot(dir(d), q))
}

/// The same solution with the sign chosen so that the denominator is not negative.
pub open spec fn solution(a: Point, b: Point, c: Point, o: Point, d: Vector) -> (int, int, int, int) {
    let r = raw_solution(a, b, c, o, d);
    if r.0 < 0 { (-r.0, -r.1, -r.2, -r.3) } else { r }
}

/// A non-singular solution with `t >= 0`, `u >= 0`, `v >= 0` and `u + v <= 1`.
pub open spec fn is_hit(s: (int, int, int, int)) -> bool {
    s.0 > 0 && s.1 >= 0 && s.2 >= 0 && s.3 >= 0 && s.2 + s.3 <= s.0
}

/// Where barycentric `(u / den, v / den)` lands: vertices first, then edges,
/// then the face.
pub open spec fn feature_at(den: int, u: int, v: int) -> Feature {
    if u == 0 && v == 0 {
        Feature::Vertex(0)
    } else if u == den {
        Feature::Vertex(1)
    } else if v == den {
        Feature::Vertex(2)
    } else if u == 0 {
        Feature::Edge(2)
    } else if v == 0 {
        Feature::Edge(0)
    } else if u + v == den {
        Feature::Edge(1)
    } else {
        Feature::Face
    }
}

pub open spec fn tri_solution(pts: Seq<Point>, tris: Seq<Triangle>, ray: Ray, i: int) -> (int, int, int, int) {
    let (a, b, c) = corners(pts, tris, i);
    solution(a, b, c, ray.origin, ray.direction)
}

/// Triangle `i` faces away from the ray: its outward normal has a positive
/// component along the direction. A zero product counts as front-facing.
pub open spec fn backface(pts: Seq<Point>, tris: Seq<Triangle>, ray: Ray, i: int) -> bool {
    dot(dir(ray.direction), face_normal(pts, tris, i)) > 0
}

/// Hit `i` is reported before hit `j`: nearer along the ray, then front
/// before back, then lower index.
pub open spec fn comes_first(pts: Seq<Point>, tris: Seq<Triangle>, ray: Ray, i: int, j: int) -> bool {
    let si = tri_solution(pts, tris, ray, i);
    let sj = tri_solution(pts, tris, ray, j);
    let bi = backface(pts, tris, ray, i);
    let bj = backface(pts, tris, ray, j);
    si.1 * sj.0 < sj.1 * si.0 || (si.1 * sj.0 == sj.1 * si.0 && ((!bi && bj) || (bi == bj && i <= j)))
}

/// `h` describes the hit of the ray on triangle `i`.
pub open spec fn reports(pts: Seq<Point>, tris: Seq<Triangle>, ray: Ray, i: int, h: Intersection) -> bool {
    let s = tri_solution(pts, tris, ray, i);
    &&& h.triangle == i
    &&& h.t_den == s.0
    &&& h.t_num == s.1
    &&& h.feature == feature_at(s.0, s.2, s.3)
    &&& h.is_backface == backface(pts, tris, ray, i)
}

/// `r` is the first hit of the ray among all triangles, or `None` when no
/// triangle is hit.
pub open spec fn nearest_hit(pts: Seq<Point>, tris: Seq<Triangle>, ray: Ray, r: Option<Intersection>) -> bool {
    match r {
        None => forall|j: int| 0 <= j < tris.len() ==> !is_hit(#[trigger] tri_solution(pts, tris, ray, j)),
        Some(h) => {
            &&& h.triangle < tris.len()
            &&& is_hit(tri_solution(pts, tris, ray, h.triangle as int))
            &&& reports(pts, tris, ray, h.triangle as int, h)
            &&& forall|j: int| 0 <= j < tris.len() && is_hit(#[trigger] tri_solution(pts, tris, ray, j))
                ==> comes_first(pts, tris, ray, h.triangle as int, j)
        },
    }
}

/// What `cast` returns: `InvalidRay` exactly for a zero direction, else the
/// nearest hit.
pub open spec fn cast_outcome(mesh: &Mesh, ray: Ray, r: Result<Option<Intersection>, MeshError>) -> bool {
    &&& (r is Err <==> dir(ray.direction) == zero())
    &&& (r matches Err(e) ==> e == MeshError::InvalidRay)
    &&& (r matches Ok(h) ==> nearest_hit(mesh.points(), mesh.triangles(), ray, h))
}

/// Solves the ray against the triangle `a b c` exactly.
pub fn solve(a: Point, b: Point, c: Point, ray: &Ray) -> (r: (i64, i64, i64, i64))
    ensures
        (r.0 as int, r.1 as int, r.2 as int, r.3 as int) == solution(a, b, c, ray.origin, ray.direction),
        -solve_max() <= r.1 <= solve_max(),
        -solve_max() <= r.2 <= solve_max(),
        -solve_max() <= r.3 <= solve_max(),
        0 <= r.0 <= solve_max(),
{
    let e1 = sub_points(b, a);
    let e2 = sub_points(c, a);
    let s = sub_points(ray.origin, a);
    let d = widen(ray.direction);
    let p = cross3(d, e2);
    let q = cross3(s, e1);
    let det = dot3(e1, p);
    let tn = dot3(e2, q);
    let un = dot3(s, p);
    let vn = dot3(d, q);
    if det < 0 {
        (-det, -tn, -un, -vn)
    } else {
        (det, tn, un, vn)
    }
}

/// Classifies a point of the closed triangle given by barycentric
/// numerators `u`, `v` over `den`.
pub fn classify_feature(den: i64, u: i64, v: i64) -> (f: Feature)
    requires
        den > 0,
        u >= 0,
        v >= 0,
        u + v <= den,
    ensures
        f == feature_at(den as int, u as int, v as int),
{
    if u == 0 && v == 0 {
        Feature::Vertex(0)
    } else if u == den {
        Feature::Vertex(1)
    } else if v == den {
        Feature::Vertex(2)
    } else if u == 0 {
        Feature::Edge(2)
    } else if v == 0 {
        Feature::Edge(0)
    } else if u + v == den {
        Feature::Edge(1)
    } else {
        Feature::Face
    }
}

/// The hit of the ray on triangle `i` alone, if any.
pub fn hit_triangle(mesh: &Mesh, ray: &Ray, i: usize) -> (r: Option<Intersection>)
    requires
        mesh.wf(),
        i < mesh.triangles().len(),
    ensures
        r is Some <==> is_hit(tri_solution(mesh.points(), mesh.triangles(), *ray, i as int)),
        r matches Some(h) ==> reports(mesh.points(), mesh.triangles(), *ray, i as int, h)
            && 0 <= h.t_num <= solve_max() && 0 < h.t_den <= solve_max(),
{
    let (a, b, c) = mesh.triangle_vertices(i);
    let s = solve(a, b, c, ray);
    if s.0 > 0 && s.1 >= 0 && s.2 >= 0 && s.3 >= 0 && s.2 + s.3 <= s.0 {
        let feature = classify_feature(s.0, s.2, s.3);
        let n = cross3(sub_points(b, a), sub_points(c, a));
        let along = dot3(widen(ray.direction), n);
        Some(Intersection { triangle: i, t_num: s.1, t_den: s.0, feature, is_backface: along > 0 })
    } else {
        None
    }
}


/// Comparisons of fractions with positive denominators are transitive.
proof fn lemma_ratio_trans(a1: int, d1: int, a2: int, d2: int, a3: int, d3: int)
    requires
        d1 > 0,
        d2 > 0,
        d3 > 0,
    ensures
        a1 * d2 <= a2 * d1 && a2 * d3 <= a3 * d2 ==> a1 * d3 <= a3 * d1,
        a1 * d2 < a2 * d1 && a2 * d3 <= a3 * d2 ==> a1 * d3 < a3 * d1,
        a1 * d2 <= a2 * d1 && a2 * d3 < a3 * d2 ==> a1 * d3 < a3 * d1,
        a1 * d2 == a2 * d1 && a2 * d3 == a3 * d2 ==> a1 * d3 == a3 * d1,
{
    if a1 * d2 <= a2 * d1 && a2 * d3 < a3 * d2 {
        assert(a1 * d3 < a3 * d1) by (nonlinear_arith)
            requires d1 > 0, d2 > 0, d3 > 0, a1 * d2 <= a2 * d1, a2 * d3 < a3 * d2;
    }
    if a1 * d2 <= a2 * d1 && a2 * d3 <= a3 * d2 {
        assert(a1 * d3 <= a3 * d1) by (nonlinear_arith)
            requires d1 > 0, d2 > 0, d3 > 0, a1 * d2 <= a2 * d1, a2 * d3 <= a3 * d2;
    }
    if a1 * d2 < a2 * d1 && a2 * d3 <= a3 * d2 {
        assert(a1 * d3 < a3 * d1) by (nonlinear_arith)
            requires d1 > 0, d2 > 0, d3 > 0, a1 * d2 < a2 * d1, a2 * d3 <= a3 * d2;
    }
    if a1 * d2 == a2 * d1 && a2 * d3 == a3 * d2 {
        assert(a1 * d3 == a3 * d1) by (nonlinear_arith)
            requires d1 > 0, d2 > 0, d3 > 0, a1 * d2 == a2 * d1, a2 * d3 == a3 * d2;
    }
}

/// `c` is strictly before `h`: nearer, or as near and front-facing where `h`
/// is not.
fn strictly_before(c: &Intersection, h: &Intersection) -> (r: bool)
    requires
        0 <= c.t_num <= solve_max(),
        0 < c.t_den <= solve_max(),
        0 <= h.t_num <= solve_max(),
        0 < h.t_den <= solve_max(),
    ensures
        r == (c.t_num * h.t_den < h.t_num * c.t_den || (c.t_num * h.t_den == h.t_num * c.t_den
            && !c.is_backface && h.is_backface)),
{
    proof {
        assert(solve_max() * solve_max() < 0x7fff_ffff_ffff_ffff_ffff_ffff_ffff_ffff) by (nonlinear_arith)
            requires solve_max() == 6 * 65535 * 65535 * 65535;
        assert(0 <= c.t_num * h.t_den <= solve_max() * solve_max()) by (nonlinear_arith)
            requires 0 <= c.t_num <= solve_max(), 0 < h.t_den <= solve_max();
        assert(0 <= h.t_num * c.t_den <= solve_max() * solve_max()) by (nonlinear_arith)
            requires 0 <= h.t_num <= solve_max(), 0 < c.t_den <= solve_max();
    }
    let lhs = (c.t_num as i128) * (h.t_den as i128);
    let rhs = (h.t_num as i128) * (c.t_den as i128);
    lhs < rhs || (lhs == rhs && !c.is_backface && h.is_backface)
}

/// Casts the ray against every triangle and reports the first hit: the
/// smallest `t`, a front face before a back face at equal `t`, then the
/// lowest triangle index. The backface flag is meaningful only for a mesh
/// whose triangles are consistently oriented outward.
pub fn cast(mesh: &Mesh, ray: &Ray) -> (r: Result<Option<Intersection>, MeshError>)
    requires
        mesh.wf(),
    ensures
        cast_outcome(mesh, *ray, r),
{
    if ray.direction.x == 0 && ray.direction.y == 0 && ray.direction.z == 0 {
        return Err(MeshError::InvalidRay);
    }
    let ghost pts = mesh.points();
    let ghost tris = mesh.triangles();
    let n = mesh.num_triangles();
    let mut best: Option<Intersection> = None;
    let mut i: usize = 0;
    while i < n
        invariant
            mesh.wf(),
            pts == mesh.points(),
            tris == mesh.triangles(),
            n == tris.len(),
            i <= n,
            best is None ==> forall|j: int| 0 <= j < i ==> !is_hit(#[trigger] tri_solution(pts, tris, *ray, j)),
            best matches Some(h) ==> {
                &&& h.triangle < i
                &&& is_hit(tri_solution(pts, tris, *ray, h.triangle as int))
                &&& reports(pts, tris, *ray, h.triangle as int, h)
                &&& 0 <= h.t_num <= solve_max()
                &&& 0 < h.t_den <= solve_max()
                &&& forall|j: int| 0 <= j < i && is_hit(#[trigger] tri_solution(pts, tris, *ray, j))
                    ==> comes_first(pts, tris, *ray, h.triangle as int, j)
            },
        decreases n - i,
    {
        let found = hit_triangle(mesh, ray, i);
        if let Some(c) = found {
            let take = match best {
                None => true,
                Some(h) => strictly_before(&c, &h),
            };
            proof {
                let sc = tri_solution(pts, tris, *ray, i as int);
                if let Some(h) = best {
                    let sh = tri_solution(pts, tris, *ray, h.triangle as int);
                    if take {
                        assert forall|j: int| 0 <= j < i + 1 && is_hit(#[trigger] tri_solution(pts, tris, *ray, j))
                            implies comes_first(pts, tris, *ray, i as int, j) by {
                            if j < i {
                                let sj = tri_solution(pts, tris, *ray, j);
                                assert(comes_first(pts, tris, *ray, h.triangle as int, j));
                                lemma_ratio_trans(sc.1, sc.0, sh.1, sh.0, sj.1, sj.0);
                            }
                        }
                    } else {
                        assert(comes_first(pts, tris, *ray, h.triangle as int, i as int));
                    }
                }
            }
            if take {
                best = Some(c);
            }
        }
        i = i + 1;
    }
    Ok(best)
}


proof fn lemma_mul3(x: int, y: int, z: int)
    ensures
        x * (y * z) == x * y * z,
        x * (z * y) == x * y * z,
        y * (x * z) == x * y * z,
        y * (z * x) == x * y * z,
        z * (x * y) == x * y * z,
        z * (y * x) == x * y * z,
{
    assert(x * (y * z) == x * y * z) by (nonlinear_arith);
    assert(x * (z * y) == x * y * z) by (nonlinear_arith);
    assert(y * (x * z) == x * y * z) by (nonlinear_arith);
    assert(y * (z * x) == x * y * z) by (nonlinear_arith);
    assert(z * (x * y) == x * y * z) by (nonlinear_arith);
    assert(z * (y * x) == x * y * z) by (nonlinear_arith);
}

proof fn lemma_dist(x: int, p: int, q: int)
    ensures
        x * (p - q) == x * p - x * q,
{
    assert(x * (p - q) == x * p - x * q) by (nonlinear_arith);
}

/// Expands `a . (b x c)` into its six monomials.
proof fn lemma_expand_triple(a: V3, b: V3, c: V3)
    ensures
        dot(a, cross(b, c)) == a.0 * b.1 * c.2 - a.0 * b.2 * c.1 + a.1 * b.2 * c.0
            - a.1 * b.0 * c.2 + a.2 * b.0 * c.1 - a.2 * b.1 * c.0,
{
    lemma_dist(a.0, b.1 * c.2, b.2 * c.1);
    lemma_dist(a.1, b.2 * c.0, b.0 * c.2);
    lemma_dist(a.2, b.0 * c.1, b.1 * c.0);
    lemma_mul3(a.0, b.1, c.2);
    lemma_mul3(a.0, b.2, c.1);
    lemma_mul3(a.1, b.2, c.0);
    lemma_mul3(a.1, b.0, c.2);
    lemma_mul3(a.2, b.0, c.1);
    lemma_mul3(a.2, b.1, c.0);
}

/// The triple product is invariant under cyclic rotation and changes sign
/// when its first two factors swap.
proof fn lemma_triple_product(a: V3, b: V3, c: V3)
    ensures
        dot(a, cross(b, c)) == dot(b, cross(c, a)),
        dot(a, cross(b, c)) == -dot(b, cross(a, c)),
{
    lemma_expand_triple(a, b, c);
    lemma_expand_triple(b, c, a);
    lemma_expand_triple(b, a, c);
    lemma_mul3(a.0, b.1, c.2);
    lemma_mul3(a.0, b.2, c.1);
    lemma_mul3(a.1, b.2, c.0);
    lemma_mul3(a.1, b.0, c.2);
    lemma_mul3(a.2, b.0, c.1);
    lemma_mul3(a.2, b.1, c.0);
}

/// Casting is a function of the mesh and the ray: two results that both meet
/// the contract of `cast` for the same mesh and ray are identical.
pub proof fn lemma_cast_deterministic(
    mesh: &Mesh,
    ray: Ray,
    r1: Result<Option<Intersection>, MeshError>,
    r2: Result<Option<Intersection>, MeshError>,
)
    requires
        mesh.wf(),
        cast_outcome(mesh, ray, r1),
        cast_outcome(mesh, ray, r2),
    ensures
        r1 == r2,
{
    let pts = mesh.points();
    let tris = mesh.triangles();
    if let Ok(Some(h1)) = r1 {
        if let Ok(Some(h2)) = r2 {
            assert(comes_first(pts, tris, ray, h1.triangle as int, h2.triangle as int));
            assert(comes_first(pts, tris, ray, h2.triangle as int, h1.triangle as int));
        } else {
            assert(is_hit(tri_solution(pts, tris, ray, h1.triangle as int)));
        }
    } else if let Ok(Some(h2)) = r2 {
        assert(is_hit(tri_solution(pts, tris, ray, h2.triangle as int)));
    }
}

/// A ray that starts strictly on the outer side of the plane of a triangle
/// and hits that triangle at the reported distance is reported as meeting a
/// front face. In particular a hit whose own triangle has the origin on its
/// outer side is never a backface.
pub proof fn lemma_front_face_from_outside(mesh: &Mesh, ray: Ray, h: Intersection, j: int)
    requires
        mesh.wf(),
        nearest_hit(mesh.points(), mesh.triangles(), ray, Some(h)),
        0 <= j < mesh.triangles().len(),
        is_hit(tri_solution(mesh.points(), mesh.triangles(), ray, j)),
        tri_solution(mesh.points(), mesh.triangles(), ray, j).1 * h.t_den
            == h.t_num * tri_solution(mesh.points(), mesh.triangles(), ray, j).0,
        dot(diff(ray.origin, corners(mesh.points(), mesh.triangles(), j).0),
            face_normal(mesh.points(), mesh.triangles(), j)) > 0,
    ensures
        !h.is_backface,
{
    let pts = mesh.points();
    let tris = mesh.triangles();
    let (a, b, c) = corners(pts, tris, j);
    let e1 = diff(b, a);
    let e2 = diff(c, a);
    let s = diff(ray.origin, a);
    let d = dir(ray.direction);
    lemma_triple_product(e2, s, e1);
    lemma_triple_product(e1, d, e2);
    assert(cross(e2, e1) == (-cross(e1, e2).0, -cross(e1, e2).1, -cross(e1, e2).2));
    assert(dot(d, cross(e2, e1)) == -dot(d, cross(e1, e2))) by (nonlinear_arith)
        requires cross(e2, e1) == (-cross(e1, e2).0, -cross(e1, e2).1, -cross(e1, e2).2);
    assert(!backface(pts, tris, ray, j));
    assert(comes_first(pts, tris, ray, h.triangle as int, j));
}

} // verus!
