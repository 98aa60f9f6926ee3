use raymesh::geometry::{Normal, Point, Vector};
use raymesh::intersect::{cast, classify_feature, solve, Feature, Intersection, Ray};
use raymesh::mesh::{Mesh, MeshError, Triangle};

const S: i16 = 4;

fn p(x: i16, y: i16, z: i16) -> Point {
    Point { x, y, z }
}

fn v(x: i16, y: i16, z: i16) -> Vector {
    Vector { x, y, z }
}

fn t(a: usize, b: usize, c: usize) -> Triangle {
    Triangle { a, b, c }
}

fn cube_points() -> Vec<Point> {
    // index = 4 * xbit + 2 * ybit + zbit
    let mut pts = Vec::new();
    for xb in 0..2i16 {
        for yb in 0..2i16 {
            for zb in 0..2i16 {
                pts.push(p(xb * S, yb * S, zb * S));
            }
        }
    }
    pts
}

fn cube_triangles() -> Vec<Triangle> {
    vec![
        t(0, 1, 3),
        t(0, 3, 2),
        t(4, 6, 7),
        t(4, 7, 5),
        t(0, 4, 5),
        t(0, 5, 1),
        t(2, 3, 7),
        t(2, 7, 6),
        t(0, 2, 6),
        t(0, 6, 4),
        t(1, 5, 7),
        t(1, 7, 3),
    ]
}

fn cube() -> Mesh {
    Mesh::new(cube_points(), cube_triangles()).unwrap()
}

fn ray(o: Point, d: Vector) -> Ray {
    Ray { origin: o, direction: d }
}

fn hit(m: &Mesh, r: Ray) -> Intersection {
    cast(m, &r).unwrap().expect("the ray should hit")
}

fn t_is(h: &Intersection, num: i64, den: i64) -> bool {
    h.t_num * den == num * h.t_den
}

#[test]
fn ray_along_cube_edge_meets_corner() {
    let m = cube();
    let h = hit(&m, ray(p(-S, 0, 0), v(1, 0, 0)));
    assert!(t_is(&h, 4, 1));
    assert!(matches!(h.feature, Feature::Vertex(_)));
    assert!(!h.is_backface);
    assert!(h.triangle < 2);
}

#[test]
fn transverse_ray_hits_face_interior() {
    let m = cube();
    let h = hit(&m, ray(p(-S, 1, 2), v(1, 0, 0)));
    assert!(t_is(&h, 4, 1));
    assert_eq!(h.feature, Feature::Face);
    assert!(!h.is_backface);
    assert!(h.triangle < 2);
}

#[test]
fn ray_grazing_edge_reports_edge() {
    let m = cube();
    let h = hit(&m, ray(p(-2, 2, 2), v(1, 1, 0)));
    assert!(t_is(&h, 2, 1));
    assert!(matches!(h.feature, Feature::Edge(_)));
    assert!(!h.is_backface);
    // every triangle hit at all is hit at the same t
    for i in 0..m.num_triangles() {
        let single = Mesh::new(cube_points(), vec![cube_triangles()[i]]).unwrap();
        if let Some(other) = cast(&single, &ray(p(-2, 2, 2), v(1, 1, 0))).unwrap() {
            assert!(t_is(&other, 2, 1));
        }
    }
}

#[test]
fn ray_touching_corner_reports_vertex() {
    let m = cube();
    let h = hit(&m, ray(p(-2, 2, 2), v(1, 1, 1)));
    assert!(t_is(&h, 2, 1));
    assert!(matches!(h.feature, Feature::Vertex(_)));
    assert!(!h.is_backface);
}

#[test]
fn ray_crossing_edge_region_hits() {
    let m = cube();
    let h = hit(&m, ray(p(-S, -S, 2), v(1, 1, 0)));
    assert!(t_is(&h, 4, 1));
    assert!(matches!(h.feature, Feature::Edge(_)));
    assert!(!h.is_backface);
}

#[test]
fn ray_through_corner_diagonally() {
    let m = cube();
    let h = hit(&m, ray(p(-S, -S, -S), v(1, 1, 1)));
    assert!(t_is(&h, 4, 1));
    assert!(matches!(h.feature, Feature::Vertex(_)));
    assert!(!h.is_backface);
}

#[test]
fn rays_from_outside_meet_front_faces() {
    let m = cube();
    let origins = [p(-3, 1, 2), p(7, 1, 3), p(1, -5, 2), p(2, 9, 1), p(1, 3, -2), p(3, 1, 6)];
    for o in origins.iter() {
        let c = p(2, 2, 2);
        let d = v(c.x - o.x, c.y - o.y, c.z - o.z);
        let h = hit(&m, ray(*o, d));
        assert!(!h.is_backface);
    }
}

#[test]
fn ray_from_inside_meets_backface() {
    let m = cube();
    let h = hit(&m, ray(p(2, 1, 3), v(1, 0, 0)));
    assert!(t_is(&h, 2, 1));
    assert_eq!(h.feature, Feature::Face);
    assert!(h.is_backface);
    assert!(h.triangle == 2 || h.triangle == 3);
}

#[test]
fn ray_missing_cube_gives_none() {
    let m = cube();
    assert_eq!(cast(&m, &ray(p(-S, 10, 10), v(1, 0, 0))), Ok(None));
    assert_eq!(cast(&m, &ray(p(-S, 1, 2), v(-1, 0, 0))), Ok(None));
}

#[test]
fn zero_direction_is_invalid_ray() {
    let m = cube();
    assert_eq!(cast(&m, &ray(p(-S, 1, 2), v(0, 0, 0))), Err(MeshError::InvalidRay));
}

#[test]
fn cast_is_repeatable() {
    let m = cube();
    let rays = [
        ray(p(-2, 2, 2), v(1, 1, 0)),
        ray(p(-S, -S, 2), v(1, 1, 0)),
        ray(p(2, 1, 3), v(1, 0, 0)),
        ray(p(-S, 10, 10), v(1, 0, 0)),
    ];
    for r in rays.iter() {
        let first = cast(&m, r);
        for _ in 0..3 {
            assert_eq!(cast(&m, r), first);
        }
    }
}

#[test]
fn mesh_round_trip() {
    let pts = cube_points();
    let tris = cube_triangles();
    let m = Mesh::new(pts.clone(), tris.clone()).unwrap();
    assert_eq!(m.num_points(), 8);
    assert_eq!(m.num_triangles(), 12);
    for i in 0..tris.len() {
        let tr = tris[i];
        assert_eq!(m.triangle(i), tr);
        assert_eq!(m.triangle_vertices(i), (pts[tr.a], pts[tr.b], pts[tr.c]));
        let n = m.triangle_normal(i);
        // outward: the normal points from the cube's centre to the face
        let (a, b, c) = m.triangle_vertices(i);
        let cx = (a.x + b.x + c.x) as i64 * 1 - 6;
        let cy = (a.y + b.y + c.y) as i64 * 1 - 6;
        let cz = (a.z + b.z + c.z) as i64 * 1 - 6;
        assert!(n.x * cx + n.y * cy + n.z * cz > 0);
    }
    assert_eq!(m.triangle_normal(0), Normal { x: -16, y: 0, z: 0 });
    assert_eq!(m.triangle_normal(11), Normal { x: 0, y: 0, z: 16 });
}

#[test]
fn repeated_index_is_invalid_geometry() {
    let r = Mesh::new(cube_points(), vec![t(0, 0, 3)]);
    assert!(matches!(r, Err(MeshError::InvalidGeometry)));
}

#[test]
fn collinear_points_are_invalid_geometry() {
    let pts = vec![p(0, 0, 0), p(1, 1, 1), p(3, 3, 3)];
    let r = Mesh::new(pts, vec![t(0, 1, 2)]);
    assert!(matches!(r, Err(MeshError::InvalidGeometry)));
}

#[test]
fn coincident_points_are_invalid_geometry() {
    let pts = vec![p(0, 0, 0), p(2, 1, 0), p(2, 1, 0)];
    let r = Mesh::new(pts, vec![t(0, 1, 2)]);
    assert!(matches!(r, Err(MeshError::InvalidGeometry)));
}

#[test]
fn out_of_range_index_is_invalid_geometry() {
    let mut tris = cube_triangles();
    tris.push(t(0, 1, 8));
    let r = Mesh::new(cube_points(), tris);
    assert!(matches!(r, Err(MeshError::InvalidGeometry)));
}

#[test]
fn empty_mesh_is_never_hit() {
    let m = Mesh::new(Vec::new(), Vec::new()).unwrap();
    assert_eq!(cast(&m, &ray(p(0, 0, 0), v(1, 0, 0))), Ok(None));
}

#[test]
fn classify_feature_orders_vertex_edge_face() {
    assert_eq!(classify_feature(6, 0, 0), Feature::Vertex(0));
    assert_eq!(classify_feature(6, 6, 0), Feature::Vertex(1));
    assert_eq!(classify_feature(6, 0, 6), Feature::Vertex(2));
    assert_eq!(classify_feature(6, 0, 2), Feature::Edge(2));
    assert_eq!(classify_feature(6, 2, 0), Feature::Edge(0));
    assert_eq!(classify_feature(6, 2, 4), Feature::Edge(1));
    assert_eq!(classify_feature(6, 2, 3), Feature::Face);
}

#[test]
fn solve_gives_exact_barycentrics() {
    let r = ray(p(1, 1, 5), v(0, 0, -1));
    // triangle in the plane z = 0 with legs of length 4
    let (den, tn, un, vn) = solve(p(0, 0, 0), p(4, 0, 0), p(0, 4, 0), &r);
    assert!(den > 0);
    assert_eq!(tn * 1, 5 * den);
    assert_eq!(un * 4, den);
    assert_eq!(vn * 4, den);
}

#[test]
fn parallel_ray_misses_triangle() {
    let r = ray(p(-1, 1, 0), v(1, 0, 0));
    let (den, _, _, _) = solve(p(0, 0, 0), p(4, 0, 0), p(0, 4, 0), &r);
    assert_eq!(den, 0);
    let m = Mesh::new(vec![p(0, 0, 0), p(4, 0, 0), p(0, 4, 0)], vec![t(0, 1, 2)]).unwrap();
    assert_eq!(cast(&m, &r), Ok(None));
}

#[test]
fn extreme_coordinates_do_not_overflow() {
    let lo = i16::MIN;
    let hi = i16::MAX;
    let pts = vec![p(lo, lo, lo), p(hi, lo, lo), p(lo, hi, lo)];
    let m = Mesh::new(pts, vec![t(0, 1, 2)]).unwrap();
    let h = hit(&m, ray(p(-100, -100, hi), v(0, 0, lo)));
    assert!(t_is(&h, 65535, 32768));
    assert_eq!(h.feature, Feature::Face);
    assert!(!h.is_backface);
}
