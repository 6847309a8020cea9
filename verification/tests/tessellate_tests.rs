use ramp_ball::collider::create_trimesh_collider_from;
use ramp_ball::tessellate::create_smooth_spline_mesh_from;
use ramp_ball::tessellate::ControlPoint;
use ramp_ball::tessellate::Tri;

fn pts(coords: &[(i64, i64)]) -> Vec<ControlPoint> {
    let mut v = Vec::new();
    for &(x, y) in coords {
        v.push(ControlPoint { x, y });
    }
    v
}

#[test]
fn default_points_yield_mesh_and_matching_collider() {
    let points = pts(&[(0, 0), (200, 50), (600, -100), (1200, 100)]);
    let mesh = create_smooth_spline_mesh_from(&points);
    assert!(mesh.triangles.len() > 0);
    assert!(mesh.vertices.len() > 0);
    let collider = create_trimesh_collider_from(&mesh).expect("nonempty mesh needs a collider");
    assert_eq!(collider.triangles.len(), mesh.triangles.len());
}

#[test]
fn no_points_yield_empty_mesh() {
    let points = pts(&[]);
    let mesh = create_smooth_spline_mesh_from(&points);
    assert_eq!(mesh.vertices.len(), 0);
    assert_eq!(mesh.triangles.len(), 0);
}

#[test]
fn single_point_yields_empty_mesh() {
    let points = pts(&[(5, 7)]);
    let mesh = create_smooth_spline_mesh_from(&points);
    assert_eq!(mesh.vertices.len(), 0);
    assert_eq!(mesh.triangles.len(), 0);
}

#[test]
fn two_points_have_expected_counts() {
    // One segment, 8 steps: 9 polyline samples, two rim vertices each,
    // two triangles per quad.
    let points = pts(&[(0, 0), (800, 0)]);
    let mesh = create_smooth_spline_mesh_from(&points);
    assert_eq!(mesh.vertices.len(), 18);
    assert_eq!(mesh.triangles.len(), 16);
}

#[test]
fn horizontal_stroke_rims_sit_half_width_from_the_curve() {
    let points = pts(&[(0, 0), (800, 0)]);
    let mesh = create_smooth_spline_mesh_from(&points);
    // The curve starts at the anchor; the first rim pair sits 5 units above
    // and below it.
    assert_eq!(mesh.vertices[0].x, 0);
    assert_eq!(mesh.vertices[0].y, 5);
    assert_eq!(mesh.vertices[0].z, 0);
    assert_eq!(mesh.vertices[1].x, 0);
    assert_eq!(mesh.vertices[1].y, -5);
    // The curve ends exactly at the last control point.
    assert_eq!(mesh.vertices[16].x, 800);
    assert_eq!(mesh.vertices[16].y, 5);
    assert_eq!(mesh.vertices[17].x, 800);
    assert_eq!(mesh.vertices[17].y, -5);
}

#[test]
fn every_vertex_stays_near_some_rim_pair_center() {
    // The two rims are symmetric about the curve sample: their midpoint is
    // the sample, and each is within half the stroke width of it.
    let points = pts(&[(0, 0), (200, 50), (600, -100), (1200, 100)]);
    let mesh = create_smooth_spline_mesh_from(&points);
    assert_eq!(mesh.vertices.len() % 2, 0);
    for i in 0..mesh.vertices.len() / 2 {
        let a = &mesh.vertices[2 * i];
        let b = &mesh.vertices[2 * i + 1];
        let ox = (a.x - b.x) / 2;
        let oy = (a.y - b.y) / 2;
        assert_eq!(a.x + b.x, (a.x + b.x) / 2 * 2, "midpoint x is integral");
        assert!(ox * ox + oy * oy <= 25, "offset exceeds half the stroke width");
    }
}

#[test]
fn triangle_strip_winding_is_fixed() {
    let points = pts(&[(0, 0), (800, 0)]);
    let mesh = create_smooth_spline_mesh_from(&points);
    assert_eq!(mesh.triangles[0], Tri { a: 0, b: 1, c: 2 });
    assert_eq!(mesh.triangles[1], Tri { a: 1, b: 3, c: 2 });
    assert_eq!(mesh.triangles[2], Tri { a: 2, b: 3, c: 4 });
    assert_eq!(mesh.triangles[3], Tri { a: 3, b: 5, c: 4 });
}

#[test]
fn triangle_indices_stay_in_range() {
    let points = pts(&[(0, 0), (200, 50), (600, -100), (1200, 100)]);
    let mesh = create_smooth_spline_mesh_from(&points);
    for t in &mesh.triangles {
        assert!(t.a < mesh.vertices.len());
        assert!(t.b < mesh.vertices.len());
        assert!(t.c < mesh.vertices.len());
    }
}

#[test]
fn tessellated_vertices_lie_in_the_plane() {
    let points = pts(&[(0, 0), (200, 50), (600, -100), (1200, 100)]);
    let mesh = create_smooth_spline_mesh_from(&points);
    for v in &mesh.vertices {
        assert_eq!(v.z, 0);
    }
}

#[test]
fn largest_allowed_input_tessellates() {
    // 64 control points spanning the full coordinate range: one segment per
    // extra point, 8 samples per segment, two rim vertices per sample.
    let mut coords = Vec::new();
    for i in 0..64i64 {
        let y = if i % 2 == 0 { 1_000_000 } else { -1_000_000 };
        coords.push((-1_000_000 + 31_000 * i, y));
    }
    let points = pts(&coords);
    let mesh = create_smooth_spline_mesh_from(&points);
    assert_eq!(mesh.vertices.len(), 2 * (1 + 8 * 63));
    assert_eq!(mesh.triangles.len(), 2 * (8 * 63));
    for t in &mesh.triangles {
        assert!(t.a < mesh.vertices.len());
        assert!(t.b < mesh.vertices.len());
        assert!(t.c < mesh.vertices.len());
    }
}

#[test]
fn coincident_points_collapse_to_a_degenerate_ribbon() {
    // Both control points coincide: the curve never moves, so no sample has
    // a direction and every rim vertex sits exactly on the point.
    let points = pts(&[(5, 5), (5, 5)]);
    let mesh = create_smooth_spline_mesh_from(&points);
    assert_eq!(mesh.vertices.len(), 18);
    for v in &mesh.vertices {
        assert_eq!((v.x, v.y, v.z), (5, 5, 0));
    }
}
