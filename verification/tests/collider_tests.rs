use ramp_ball::collider::create_trimesh_collider_from;
use ramp_ball::collider::CollisionShape;
use ramp_ball::collider::PlanarVertex;
use ramp_ball::tessellate::create_smooth_spline_mesh_from;
use ramp_ball::tessellate::ControlPoint;
use ramp_ball::tessellate::MeshVertex;
use ramp_ball::tessellate::StrokeMesh;
use ramp_ball::tessellate::Tri;

#[test]
fn collider_projects_every_vertex_and_keeps_every_triangle() {
    let mut points = Vec::new();
    points.push(ControlPoint { x: 0, y: 0 });
    points.push(ControlPoint { x: 200, y: 50 });
    points.push(ControlPoint { x: 600, y: -100 });
    points.push(ControlPoint { x: 1200, y: 100 });
    let mesh = create_smooth_spline_mesh_from(&points);
    let collider = create_trimesh_collider_from(&mesh).expect("nonempty mesh needs a collider");
    assert_eq!(collider.vertices.len(), mesh.vertices.len());
    assert_eq!(collider.triangles.len(), mesh.triangles.len());
    for i in 0..mesh.vertices.len() {
        assert_eq!(collider.vertices[i].x, mesh.vertices[i].x);
        assert_eq!(collider.vertices[i].y, mesh.vertices[i].y);
    }
    for t in 0..mesh.triangles.len() {
        assert_eq!(collider.triangles[t], mesh.triangles[t]);
    }
}

#[test]
fn empty_mesh_has_no_collider() {
    let mesh = StrokeMesh { vertices: Vec::new(), triangles: Vec::new() };
    assert!(create_trimesh_collider_from(&mesh).is_none());
}

#[test]
fn collider_drops_the_z_component() {
    let mesh = StrokeMesh {
        vertices: vec![
            MeshVertex { x: 3, y: -4, z: 0 },
            MeshVertex { x: 7, y: 2, z: 0 },
            MeshVertex { x: -1, y: 9, z: 0 },
        ],
        triangles: vec![Tri { a: 0, b: 1, c: 2 }],
    };
    let collider = create_trimesh_collider_from(&mesh).unwrap();
    assert_eq!(collider.vertices[0], PlanarVertex { x: 3, y: -4 });
    assert_eq!(collider.vertices[1], PlanarVertex { x: 7, y: 2 });
    assert_eq!(collider.vertices[2], PlanarVertex { x: -1, y: 9 });
}

#[test]
fn max_x_finds_the_bounding_box_right_edge() {
    let shape = CollisionShape {
        vertices: vec![
            PlanarVertex { x: -5, y: 0 },
            PlanarVertex { x: 10, y: 3 },
            PlanarVertex { x: 2, y: 8 },
        ],
        triangles: vec![Tri { a: 0, b: 1, c: 2 }],
    };
    assert_eq!(shape.max_x(), 10);
}

#[test]
fn max_x_of_a_single_vertex() {
    let shape = CollisionShape {
        vertices: vec![PlanarVertex { x: -17, y: 4 }],
        triangles: Vec::new(),
    };
    assert_eq!(shape.max_x(), -17);
}
