//! Collider synthesizer: derives a triangle-soup collision shape from a
//! stroke mesh, one-to-one. Each mesh vertex is projected to the plane by
//! dropping its z component; the triangle index list is kept as it is, so the
//! physical shape matches the rendered shape exactly.

use vstd::prelude::*;

use crate::tessellate::StrokeMesh;
use crate::tessellate::Tri;

verus! {

/// A planar vertex of a collision shape.
#[derive(Clone, Copy, Debug, PartialEq, Eq, Structural)]
pub struct PlanarVertex {
    pub x: i64,
    pub y: i64,
}

/// An immutable triangle-mesh collision shape.
#[derive(Debug)]
pub struct CollisionShape {
    pub vertices: Vec<PlanarVertex>,
    pub triangles: Vec<Tri>,
}

/// The collision shape is the planar projection of the mesh: the same
/// vertices with z dropped, and exactly the same triangle list.
pub open spec fn collider_matches(mesh: StrokeMesh, c: CollisionShape) -> bool {
    &&& c.vertices@.len() == mesh.vertices@.len()
    &&& forall|i: int|
        0 <= i < c.vertices@.len() ==> (#[trigger] c.vertices@[i]).x == mesh.vertices@[i].x
            && c.vertices@[i].y == mesh.vertices@[i].y
    &&& c.triangles@ == mesh.triangles@
}

/// Largest x coordinate among a nonempty vertex sequence.
pub open spec fn seq_max_x(vs: Seq<PlanarVertex>) -> int
    decreases vs.len(),
{
    if vs.len() <= 1 {
        vs[0].x as int
    } else {
        let rest = seq_max_x(vs.drop_last());
        if vs.last().x > rest {
            vs.last().x as int
        } else {
            rest
        }
    }
}

/// Derives the collision shape of a stroke mesh. An empty mesh yields no
/// collider; the caller skips collider attachment in that case.
pub fn create_trimesh_collider_from(mesh: &StrokeMesh) -> (r: Option<CollisionShape>)
    ensures
        mesh.vertices@.len() == 0 ==> r is None,
        mesh.vertices@.len() > 0 ==> (r matches Some(c) && collider_matches(*mesh, c)),
{
    if mesh.vertices.len() == 0 {
        return None;
    }
    let mut vertices: Vec<PlanarVertex> = Vec::new();
    let mut i: usize = 0;
    while i < mesh.vertices.len()
        invariant
            i <= mesh.vertices@.len(),
            vertices@.len() == i,
            forall|k: int|
                0 <= k < i ==> (#[trigger] vertices@[k]).x == mesh.vertices@[k].x
                    && vertices@[k].y == mesh.vertices@[k].y,
        decreases mesh.vertices@.len() - i,
    {
        let v = mesh.vertices[i];
        vertices.push(PlanarVertex { x: v.x, y: v.y });
        i = i + 1;
    }
    let mut triangles: Vec<Tri> = Vec::new();
    let mut t: usize = 0;
    while t < mesh.triangles.len()
        invariant
            t <= mesh.triangles@.len(),
            triangles@.len() == t,
            forall|k: int| 0 <= k < t ==> #[trigger] triangles@[k] == mesh.triangles@[k],
        decreases mesh.triangles@.len() - t,
    {
        triangles.push(mesh.triangles[t]);
        t = t + 1;
    }
    proof {
        assert(triangles@ =~= mesh.triangles@);
    }
    Some(CollisionShape { vertices, triangles })
}

impl CollisionShape {
    /// The right edge of the shape's axis-aligned bounding box in its local
    /// frame: the largest x coordinate among its vertices.
    pub fn max_x(&self) -> (r: i64)
        requires
            self.vertices@.len() > 0,
        ensures
            r as int == seq_max_x(self.vertices@),
            forall|i: int|
                0 <= i < self.vertices@.len() ==> (#[trigger] self.vertices@[i]).x <= r,
            exists|i: int| 0 <= i < self.vertices@.len() && (#[trigger] self.vertices@[i]).x == r,
    {
        let mut r = self.vertices[0].x;
        let mut i: usize = 1;
        while i < self.vertices.len()
            invariant
                1 <= i <= self.vertices@.len(),
                self.vertices@.len() > 0,
                r as int == seq_max_x(self.vertices@.take(i as int)),
                forall|k: int| 0 <= k < i ==> (#[trigger] self.vertices@[k]).x <= r,
                exists|k: int| 0 <= k < i && (#[trigger] self.vertices@[k]).x == r,
            decreases self.vertices@.len() - i,
        {
            proof {
                assert(self.vertices@.take(i + 1).drop_last() =~= self.vertices@.take(i as int));
                assert(self.vertices@.take(i + 1).last() == self.vertices@[i as int]);
            }
            let v = self.vertices[i];
            if v.x > r {
                r = v.x;
            }
            i = i + 1;
        }
        proof {
            assert(self.vertices@.take(self.vertices@.len() as int) =~= self.vertices@);
        }
        r
    }
}

} // verus!
