use vstd::prelude::*;

use crate::math::{Vector3, SCALAR_NEG_ONE, SCALAR_ONE, SCALAR_ZERO};

verus! {

/// Lateral segments of a cylinder's wall and caps; fixed, not caller-chosen.
pub const CYLINDER_SEGMENTS: usize = 32;

/// Longitude lines of a sphere; fixed, not caller-chosen.
pub const SPHERE_SECTORS: usize = 32;

/// Latitude bands of a sphere; fixed, not caller-chosen.
pub const SPHERE_STACKS: usize = 16;

/// Triangulated surface geometry: vertex positions, per-vertex normals and a
/// triangle index list. Coordinates are opaque 32-bit scalar bit patterns,
/// three consecutive entries per vertex.
#[derive(Debug, Clone)]
pub struct Mesh {
    pub vertices: Vec<u32>,
    pub normals: Vec<u32>,
    pub indices: Vec<u32>,
}

/// The vertex triple starting at entry `3 * v` of a coordinate buffer.
pub open spec fn vertex_at(buf: Seq<u32>, v: int) -> Vector3 {
    Vector3 { x: buf[3 * v], y: buf[3 * v + 1], z: buf[3 * v + 2] }
}

/// The index triple of triangle `t` of an index buffer.
pub open spec fn triangle_at(idx: Seq<u32>, t: int) -> (int, int, int) {
    (idx[3 * t] as int, idx[3 * t + 1] as int, idx[3 * t + 2] as int)
}

/// The interleaved form of a pair of coordinate buffers: position and normal
/// alternate per vertex, `[x, y, z, nx, ny, nz, ...]`.
pub open spec fn interleave(v: Seq<u32>, n: Seq<u32>) -> Seq<u32> {
    Seq::new(
        2 * v.len(),
        |k: int| if k % 6 < 3 { v[3 * (k / 6) + k % 6] } else { n[3 * (k / 6) + k % 6 - 3] },
    )
}

/// The position entries of an interleaved buffer.
pub open spec fn deinterleave_vertices(buf: Seq<u32>) -> Seq<u32> {
    Seq::new(buf.len() / 2, |k: int| buf[6 * (k / 3) + k % 3])
}

/// The normal entries of an interleaved buffer.
pub open spec fn deinterleave_normals(buf: Seq<u32>) -> Seq<u32> {
    Seq::new(buf.len() / 2, |k: int| buf[6 * (k / 3) + k % 3 + 3])
}

/// De-interleaving an interleaved buffer recovers both coordinate buffers
/// exactly.
pub proof fn lemma_interleave_round_trip(v: Seq<u32>, n: Seq<u32>)
    requires
        v.len() % 3 == 0,
        n.len() == v.len(),
    ensures
        deinterleave_vertices(interleave(v, n)) == v,
        deinterleave_normals(interleave(v, n)) == n,
{
    let buf = interleave(v, n);
    assert forall|k: int| 0 <= k < v.len() implies deinterleave_vertices(buf)[k] == v[k] by {
        let p = 6 * (k / 3) + k % 3;
        assert(p % 6 == k % 3 && p / 6 == k / 3) by (nonlinear_arith)
            requires
                p == 6 * (k / 3) + k % 3,
                0 <= k,
        ;
        assert(3 * (p / 6) + p % 6 == k) by (nonlinear_arith)
            requires
                p / 6 == k / 3,
                p % 6 == k % 3,
                0 <= k,
        ;
        assert(p < 2 * v.len()) by (nonlinear_arith)
            requires
                p == 6 * (k / 3) + k % 3,
                0 <= k < v.len(),
        ;
    }
    assert(deinterleave_vertices(buf) =~= v);
    assert forall|k: int| 0 <= k < n.len() implies deinterleave_normals(buf)[k] == n[k] by {
        let p = 6 * (k / 3) + k % 3 + 3;
        assert(p % 6 == k % 3 + 3 && p / 6 == k / 3) by (nonlinear_arith)
            requires
                p == 6 * (k / 3) + k % 3 + 3,
                0 <= k,
        ;
        assert(3 * (p / 6) + p % 6 - 3 == k) by (nonlinear_arith)
            requires
                p / 6 == k / 3,
                p % 6 == k % 3 + 3,
                0 <= k,
        ;
        assert(p < 2 * n.len()) by (nonlinear_arith)
            requires
                p == 6 * (k / 3) + k % 3 + 3,
                0 <= k < n.len(),
                n.len() % 3 == 0,
        ;
    }
    assert(deinterleave_normals(buf) =~= n);
}

impl Mesh {
    /// The mesh invariant: positions and normals pair up one to one, both
    /// buffers hold whole vertices, the index buffer holds whole triangles,
    /// and every index names a vertex of this mesh.
    pub open spec fn wf(&self) -> bool {
        &&& self.vertices@.len() % 3 == 0
        &&& self.normals@.len() == self.vertices@.len()
        &&& self.indices@.len() % 3 == 0
        &&& forall|k: int|
            0 <= k < self.indices@.len() ==> (self.indices@[k] as int) < self.vertices@.len() / 3
    }

    /// An empty mesh.
    pub fn new() -> (r: Mesh)
        ensures
            r.vertices@ == Seq::<u32>::empty(),
            r.normals@ == Seq::<u32>::empty(),
            r.indices@ == Seq::<u32>::empty(),
            r.wf(),
    {
        Mesh { vertices: Vec::new(), normals: Vec::new(), indices: Vec::new() }
    }

    /// The flat buffer a renderer consumes: position and normal interleaved
    /// per vertex, `[x, y, z, nx, ny, nz, ...]`.
    pub fn to_interleaved_buffer(&self) -> (r: Vec<u32>)
        requires
            self.vertices@.len() % 3 == 0,
            self.normals@.len() == self.vertices@.len(),
        ensures
            r@ == interleave(self.vertices@, self.normals@),
            r@.len() == 2 * self.vertices@.len(),
    {
        let total = self.vertices.len();
        let count = total / 3;
        let mut buffer: Vec<u32> = Vec::new();
        let mut i: usize = 0;
        while i < count
            invariant
                self.vertices@.len() % 3 == 0,
                self.normals@.len() == self.vertices@.len(),
                total == self.vertices@.len(),
                count == total / 3,
                i <= count,
                buffer@.len() == 6 * i,
                forall|k: int| 0 <= k < 6 * i ==> buffer@[k] == interleave(
                    self.vertices@,
                    self.normals@,
                )[k],
            decreases count - i,
        {
            proof {
                assert(3 * (i as int) + 2 < total) by (nonlinear_arith)
                    requires
                        0 <= i < count,
                        count == total / 3,
                        total % 3 == 0,
                ;
            }
            buffer.push(self.vertices[3 * i]);
            buffer.push(self.vertices[3 * i + 1]);
            buffer.push(self.vertices[3 * i + 2]);
            buffer.push(self.normals[3 * i]);
            buffer.push(self.normals[3 * i + 1]);
            buffer.push(self.normals[3 * i + 2]);
            proof {
                assert forall|k: int| 6 * i <= k < 6 * (i + 1) implies buffer@[k] == interleave(
                    self.vertices@,
                    self.normals@,
                )[k] by {
                    assert(k / 6 == i && (k % 6) == k - 6 * i) by (nonlinear_arith)
                        requires
                            6 * i <= k < 6 * (i + 1),
                            0 <= i,
                    ;
                }
            }
            i += 1;
        }
        proof {
            assert(2 * self.vertices@.len() == 6 * (count as int)) by (nonlinear_arith)
                requires
                    self.vertices@.len() % 3 == 0,
                    count == self.vertices@.len() / 3,
            ;
            assert(buffer@ =~= interleave(self.vertices@, self.normals@));
        }
        buffer
    }
}

/// The six face planes of an axis-aligned box, as scalar bit patterns. A host
/// generating a box of dimensions `(length, width, height)` centred at the
/// origin passes `±length/2` for x, `±width/2` for y and `±height/2` for z.
#[derive(Clone, Copy, Debug, PartialEq, Eq, Structural)]
pub struct BoxExtents {
    pub x_neg: u32,
    pub x_pos: u32,
    pub y_neg: u32,
    pub y_pos: u32,
    pub z_neg: u32,
    pub z_pos: u32,
}

/// Corner `v` of a box mesh: four corners per face, six faces, no vertex
/// shared across faces. Face order: +Z, -Z, +Y, -Y, +X, -X.
pub open spec fn box_corner(e: BoxExtents, v: int) -> Vector3 {
    if v == 0 { Vector3 { x: e.x_neg, y: e.y_neg, z: e.z_pos } }
    else if v == 1 { Vector3 { x: e.x_pos, y: e.y_neg, z: e.z_pos } }
    else if v == 2 { Vector3 { x: e.x_pos, y: e.y_pos, z: e.z_pos } }
    else if v == 3 { Vector3 { x: e.x_neg, y: e.y_pos, z: e.z_pos } }
    else if v == 4 { Vector3 { x: e.x_pos, y: e.y_neg, z: e.z_neg } }
    else if v == 5 { Vector3 { x: e.x_neg, y: e.y_neg, z: e.z_neg } }
    else if v == 6 { Vector3 { x: e.x_neg, y: e.y_pos, z: e.z_neg } }
    else if v == 7 { Vector3 { x: e.x_pos, y: e.y_pos, z: e.z_neg } }
    else if v == 8 { Vector3 { x: e.x_neg, y: e.y_pos, z: e.z_pos } }
    else if v == 9 { Vector3 { x: e.x_pos, y: e.y_pos, z: e.z_pos } }
    else if v == 10 { Vector3 { x: e.x_pos, y: e.y_pos, z: e.z_neg } }
    else if v == 11 { Vector3 { x: e.x_neg, y: e.y_pos, z: e.z_neg } }
    else if v == 12 { Vector3 { x: e.x_neg, y: e.y_neg, z: e.z_neg } }
    else if v == 13 { Vector3 { x: e.x_pos, y: e.y_neg, z: e.z_neg } }
    else if v == 14 { Vector3 { x: e.x_pos, y: e.y_neg, z: e.z_pos } }
    else if v == 15 { Vector3 { x: e.x_neg, y: e.y_neg, z: e.z_pos } }
    else if v == 16 { Vector3 { x: e.x_pos, y: e.y_neg, z: e.z_pos } }
    else if v == 17 { Vector3 { x: e.x_pos, y: e.y_neg, z: e.z_neg } }
    else if v == 18 { Vector3 { x: e.x_pos, y: e.y_pos, z: e.z_neg } }
    else if v == 19 { Vector3 { x: e.x_pos, y: e.y_pos, z: e.z_pos } }
    else if v == 20 { Vector3 { x: e.x_neg, y: e.y_neg, z: e.z_neg } }
    else if v == 21 { Vector3 { x: e.x_neg, y: e.y_neg, z: e.z_pos } }
    else if v == 22 { Vector3 { x: e.x_neg, y: e.y_pos, z: e.z_pos } }
    else { Vector3 { x: e.x_neg, y: e.y_pos, z: e.z_neg } }
}

/// The outward unit normal of box face `f`, axis-aligned: +Z, -Z, +Y, -Y,
/// +X, -X in face order.
pub open spec fn box_face_normal(f: int) -> Vector3 {
    if f == 0 { Vector3 { x: SCALAR_ZERO, y: SCALAR_ZERO, z: SCALAR_ONE } }
    else if f == 1 { Vector3 { x: SCALAR_ZERO, y: SCALAR_ZERO, z: SCALAR_NEG_ONE } }
    else if f == 2 { Vector3 { x: SCALAR_ZERO, y: SCALAR_ONE, z: SCALAR_ZERO } }
    else if f == 3 { Vector3 { x: SCALAR_ZERO, y: SCALAR_NEG_ONE, z: SCALAR_ZERO } }
    else if f == 4 { Vector3 { x: SCALAR_ONE, y: SCALAR_ZERO, z: SCALAR_ZERO } }
    else { Vector3 { x: SCALAR_NEG_ONE, y: SCALAR_ZERO, z: SCALAR_ZERO } }
}

/// Triangle `t` of a box mesh: two triangles per face over that face's four
/// corners, wound counter-clockwise seen from outside.
pub open spec fn box_triangle(t: int) -> (int, int, int) {
    let b = 4 * (t / 2);
    if t % 2 == 0 { (b, b + 1, b + 2) } else { (b, b + 2, b + 3) }
}

/// What `generate_box_mesh` yields: exactly 24 vertices (four per face, so
/// each face keeps one flat normal), 36 indices, every corner and normal and
/// triangle pinned down.
pub open spec fn is_box_mesh(m: Mesh, e: BoxExtents) -> bool {
    &&& m.vertices@.len() == 72
    &&& m.normals@.len() == 72
    &&& m.indices@.len() == 36
    &&& forall|v: int|
        #![trigger vertex_at(m.vertices@, v)]
        #![trigger box_corner(e, v)]
        0 <= v < 24 ==> vertex_at(m.vertices@, v) == box_corner(e, v)
    &&& forall|v: int|
        #![trigger vertex_at(m.normals@, v)]
        0 <= v < 24 ==> vertex_at(m.normals@, v) == box_face_normal(v / 4)
    &&& forall|t: int|
        #![trigger triangle_at(m.indices@, t)]
        #![trigger box_triangle(t)]
        0 <= t < 12 ==> triangle_at(m.indices@, t) == box_triangle(t)
    &&& m.wf()
}

/// Append one vertex triple to a coordinate buffer.
fn push_vec3(buf: &mut Vec<u32>, p: Vector3)
    ensures
        final(buf)@ == old(buf)@ + seq![p.x, p.y, p.z],
{
    buf.push(p.x);
    buf.push(p.y);
    buf.push(p.z);
}

/// Append one quad: four corners sharing one normal, split into two
/// counter-clockwise triangles based at vertex `base`.
fn push_quad(
    vertices: &mut Vec<u32>,
    normals: &mut Vec<u32>,
    indices: &mut Vec<u32>,
    c0: Vector3,
    c1: Vector3,
    c2: Vector3,
    c3: Vector3,
    n: Vector3,
    base: u32,
)
    requires
        base <= 0xFFFF_FFFC,
    ensures
        final(vertices)@ == old(vertices)@ + seq![
            c0.x, c0.y, c0.z, c1.x, c1.y, c1.z, c2.x, c2.y, c2.z, c3.x, c3.y, c3.z,
        ],
        final(normals)@ == old(normals)@ + seq![
            n.x, n.y, n.z, n.x, n.y, n.z, n.x, n.y, n.z, n.x, n.y, n.z,
        ],
        final(indices)@ == old(indices)@ + seq![
            base, (base + 1) as u32, (base + 2) as u32, base, (base + 2) as u32, (base
                + 3) as u32,
        ],
{
    push_vec3(vertices, c0);
    push_vec3(vertices, c1);
    push_vec3(vertices, c2);
    push_vec3(vertices, c3);
    push_vec3(normals, n);
    push_vec3(normals, n);
    push_vec3(normals, n);
    push_vec3(normals, n);
    indices.push(base);
    indices.push(base + 1);
    indices.push(base + 2);
    indices.push(base);
    indices.push(base + 2);
    indices.push(base + 3);
    proof {
        assert(final(vertices)@ =~= old(vertices)@ + seq![
            c0.x, c0.y, c0.z, c1.x, c1.y, c1.z, c2.x, c2.y, c2.z, c3.x, c3.y, c3.z,
        ]);
        assert(final(normals)@ =~= old(normals)@ + seq![
            n.x, n.y, n.z, n.x, n.y, n.z, n.x, n.y, n.z, n.x, n.y, n.z,
        ]);
        assert(final(indices)@ =~= old(indices)@ + seq![
            base, (base + 1) as u32, (base + 2) as u32, base, (base + 2) as u32, (base
                + 3) as u32,
        ]);
    }
}

/// Generate the box mesh over the given face planes: six flat-shaded faces,
/// two counter-clockwise triangles each.
pub fn generate_box_mesh(e: &BoxExtents) -> (r: Mesh)
    ensures
        is_box_mesh(r, *e),
{
    let mut vertices: Vec<u32> = Vec::new();
    let mut normals: Vec<u32> = Vec::new();
    let mut indices: Vec<u32> = Vec::new();

    // +Z face
    push_quad(
        &mut vertices, &mut normals, &mut indices,
        Vector3 { x: e.x_neg, y: e.y_neg, z: e.z_pos },
        Vector3 { x: e.x_pos, y: e.y_neg, z: e.z_pos },
        Vector3 { x: e.x_pos, y: e.y_pos, z: e.z_pos },
        Vector3 { x: e.x_neg, y: e.y_pos, z: e.z_pos },
        Vector3 { x: SCALAR_ZERO, y: SCALAR_ZERO, z: SCALAR_ONE },
        0,
    );
    // -Z face
    push_quad(
        &mut vertices, &mut normals, &mut indices,
        Vector3 { x: e.x_pos, y: e.y_neg, z: e.z_neg },
        Vector3 { x: e.x_neg, y: e.y_neg, z: e.z_neg },
        Vector3 { x: e.x_neg, y: e.y_pos, z: e.z_neg },
        Vector3 { x: e.x_pos, y: e.y_pos, z: e.z_neg },
        Vector3 { x: SCALAR_ZERO, y: SCALAR_ZERO, z: SCALAR_NEG_ONE },
        4,
    );
    // +Y face
    push_quad(
        &mut vertices, &mut normals, &mut indices,
        Vector3 { x: e.x_neg, y: e.y_pos, z: e.z_pos },
        Vector3 { x: e.x_pos, y: e.y_pos, z: e.z_pos },
        Vector3 { x: e.x_pos, y: e.y_pos, z: e.z_neg },
        Vector3 { x: e.x_neg, y: e.y_pos, z: e.z_neg },
        Vector3 { x: SCALAR_ZERO, y: SCALAR_ONE, z: SCALAR_ZERO },
        8,
    );
    // -Y face
    push_quad(
        &mut vertices, &mut normals, &mut indices,
        Vector3 { x: e.x_neg, y: e.y_neg, z: e.z_neg },
        Vector3 { x: e.x_pos, y: e.y_neg, z: e.z_neg },
        Vector3 { x: e.x_pos, y: e.y_neg, z: e.z_pos },
        Vector3 { x: e.x_neg, y: e.y_neg, z: e.z_pos },
        Vector3 { x: SCALAR_ZERO, y: SCALAR_NEG_ONE, z: SCALAR_ZERO },
        12,
    );
    // +X face
    push_quad(
        &mut vertices, &mut normals, &mut indices,
        Vector3 { x: e.x_pos, y: e.y_neg, z: e.z_pos },
        Vector3 { x: e.x_pos, y: e.y_neg, z: e.z_neg },
        Vector3 { x: e.x_pos, y: e.y_pos, z: e.z_neg },
        Vector3 { x: e.x_pos, y: e.y_pos, z: e.z_pos },
        Vector3 { x: SCALAR_ONE, y: SCALAR_ZERO, z: SCALAR_ZERO },
        16,
    );
    // -X face
    push_quad(
        &mut vertices, &mut normals, &mut indices,
        Vector3 { x: e.x_neg, y: e.y_neg, z: e.z_neg },
        Vector3 { x: e.x_neg, y: e.y_neg, z: e.z_pos },
        Vector3 { x: e.x_neg, y: e.y_pos, z: e.z_pos },
        Vector3 { x: e.x_neg, y: e.y_pos, z: e.z_neg },
        Vector3 { x: SCALAR_NEG_ONE, y: SCALAR_ZERO, z: SCALAR_ZERO },
        20,
    );

    let r = Mesh { vertices, normals, indices };
    proof {
        assert forall|v: int| 0 <= v < 24 implies vertex_at(r.vertices@, v) == box_corner(*e, v) by {
        }
        assert forall|v: int| 0 <= v < 24 implies vertex_at(r.normals@, v) == box_face_normal(
            v / 4,
        ) by {
        }
        assert forall|t: int| 0 <= t < 12 implies triangle_at(r.indices@, t) == box_triangle(t) by {
        }
    }
    r
}

/// One point of the cylinder's rim circle: `x = radius·cos θ`,
/// `z = radius·sin θ`, and the lateral wall normal `(cos θ, 0, sin θ)`.
#[derive(Clone, Copy, Debug, PartialEq, Eq, Structural)]
pub struct RingPoint {
    pub x: u32,
    pub z: u32,
    pub nx: u32,
    pub nz: u32,
}

/// The scalar table a cylinder generator consumes: the two cap heights
/// `±height/2` and one rim point per angle. The rim closes its loop by
/// repeating the first angle at the last entry, so it holds
/// `CYLINDER_SEGMENTS + 1` points.
#[derive(Clone, Debug)]
pub struct CylinderScalars {
    pub y_top: u32,
    pub y_bottom: u32,
    pub rim: Vec<RingPoint>,
}

impl CylinderScalars {
    /// The rim holds one point per angle, loop closed.
    pub open spec fn wf(&self) -> bool {
        self.rim@.len() == CYLINDER_SEGMENTS + 1
    }
}

/// Vertex `v` of a cylinder mesh: the top cap's centre and rim, the bottom
/// cap's centre and rim, then the side wall's rim pairs (top, bottom).
pub open spec fn cylinder_vertex(s: CylinderScalars, v: int) -> Vector3 {
    if v == 0 {
        Vector3 { x: SCALAR_ZERO, y: s.y_top, z: SCALAR_ZERO }
    } else if v <= 33 {
        Vector3 { x: s.rim@[v - 1].x, y: s.y_top, z: s.rim@[v - 1].z }
    } else if v == 34 {
        Vector3 { x: SCALAR_ZERO, y: s.y_bottom, z: SCALAR_ZERO }
    } else if v <= 67 {
        Vector3 { x: s.rim@[v - 35].x, y: s.y_bottom, z: s.rim@[v - 35].z }
    } else if (v - 68) % 2 == 0 {
        Vector3 { x: s.rim@[(v - 68) / 2].x, y: s.y_top, z: s.rim@[(v - 68) / 2].z }
    } else {
        Vector3 { x: s.rim@[(v - 68) / 2].x, y: s.y_bottom, z: s.rim@[(v - 68) / 2].z }
    }
}

/// Normal of vertex `v` of a cylinder mesh: straight up on the top cap,
/// straight down on the bottom cap, lateral on the side wall.
pub open spec fn cylinder_normal(s: CylinderScalars, v: int) -> Vector3 {
    if v <= 33 {
        Vector3 { x: SCALAR_ZERO, y: SCALAR_ONE, z: SCALAR_ZERO }
    } else if v <= 67 {
        Vector3 { x: SCALAR_ZERO, y: SCALAR_NEG_ONE, z: SCALAR_ZERO }
    } else {
        Vector3 { x: s.rim@[(v - 68) / 2].nx, y: SCALAR_ZERO, z: s.rim@[(v - 68) / 2].nz }
    }
}

/// Triangle `t` of a cylinder mesh: a fan over each cap (the two caps wound
/// oppositely, so both face outward), then two triangles per side quad.
pub open spec fn cylinder_triangle(t: int) -> (int, int, int) {
    if t < 32 {
        (0, t + 2, t + 1)
    } else if t < 64 {
        (34, t + 3, t + 4)
    } else {
        let base = 68 + 2 * ((t - 64) / 2);
        if (t - 64) % 2 == 0 {
            (base, base + 3, base + 1)
        } else {
            (base, base + 2, base + 3)
        }
    }
}

/// What `generate_cylinder_mesh` yields: `1 + 33` vertices per cap and
/// `2·33` on the side wall (134 in all), and `32 + 32 + 64` triangles
/// (384 indices), every vertex, normal and triangle pinned down.
pub open spec fn is_cylinder_mesh(m: Mesh, s: CylinderScalars) -> bool {
    &&& m.vertices@.len() == 402
    &&& m.normals@.len() == 402
    &&& m.indices@.len() == 384
    &&& forall|v: int|
        #![trigger vertex_at(m.vertices@, v)]
        #![trigger cylinder_vertex(s, v)]
        0 <= v < 134 ==> vertex_at(m.vertices@, v) == cylinder_vertex(s, v)
    &&& forall|v: int|
        #![trigger vertex_at(m.normals@, v)]
        #![trigger cylinder_normal(s, v)]
        0 <= v < 134 ==> vertex_at(m.normals@, v) == cylinder_normal(s, v)
    &&& forall|t: int|
        #![trigger triangle_at(m.indices@, t)]
        #![trigger cylinder_triangle(t)]
        0 <= t < 128 ==> triangle_at(m.indices@, t) == cylinder_triangle(t)
    &&& m.wf()
}

/// Generate the cylinder mesh over the given scalar table: smooth-shaded
/// side walls, flat caps fanned from their centres.
pub fn generate_cylinder_mesh(s: &CylinderScalars) -> (r: Mesh)
    requires
        s.wf(),
    ensures
        is_cylinder_mesh(r, *s),
{
    let mut vertices: Vec<u32> = Vec::new();
    let mut normals: Vec<u32> = Vec::new();
    let mut indices: Vec<u32> = Vec::new();

    // Top cap: centre, then the rim at the top height.
    push_vec3(&mut vertices, Vector3 { x: SCALAR_ZERO, y: s.y_top, z: SCALAR_ZERO });
    push_vec3(&mut normals, Vector3 { x: SCALAR_ZERO, y: SCALAR_ONE, z: SCALAR_ZERO });
    let mut i: usize = 0;
    while i < 33
        invariant
            s.wf(),
            i <= 33,
            vertices@.len() == 3 * (1 + i),
            normals@.len() == vertices@.len(),
            forall|v: int| 0 <= v < 1 + i ==> vertex_at(vertices@, v) == #[trigger] cylinder_vertex(*s, v),
            forall|v: int| 0 <= v < 1 + i ==> vertex_at(normals@, v) == #[trigger] cylinder_normal(*s, v),
        decreases 33 - i,
    {
        let p = s.rim[i];
        push_vec3(&mut vertices, Vector3 { x: p.x, y: s.y_top, z: p.z });
        push_vec3(&mut normals, Vector3 { x: SCALAR_ZERO, y: SCALAR_ONE, z: SCALAR_ZERO });
        i += 1;
    }

    // Bottom cap: centre, then the rim at the bottom height.
    push_vec3(&mut vertices, Vector3 { x: SCALAR_ZERO, y: s.y_bottom, z: SCALAR_ZERO });
    push_vec3(&mut normals, Vector3 { x: SCALAR_ZERO, y: SCALAR_NEG_ONE, z: SCALAR_ZERO });
    i = 0;
    while i < 33
        invariant
            s.wf(),
            i <= 33,
            vertices@.len() == 3 * (35 + i),
            normals@.len() == vertices@.len(),
            forall|v: int| 0 <= v < 35 + i ==> vertex_at(vertices@, v) == #[trigger] cylinder_vertex(*s, v),
            forall|v: int| 0 <= v < 35 + i ==> vertex_at(normals@, v) == #[trigger] cylinder_normal(*s, v),
        decreases 33 - i,
    {
        let p = s.rim[i];
        push_vec3(&mut vertices, Vector3 { x: p.x, y: s.y_bottom, z: p.z });
        push_vec3(&mut normals, Vector3 { x: SCALAR_ZERO, y: SCALAR_NEG_ONE, z: SCALAR_ZERO });
        i += 1;
    }

    // Side wall: one top and one bottom vertex per rim point, both carrying
    // the lateral normal.
    i = 0;
    while i < 33
        invariant
            s.wf(),
            i <= 33,
            vertices@.len() == 3 * (68 + 2 * i),
            normals@.len() == vertices@.len(),
            forall|v: int| 0 <= v < 68 + 2 * i ==> vertex_at(vertices@, v) == #[trigger] cylinder_vertex(*s, v),
            forall|v: int| 0 <= v < 68 + 2 * i ==> vertex_at(normals@, v) == #[trigger] cylinder_normal(*s, v),
        decreases 33 - i,
    {
        let p = s.rim[i];
        let side_n = Vector3 { x: p.nx, y: SCALAR_ZERO, z: p.nz };
        push_vec3(&mut vertices, Vector3 { x: p.x, y: s.y_top, z: p.z });
        push_vec3(&mut normals, side_n);
        push_vec3(&mut vertices, Vector3 { x: p.x, y: s.y_bottom, z: p.z });
        push_vec3(&mut normals, side_n);
        proof {
            let v0 = 68 + 2 * (i as int);
            assert((v0 - 68) % 2 == 0 && (v0 - 68) / 2 == i as int) by (nonlinear_arith)
                requires
                    v0 == 68 + 2 * (i as int),
                    0 <= i,
            ;
            assert((v0 + 1 - 68) % 2 == 1 && (v0 + 1 - 68) / 2 == i as int) by (nonlinear_arith)
                requires
                    v0 == 68 + 2 * (i as int),
                    0 <= i,
            ;
        }
        i += 1;
    }

    // Top fan: centre, next rim point, current rim point.
    i = 0;
    while i < 32
        invariant
            i <= 32,
            indices@.len() == 3 * i,
            forall|t: int| 0 <= t < i ==> triangle_at(indices@, t) == #[trigger] cylinder_triangle(t),
        decreases 32 - i,
    {
        indices.push(0);
        indices.push((i + 2) as u32);
        indices.push((i + 1) as u32);
        i += 1;
    }

    // Bottom fan: centre, current rim point, next rim point (the opposite
    // winding, so the cap faces down and out).
    i = 0;
    while i < 32
        invariant
            i <= 32,
            indices@.len() == 3 * (32 + i),
            forall|t: int| 0 <= t < 32 + i ==> triangle_at(indices@, t) == #[trigger] cylinder_triangle(t),
        decreases 32 - i,
    {
        indices.push(34);
        indices.push((35 + i) as u32);
        indices.push((36 + i) as u32);
        i += 1;
    }

    // Side quads: two triangles each, wound outward.
    i = 0;
    while i < 32
        invariant
            i <= 32,
            indices@.len() == 3 * (64 + 2 * i),
            forall|t: int| 0 <= t < 64 + 2 * i ==> triangle_at(indices@, t) == #[trigger] cylinder_triangle(t),
        decreases 32 - i,
    {
        let base = (68 + 2 * i) as u32;
        indices.push(base);
        indices.push(base + 3);
        indices.push(base + 1);
        indices.push(base);
        indices.push(base + 2);
        indices.push(base + 3);
        proof {
            let t0 = 64 + 2 * (i as int);
            assert((t0 - 64) % 2 == 0 && (t0 - 64) / 2 == i as int) by (nonlinear_arith)
                requires
                    t0 == 64 + 2 * (i as int),
                    0 <= i,
            ;
            assert((t0 + 1 - 64) % 2 == 1 && (t0 + 1 - 64) / 2 == i as int) by (nonlinear_arith)
                requires
                    t0 == 64 + 2 * (i as int),
                    0 <= i,
            ;
        }
        i += 1;
    }

    let r = Mesh { vertices, normals, indices };
    proof {
        assert forall|k: int| 0 <= k < r.indices@.len() implies (r.indices@[k] as int) < 134 by {
            let t = k / 3;
            assert(3 * t <= k < 3 * t + 3) by (nonlinear_arith)
                requires
                    t == k / 3,
                    0 <= k,
            ;
            assert(triangle_at(r.indices@, t) == cylinder_triangle(t));
        }
    }
    r
}

/// One grid point of a sphere at stack `i`, sector `j`: the position
/// components `x = r·cos φ·cos θ`, `y = r·cos φ·sin θ` and the matching unit
/// normal components `nx = x/r`, `ny = y/r`.
#[derive(Clone, Copy, Debug, PartialEq, Eq, Structural)]
pub struct SpherePoint {
    pub x: u32,
    pub y: u32,
    pub nx: u32,
    pub ny: u32,
}

/// One latitude row of a sphere's grid: the shared height `z = r·sin φ`, its
/// normal component `nz = z/r`, and one point per sector, loop closed by
/// repeating the first angle, so `SPHERE_SECTORS + 1` points.
#[derive(Clone, Debug)]
pub struct SphereRow {
    pub z: u32,
    pub nz: u32,
    pub points: Vec<SpherePoint>,
}

/// The scalar table a sphere generator consumes: one row per stack boundary,
/// `SPHERE_STACKS + 1` rows in all.
#[derive(Clone, Debug)]
pub struct SphereScalars {
    pub rows: Vec<SphereRow>,
}

impl SphereScalars {
    /// One row per stack boundary; one point per sector, loop closed.
    pub open spec fn wf(&self) -> bool {
        &&& self.rows@.len() == SPHERE_STACKS + 1
        &&& forall|i: int|
            0 <= i < self.rows@.len() ==> (#[trigger] self.rows@[i].points@).len()
                == SPHERE_SECTORS + 1
    }
}

/// Vertex `v` of a sphere mesh: the grid is laid out row-major, 33 vertices
/// per row, so `v` names stack `v / 33`, sector `v % 33`.
pub open spec fn sphere_vertex_flat(s: SphereScalars, v: int) -> Vector3 {
    Vector3 {
        x: s.rows@[v / 33].points@[v % 33].x,
        y: s.rows@[v / 33].points@[v % 33].y,
        z: s.rows@[v / 33].z,
    }
}

/// Normal of vertex `v` of a sphere mesh: the unit radial direction.
pub open spec fn sphere_normal_flat(s: SphereScalars, v: int) -> Vector3 {
    Vector3 {
        x: s.rows@[v / 33].points@[v % 33].nx,
        y: s.rows@[v / 33].points@[v % 33].ny,
        z: s.rows@[v / 33].nz,
    }
}

/// Triangle `t` of a sphere mesh. Each non-pole stack band contributes two
/// triangles per sector; the two pole bands contribute one per sector, since
/// one corner of their quads collapses to the pole.
pub open spec fn sphere_triangle(t: int) -> (int, int, int) {
    if t < 32 {
        (t + 1, 33 + t, 34 + t)
    } else if t < 928 {
        let i = 1 + (t - 32) / 64;
        let h = (t - 32) % 64;
        let j = h / 2;
        let k1 = 33 * i + j;
        let k2 = 33 * i + 33 + j;
        if h % 2 == 0 {
            (k1, k2, k1 + 1)
        } else {
            (k1 + 1, k2, k2 + 1)
        }
    } else {
        (495 + (t - 928), 528 + (t - 928), 496 + (t - 928))
    }
}

/// Triangles emitted before the band at stack `i` reaches sector `j`.
pub open spec fn sphere_tri_count(i: int, j: int) -> int {
    if i == 0 {
        j
    } else if i < 15 {
        32 + 64 * (i - 1) + 2 * j
    } else if i == 15 {
        928 + j
    } else {
        960
    }
}

/// What `generate_sphere_mesh` yields: a `17 × 33` vertex grid (1683 buffer
/// entries) and 960 triangles (2880 indices), every vertex, normal and
/// triangle pinned down.
pub open spec fn is_sphere_mesh(m: Mesh, s: SphereScalars) -> bool {
    &&& m.vertices@.len() == 1683
    &&& m.normals@.len() == 1683
    &&& m.indices@.len() == 2880
    &&& forall|v: int|
        #![trigger vertex_at(m.vertices@, v)]
        #![trigger sphere_vertex_flat(s, v)]
        0 <= v < 561 ==> vertex_at(m.vertices@, v) == sphere_vertex_flat(s, v)
    &&& forall|v: int|
        #![trigger vertex_at(m.normals@, v)]
        #![trigger sphere_normal_flat(s, v)]
        0 <= v < 561 ==> vertex_at(m.normals@, v) == sphere_normal_flat(s, v)
    &&& forall|t: int|
        #![trigger triangle_at(m.indices@, t)]
        #![trigger sphere_triangle(t)]
        0 <= t < 960 ==> triangle_at(m.indices@, t) == sphere_triangle(t)
    &&& m.wf()
}

/// Generate the sphere mesh over the given scalar table: a latitude/longitude
/// grid with radial normals, triangulated stack by stack, skipping the
/// degenerate triangle at each pole.
pub fn generate_sphere_mesh(s: &SphereScalars) -> (r: Mesh)
    requires
        s.wf(),
    ensures
        is_sphere_mesh(r, *s),
{
    let mut vertices: Vec<u32> = Vec::new();
    let mut normals: Vec<u32> = Vec::new();
    let mut indices: Vec<u32> = Vec::new();

    let mut i: usize = 0;
    while i < 17
        invariant
            s.wf(),
            i <= 17,
            vertices@.len() == 3 * (33 * i),
            normals@.len() == vertices@.len(),
            forall|v: int|
                0 <= v < 33 * i ==> vertex_at(vertices@, v) == #[trigger] sphere_vertex_flat(
                    *s,
                    v,
                ),
            forall|v: int|
                0 <= v < 33 * i ==> vertex_at(normals@, v) == #[trigger] sphere_normal_flat(*s, v),
        decreases 17 - i,
    {
        let mut j: usize = 0;
        while j < 33
            invariant
                s.wf(),
                i < 17,
                j <= 33,
                vertices@.len() == 3 * (33 * i + j),
                normals@.len() == vertices@.len(),
                forall|v: int|
                    0 <= v < 33 * i + j ==> vertex_at(vertices@, v)
                        == #[trigger] sphere_vertex_flat(*s, v),
                forall|v: int|
                    0 <= v < 33 * i + j ==> vertex_at(normals@, v)
                        == #[trigger] sphere_normal_flat(*s, v),
            decreases 33 - j,
        {
            let row = &s.rows[i];
            let p = row.points[j];
            push_vec3(&mut vertices, Vector3 { x: p.x, y: p.y, z: row.z });
            push_vec3(&mut normals, Vector3 { x: p.nx, y: p.ny, z: row.nz });
            proof {
                let v0 = 33 * (i as int) + j as int;
                assert(v0 / 33 == i as int && v0 % 33 == j as int) by (nonlinear_arith)
                    requires
                        v0 == 33 * (i as int) + j as int,
                        0 <= i,
                        0 <= j < 33,
                ;
            }
            j += 1;
        }
        i += 1;
    }

    i = 0;
    while i < 16
        invariant
            i <= 16,
            indices@.len() == 3 * sphere_tri_count(i as int, 0),
            forall|t: int|
                0 <= t < sphere_tri_count(i as int, 0) ==> triangle_at(indices@, t)
                    == #[trigger] sphere_triangle(t),
        decreases 16 - i,
    {
        let k1 = (33 * i) as u32;
        let k2 = k1 + 33;
        let mut j: usize = 0;
        while j < 32
            invariant
                i < 16,
                j <= 32,
                k1 == 33 * i,
                k2 == 33 * i + 33,
                indices@.len() == 3 * sphere_tri_count(i as int, j as int),
                forall|t: int|
                    0 <= t < sphere_tri_count(i as int, j as int) ==> triangle_at(indices@, t)
                        == #[trigger] sphere_triangle(t),
            decreases 32 - j,
        {
            let ji = j as u32;
            if i != 0 {
                indices.push(k1 + ji);
                indices.push(k2 + ji);
                indices.push(k1 + ji + 1);
                proof {
                    let p0 = sphere_tri_count(i as int, j as int);
                    if i < 15 {
                        assert((p0 - 32) / 64 == i as int - 1 && (p0 - 32) % 64 == 2 * (
                        j as int)) by (nonlinear_arith)
                            requires
                                p0 == 32 + 64 * (i as int - 1) + 2 * (j as int),
                                1 <= i as int,
                                (i as int) < 15,
                                j < 32,
                        ;
                        assert((2 * (j as int)) / 2 == j as int && (2 * (j as int)) % 2 == 0)
                            by (nonlinear_arith);
                    }
                }
            }
            if i != 15 {
                indices.push(k1 + ji + 1);
                indices.push(k2 + ji);
                indices.push(k2 + ji + 1);
                proof {
                    let p1 = sphere_tri_count(i as int, j as int) + if i as int == 0 {
                        0int
                    } else {
                        1int
                    };
                    if 0 < i {
                        assert((p1 - 32) / 64 == i as int - 1 && (p1 - 32) % 64 == 2 * (j as int)
                            + 1) by (nonlinear_arith)
                            requires
                                p1 == 32 + 64 * (i as int - 1) + 2 * (j as int) + 1,
                                1 <= i as int,
                                (i as int) < 15,
                                j < 32,
                        ;
                        assert((2 * (j as int) + 1) / 2 == j as int && (2 * (j as int) + 1) % 2
                            == 1) by (nonlinear_arith);
                    }
                }
            }
            j += 1;
        }
        i += 1;
    }

    let r = Mesh { vertices, normals, indices };
    proof {
        assert forall|k: int| 0 <= k < r.indices@.len() implies (r.indices@[k] as int) < 561 by {
            let t = k / 3;
            assert(3 * t <= k < 3 * t + 3) by (nonlinear_arith)
                requires
                    t == k / 3,
                    0 <= k,
            ;
            assert(triangle_at(r.indices@, t) == sphere_triangle(t));
            if 32 <= t < 928 {
                assert(1 <= 1 + (t - 32) / 64 <= 14 && 0 <= (t - 32) % 64 / 2 <= 31)
                    by (nonlinear_arith)
                    requires
                        32 <= t < 928,
                ;
            }
        }
    }
    r
}

impl CylinderScalars {
    /// Whether this table is well formed; hosts check before generating.
    pub fn check(&self) -> (r: bool)
        ensures
            r == self.wf(),
    {
        self.rim.len() == CYLINDER_SEGMENTS + 1
    }
}

impl SphereScalars {
    /// Whether this table is well formed; hosts check before generating.
    pub fn check(&self) -> (r: bool)
        ensures
            r == self.wf(),
    {
        if self.rows.len() != SPHERE_STACKS + 1 {
            return false;
        }
        let mut i: usize = 0;
        while i < self.rows.len()
            invariant
                i <= self.rows@.len(),
                forall|k: int|
                    0 <= k < i ==> (#[trigger] self.rows@[k].points@).len() == SPHERE_SECTORS + 1,
            decreases self.rows@.len() - i,
        {
            if self.rows[i].points.len() != SPHERE_SECTORS + 1 {
                return false;
            }
            i += 1;
        }
        true
    }
}

/// A normal that points straight along one coordinate axis.
pub open spec fn is_axis_unit_normal(n: Vector3) -> bool {
    ||| n == box_face_normal(0)
    ||| n == box_face_normal(1)
    ||| n == box_face_normal(2)
    ||| n == box_face_normal(3)
    ||| n == box_face_normal(4)
    ||| n == box_face_normal(5)
}

/// Box topology: whatever the face planes, a box mesh holds exactly 24
/// vertices and 24 normals (72 buffer entries each) and 36 indices, the four
/// normals of a face agree with one another, and every normal is an
/// axis-aligned unit normal.
pub proof fn lemma_box_topology(m: Mesh, e: BoxExtents)
    requires
        is_box_mesh(m, e),
    ensures
        m.vertices@.len() == 24 * 3,
        m.normals@.len() == 24 * 3,
        m.indices@.len() == 36,
        forall|v: int, w: int|
            0 <= v < 24 && 0 <= w < 24 && v / 4 == w / 4 ==> vertex_at(m.normals@, v) == vertex_at(
                m.normals@,
                w,
            ),
        forall|v: int| 0 <= v < 24 ==> is_axis_unit_normal(vertex_at(m.normals@, v)),
{
    assert forall|v: int| 0 <= v < 24 implies is_axis_unit_normal(vertex_at(m.normals@, v)) by {
        assert(vertex_at(m.normals@, v) == box_face_normal(v / 4));
        assert(0 <= v / 4 < 6);
    }
}

/// Cylinder topology: with the fixed 32 segments, a cylinder mesh holds
/// `1 + 33` vertices per cap and `2·33` side vertices, and
/// `3·32 + 3·32 + 6·32` indices.
pub proof fn lemma_cylinder_topology(m: Mesh, s: CylinderScalars)
    requires
        is_cylinder_mesh(m, s),
    ensures
        m.vertices@.len() / 3 == 1 + (32 + 1) + 1 + (32 + 1) + 2 * (32 + 1),
        m.normals@.len() == m.vertices@.len(),
        m.indices@.len() == 3 * 32 + 3 * 32 + 6 * 32,
{
}

/// Sphere topology: with the fixed 32 sectors and 16 stacks, a sphere mesh
/// holds `(16 + 1)·(32 + 1)` vertices and `2·32·(16 - 1)` triangles, the two
/// pole bands contributing one triangle per sector instead of two.
pub proof fn lemma_sphere_topology(m: Mesh, s: SphereScalars)
    requires
        is_sphere_mesh(m, s),
    ensures
        m.vertices@.len() / 3 == (16 + 1) * (32 + 1),
        m.normals@.len() == m.vertices@.len(),
        m.indices@.len() / 3 == 2 * 32 * (16 - 1),
{
    assert((16 + 1) * (32 + 1) == 561int) by (nonlinear_arith);
    assert(2 * 32 * (16 - 1) == 960int) by (nonlinear_arith);
}

impl Default for Mesh {
    /// The empty mesh.
    fn default() -> (r: Mesh)
        ensures
            r.vertices@ == Seq::<u32>::empty(),
            r.normals@ == Seq::<u32>::empty(),
            r.indices@ == Seq::<u32>::empty(),
            r.wf(),
    {
        Mesh::new()
    }
}

} // verus!
