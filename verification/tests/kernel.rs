use cad_kernel::document::{Dimension, Document};
use cad_kernel::geometry::{
    generate_box_mesh, generate_cylinder_mesh, generate_sphere_mesh, BoxExtents, CylinderScalars,
    Mesh, RingPoint, SpherePoint, SphereRow, SphereScalars,
};
use cad_kernel::math::{Placement, Quaternion, Vector3};
use cad_kernel::object::{Object, ShapeScalars, ShapeType};
use cad_kernel::property::Property;

fn dim(v: f64) -> Dimension {
    Dimension { bits32: (v as f32).to_bits(), bits64: v.to_bits() }
}

fn vec3(x: f32, y: f32, z: f32) -> Vector3 {
    Vector3 { x: x.to_bits(), y: y.to_bits(), z: z.to_bits() }
}

fn quat(x: f32, y: f32, z: f32, w: f32) -> Quaternion {
    Quaternion { x: x.to_bits(), y: y.to_bits(), z: z.to_bits(), w: w.to_bits() }
}

fn box_extents(length: f64, width: f64, height: f64) -> BoxExtents {
    let l = (length / 2.0) as f32;
    let w = (width / 2.0) as f32;
    let h = (height / 2.0) as f32;
    BoxExtents {
        x_neg: (-l).to_bits(),
        x_pos: l.to_bits(),
        y_neg: (-w).to_bits(),
        y_pos: w.to_bits(),
        z_neg: (-h).to_bits(),
        z_pos: h.to_bits(),
    }
}

fn cylinder_scalars(radius: f64, height: f64) -> CylinderScalars {
    let r = radius as f32;
    let h = (height / 2.0) as f32;
    let mut rim = Vec::new();
    for i in 0..=32u32 {
        let theta = (i as f32 / 32.0) * std::f32::consts::TAU;
        rim.push(RingPoint {
            x: (r * theta.cos()).to_bits(),
            z: (r * theta.sin()).to_bits(),
            nx: theta.cos().to_bits(),
            nz: theta.sin().to_bits(),
        });
    }
    CylinderScalars { y_top: h.to_bits(), y_bottom: (-h).to_bits(), rim }
}

fn sphere_scalars(radius: f64) -> SphereScalars {
    let r = radius as f32;
    let mut rows = Vec::new();
    for i in 0..=16u32 {
        let stack_angle = std::f32::consts::PI / 2.0 - (i as f32 / 16.0) * std::f32::consts::PI;
        let xy = r * stack_angle.cos();
        let z = r * stack_angle.sin();
        let mut points = Vec::new();
        for j in 0..=32u32 {
            let sector_angle = (j as f32 / 32.0) * std::f32::consts::TAU;
            let x = xy * sector_angle.cos();
            let y = xy * sector_angle.sin();
            points.push(SpherePoint {
                x: x.to_bits(),
                y: y.to_bits(),
                nx: (x / r).to_bits(),
                ny: (y / r).to_bits(),
            });
        }
        rows.push(SphereRow { z: z.to_bits(), nz: (z / r).to_bits(), points });
    }
    SphereScalars { rows }
}

fn scalars_for(shape: &ShapeType) -> ShapeScalars {
    match shape {
        ShapeType::Box { length, width, height } => ShapeScalars::Box(box_extents(
            f32::from_bits(*length) as f64,
            f32::from_bits(*width) as f64,
            f32::from_bits(*height) as f64,
        )),
        ShapeType::Cylinder { radius, height } => ShapeScalars::Cylinder(cylinder_scalars(
            f32::from_bits(*radius) as f64,
            f32::from_bits(*height) as f64,
        )),
        ShapeType::Sphere { radius } => {
            ShapeScalars::Sphere(sphere_scalars(f32::from_bits(*radius) as f64))
        }
    }
}

fn glam_quat(q: &Quaternion) -> glam::Quat {
    glam::Quat::from_xyzw(
        f32::from_bits(q.x),
        f32::from_bits(q.y),
        f32::from_bits(q.z),
        f32::from_bits(q.w),
    )
}

fn glam_vec(v: &Vector3) -> glam::Vec3 {
    glam::Vec3::new(f32::from_bits(v.x), f32::from_bits(v.y), f32::from_bits(v.z))
}

fn transform_point(p: &Placement, v: glam::Vec3) -> glam::Vec3 {
    glam_quat(&p.rotation) * v + glam_vec(&p.position)
}

fn transform_buffers(p: &Placement, vertices: &[u32], normals: &[u32]) -> (Vec<u32>, Vec<u32>) {
    let rot = glam_quat(&p.rotation);
    let pos = glam_vec(&p.position);
    let mut out_v = Vec::new();
    let mut out_n = Vec::new();
    for i in 0..vertices.len() / 3 {
        let v = glam::Vec3::new(
            f32::from_bits(vertices[i * 3]),
            f32::from_bits(vertices[i * 3 + 1]),
            f32::from_bits(vertices[i * 3 + 2]),
        );
        let t = rot * v + pos;
        out_v.push(t.x.to_bits());
        out_v.push(t.y.to_bits());
        out_v.push(t.z.to_bits());
    }
    for i in 0..normals.len() / 3 {
        let n = glam::Vec3::new(
            f32::from_bits(normals[i * 3]),
            f32::from_bits(normals[i * 3 + 1]),
            f32::from_bits(normals[i * 3 + 2]),
        );
        let t = rot * n;
        out_n.push(t.x.to_bits());
        out_n.push(t.y.to_bits());
        out_n.push(t.z.to_bits());
    }
    (out_v, out_n)
}

fn recompute(doc: &mut Document) {
    let n = doc.object_count();
    let mut ids = Vec::new();
    for i in 0..n {
        ids.push(doc.object_id_at(i));
    }
    for id in ids {
        let (shape, placement) = {
            let o = doc.get_object(id).unwrap();
            (o.shape_type, o.placement())
        };
        let sc = scalars_for(&shape);
        assert!(doc.execute_object(id, &sc));
        if let Some(p) = placement {
            let (tv, tn) = {
                let o = doc.get_object(id).unwrap();
                let m = o.mesh.as_ref().unwrap();
                transform_buffers(&p, &m.vertices, &m.normals)
            };
            assert!(doc.install_transformed_buffers(id, tv, tn));
        }
    }
}

fn floats(buf: &[u32]) -> Vec<f32> {
    buf.iter().map(|b| f32::from_bits(*b)).collect()
}

#[test]
fn test_document_creation() {
    let doc = Document::new();
    assert_eq!(doc.object_count(), 0);
}

#[test]
fn test_add_object() {
    let mut doc = Document::new();
    let id = doc.add_object(ShapeType::Box {
        length: 1.0f32.to_bits(),
        width: 1.0f32.to_bits(),
        height: 1.0f32.to_bits(),
    });
    assert_eq!(id, 1);
    assert!(doc.get_object(id).is_some());
}

#[test]
fn test_set_object_property() {
    let mut doc = Document::new();
    let id = doc.add_object(ShapeType::Box {
        length: 1.0f32.to_bits(),
        width: 1.0f32.to_bits(),
        height: 1.0f32.to_bits(),
    });
    let success = doc.set_object_property(id, "Length".to_string(), Property::Float(5.0f64.to_bits()));
    assert!(success);
    assert_eq!(
        doc.get_object(id).unwrap().get_property("Length").unwrap().as_float(),
        Some(5.0f64.to_bits())
    );
}

#[test]
fn test_recompute() {
    let mut doc = Document::new();
    let id = doc.add_object(ShapeType::Box {
        length: 1.0f32.to_bits(),
        width: 1.0f32.to_bits(),
        height: 1.0f32.to_bits(),
    });
    doc.set_object_property(id, "Length".to_string(), Property::Float(2.0f64.to_bits()));
    doc.set_object_property(id, "Width".to_string(), Property::Float(2.0f64.to_bits()));
    doc.set_object_property(id, "Height".to_string(), Property::Float(2.0f64.to_bits()));
    recompute(&mut doc);

    assert!(doc.get_object(id).unwrap().mesh.is_some());
    let buffer = doc.get_mesh_buffer(id);
    assert!(buffer.is_some());
}

#[test]
fn test_generate_box_mesh() {
    let mesh = generate_box_mesh(&box_extents(2.0, 2.0, 2.0));
    assert_eq!(mesh.vertices.len(), 72);
    assert_eq!(mesh.normals.len(), 72);
    assert_eq!(mesh.indices.len(), 36);
}

#[test]
fn test_mesh_to_interleaved_buffer() {
    let mesh = generate_box_mesh(&box_extents(1.0, 1.0, 1.0));
    let buffer = mesh.to_interleaved_buffer();
    assert_eq!(buffer.len(), 144);
}

#[test]
fn test_document_lifecycle() {
    let mut doc = Document::new();
    let obj_id = doc.add_box(dim(2.0), dim(3.0), dim(4.0));
    assert!(obj_id > 0);
    recompute(&mut doc);

    let mesh_data = doc.get_mesh_buffer(obj_id).unwrap();
    assert!(!mesh_data.is_empty());

    let indices = doc.get_mesh_indices(obj_id).unwrap();
    assert_eq!(indices.len(), 36);
}

#[test]
fn test_new_shapes() {
    let mut doc = Document::new();
    let cyl_id = doc.add_cylinder(dim(1.0), dim(2.0));
    assert!(cyl_id > 0);
    let sph_id = doc.add_sphere(dim(1.0));
    assert!(sph_id > 0);
    recompute(&mut doc);
}

#[test]
fn test_placement_new() {
    let placement = Placement::new();
    assert_eq!(placement.position, vec3(0.0, 0.0, 0.0));
    assert_eq!(placement.rotation, quat(0.0, 0.0, 0.0, 1.0));
}

#[test]
fn test_transform_point() {
    let placement = Placement::from_position_rotation(vec3(1.0, 2.0, 3.0), quat(0.0, 0.0, 0.0, 1.0));
    let point = glam::Vec3::new(1.0, 0.0, 0.0);
    let transformed = transform_point(&placement, point);
    assert_eq!(transformed, glam::Vec3::new(2.0, 2.0, 3.0));
}

#[test]
fn test_to_matrix4() {
    let placement = Placement::from_position_rotation(vec3(1.0, 2.0, 3.0), quat(0.0, 0.0, 0.0, 1.0));
    let matrix = glam::Mat4::from_rotation_translation(
        glam_quat(&placement.rotation),
        glam_vec(&placement.position),
    );
    let expected = glam::Mat4::from_translation(glam::Vec3::new(1.0, 2.0, 3.0));
    assert_eq!(matrix, expected);
}

#[test]
fn test_object_creation() {
    let shape = ShapeType::Box {
        length: 1.0f32.to_bits(),
        width: 1.0f32.to_bits(),
        height: 1.0f32.to_bits(),
    };
    let obj = Object::new(1, shape);
    assert_eq!(obj.id, 1);
    assert!(obj.mesh.is_none());
}

#[test]
fn test_object_set_property() {
    let shape = ShapeType::Box {
        length: 1.0f32.to_bits(),
        width: 1.0f32.to_bits(),
        height: 1.0f32.to_bits(),
    };
    let mut obj = Object::new(1, shape);
    obj.set_property("Length".to_string(), Property::Float(2.0f64.to_bits()));
    assert_eq!(obj.get_property("Length").unwrap().as_float(), Some(2.0f64.to_bits()));
}

#[test]
fn test_box_execute() {
    let shape = ShapeType::Box {
        length: 2.0f32.to_bits(),
        width: 3.0f32.to_bits(),
        height: 4.0f32.to_bits(),
    };
    let mut obj = Object::new(1, shape);
    let scalars = scalars_for(&obj.shape_type);
    assert!(obj.execute(&scalars));
    assert!(obj.mesh.is_some());

    let mesh = obj.mesh.unwrap();
    assert_eq!(mesh.vertices.len(), 72);
}

#[test]
fn test_float_property() {
    let prop = Property::Float(42.0f64.to_bits());
    assert_eq!(prop.as_float(), Some(42.0f64.to_bits()));
    assert!(prop.as_string().is_none());
}

#[test]
fn test_string_property() {
    let prop = Property::Text("test".to_string());
    assert_eq!(prop.as_string(), Some("test"));
    assert!(prop.as_float().is_none());
}

#[test]
fn test_vector_property() {
    let vec = vec3(1.0, 2.0, 3.0);
    let prop = Property::Vector(vec);
    assert_eq!(prop.as_vector(), Some(vec));
}

#[test]
fn test_placement_property() {
    let placement = Placement::new();
    let prop = Property::Placement(placement);
    assert!(prop.as_placement().is_some());
}

#[test]
fn box_face_normals_are_flat_and_axis_aligned() {
    let mesh = generate_box_mesh(&box_extents(2.0, 3.0, 4.0));
    let n = floats(&mesh.normals);
    let expected = [
        [0.0, 0.0, 1.0],
        [0.0, 0.0, -1.0],
        [0.0, 1.0, 0.0],
        [0.0, -1.0, 0.0],
        [1.0, 0.0, 0.0],
        [-1.0, 0.0, 0.0],
    ];
    for face in 0..6 {
        for corner in 0..4 {
            let v = face * 4 + corner;
            assert_eq!(n[v * 3], expected[face][0]);
            assert_eq!(n[v * 3 + 1], expected[face][1]);
            assert_eq!(n[v * 3 + 2], expected[face][2]);
        }
    }
}

#[test]
fn box_vertices_exact_values() {
    let mesh = generate_box_mesh(&box_extents(2.0, 4.0, 6.0));
    let v = floats(&mesh.vertices);
    // first corner of the +Z face: (-length/2, -width/2, +height/2)
    assert_eq!((v[0], v[1], v[2]), (-1.0, -2.0, 3.0));
    // first corner of the -X face (vertex 20): (-length/2, -width/2, -height/2)
    assert_eq!((v[60], v[61], v[62]), (-1.0, -2.0, -3.0));
    // every index names one of the 24 vertices
    assert!(mesh.indices.iter().all(|&i| i < 24));
}

#[test]
fn cylinder_topology_counts() {
    let mesh = generate_cylinder_mesh(&cylinder_scalars(1.0, 2.0));
    // 1 + 33 vertices per cap, 2 * 33 on the side wall
    assert_eq!(mesh.vertices.len(), (1 + 33 + 1 + 33 + 66) * 3);
    assert_eq!(mesh.normals.len(), mesh.vertices.len());
    // 3 * 32 per cap fan, 6 * 32 for the side quads
    assert_eq!(mesh.indices.len(), 3 * 32 + 3 * 32 + 6 * 32);
    assert!(mesh.indices.iter().all(|&i| (i as usize) < mesh.vertices.len() / 3));
}

#[test]
fn sphere_topology_counts() {
    let mesh = generate_sphere_mesh(&sphere_scalars(1.0));
    assert_eq!(mesh.vertices.len(), 17 * 33 * 3);
    assert_eq!(mesh.normals.len(), mesh.vertices.len());
    // two triangles per interior band cell, one per pole band cell
    assert_eq!(mesh.indices.len() / 3, 2 * 32 * (16 - 1));
    assert!(mesh.indices.iter().all(|&i| (i as usize) < mesh.vertices.len() / 3));
}

#[test]
fn interleave_round_trip() {
    let mesh = generate_box_mesh(&box_extents(2.0, 3.0, 4.0));
    let buffer = mesh.to_interleaved_buffer();
    assert_eq!(buffer.len(), 2 * mesh.vertices.len());
    let mut vertices = Vec::new();
    let mut normals = Vec::new();
    for i in 0..buffer.len() / 6 {
        vertices.extend_from_slice(&buffer[i * 6..i * 6 + 3]);
        normals.extend_from_slice(&buffer[i * 6 + 3..i * 6 + 6]);
    }
    assert_eq!(vertices, mesh.vertices);
    assert_eq!(normals, mesh.normals);
}

#[test]
fn identity_placement_leaves_buffers_unchanged() {
    let mut doc = Document::new();
    let id = doc.add_object(ShapeType::Box {
        length: 2.0f32.to_bits(),
        width: 2.0f32.to_bits(),
        height: 2.0f32.to_bits(),
    });
    recompute(&mut doc);
    let plain = doc.get_mesh_buffer(id).unwrap();

    doc.set_object_property(id, "Placement".to_string(), Property::Placement(Placement::new()));
    recompute(&mut doc);
    let placed = doc.get_mesh_buffer(id).unwrap();

    let a = floats(&plain);
    let b = floats(&placed);
    assert_eq!(a.len(), b.len());
    for (x, y) in a.iter().zip(b.iter()) {
        assert!((x - y).abs() < 1e-6);
    }
}

#[test]
fn placement_composition_inverse_recovers_point() {
    let rot = glam::Quat::from_axis_angle(glam::Vec3::new(0.6, 0.0, 0.8), 1.1);
    let placement = Placement::from_position_rotation(
        vec3(4.0, -2.5, 7.25),
        quat(rot.x, rot.y, rot.z, rot.w),
    );
    let inv_rot = rot.inverse();
    let point = glam::Vec3::new(1.5, -3.0, 0.25);
    let moved = transform_point(&placement, point);
    let back = inv_rot * (moved - glam_vec(&placement.position));
    assert!((back - point).length() < 1e-5);
}

#[test]
fn identifier_uniqueness_over_add_and_remove() {
    let mut doc = Document::new();
    let a = doc.add_object(ShapeType::Sphere { radius: 1.0f32.to_bits() });
    let b = doc.add_object(ShapeType::Sphere { radius: 1.0f32.to_bits() });
    assert_ne!(a, b);
    assert!(doc.remove_object(a));
    let c = doc.add_object(ShapeType::Sphere { radius: 1.0f32.to_bits() });
    assert_ne!(c, a);
    assert_ne!(c, b);
    assert!(doc.get_object(a).is_none());
    assert!(!doc.remove_object(a));
}

#[test]
fn box_scenario_buffer_lengths() {
    let mut doc = Document::new();
    let id = doc.add_box(dim(2.0), dim(2.0), dim(2.0));
    recompute(&mut doc);
    assert_eq!(doc.get_mesh_buffer(id).unwrap().len(), 144);
    assert_eq!(doc.get_mesh_indices(id).unwrap().len(), 36);
}

#[test]
fn cylinder_scenario_index_count() {
    let mut doc = Document::new();
    let id = doc.add_cylinder(dim(1.0), dim(2.0));
    recompute(&mut doc);
    assert_eq!(doc.get_mesh_indices(id).unwrap().len(), 3 * 32 + 3 * 32 + 6 * 32);
}

#[test]
fn sphere_mesh_absent_before_recompute() {
    let mut doc = Document::new();
    let id = doc.add_sphere(dim(1.0));
    assert!(doc.get_mesh_buffer(id).is_none());
    assert!(doc.get_mesh_indices(id).is_none());
    recompute(&mut doc);
    assert!(doc.get_mesh_buffer(id).is_some());
}

#[test]
fn translation_placement_shifts_x_and_keeps_normals() {
    let mut doc = Document::new();
    let id = doc.add_object(ShapeType::Box {
        length: 2.0f32.to_bits(),
        width: 2.0f32.to_bits(),
        height: 2.0f32.to_bits(),
    });
    recompute(&mut doc);
    let before = floats(&doc.get_mesh_buffer(id).unwrap());

    let placement = Placement::from_position_rotation(vec3(1.0, 0.0, 0.0), quat(0.0, 0.0, 0.0, 1.0));
    doc.set_object_property(id, "Placement".to_string(), Property::Placement(placement));
    recompute(&mut doc);
    let after = floats(&doc.get_mesh_buffer(id).unwrap());

    assert_eq!(before.len(), after.len());
    for v in 0..before.len() / 6 {
        // x shifted by one, y and z kept
        assert!((after[v * 6] - (before[v * 6] + 1.0)).abs() < 1e-6);
        assert!((after[v * 6 + 1] - before[v * 6 + 1]).abs() < 1e-6);
        assert!((after[v * 6 + 2] - before[v * 6 + 2]).abs() < 1e-6);
        // normals unchanged under the identity rotation
        for c in 3..6 {
            assert!((after[v * 6 + c] - before[v * 6 + c]).abs() < 1e-6);
        }
    }
}

#[test]
fn unknown_identifier_is_reported_absent() {
    let mut doc = Document::new();
    assert!(doc.get_object(7).is_none());
    assert!(doc.get_mesh_buffer(7).is_none());
    assert!(doc.get_mesh_indices(7).is_none());
    assert!(!doc.set_object_property(7, "Length".to_string(), Property::Float(1.0f64.to_bits())));
    assert!(!doc.update_shape_params(7, dim(1.0), dim(1.0), dim(1.0)));
    assert!(!doc.remove_object(7));
}

#[test]
fn property_accessors_never_coerce() {
    let prop = Property::Vector(vec3(1.0, 2.0, 3.0));
    assert!(prop.as_float().is_none());
    assert!(prop.as_string().is_none());
    assert!(prop.as_placement().is_none());
    assert!(prop.as_vector().is_some());
}

#[test]
fn property_last_write_wins_across_variants() {
    let mut obj = Object::new(1, ShapeType::Sphere { radius: 1.0f32.to_bits() });
    obj.set_property("Radius".to_string(), Property::Float(1.0f64.to_bits()));
    obj.set_property("Radius".to_string(), Property::Text("one".to_string()));
    let stored = obj.get_property("Radius").unwrap();
    assert!(stored.as_float().is_none());
    assert_eq!(stored.as_string(), Some("one"));
}

#[test]
fn update_shape_params_rewrites_shape_and_mirror() {
    let mut doc = Document::new();
    let id = doc.add_box(dim(1.0), dim(1.0), dim(1.0));
    assert!(doc.update_shape_params(id, dim(5.0), dim(6.0), dim(7.0)));
    let obj = doc.get_object(id).unwrap();
    assert_eq!(
        obj.shape_type,
        ShapeType::Box {
            length: 5.0f32.to_bits(),
            width: 6.0f32.to_bits(),
            height: 7.0f32.to_bits(),
        }
    );
    assert_eq!(obj.get_property("Length").unwrap().as_float(), Some(5.0f64.to_bits()));
    assert_eq!(obj.get_property("Width").unwrap().as_float(), Some(6.0f64.to_bits()));
    assert_eq!(obj.get_property("Height").unwrap().as_float(), Some(7.0f64.to_bits()));
    // the cached mesh reflects the old parameters until the next recompute
    assert!(obj.mesh.is_none());
    recompute(&mut doc);
    assert_eq!(doc.get_mesh_buffer(id).unwrap().len(), 144);
}

#[test]
fn restore_object_advances_counter_past_id() {
    let mut doc = Document::new();
    doc.restore_object(10, ShapeType::Sphere { radius: 1.0f32.to_bits() });
    assert!(doc.get_object(10).is_some());
    let next = doc.add_object(ShapeType::Sphere { radius: 2.0f32.to_bits() });
    assert_eq!(next, 11);
    // restoring over a live identifier replaces the object
    doc.restore_object(10, ShapeType::Cylinder {
        radius: 1.0f32.to_bits(),
        height: 1.0f32.to_bits(),
    });
    assert_eq!(doc.object_count(), 2);
    assert!(matches!(
        doc.get_object(10).unwrap().shape_type,
        ShapeType::Cylinder { .. }
    ));
}

#[test]
fn execute_rejects_mismatched_scalar_table() {
    let mut obj = Object::new(1, ShapeType::Sphere { radius: 1.0f32.to_bits() });
    let wrong = ShapeScalars::Box(box_extents(1.0, 1.0, 1.0));
    assert!(!obj.execute(&wrong));
    assert!(obj.mesh.is_none());
}

#[test]
fn install_rejects_mismatched_buffers() {
    let mut obj = Object::new(1, ShapeType::Box {
        length: 1.0f32.to_bits(),
        width: 1.0f32.to_bits(),
        height: 1.0f32.to_bits(),
    });
    // nothing cached yet
    assert!(!obj.install_transformed_buffers(vec![0u32; 72], vec![0u32; 72]));
    let scalars = scalars_for(&obj.shape_type);
    assert!(obj.execute(&scalars));
    // wrong buffer length
    assert!(!obj.install_transformed_buffers(vec![0u32; 3], vec![0u32; 3]));
    assert_eq!(obj.mesh.as_ref().unwrap().vertices.len(), 72);
}

#[test]
fn degenerate_dimensions_still_generate() {
    let mesh = generate_box_mesh(&box_extents(0.0, 0.0, 0.0));
    assert_eq!(mesh.vertices.len(), 72);
    assert_eq!(mesh.indices.len(), 36);
    let mesh = generate_cylinder_mesh(&cylinder_scalars(0.0, -1.0));
    assert_eq!(mesh.indices.len(), 384);
}

#[test]
fn cylinder_cap_normals_point_along_axis() {
    let mesh = generate_cylinder_mesh(&cylinder_scalars(1.0, 2.0));
    let n = floats(&mesh.normals);
    for v in 0..34 {
        assert_eq!((n[v * 3], n[v * 3 + 1], n[v * 3 + 2]), (0.0, 1.0, 0.0));
    }
    for v in 34..68 {
        assert_eq!((n[v * 3], n[v * 3 + 1], n[v * 3 + 2]), (0.0, -1.0, 0.0));
    }
}

#[test]
fn sphere_normals_are_radial() {
    let mesh = generate_sphere_mesh(&sphere_scalars(2.0));
    let v = floats(&mesh.vertices);
    let n = floats(&mesh.normals);
    for k in 0..v.len() {
        assert!((v[k] / 2.0 - n[k]).abs() < 1e-6);
    }
}

fn interleaved_matches(mesh: &Mesh, buffer: &[u32]) -> bool {
    let count = mesh.vertices.len() / 3;
    (0..count).all(|i| {
        buffer[i * 6..i * 6 + 3] == mesh.vertices[i * 3..i * 3 + 3]
            && buffer[i * 6 + 3..i * 6 + 6] == mesh.normals[i * 3..i * 3 + 3]
    })
}

#[test]
fn mesh_buffer_interleaves_position_then_normal() {
    let mut doc = Document::new();
    let id = doc.add_cylinder(dim(1.5), dim(3.0));
    recompute(&mut doc);
    let buffer = doc.get_mesh_buffer(id).unwrap();
    let obj = doc.get_object(id).unwrap();
    let mesh = obj.mesh.as_ref().unwrap();
    assert!(interleaved_matches(mesh, &buffer));
}
