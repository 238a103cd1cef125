use vstd::prelude::*;

use crate::geometry::{
    generate_box_mesh, generate_cylinder_mesh, generate_sphere_mesh, is_box_mesh,
    is_cylinder_mesh, is_sphere_mesh, BoxExtents, CylinderScalars, Mesh, SphereScalars,
    CYLINDER_SEGMENTS,
};
use crate::math::Placement;
use crate::property::{Property, PropertyMap};

verus! {

/// The closed set of parametric shapes an object may represent. Each numeric
/// parameter is the bit pattern of a 32-bit IEEE scalar.
#[derive(Clone, Copy, Debug, PartialEq, Eq, Structural)]
pub enum ShapeType {
    Box { length: u32, width: u32, height: u32 },
    Cylinder { radius: u32, height: u32 },
    Sphere { radius: u32 },
}

/// The evaluated scalar table for one shape, as the host derives it from the
/// shape's parameters: face planes for a box, rim and cap heights for a
/// cylinder, the grid rows for a sphere.
#[derive(Clone, Debug)]
pub enum ShapeScalars {
    Box(BoxExtents),
    Cylinder(CylinderScalars),
    Sphere(SphereScalars),
}

/// Whether a scalar table belongs to a shape: the variants agree and the
/// table is well formed.
pub open spec fn scalars_match(shape: ShapeType, scalars: ShapeScalars) -> bool {
    match shape {
        ShapeType::Box { .. } => scalars matches ShapeScalars::Box(_),
        ShapeType::Cylinder { .. } => scalars matches ShapeScalars::Cylinder(c) && c.wf(),
        ShapeType::Sphere { .. } => scalars matches ShapeScalars::Sphere(p) && p.wf(),
    }
}

/// What the matching generator yields for a scalar table.
pub open spec fn generated_mesh_for(scalars: ShapeScalars, m: Mesh) -> bool {
    match scalars {
        ShapeScalars::Box(e) => is_box_mesh(m, e),
        ShapeScalars::Cylinder(c) => is_cylinder_mesh(m, c),
        ShapeScalars::Sphere(p) => is_sphere_mesh(m, p),
    }
}

/// An object of the document: a shape, a property map, and the mesh cached by
/// the most recent recompute. The mesh is absent until the first recompute,
/// and a later parameter or property change does not clear it: staleness is
/// resolved only by the next recompute.
#[derive(Debug)]
pub struct Object {
    pub id: u32,
    pub shape_type: ShapeType,
    pub properties: PropertyMap,
    pub mesh: Option<Mesh>,
}

impl Object {
    /// The object invariant: the property store keeps one entry per key, and
    /// a cached mesh is well formed.
    pub open spec fn wf(&self) -> bool {
        &&& self.properties.wf()
        &&& match self.mesh {
            Some(m) => m.wf(),
            None => true,
        }
    }

    /// A fresh object: empty properties, no mesh yet.
    pub fn new(id: u32, shape_type: ShapeType) -> (r: Object)
        ensures
            r.id == id,
            r.shape_type == shape_type,
            r.properties@ == Map::<Seq<char>, Property>::empty(),
            r.mesh is None,
            r.wf(),
    {
        Object { id, shape_type, properties: PropertyMap::new(), mesh: None }
    }

    /// Regenerate this object's mesh from the scalar table the host evaluated
    /// for its shape parameters, replacing any previous mesh unconditionally.
    /// Answers `false`, changing nothing, only when the table does not belong
    /// to this object's shape.
    pub fn execute(&mut self, scalars: &ShapeScalars) -> (ok: bool)
        requires
            old(self).wf(),
        ensures
            final(self).wf(),
            ok == scalars_match(old(self).shape_type, *scalars),
            ok ==> (final(self).mesh matches Some(m) && generated_mesh_for(*scalars, m)),
            final(self).id == old(self).id,
            final(self).shape_type == old(self).shape_type,
            final(self).properties == old(self).properties,
            !ok ==> *final(self) == *old(self),
    {
        match (&self.shape_type, scalars) {
            (ShapeType::Box { .. }, ShapeScalars::Box(e)) => {
                self.mesh = Some(generate_box_mesh(e));
                true
            },
            (ShapeType::Cylinder { .. }, ShapeScalars::Cylinder(c)) => {
                if c.check() {
                    self.mesh = Some(generate_cylinder_mesh(c));
                    true
                } else {
                    false
                }
            },
            (ShapeType::Sphere { .. }, ShapeScalars::Sphere(p)) => {
                if p.check() {
                    self.mesh = Some(generate_sphere_mesh(p));
                    true
                } else {
                    false
                }
            },
            _ => false,
        }
    }

    /// Replace the cached mesh's coordinate buffers with their transformed
    /// images, as the host evaluated them under this object's placement; the
    /// triangulation is kept. Answers `false`, changing nothing, when no mesh
    /// is cached or the buffers do not pair up with it.
    pub fn install_transformed_buffers(&mut self, vertices: Vec<u32>, normals: Vec<u32>) -> (ok:
        bool)
        requires
            old(self).wf(),
        ensures
            final(self).wf(),
            ok == (old(self).mesh matches Some(m) && vertices@.len() == m.vertices@.len()
                && normals@.len() == m.vertices@.len()),
            ok ==> (final(self).mesh matches Some(m2) && old(self).mesh matches Some(m)
                && m2.vertices@ == vertices@ && m2.normals@ == normals@ && m2.indices@
                == m.indices@),
            final(self).id == old(self).id,
            final(self).shape_type == old(self).shape_type,
            final(self).properties == old(self).properties,
            !ok ==> *final(self) == *old(self),
    {
        let fits = match &self.mesh {
            Some(m) => vertices.len() == m.vertices.len() && normals.len() == m.vertices.len(),
            None => false,
        };
        if !fits {
            return false;
        }
        let taken = self.mesh.take();
        match taken {
            Some(m) => {
                self.mesh = Some(Mesh { vertices, normals, indices: m.indices });
                true
            },
            None => false,
        }
    }

    /// Insert or overwrite a property; the last write under a key wins.
    pub fn set_property(&mut self, name: String, value: Property)
        requires
            old(self).wf(),
        ensures
            final(self).wf(),
            final(self).properties@ == old(self).properties@.insert(name@, value),
            final(self).id == old(self).id,
            final(self).shape_type == old(self).shape_type,
            final(self).mesh == old(self).mesh,
    {
        self.properties.set(name, value);
    }

    /// Look a property up; an absent key answers `None`.
    pub fn get_property(&self, name: &str) -> (r: Option<&Property>)
        requires
            self.wf(),
        ensures
            r matches Some(p) ==> self.properties@.contains_key(name@) && *p
                == self.properties@[name@],
            r is None ==> !self.properties@.contains_key(name@),
    {
        self.properties.get(name)
    }

    /// The placement this object's recompute applies: the value of the
    /// `Placement` property, if present with that variant.
    pub fn placement(&self) -> (r: Option<Placement>)
        requires
            self.wf(),
        ensures
            r matches Some(p) ==> self.properties@.contains_key("Placement"@)
                && self.properties@["Placement"@] == Property::Placement(p),
            r is None ==> (!self.properties@.contains_key("Placement"@)
                || !(self.properties@["Placement"@] matches Property::Placement(_))),
    {
        match self.get_property("Placement") {
            Some(p) => p.as_placement(),
            None => None,
        }
    }
}

} // verus!
