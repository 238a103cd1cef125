use vstd::prelude::*;

use crate::geometry::{interleave, Mesh};
use crate::object::{generated_mesh_for, scalars_match, Object, ShapeScalars, ShapeType};
use crate::property::Property;

verus! {

#[verifier::external_type_specification]
#[verifier::external_body]
pub struct ExDirected(petgraph::Directed);

#[verifier::external_type_specification]
#[verifier::external_body]
#[verifier::reject_recursive_types(N)]
#[verifier::reject_recursive_types(E)]
#[verifier::reject_recursive_types(Ty)]
#[verifier::reject_recursive_types(Ix)]
pub struct ExGraph<N, E, Ty, Ix>(petgraph::graph::Graph<N, E, Ty, Ix>);

/// Relies on petgraph::Graph::new: builds the empty directed graph reserved
/// for inter-object dependencies; `recompute` does not consult it yet and
/// falls back to insertion order.
#[verifier::external_body]
fn new_dependency_graph() -> petgraph::graph::Graph<u32, ()> {
    petgraph::graph::Graph::new()
}

/// Whether the objects of a document carry pairwise-distinct identifiers.
pub open spec fn ids_distinct(objs: Seq<Object>) -> bool {
    forall|i: int, j: int| 0 <= i < j < objs.len() ==> objs[i].id != objs[j].id
}

/// The map described by a sequence of objects, keyed by identifier; a later
/// entry for an identifier overrides an earlier one.
pub open spec fn map_of_objects(objs: Seq<Object>) -> Map<u32, Object>
    decreases objs.len(),
{
    if objs.len() == 0 {
        Map::empty()
    } else {
        map_of_objects(objs.drop_last()).insert(objs.last().id, objs.last())
    }
}

proof fn lemma_map_of_objects_contains(objs: Seq<Object>, id: u32)
    ensures
        map_of_objects(objs).contains_key(id) <==> (exists|i: int|
            0 <= i < objs.len() && objs[i].id == id),
    decreases objs.len(),
{
    if objs.len() > 0 {
        lemma_map_of_objects_contains(objs.drop_last(), id);
        if objs.last().id == id {
            assert(objs[objs.len() - 1].id == id);
        } else {
            if map_of_objects(objs).contains_key(id) {
                let i = choose|i: int| 0 <= i < objs.drop_last().len() && objs.drop_last()[i].id
                    == id;
                assert(objs[i].id == id);
            }
            if exists|i: int| 0 <= i < objs.len() && objs[i].id == id {
                let i = choose|i: int| 0 <= i < objs.len() && objs[i].id == id;
                assert(i < objs.len() - 1);
                assert(objs.drop_last()[i].id == id);
            }
        }
    }
}

proof fn lemma_map_of_objects_get(objs: Seq<Object>, i: int)
    requires
        ids_distinct(objs),
        0 <= i < objs.len(),
    ensures
        map_of_objects(objs).contains_key(objs[i].id),
        map_of_objects(objs)[objs[i].id] == objs[i],
    decreases objs.len(),
{
    if i < objs.len() - 1 {
        lemma_map_of_objects_get(objs.drop_last(), i);
        assert(objs.drop_last()[i] == objs[i]);
        assert(objs[i].id != objs.last().id);
    }
}

proof fn lemma_map_of_objects_absent(objs: Seq<Object>, id: u32)
    requires
        forall|i: int| 0 <= i < objs.len() ==> objs[i].id != id,
    ensures
        !map_of_objects(objs).contains_key(id),
{
    lemma_map_of_objects_contains(objs, id);
}

proof fn lemma_map_of_objects_update(objs: Seq<Object>, i: int, o: Object)
    requires
        ids_distinct(objs),
        0 <= i < objs.len(),
        o.id == objs[i].id,
    ensures
        map_of_objects(objs.update(i, o)) == map_of_objects(objs).insert(o.id, o),
    decreases objs.len(),
{
    let updated = objs.update(i, o);
    if i == objs.len() - 1 {
        assert(updated.drop_last() =~= objs.drop_last());
        assert(map_of_objects(updated) =~= map_of_objects(objs).insert(o.id, o));
    } else {
        assert(updated.drop_last() =~= objs.drop_last().update(i, o));
        lemma_map_of_objects_update(objs.drop_last(), i, o);
        assert(objs.last().id != objs[i].id);
        assert(updated.last() == objs.last());
        assert(map_of_objects(updated) =~= map_of_objects(objs).insert(o.id, o));
    }
}

proof fn lemma_map_of_objects_push(objs: Seq<Object>, o: Object)
    requires
        forall|i: int| 0 <= i < objs.len() ==> objs[i].id != o.id,
    ensures
        map_of_objects(objs.push(o)) == map_of_objects(objs).insert(o.id, o),
{
    assert(objs.push(o).drop_last() =~= objs);
    assert(objs.push(o).last() == o);
}

proof fn lemma_map_of_objects_remove(objs: Seq<Object>, i: int)
    requires
        ids_distinct(objs),
        0 <= i < objs.len(),
    ensures
        map_of_objects(objs.remove(i)) == map_of_objects(objs).remove(objs[i].id),
    decreases objs.len(),
{
    let shorter = objs.remove(i);
    if i == objs.len() - 1 {
        assert(shorter =~= objs.drop_last());
        assert(forall|k: int|
            0 <= k < objs.drop_last().len() ==> objs.drop_last()[k].id != objs[i].id);
        lemma_map_of_objects_absent(objs.drop_last(), objs[i].id);
        assert(map_of_objects(shorter) =~= map_of_objects(objs).remove(objs[i].id));
    } else {
        assert(shorter.drop_last() =~= objs.drop_last().remove(i));
        lemma_map_of_objects_remove(objs.drop_last(), i);
        assert(shorter.last() == objs.last());
        assert(objs.last().id != objs[i].id);
        assert(map_of_objects(shorter) =~= map_of_objects(objs).remove(objs[i].id));
    }
}

/// One numeric parameter as the host hands it in: the bit pattern of the
/// 64-bit value, for the property mirror, and of its 32-bit narrowing, for
/// the shape payload.
#[derive(Clone, Copy, Debug, PartialEq, Eq, Structural)]
pub struct Dimension {
    pub bits32: u32,
    pub bits64: u64,
}

/// The document: a collection of objects keyed by a stable identifier that is
/// issued by a monotonic counter and never reused, plus a dependency graph
/// reserved for future inter-object dependencies.
pub struct Document {
    objects: Vec<Object>,
    pub dependency_graph: petgraph::graph::Graph<u32, ()>,
    next_id: u32,
    issued: Ghost<Set<u32>>,
}

impl View for Document {
    type V = Map<u32, Object>;

    closed spec fn view(&self) -> Map<u32, Object> {
        map_of_objects(self.objects@)
    }
}

impl Document {
    /// The live objects, in insertion order.
    pub closed spec fn objects_seq(&self) -> Seq<Object> {
        self.objects@
    }

    /// Every identifier this document has ever issued.
    pub closed spec fn issued_ids(&self) -> Set<u32> {
        self.issued@
    }

    /// The identifier the next creation will receive.
    pub closed spec fn next_id_spec(&self) -> u32 {
        self.next_id
    }

    /// The document invariant: live identifiers are pairwise distinct, every
    /// live identifier was issued, every issued identifier lies below the
    /// counter, and every object is well formed.
    pub closed spec fn wf(&self) -> bool {
        &&& ids_distinct(self.objects@)
        &&& forall|i: int|
            0 <= i < self.objects@.len() ==> self.issued@.contains(
                #[trigger] self.objects@[i].id,
            )
        &&& forall|id: u32| self.issued@.contains(id) ==> 1 <= id && id < self.next_id
        &&& 1 <= self.next_id
        &&& forall|i: int| 0 <= i < self.objects@.len() ==> (#[trigger] self.objects@[i]).wf()
    }

    /// A new empty document; identifiers start at 1.
    pub fn new() -> (r: Document)
        ensures
            r.wf(),
            r@ == Map::<u32, Object>::empty(),
            r.objects_seq() == Seq::<Object>::empty(),
            r.issued_ids() == Set::<u32>::empty(),
            r.next_id_spec() == 1,
    {
        Document {
            objects: Vec::new(),
            dependency_graph: new_dependency_graph(),
            next_id: 1,
            issued: Ghost(Set::empty()),
        }
    }

    /// The position of the object carrying `id`, if it is live.
    fn find_index(&self, id: u32) -> (r: Option<usize>)
        requires
            self.wf(),
        ensures
            r matches Some(i) ==> (i < self.objects_seq().len() && self.objects_seq()[i as int].id
                == id && self@.contains_key(id) && self@[id] == self.objects_seq()[i as int]),
            r is None ==> !self@.contains_key(id),
    {
        let n = self.objects.len();
        let mut k: usize = 0;
        while k < n
            invariant
                self.wf(),
                n == self.objects@.len(),
                k <= n,
                forall|j: int| 0 <= j < k ==> self.objects@[j].id != id,
            decreases n - k,
        {
            if self.objects[k].id == id {
                proof {
                    lemma_map_of_objects_get(self.objects@, k as int);
                }
                return Some(k);
            }
            k += 1;
        }
        proof {
            lemma_map_of_objects_absent(self.objects@, id);
        }
        None
    }

    /// Whether the identifier counter can still grow, so a creation may be
    /// attempted; hosts check before adding an object.
    pub fn can_allocate(&self) -> (r: bool)
        ensures
            r == (self.next_id_spec() < u32::MAX),
    {
        self.next_id < u32::MAX
    }

    /// How many objects are live.
    pub fn object_count(&self) -> (r: usize)
        ensures
            r == self.objects_seq().len(),
    {
        self.objects.len()
    }

    /// The identifier of the object at position `i` of the insertion order;
    /// the order a recompute pass walks.
    pub fn object_id_at(&self, i: usize) -> (r: u32)
        requires
            i < self.objects_seq().len(),
        ensures
            r == self.objects_seq()[i as int].id,
    {
        self.objects[i].id
    }

    /// Add a new object: it receives the next identifier, empty properties
    /// and no mesh. Never fails; the identifier was never issued before.
    pub fn add_object(&mut self, shape_type: ShapeType) -> (id: u32)
        requires
            old(self).wf(),
            old(self).next_id_spec() < u32::MAX,
        ensures
            final(self).wf(),
            id == old(self).next_id_spec(),
            !old(self).issued_ids().contains(id),
            !old(self)@.contains_key(id),
            final(self).issued_ids() == old(self).issued_ids().insert(id),
            final(self).next_id_spec() == id + 1,
            final(self)@.contains_key(id),
            final(self)@[id].id == id,
            final(self)@[id].shape_type == shape_type,
            final(self)@[id].properties@ == Map::<Seq<char>, Property>::empty(),
            final(self)@[id].mesh is None,
            final(self)@ == old(self)@.insert(id, final(self)@[id]),
            final(self).objects_seq() == old(self).objects_seq().push(final(self)@[id]),
    {
        let id = self.next_id;
        self.next_id = id + 1;
        let object = Object::new(id, shape_type);
        proof {
            assert(forall|i: int|
                0 <= i < self.objects@.len() ==> self.objects@[i].id != id);
            lemma_map_of_objects_absent(self.objects@, id);
            lemma_map_of_objects_push(self.objects@, object);
        }
        self.objects.push(object);
        proof {
            self.issued@ = self.issued@.insert(id);
        }
        id
    }

    /// Insert an object at a caller-supplied identifier, overwriting any
    /// object already carrying it; used when reconstructing a document from
    /// persisted state. Advances the counter past `id`, so uniqueness holds
    /// even out of creation order.
    pub fn restore_object(&mut self, id: u32, shape_type: ShapeType)
        requires
            old(self).wf(),
            id < u32::MAX,
            1 <= id,
        ensures
            final(self).wf(),
            final(self)@.contains_key(id),
            final(self)@[id].id == id,
            final(self)@[id].shape_type == shape_type,
            final(self)@[id].properties@ == Map::<Seq<char>, Property>::empty(),
            final(self)@[id].mesh is None,
            final(self)@ == old(self)@.insert(id, final(self)@[id]),
            final(self).issued_ids() == old(self).issued_ids().insert(id),
            final(self).next_id_spec() == (if id >= old(self).next_id_spec() {
                id + 1
            } else {
                old(self).next_id_spec() as int
            }),
            final(self).objects_seq().len() == old(self).objects_seq().len() + (
            if old(self)@.contains_key(id) {
                0int
            } else {
                1int
            }),
    {
        let object = Object::new(id, shape_type);
        match self.find_index(id) {
            Some(i) => {
                let ghost pre = self.objects@;
                self.objects.remove(i);
                self.objects.insert(i, object);
                proof {
                    assert(self.objects@ =~= pre.update(i as int, object));
                    lemma_map_of_objects_update(pre, i as int, object);
                }
            },
            None => {
                proof {
                    lemma_map_of_objects_contains(self.objects@, id);
                    lemma_map_of_objects_push(self.objects@, object);
                }
                self.objects.push(object);
            },
        }
        if id >= self.next_id {
            self.next_id = id + 1;
        }
        proof {
            self.issued@ = self.issued@.insert(id);
        }
    }

    /// A shared view of one object, or `None` for an unknown identifier.
    pub fn get_object(&self, id: u32) -> (r: Option<&Object>)
        requires
            self.wf(),
        ensures
            r matches Some(o) ==> self@.contains_key(id) && *o == self@[id],
            r is None ==> !self@.contains_key(id),
    {
        match self.find_index(id) {
            Some(i) => Some(&self.objects[i]),
            None => None,
        }
    }

    /// Set a property on the object carrying `id`; `false` if the identifier
    /// is unknown. Does not trigger a recompute.
    pub fn set_object_property(&mut self, id: u32, name: String, value: Property) -> (ok: bool)
        requires
            old(self).wf(),
        ensures
            final(self).wf(),
            ok == old(self)@.contains_key(id),
            final(self).issued_ids() == old(self).issued_ids(),
            final(self).next_id_spec() == old(self).next_id_spec(),
            final(self).objects_seq().len() == old(self).objects_seq().len(),
            ok ==> (final(self)@.contains_key(id) && final(self)@[id].id == old(self)@[id].id
                && final(self)@[id].shape_type == old(self)@[id].shape_type
                && final(self)@[id].mesh == old(self)@[id].mesh
                && final(self)@[id].properties@ == old(self)@[id].properties@.insert(name@, value)
                && final(self)@ == old(self)@.insert(id, final(self)@[id])),
            !ok ==> *final(self) == *old(self),
    {
        match self.find_index(id) {
            Some(i) => {
                let ghost pre = self.objects@;
                let mut object = self.objects.remove(i);
                object.set_property(name, value);
                self.objects.insert(i, object);
                proof {
                    assert(self.objects@ =~= pre.update(i as int, self.objects@[i as int]));
                    lemma_map_of_objects_update(pre, i as int, self.objects@[i as int]);
                }
                true
            },
            None => false,
        }
    }

    /// Regenerate the mesh of the object carrying `id` from the scalar table
    /// the host evaluated for its shape; `false`, changing nothing, if the
    /// identifier is unknown or the table does not belong to the shape.
    pub fn execute_object(&mut self, id: u32, scalars: &ShapeScalars) -> (ok: bool)
        requires
            old(self).wf(),
        ensures
            final(self).wf(),
            ok == (old(self)@.contains_key(id) && scalars_match(
                old(self)@[id].shape_type,
                *scalars,
            )),
            final(self).issued_ids() == old(self).issued_ids(),
            final(self).next_id_spec() == old(self).next_id_spec(),
            final(self).objects_seq().len() == old(self).objects_seq().len(),
            ok ==> (final(self)@.contains_key(id) && final(self)@[id].id == old(self)@[id].id
                && final(self)@[id].shape_type == old(self)@[id].shape_type
                && final(self)@[id].properties == old(self)@[id].properties
                && (final(self)@[id].mesh matches Some(m) && generated_mesh_for(*scalars, m))
                && final(self)@ == old(self)@.insert(id, final(self)@[id])),
            !ok ==> (final(self)@ == old(self)@ && final(self).objects_seq() == old(
            self).objects_seq()),
    {
        match self.find_index(id) {
            Some(i) => {
                let ghost pre = self.objects@;
                let mut object = self.objects.remove(i);
                let ok = object.execute(scalars);
                self.objects.insert(i, object);
                proof {
                    assert(self.objects@ =~= pre.update(i as int, self.objects@[i as int]));
                    lemma_map_of_objects_update(pre, i as int, self.objects@[i as int]);
                    if !ok {
                        assert(self.objects@ =~= pre);
                        lemma_map_of_objects_get(pre, i as int);
                        assert(map_of_objects(pre).insert(id, pre[i as int]) =~= map_of_objects(
                            pre,
                        ));
                    }
                }
                ok
            },
            None => false,
        }
    }

    /// Replace the cached coordinate buffers of the object carrying `id` with
    /// their transformed images, keeping its triangulation; `false`, changing
    /// nothing, if the identifier is unknown, no mesh is cached, or the
    /// buffers do not pair up with it.
    pub fn install_transformed_buffers(&mut self, id: u32, vertices: Vec<u32>, normals: Vec<u32>)
        -> (ok: bool)
        requires
            old(self).wf(),
        ensures
            final(self).wf(),
            ok == (old(self)@.contains_key(id) && (old(self)@[id].mesh matches Some(m)
                && vertices@.len() == m.vertices@.len() && normals@.len() == m.vertices@.len())),
            final(self).issued_ids() == old(self).issued_ids(),
            final(self).next_id_spec() == old(self).next_id_spec(),
            final(self).objects_seq().len() == old(self).objects_seq().len(),
            ok ==> (final(self)@.contains_key(id) && final(self)@[id].id == old(self)@[id].id
                && final(self)@[id].shape_type == old(self)@[id].shape_type
                && final(self)@[id].properties == old(self)@[id].properties
                && (final(self)@[id].mesh matches Some(m2) && old(self)@[id].mesh matches Some(m)
                && m2.vertices@ == vertices@ && m2.normals@ == normals@ && m2.indices@
                == m.indices@)
                && final(self)@ == old(self)@.insert(id, final(self)@[id])),
            !ok ==> (final(self)@ == old(self)@ && final(self).objects_seq() == old(
            self).objects_seq()),
    {
        match self.find_index(id) {
            Some(i) => {
                let ghost pre = self.objects@;
                let mut object = self.objects.remove(i);
                let ok = object.install_transformed_buffers(vertices, normals);
                self.objects.insert(i, object);
                proof {
                    assert(self.objects@ =~= pre.update(i as int, self.objects@[i as int]));
                    lemma_map_of_objects_update(pre, i as int, self.objects@[i as int]);
                    if !ok {
                        assert(self.objects@ =~= pre);
                        lemma_map_of_objects_get(pre, i as int);
                        assert(map_of_objects(pre).insert(id, pre[i as int]) =~= map_of_objects(
                            pre,
                        ));
                    }
                }
                ok
            },
            None => false,
        }
    }

    /// The interleaved `[x, y, z, nx, ny, nz]` buffer of the cached mesh of
    /// the object carrying `id`; `None` if the identifier is unknown or the
    /// object was never recomputed.
    pub fn get_mesh_buffer(&self, id: u32) -> (r: Option<Vec<u32>>)
        requires
            self.wf(),
        ensures
            (r is Some) == (self@.contains_key(id) && self@[id].mesh is Some),
            r matches Some(b) ==> (self@[id].mesh matches Some(m) && b@ == interleave(
                m.vertices@,
                m.normals@,
            ) && b@.len() == 2 * m.vertices@.len()),
    {
        match self.find_index(id) {
            Some(i) => {
                let object = &self.objects[i];
                match &object.mesh {
                    Some(m) => Some(m.to_interleaved_buffer()),
                    None => None,
                }
            },
            None => None,
        }
    }

    /// A copy of the cached index buffer of the object carrying `id`; `None`
    /// if the identifier is unknown or the object was never recomputed.
    pub fn get_mesh_indices(&self, id: u32) -> (r: Option<Vec<u32>>)
        requires
            self.wf(),
        ensures
            (r is Some) == (self@.contains_key(id) && self@[id].mesh is Some),
            r matches Some(b) ==> (self@[id].mesh matches Some(m) && b@ == m.indices@),
    {
        match self.find_index(id) {
            Some(i) => {
                let object = &self.objects[i];
                match &object.mesh {
                    Some(m) => {
                        let n = m.indices.len();
                        let mut out: Vec<u32> = Vec::new();
                        let mut k: usize = 0;
                        while k < n
                            invariant
                                n == m.indices@.len(),
                                k <= n,
                                out@ == m.indices@.subrange(0, k as int),
                            decreases n - k,
                        {
                            out.push(m.indices[k]);
                            proof {
                                assert(out@ =~= m.indices@.subrange(0, k + 1));
                            }
                            k += 1;
                        }
                        proof {
                            assert(out@ =~= m.indices@);
                        }
                        Some(out)
                    },
                    None => None,
                }
            },
            None => None,
        }
    }

    /// Delete the object carrying `id`; `false` if it is unknown. The
    /// identifier stays issued and is never handed out again.
    pub fn remove_object(&mut self, id: u32) -> (ok: bool)
        requires
            old(self).wf(),
        ensures
            final(self).wf(),
            ok == old(self)@.contains_key(id),
            final(self)@ == old(self)@.remove(id),
            final(self).issued_ids() == old(self).issued_ids(),
            final(self).next_id_spec() == old(self).next_id_spec(),
            !ok ==> *final(self) == *old(self),
    {
        match self.find_index(id) {
            Some(i) => {
                proof {
                    lemma_map_of_objects_remove(self.objects@, i as int);
                }
                self.objects.remove(i);
                true
            },
            None => {
                proof {
                    assert(self@ =~= self@.remove(id));
                }
                false
            },
        }
    }
}

impl Document {
    /// Create a box object: the shape takes the 32-bit narrowings, the
    /// property map mirrors the 64-bit values under "Length", "Width" and
    /// "Height", and an identity "Placement" is attached. The mirror is for
    /// external readers only; generation reads the shape payload.
    pub fn add_box(&mut self, length: Dimension, width: Dimension, height: Dimension) -> (id: u32)
        requires
            old(self).wf(),
            old(self).next_id_spec() < u32::MAX,
        ensures
            final(self).wf(),
            id == old(self).next_id_spec(),
            !old(self).issued_ids().contains(id),
            !old(self)@.contains_key(id),
            final(self).issued_ids() == old(self).issued_ids().insert(id),
            final(self).next_id_spec() == id + 1,
            final(self)@.contains_key(id),
            final(self)@[id].id == id,
            final(self)@[id].shape_type == (ShapeType::Box {
                length: length.bits32,
                width: width.bits32,
                height: height.bits32,
            }),
            final(self)@[id].mesh is None,
            final(self)@[id].properties@ == Map::<Seq<char>, Property>::empty().insert(
                "Length"@,
                Property::Float(length.bits64),
            ).insert("Width"@, Property::Float(width.bits64)).insert(
                "Height"@,
                Property::Float(height.bits64),
            ).insert("Placement"@, Property::Placement(crate::math::identity_placement())),
            final(self)@ == old(self)@.insert(id, final(self)@[id]),
    {
        let shape = ShapeType::Box {
            length: length.bits32,
            width: width.bits32,
            height: height.bits32,
        };
        let id = self.add_object(shape);
        let ghost m0 = self@;
        let _ = self.set_object_property(id, "Length".to_owned(), Property::Float(length.bits64));
        let _ = self.set_object_property(id, "Width".to_owned(), Property::Float(width.bits64));
        let _ = self.set_object_property(id, "Height".to_owned(), Property::Float(height.bits64));
        let _ = self.set_object_property(
            id,
            "Placement".to_owned(),
            Property::Placement(crate::math::Placement::new()),
        );
        proof {
            assert(self@ =~= m0.insert(id, self@[id]));
        }
        id
    }

    /// Create a cylinder object: the property map mirrors "Radius" and
    /// "Height", and an identity "Placement" is attached.
    pub fn add_cylinder(&mut self, radius: Dimension, height: Dimension) -> (id: u32)
        requires
            old(self).wf(),
            old(self).next_id_spec() < u32::MAX,
        ensures
            final(self).wf(),
            id == old(self).next_id_spec(),
            !old(self).issued_ids().contains(id),
            !old(self)@.contains_key(id),
            final(self).issued_ids() == old(self).issued_ids().insert(id),
            final(self).next_id_spec() == id + 1,
            final(self)@.contains_key(id),
            final(self)@[id].id == id,
            final(self)@[id].shape_type == (ShapeType::Cylinder {
                radius: radius.bits32,
                height: height.bits32,
            }),
            final(self)@[id].mesh is None,
            final(self)@[id].properties@ == Map::<Seq<char>, Property>::empty().insert(
                "Radius"@,
                Property::Float(radius.bits64),
            ).insert("Height"@, Property::Float(height.bits64)).insert(
                "Placement"@,
                Property::Placement(crate::math::identity_placement()),
            ),
            final(self)@ == old(self)@.insert(id, final(self)@[id]),
    {
        let shape = ShapeType::Cylinder { radius: radius.bits32, height: height.bits32 };
        let id = self.add_object(shape);
        let ghost m0 = self@;
        let _ = self.set_object_property(id, "Radius".to_owned(), Property::Float(radius.bits64));
        let _ = self.set_object_property(id, "Height".to_owned(), Property::Float(height.bits64));
        let _ = self.set_object_property(
            id,
            "Placement".to_owned(),
            Property::Placement(crate::math::Placement::new()),
        );
        proof {
            assert(self@ =~= m0.insert(id, self@[id]));
        }
        id
    }

    /// Create a sphere object: the property map mirrors "Radius", and an
    /// identity "Placement" is attached.
    pub fn add_sphere(&mut self, radius: Dimension) -> (id: u32)
        requires
            old(self).wf(),
            old(self).next_id_spec() < u32::MAX,
        ensures
            final(self).wf(),
            id == old(self).next_id_spec(),
            !old(self).issued_ids().contains(id),
            !old(self)@.contains_key(id),
            final(self).issued_ids() == old(self).issued_ids().insert(id),
            final(self).next_id_spec() == id + 1,
            final(self)@.contains_key(id),
            final(self)@[id].id == id,
            final(self)@[id].shape_type == (ShapeType::Sphere { radius: radius.bits32 }),
            final(self)@[id].mesh is None,
            final(self)@[id].properties@ == Map::<Seq<char>, Property>::empty().insert(
                "Radius"@,
                Property::Float(radius.bits64),
            ).insert("Placement"@, Property::Placement(crate::math::identity_placement())),
            final(self)@ == old(self)@.insert(id, final(self)@[id]),
    {
        let shape = ShapeType::Sphere { radius: radius.bits32 };
        let id = self.add_object(shape);
        let ghost m0 = self@;
        let _ = self.set_object_property(id, "Radius".to_owned(), Property::Float(radius.bits64));
        let _ = self.set_object_property(
            id,
            "Placement".to_owned(),
            Property::Placement(crate::math::Placement::new()),
        );
        proof {
            assert(self@ =~= m0.insert(id, self@[id]));
        }
        id
    }

    /// Rewrite the shape parameters of the object carrying `id` and mirror
    /// them into its property map under the fixed key names; `false` if the
    /// identifier is unknown. Parameters beyond the shape's arity are
    /// ignored. Does not trigger a recompute.
    pub fn update_shape_params(&mut self, id: u32, p1: Dimension, p2: Dimension, p3: Dimension)
        -> (ok: bool)
        requires
            old(self).wf(),
        ensures
            final(self).wf(),
            ok == old(self)@.contains_key(id),
            final(self).issued_ids() == old(self).issued_ids(),
            final(self).next_id_spec() == old(self).next_id_spec(),
            final(self).objects_seq().len() == old(self).objects_seq().len(),
            ok ==> (final(self)@.contains_key(id) && final(self)@[id].id == old(self)@[id].id
                && final(self)@[id].mesh == old(self)@[id].mesh
                && final(self)@ == old(self)@.insert(id, final(self)@[id])
                && match old(self)@[id].shape_type {
                    ShapeType::Box { .. } => final(self)@[id].shape_type == (ShapeType::Box {
                        length: p1.bits32,
                        width: p2.bits32,
                        height: p3.bits32,
                    }) && final(self)@[id].properties@ == old(self)@[id].properties@.insert(
                        "Length"@,
                        Property::Float(p1.bits64),
                    ).insert("Width"@, Property::Float(p2.bits64)).insert(
                        "Height"@,
                        Property::Float(p3.bits64),
                    ),
                    ShapeType::Cylinder { .. } => final(self)@[id].shape_type
                        == (ShapeType::Cylinder { radius: p1.bits32, height: p2.bits32 })
                        && final(self)@[id].properties@ == old(self)@[id].properties@.insert(
                        "Radius"@,
                        Property::Float(p1.bits64),
                    ).insert("Height"@, Property::Float(p2.bits64)),
                    ShapeType::Sphere { .. } => final(self)@[id].shape_type == (ShapeType::Sphere {
                        radius: p1.bits32,
                    }) && final(self)@[id].properties@ == old(self)@[id].properties@.insert(
                        "Radius"@,
                        Property::Float(p1.bits64),
                    ),
                }),
            !ok ==> *final(self) == *old(self),
    {
        match self.find_index(id) {
            Some(i) => {
                let ghost pre = self.objects@;
                let mut object = self.objects.remove(i);
                match object.shape_type {
                    ShapeType::Box { .. } => {
                        object.shape_type = ShapeType::Box {
                            length: p1.bits32,
                            width: p2.bits32,
                            height: p3.bits32,
                        };
                        object.set_property("Length".to_owned(), Property::Float(p1.bits64));
                        object.set_property("Width".to_owned(), Property::Float(p2.bits64));
                        object.set_property("Height".to_owned(), Property::Float(p3.bits64));
                    },
                    ShapeType::Cylinder { .. } => {
                        object.shape_type = ShapeType::Cylinder {
                            radius: p1.bits32,
                            height: p2.bits32,
                        };
                        object.set_property("Radius".to_owned(), Property::Float(p1.bits64));
                        object.set_property("Height".to_owned(), Property::Float(p2.bits64));
                    },
                    ShapeType::Sphere { .. } => {
                        object.shape_type = ShapeType::Sphere { radius: p1.bits32 };
                        object.set_property("Radius".to_owned(), Property::Float(p1.bits64));
                    },
                }
                self.objects.insert(i, object);
                proof {
                    assert(self.objects@ =~= pre.update(i as int, self.objects@[i as int]));
                    lemma_map_of_objects_update(pre, i as int, self.objects@[i as int]);
                }
                true
            },
            None => false,
        }
    }
}

/// Identifier uniqueness: in a valid document no two live objects share an
/// identifier, every live identifier was issued, and every issued identifier
/// lies below the counter — so an identifier removed from the document is
/// never issued again, the counter only growing.
pub proof fn lemma_identifier_uniqueness(d: Document)
    requires
        d.wf(),
    ensures
        forall|i: int, j: int|
            0 <= i < j < d.objects_seq().len() ==> d.objects_seq()[i].id != d.objects_seq()[j].id,
        forall|i: int|
            0 <= i < d.objects_seq().len() ==> d.issued_ids().contains(
                #[trigger] d.objects_seq()[i].id,
            ),
        forall|id: u32| d.issued_ids().contains(id) ==> id < d.next_id_spec(),
{
}

impl Default for Document {
    /// A new empty document.
    fn default() -> (r: Document)
        ensures
            r.wf(),
            r@ == Map::<u32, Object>::empty(),
            r.objects_seq() == Seq::<Object>::empty(),
            r.issued_ids() == Set::<u32>::empty(),
            r.next_id_spec() == 1,
    {
        Document::new()
    }
}

} // verus!
