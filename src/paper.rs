//! The runtime's state: registries, entities, events, camera and clock. The
//! host owns the window and the GPU; it feeds events and elapsed time in and
//! performs what the runtime decides.
use vstd::prelude::*;
use crate::camera::Camera2D;
use crate::color::Srgba;
use crate::entity::{Entity, EntityId, EntityRecord, EntityTable};
use crate::events::{CallbackTable, EventQueue, matching, plan, registration};
use crate::input::Event;
use crate::material::{MaterialId, MaterialKind, MaterialStore, ShaderUniform, UniformTable, named_values, register_material_spec, set_uniform_spec, cleaned, pending};
use crate::math::{Mat4Bits, Transform, Vec2Bits, Vec3Bits, Vec4Bits, ZERO_BITS};
use crate::mesh::{AttributeType, Mesh, MeshError, MeshView, chunks, fresh_vertex, mesh_digest};
use crate::registry::{Handle, MeshId, MeshStore, handle_taken, register_spec, registration_dedup};
use crate::scheduler::{FrameClock, FrameStep, DEFAULT_FIXED_STEP};
use crate::shapes::{Shape2D, position_layout};

verus! {

/// Name of the projection matrix uniform.
pub const PROJECTION_UNIFORM: &'static str = "uProjection";

/// Name of the model matrix uniform.
pub const MODEL_UNIFORM: &'static str = "uModel";

/// Name of a primitive's color uniform.
pub const COLOR_UNIFORM: &'static str = "uColor";

/// A handle an entity refers to that no registry holds.
#[derive(Debug, Clone, Copy, PartialEq, Eq, Structural)]
pub enum Missing {
    Mesh(MeshId),
    Material(MaterialId),
}

/// What the render pass does for one entity.
#[derive(Debug, Clone, Copy, PartialEq, Eq, Structural)]
pub enum RenderItem {
    /// Push the matrices and the color, bind the material, draw the mesh.
    Draw { entity: EntityId, mesh: MeshId, material: MaterialId, transform: Transform, color: Option<Srgba> },
    /// Skip the entity and report the missing handle.
    Skip { entity: EntityId, missing: Missing },
}

/// The render step for entity `id` stored as `rec`.
pub open spec fn render_item_for(
    meshes: Seq<(Handle, MeshView)>,
    materials: Seq<(Handle, MaterialKind)>,
    id: EntityId,
    rec: EntityRecord,
) -> RenderItem {
    match rec.entity {
        Entity::MeshMaterial { mesh_id, material_id, transform } => if !handle_taken(meshes, mesh_id.0) {
            RenderItem::Skip { entity: id, missing: Missing::Mesh(mesh_id) }
        } else if !handle_taken(materials, material_id.0) {
            RenderItem::Skip { entity: id, missing: Missing::Material(material_id) }
        } else {
            RenderItem::Draw { entity: id, mesh: mesh_id, material: material_id, transform, color: rec.color }
        },
        Entity::Primitive { .. } => RenderItem::Skip { entity: id, missing: Missing::Mesh(MeshId(Handle { hash: 0, salt: 0 })) },
    }
}

/// The handle content with hash `hash` gets when nothing else has it.
pub open spec fn first_handle(hash: u64) -> Handle {
    Handle { hash, salt: 0 }
}

/// The mesh a primitive shape resolves to, from its unit vertices.
pub open spec fn shape_mesh_view(shape: Shape2D, vertices: Seq<u32>) -> MeshView {
    MeshView {
        vertices: chunks(vertices, 3).map_values(|c: Seq<u32>| fresh_vertex(AttributeType::Position.view(), c)),
        attributes: position_layout(),
        indices: Some(shape.spec_indices()),
        stride: 12,
    }
}

/// Two runtimes hold the same meshes, materials (uniforms included) and
/// entities.
pub open spec fn same_resources(a: &Paper, b: &Paper) -> bool {
    &&& a.mesh_store() == b.mesh_store()
    &&& a.material_store() == b.material_store()
    &&& forall|i: int| 0 <= i < a.material_store().len() ==> #[trigger] a.material_uniforms(i) == b.material_uniforms(i)
    &&& a.entity_map() == b.entity_map()
}

/// Two runtimes hold the same registered callbacks.
pub open spec fn same_callbacks(a: &Paper, b: &Paper) -> bool {
    a.callback_entries() == b.callback_entries()
}

/// Two runtimes hold the same triggered events and frame events.
pub open spec fn same_queue(a: &Paper, b: &Paper) -> bool {
    a.triggered() == b.triggered() && a.frame_events() == b.frame_events()
}

/// Two runtimes have the same clock and last update delta.
pub open spec fn same_timing(a: &Paper, b: &Paper) -> bool {
    a.spec_clock() == b.spec_clock() && a.spec_delta_time() == b.spec_delta_time()
}

/// Everything but the resources: callbacks, events, camera, timing, pointer
/// and close flag.
pub open spec fn same_frame(a: &Paper, b: &Paper) -> bool {
    &&& same_callbacks(a, b)
    &&& same_queue(a, b)
    &&& a.spec_camera() == b.spec_camera()
    &&& same_timing(a, b)
    &&& a.spec_mouse() == b.spec_mouse()
    &&& a.spec_close_requested() == b.spec_close_requested()
}

/// A material's uniforms after the per-entity values of a draw are set:
/// the projection matrix, the model matrix, then the color if there is one.
pub open spec fn draw_uniforms(u: UniformTable, projection: Mat4Bits, model: Mat4Bits, color: Option<Srgba>) -> UniformTable {
    let u1 = set_uniform_spec(u, PROJECTION_UNIFORM@, ShaderUniform::Mat4(projection));
    let u2 = set_uniform_spec(u1, MODEL_UNIFORM@, ShaderUniform::Mat4(model));
    match color {
        Some(c) => set_uniform_spec(u2, COLOR_UNIFORM@, ShaderUniform::Vec4(Vec4Bits { x: c.r, y: c.g, z: c.b, w: c.a })),
        None => u2,
    }
}

/// Registering equal mesh content twice in a row gives one handle and
/// changes nothing the second time; two different contents get two
/// different handles, whichever comes first.
pub proof fn mesh_registration_dedup(p: &Paper, m1: MeshView, m2: MeshView)
    requires
        p.wf(),
        p.mesh_store().len() + 3 < u64::MAX,
    ensures
        ({
            let (a, s1) = register_spec(p.mesh_store(), m1, mesh_digest(m1), false);
            let (b, s2) = register_spec(s1, m2, mesh_digest(m2), false);
            &&& a == b <==> m1 == m2
            &&& m1 == m2 ==> s2 == s1
        }),
{
    p.meshes.lemma_first_handle(m1);
    registration_dedup(p.mesh_store(), m1, mesh_digest(m1), m2, mesh_digest(m2), false);
}

/// The runtime state shared by every hook and callback.
pub struct Paper {
    meshes: MeshStore,
    materials: MaterialStore,
    entities: EntityTable,
    callbacks: CallbackTable,
    queue: EventQueue,
    camera: Camera2D,
    clock: FrameClock,
    mouse_pos: (u64, u64),
    close_requested: bool,
    delta_time: u128,
    fixed_delta_time: u64,
}

impl Paper {
    pub closed spec fn mesh_store(&self) -> Seq<(Handle, MeshView)> {
        self.meshes@
    }

    pub closed spec fn material_store(&self) -> Seq<(Handle, MaterialKind)> {
        self.materials@
    }

    pub closed spec fn material_uniforms(&self, i: int) -> UniformTable {
        self.materials.uniforms_at(i)
    }

    pub closed spec fn entity_map(&self) -> Map<u128, EntityRecord> {
        self.entities@
    }

    pub closed spec fn callback_entries(&self) -> Seq<(Event, usize)> {
        self.callbacks@
    }

    pub closed spec fn triggered(&self) -> Seq<Event> {
        self.queue.triggered()
    }

    pub closed spec fn frame_events(&self) -> Seq<Event> {
        self.queue.current()
    }

    pub closed spec fn spec_camera(&self) -> Camera2D {
        self.camera
    }

    pub closed spec fn spec_clock(&self) -> FrameClock {
        self.clock
    }

    pub closed spec fn spec_mouse(&self) -> (u64, u64) {
        self.mouse_pos
    }

    pub closed spec fn spec_delta_time(&self) -> u128 {
        self.delta_time
    }

    pub closed spec fn spec_close_requested(&self) -> bool {
        self.close_requested
    }

    pub closed spec fn wf(&self) -> bool {
        &&& self.meshes.wf()
        &&& self.materials.wf()
        &&& self.entities.wf()
        &&& self.clock.wf()
    }

    /// A runtime with no meshes, only the default material, no entities and
    /// no callbacks; the camera sees `viewport`, fixed updates run 24 times a
    /// second and frames are not capped.
    pub fn new(viewport: Vec2Bits) -> (r: Paper)
        ensures
            r.wf(),
            r.mesh_store().len() == 0,
            r.material_store().len() == 0,
            r.entity_map() == Map::<u128, EntityRecord>::empty(),
            r.callback_entries() == Seq::<(Event, usize)>::empty(),
            r.triggered() == Seq::<Event>::empty(),
            r.frame_events() == Seq::<Event>::empty(),
            r.spec_camera() == (Camera2D { viewport, ..Camera2D::spec_default() }),
            r.spec_clock() == (FrameClock { fixed_step: DEFAULT_FIXED_STEP, frame_interval: None, variable_acc: 0, fixed_acc: 0 }),
            r.spec_delta_time() == 0,
            r.spec_mouse() == (0u64, 0u64),
            !r.spec_close_requested(),
    {
        let camera = Camera2D::default().with_viewport(viewport);
        Paper {
            meshes: MeshStore::new(),
            materials: MaterialStore::new(),
            entities: EntityTable::new(),
            callbacks: CallbackTable::new(),
            queue: EventQueue::new(),
            camera,
            clock: FrameClock::new(DEFAULT_FIXED_STEP, None),
            mouse_pos: (0, 0),
            close_requested: false,
            delta_time: 0,
            fixed_delta_time: 0,
        }
    }

    /// Caps the frame rate: update and render run at most `max_fps` times a
    /// second (no cap for zero). The accumulators start empty.
    pub fn with_max_fps(self, max_fps: u64) -> (r: Paper)
        requires
            self.wf(),
        ensures
            r.wf(),
            r.spec_clock() == (FrameClock {
                fixed_step: self.spec_clock().fixed_step,
                frame_interval: FrameClock::interval_spec(max_fps),
                variable_acc: 0,
                fixed_acc: 0,
            }),
            same_resources(&r, &self),
            same_callbacks(&r, &self),
            same_queue(&r, &self),
            r.spec_camera() == self.spec_camera(),
            r.spec_delta_time() == self.spec_delta_time(),
            r.spec_mouse() == self.spec_mouse(),
            r.spec_close_requested() == self.spec_close_requested(),
    {
        let interval = FrameClock::interval_for_max_fps(Some(max_fps));
        let mut p = self;
        p.clock = FrameClock::new(p.clock.fixed_step, interval);
        p
    }

    pub fn mesh_count(&self) -> (r: usize)
        ensures
            r == self.mesh_store().len(),
    {
        self.meshes.len()
    }

    pub fn material_count(&self) -> (r: usize)
        ensures
            r == self.material_store().len(),
    {
        self.materials.len()
    }

    /// Registers a mesh; equal content gets the handle it already has.
    pub fn add_mesh(&mut self, mesh: Mesh) -> (r: MeshId)
        requires
            old(self).wf(),
            mesh.wf(),
            old(self).mesh_store().len() + 2 < u64::MAX,
        ensures
            final(self).wf(),
            (r.0, final(self).mesh_store()) == register_spec(
                old(self).mesh_store(),
                mesh.view(),
                mesh_digest(mesh.view()),
                false,
            ),
            !handle_taken(old(self).mesh_store(), first_handle(mesh_digest(mesh.view()))) ==> (r.0 == first_handle(
                mesh_digest(mesh.view()),
            ) && final(self).mesh_store() == old(self).mesh_store().push((r.0, mesh.view()))),
            final(self).material_store() == old(self).material_store(),
            forall|i: int| #[trigger] final(self).material_uniforms(i) == old(self).material_uniforms(i),
            final(self).entity_map() == old(self).entity_map(),
            same_frame(final(self), old(self)),
    {
        proof {
            self.meshes.lemma_first_handle(mesh.view());
        }
        self.meshes.register(mesh)
    }

    /// Registers a material kind; the same kind gets the handle it already
    /// has, and the default material its reserved one.
    pub fn add_material(&mut self, kind: MaterialKind) -> (r: MaterialId)
        requires
            old(self).wf(),
            old(self).material_store().len() + 2 < u64::MAX,
        ensures
            final(self).wf(),
            (r.0, final(self).material_store()) == register_material_spec(old(self).material_store(), kind),
            kind == MaterialKind::Default ==> r.0 == crate::material::default_handle(),
            forall|i: int| 0 <= i < old(self).material_store().len() ==> #[trigger] final(self).material_uniforms(i)
                == old(self).material_uniforms(i),
            final(self).material_store().len() > old(self).material_store().len() ==> final(self).material_uniforms(
                old(self).material_store().len() as int,
            ) == crate::material::no_uniforms(),
            final(self).mesh_store() == old(self).mesh_store(),
            final(self).entity_map() == old(self).entity_map(),
            same_frame(final(self), old(self)),
    {
        let r = self.materials.register(kind);
        proof {
            assert forall|i: int| 0 <= i < old(self).material_store().len() implies #[trigger] self.material_uniforms(i)
                == old(self).material_uniforms(i) by {
                assert(self.materials.uniforms_at(i) == old(self).materials.uniforms_at(i));
            }
        }
        r
    }

    /// Sets a uniform of a material; false (and no change) if the handle is
    /// not registered.
    pub fn set_material_uniform(&mut self, id: MaterialId, name: &str, value: ShaderUniform) -> (r: bool)
        requires
            old(self).wf(),
        ensures
            final(self).wf(),
            r == handle_taken(old(self).material_store(), id.0),
            final(self).material_store() == old(self).material_store(),
            forall|i: int| 0 <= i < old(self).material_store().len() ==> #[trigger] final(self).material_uniforms(i)
                == if old(self).material_store()[i].0 == id.0 {
                set_uniform_spec(old(self).material_uniforms(i), name@, value)
            } else {
                old(self).material_uniforms(i)
            },
            final(self).mesh_store() == old(self).mesh_store(),
            final(self).entity_map() == old(self).entity_map(),
            !r ==> same_resources(final(self), old(self)),
            same_frame(final(self), old(self)),
    {
        self.materials.set_uniform(id, name, value)
    }

    /// Binds a material: the uniforms changed since its last bind, with its
    /// dirty flags cleared; `None` if the handle is not registered.
    pub fn bind_material(&mut self, id: MaterialId) -> (r: Option<Vec<(String, ShaderUniform)>>)
        requires
            old(self).wf(),
        ensures
            final(self).wf(),
            r is Some == handle_taken(old(self).material_store(), id.0),
            final(self).material_store() == old(self).material_store(),
            forall|i: int| 0 <= i < old(self).material_store().len() ==> #[trigger] final(self).material_uniforms(i)
                == if old(self).material_store()[i].0 == id.0 {
                cleaned(old(self).material_uniforms(i))
            } else {
                old(self).material_uniforms(i)
            },
            r matches Some(v) ==> named_values(v@).no_duplicates(),
            forall|i: int| 0 <= i < old(self).material_store().len() && old(self).material_store()[i].0 == id.0 ==> (
            r matches Some(v) && named_values(v@).to_set() == pending(#[trigger] old(self).material_uniforms(i))),
            final(self).mesh_store() == old(self).mesh_store(),
            final(self).entity_map() == old(self).entity_map(),
            r is None ==> same_resources(final(self), old(self)),
            same_frame(final(self), old(self)),
    {
        let r = self.materials.bind(id);
        proof {
            assert forall|i: int| 0 <= i < old(self).material_store().len() && old(self).material_store()[i].0 == id.0 implies (
            r matches Some(v) && named_values(v@).to_set() == pending(#[trigger] old(self).material_uniforms(i))) by {
                assert(old(self).materials.uniforms_at(i) == old(self).material_uniforms(i));
            }
        }
        r
    }

    /// The registered mesh under `id`.
    pub fn mesh(&self, id: MeshId) -> (r: Option<&Mesh>)
        requires
            self.wf(),
        ensures
            match r {
                Some(m) => exists|i: int| 0 <= i < self.mesh_store().len() && (#[trigger] self.mesh_store()[i]) == (id.0, m.view()),
                None => !handle_taken(self.mesh_store(), id.0),
            },
    {
        let r = self.meshes.get(id);
        proof {
            if let Some(m) = r {
                let i = choose|i: int| 0 <= i < self.meshes@.len() && (#[trigger] self.meshes@[i]) == (id.0, m.view());
                assert(self.mesh_store()[i] == (id.0, m.view()));
            }
        }
        r
    }

    /// Stores an entity under a fresh identifier (`candidate` if it is
    /// free). A primitive is resolved first: its mesh (from the unit
    /// `vertices`, three floats per vertex) and its color material are
    /// registered, and its transform and color uniform come from the shape.
    /// Only a primitive whose `vertices` do not match its vertex count fails,
    /// and then nothing changes.
    pub fn insert_entity(&mut self, entity: Entity, candidate: EntityId, vertices: Vec<u32>) -> (r: Result<EntityId, MeshError>)
        requires
            old(self).wf(),
            old(self).mesh_store().len() + 2 < u64::MAX,
            old(self).material_store().len() + 2 < u64::MAX,
        ensures
            final(self).wf(),
            r is Err <==> (entity matches Entity::Primitive { shape, .. } && vertices@.len() != shape.spec_vertex_floats()),
            r is Err ==> same_resources(final(self), old(self)),
            r matches Ok(id) ==> {
                &&& !old(self).entity_map().dom().contains(id.0)
                &&& !old(self).entity_map().dom().contains(candidate.0) ==> id == candidate
                &&& final(self).entity_map()[id.0].entity is MeshMaterial
                &&& final(self).entity_map() == old(self).entity_map().insert(id.0, final(self).entity_map()[id.0])
            },
            entity is MeshMaterial ==> (r matches Ok(id) && final(self).entity_map()[id.0] == (EntityRecord { entity, color: None })
                && final(self).mesh_store() == old(self).mesh_store() && final(self).material_store() == old(self).material_store()
                && forall|i: int| #[trigger] final(self).material_uniforms(i) == old(self).material_uniforms(i)),
            r matches Ok(id) ==> (entity matches Entity::Primitive { shape, color } ==> {
                let mv = shape_mesh_view(shape, vertices@);
                let (mesh_id, meshes) = register_spec(old(self).mesh_store(), mv, mesh_digest(mv), false);
                let (material_id, materials) = register_material_spec(old(self).material_store(), MaterialKind::Color(color));
                &&& final(self).mesh_store() == meshes
                &&& final(self).material_store() == materials
                &&& forall|i: int| 0 <= i < old(self).material_store().len() ==> #[trigger] final(self).material_uniforms(i)
                    == old(self).material_uniforms(i)
                &&& final(self).entity_map()[id.0] == (EntityRecord {
                    entity: Entity::MeshMaterial {
                        mesh_id: MeshId(mesh_id),
                        material_id: MaterialId(material_id),
                        transform: shape.spec_transform(),
                    },
                    color: Some(color),
                })
            }),
            same_frame(final(self), old(self)),
    {
        match entity {
            Entity::MeshMaterial { .. } => {
                let id = self.entities.insert(candidate, entity, None);
                Ok(id)
            },
            Entity::Primitive { shape, color } => {
                let mesh = match shape.mesh(vertices) {
                    Ok(m) => m,
                    Err(e) => return Err(e),
                };
                let mesh_id = self.meshes.register(mesh);
                let material_id = self.materials.register(MaterialKind::Color(color));
                let resolved = Entity::MeshMaterial { mesh_id, material_id, transform: shape.transform() };
                let id = self.entities.insert(candidate, resolved, Some(color));
                Ok(id)
            },
        }
    }

    /// `insert_entity` with a random candidate identifier.
    pub fn add_entity(&mut self, entity: Entity, vertices: Vec<u32>) -> (r: Result<EntityId, MeshError>)
        requires
            old(self).wf(),
            old(self).mesh_store().len() + 2 < u64::MAX,
            old(self).material_store().len() + 2 < u64::MAX,
        ensures
            final(self).wf(),
            r is Err <==> (entity matches Entity::Primitive { shape, .. } && vertices@.len() != shape.spec_vertex_floats()),
            r is Err ==> same_resources(final(self), old(self)),
            r matches Ok(id) ==> {
                &&& !old(self).entity_map().dom().contains(id.0)
                &&& final(self).entity_map()[id.0].entity is MeshMaterial
                &&& final(self).entity_map() == old(self).entity_map().insert(id.0, final(self).entity_map()[id.0])
            },
            entity is MeshMaterial ==> (r matches Ok(id) && final(self).entity_map()[id.0] == (EntityRecord { entity, color: None })
                && final(self).mesh_store() == old(self).mesh_store() && final(self).material_store() == old(self).material_store()
                && forall|i: int| #[trigger] final(self).material_uniforms(i) == old(self).material_uniforms(i)),
            r matches Ok(id) ==> (entity matches Entity::Primitive { shape, color } ==> {
                let mv = shape_mesh_view(shape, vertices@);
                let (mesh_id, meshes) = register_spec(old(self).mesh_store(), mv, mesh_digest(mv), false);
                let (material_id, materials) = register_material_spec(old(self).material_store(), MaterialKind::Color(color));
                &&& final(self).mesh_store() == meshes
                &&& final(self).material_store() == materials
                &&& forall|i: int| 0 <= i < old(self).material_store().len() ==> #[trigger] final(self).material_uniforms(i)
                    == old(self).material_uniforms(i)
                &&& final(self).entity_map()[id.0] == (EntityRecord {
                    entity: Entity::MeshMaterial {
                        mesh_id: MeshId(mesh_id),
                        material_id: MaterialId(material_id),
                        transform: shape.spec_transform(),
                    },
                    color: Some(color),
                })
            }),
            same_frame(final(self), old(self)),
    {
        let candidate = EntityId::new();
        self.insert_entity(entity, candidate, vertices)
    }

    /// The entity under `id`; it is always resolved.
    pub fn get_entity(&self, id: EntityId) -> (r: Option<Entity>)
        requires
            self.wf(),
        ensures
            match r {
                Some(e) => self.entity_map().dom().contains(id.0) && self.entity_map()[id.0].entity == e
                    && e is MeshMaterial,
                None => !self.entity_map().dom().contains(id.0),
            },
    {
        self.entities.get(id)
    }

    /// Removes the entity under `id`. Its mesh and material stay registered.
    pub fn remove_entity(&mut self, id: EntityId) -> (r: Option<Entity>)
        requires
            old(self).wf(),
        ensures
            final(self).wf(),
            final(self).entity_map() == old(self).entity_map().remove(id.0),
            final(self).mesh_store() == old(self).mesh_store(),
            final(self).material_store() == old(self).material_store(),
            forall|i: int| #[trigger] final(self).material_uniforms(i) == old(self).material_uniforms(i),
            match r {
                Some(e) => old(self).entity_map().dom().contains(id.0) && old(self).entity_map()[id.0].entity == e,
                None => !old(self).entity_map().dom().contains(id.0) && same_resources(final(self), old(self)),
            },
            same_frame(final(self), old(self)),
    {
        let r = self.entities.remove(id);
        proof {
            if r is None {
                assert(self.entity_map() =~= old(self).entity_map());
            }
        }
        r
    }

    /// Removes every entity; meshes and materials stay registered.
    pub fn clear_entities(&mut self)
        requires
            old(self).wf(),
        ensures
            final(self).wf(),
            final(self).entity_map() == Map::<u128, EntityRecord>::empty(),
            final(self).mesh_store() == old(self).mesh_store(),
            final(self).material_store() == old(self).material_store(),
            forall|i: int| #[trigger] final(self).material_uniforms(i) == old(self).material_uniforms(i),
            same_frame(final(self), old(self)),
    {
        self.entities.clear();
    }

    /// The transform of the entity under `id`.
    pub fn get_entity_transform(&self, id: EntityId) -> (r: Option<Transform>)
        requires
            self.wf(),
        ensures
            match r {
                Some(t) => self.entity_map().dom().contains(id.0) && self.entity_map()[id.0].entity->MeshMaterial_transform == t,
                None => !self.entity_map().dom().contains(id.0),
            },
    {
        self.entities.transform(id)
    }

    /// Replaces the transform of the entity under `id`; false if there is none.
    pub fn set_entity_transform(&mut self, id: EntityId, transform: Transform) -> (r: bool)
        requires
            old(self).wf(),
        ensures
            final(self).wf(),
            r == old(self).entity_map().dom().contains(id.0),
            r ==> final(self).entity_map().dom() == old(self).entity_map().dom()
                && final(self).entity_map()[id.0].entity->MeshMaterial_transform == transform
                && final(self).entity_map()[id.0].entity->MeshMaterial_mesh_id == old(self).entity_map()[id.0].entity->MeshMaterial_mesh_id
                && final(self).entity_map()[id.0].entity->MeshMaterial_material_id == old(self).entity_map()[id.0].entity->MeshMaterial_material_id
                && final(self).entity_map()[id.0].entity is MeshMaterial
                && final(self).entity_map()[id.0].color == old(self).entity_map()[id.0].color
                && forall|k: u128| k != id.0 && #[trigger] old(self).entity_map().dom().contains(k)
                    ==> final(self).entity_map()[k] == old(self).entity_map()[k],
            !r ==> same_resources(final(self), old(self)),
            final(self).mesh_store() == old(self).mesh_store(),
            final(self).material_store() == old(self).material_store(),
            forall|i: int| #[trigger] final(self).material_uniforms(i) == old(self).material_uniforms(i),
            same_frame(final(self), old(self)),
    {
        let r = self.entities.set_transform(id, transform);
        proof {
            if r {
                assert(self.entity_map().dom() =~= old(self).entity_map().dom());
            }
        }
        r
    }

    /// Moves the entity under `id` to `(x, y, 0)`; false if there is none.
    pub fn set_entity_translation(&mut self, id: EntityId, translation: Vec2Bits) -> (r: bool)
        requires
            old(self).wf(),
        ensures
            final(self).wf(),
            r == old(self).entity_map().dom().contains(id.0),
            r ==> final(self).entity_map().dom() == old(self).entity_map().dom()
                && final(self).entity_map()[id.0].entity->MeshMaterial_transform == (Transform {
                    translation: Vec3Bits { x: translation.x, y: translation.y, z: ZERO_BITS },
                    ..old(self).entity_map()[id.0].entity->MeshMaterial_transform
                })
                && final(self).entity_map()[id.0].entity->MeshMaterial_mesh_id == old(self).entity_map()[id.0].entity->MeshMaterial_mesh_id
                && final(self).entity_map()[id.0].entity->MeshMaterial_material_id == old(self).entity_map()[id.0].entity->MeshMaterial_material_id
                && final(self).entity_map()[id.0].entity is MeshMaterial
                && final(self).entity_map()[id.0].color == old(self).entity_map()[id.0].color
                && forall|k: u128| k != id.0 && #[trigger] old(self).entity_map().dom().contains(k)
                    ==> final(self).entity_map()[k] == old(self).entity_map()[k],
            !r ==> same_resources(final(self), old(self)),
            final(self).mesh_store() == old(self).mesh_store(),
            final(self).material_store() == old(self).material_store(),
            forall|i: int| #[trigger] final(self).material_uniforms(i) == old(self).material_uniforms(i),
            same_frame(final(self), old(self)),
    {
        match self.entities.transform(id) {
            Some(t) => self.set_entity_transform(id, t.with_translation(translation.extend(ZERO_BITS))),
            None => false,
        }
    }

    /// Sets the rotation of the entity under `id`; false if there is none.
    pub fn set_entity_rotation(&mut self, id: EntityId, rotation: Vec4Bits) -> (r: bool)
        requires
            old(self).wf(),
        ensures
            final(self).wf(),
            r == old(self).entity_map().dom().contains(id.0),
            r ==> final(self).entity_map().dom() == old(self).entity_map().dom()
                && final(self).entity_map()[id.0].entity->MeshMaterial_transform == (Transform {
                    rotation,
                    ..old(self).entity_map()[id.0].entity->MeshMaterial_transform
                })
                && final(self).entity_map()[id.0].entity->MeshMaterial_mesh_id == old(self).entity_map()[id.0].entity->MeshMaterial_mesh_id
                && final(self).entity_map()[id.0].entity->MeshMaterial_material_id == old(self).entity_map()[id.0].entity->MeshMaterial_material_id
                && final(self).entity_map()[id.0].entity is MeshMaterial
                && final(self).entity_map()[id.0].color == old(self).entity_map()[id.0].color
                && forall|k: u128| k != id.0 && #[trigger] old(self).entity_map().dom().contains(k)
                    ==> final(self).entity_map()[k] == old(self).entity_map()[k],
            !r ==> same_resources(final(self), old(self)),
            final(self).mesh_store() == old(self).mesh_store(),
            final(self).material_store() == old(self).material_store(),
            forall|i: int| #[trigger] final(self).material_uniforms(i) == old(self).material_uniforms(i),
            same_frame(final(self), old(self)),
    {
        match self.entities.transform(id) {
            Some(t) => self.set_entity_transform(id, t.with_rotation(rotation)),
            None => false,
        }
    }

    /// Sets the scale of the entity under `id`; false if there is none.
    pub fn set_entity_scale(&mut self, id: EntityId, scale: Vec3Bits) -> (r: bool)
        requires
            old(self).wf(),
        ensures
            final(self).wf(),
            r == old(self).entity_map().dom().contains(id.0),
            r ==> final(self).entity_map().dom() == old(self).entity_map().dom()
                && final(self).entity_map()[id.0].entity->MeshMaterial_transform == (Transform {
                    scale,
                    ..old(self).entity_map()[id.0].entity->MeshMaterial_transform
                })
                && final(self).entity_map()[id.0].entity->MeshMaterial_mesh_id == old(self).entity_map()[id.0].entity->MeshMaterial_mesh_id
                && final(self).entity_map()[id.0].entity->MeshMaterial_material_id == old(self).entity_map()[id.0].entity->MeshMaterial_material_id
                && final(self).entity_map()[id.0].entity is MeshMaterial
                && final(self).entity_map()[id.0].color == old(self).entity_map()[id.0].color
                && forall|k: u128| k != id.0 && #[trigger] old(self).entity_map().dom().contains(k)
                    ==> final(self).entity_map()[k] == old(self).entity_map()[k],
            !r ==> same_resources(final(self), old(self)),
            final(self).mesh_store() == old(self).mesh_store(),
            final(self).material_store() == old(self).material_store(),
            forall|i: int| #[trigger] final(self).material_uniforms(i) == old(self).material_uniforms(i),
            same_frame(final(self), old(self)),
    {
        match self.entities.transform(id) {
            Some(t) => self.set_entity_transform(id, t.with_scale(scale)),
            None => false,
        }
    }

    pub fn camera(&self) -> (r: Camera2D)
        ensures
            r == self.spec_camera(),
    {
        self.camera
    }

    pub fn set_camera(&mut self, camera: Camera2D)
        ensures
            final(self).spec_camera() == camera,
            final(self).wf() == old(self).wf(),
            same_resources(final(self), old(self)),
            same_callbacks(final(self), old(self)),
            same_queue(final(self), old(self)),
            same_timing(final(self), old(self)),
            final(self).spec_mouse() == old(self).spec_mouse(),
            final(self).spec_close_requested() == old(self).spec_close_requested(),
    {
        self.camera = camera;
    }

    pub fn with_camera(self, camera: Camera2D) -> (r: Paper)
        ensures
            r.spec_camera() == camera,
            r.wf() == self.wf(),
            same_resources(&r, &self),
            same_callbacks(&r, &self),
            same_queue(&r, &self),
            same_timing(&r, &self),
            &r.spec_mouse() == &self.spec_mouse(),
            &r.spec_close_requested() == &self.spec_close_requested(),
    {
        let mut p = self;
        p.set_camera(camera);
        p
    }

    /// Registers callback number `callback` for `event`; a grouped event
    /// registers it for each key or button it lists.
    pub fn add_event_callback(&mut self, event: Event, callback: usize)
        ensures
            final(self).callback_entries() == old(self).callback_entries() + registration(event, callback),
            final(self).wf() == old(self).wf(),
            same_resources(final(self), old(self)),
            same_queue(final(self), old(self)),
            final(self).spec_camera() == old(self).spec_camera(),
            same_timing(final(self), old(self)),
            final(self).spec_mouse() == old(self).spec_mouse(),
            final(self).spec_close_requested() == old(self).spec_close_requested(),
    {
        self.callbacks.register(event, callback);
    }

    pub fn with_event_callback(self, event: Event, callback: usize) -> (r: Paper)
        ensures
            r.callback_entries() == self.callback_entries() + registration(event, callback),
            r.wf() == self.wf(),
            same_resources(&r, &self),
            same_queue(&r, &self),
            &r.spec_camera() == &self.spec_camera(),
            same_timing(&r, &self),
            &r.spec_mouse() == &self.spec_mouse(),
            &r.spec_close_requested() == &self.spec_close_requested(),
    {
        let mut p = self;
        p.add_event_callback(event, callback);
        p
    }

    /// The callbacks to run for `event`, in registration order.
    pub fn callbacks_for(&self, event: &Event) -> (r: Vec<usize>)
        ensures
            r@ == matching(self.callback_entries(), *event),
    {
        self.callbacks.callbacks_for(event)
    }

    /// Queues an event ahead of the platform's events of the next frame.
    pub fn trigger_event(&mut self, event: Event)
        ensures
            final(self).triggered() == old(self).triggered().push(event),
            final(self).frame_events() == old(self).frame_events(),
            final(self).wf() == old(self).wf(),
            same_resources(final(self), old(self)),
            same_callbacks(final(self), old(self)),
            final(self).spec_camera() == old(self).spec_camera(),
            same_timing(final(self), old(self)),
            final(self).spec_mouse() == old(self).spec_mouse(),
            final(self).spec_close_requested() == old(self).spec_close_requested(),
    {
        self.queue.trigger(event);
    }

    /// Starts a frame's event dispatch: the triggered events, then the
    /// platform's, in order, become the frame's events.
    pub fn begin_frame(&mut self, platform: Vec<Event>)
        ensures
            final(self).frame_events() == old(self).frame_events() + old(self).triggered() + platform@,
            final(self).triggered() == Seq::<Event>::empty(),
            final(self).wf() == old(self).wf(),
            same_resources(final(self), old(self)),
            same_callbacks(final(self), old(self)),
            final(self).spec_camera() == old(self).spec_camera(),
            same_timing(final(self), old(self)),
            final(self).spec_mouse() == old(self).spec_mouse(),
            final(self).spec_close_requested() == old(self).spec_close_requested(),
    {
        self.queue.begin_frame(platform);
    }

    /// The events of the current frame, as the event-batch hook sees them.
    pub fn events(&self) -> (r: &Vec<Event>)
        ensures
            r@ == self.frame_events(),
    {
        self.queue.events()
    }

    /// Ends a frame: the frame's events and the triggered ones are cleared.
    pub fn end_frame(&mut self)
        ensures
            final(self).frame_events() == Seq::<Event>::empty(),
            final(self).triggered() == Seq::<Event>::empty(),
            final(self).wf() == old(self).wf(),
            same_resources(final(self), old(self)),
            same_callbacks(final(self), old(self)),
            final(self).spec_camera() == old(self).spec_camera(),
            same_timing(final(self), old(self)),
            final(self).spec_mouse() == old(self).spec_mouse(),
            final(self).spec_close_requested() == old(self).spec_close_requested(),
    {
        self.queue.end_frame();
    }

    /// Tracks the pointer before an event's callbacks run: a move sets it,
    /// entering the window takes the platform's `cursor`.
    pub fn observe_pointer(&mut self, event: &Event, cursor: (u64, u64))
        ensures
            final(self).spec_mouse() == match *event {
                Event::MouseMove(x, y) => (x, y),
                Event::MouseEnter(true) => cursor,
                _ => old(self).spec_mouse(),
            },
            final(self).wf() == old(self).wf(),
            same_resources(final(self), old(self)),
            same_callbacks(final(self), old(self)),
            same_queue(final(self), old(self)),
            final(self).spec_camera() == old(self).spec_camera(),
            same_timing(final(self), old(self)),
            final(self).spec_close_requested() == old(self).spec_close_requested(),
    {
        match event {
            Event::MouseMove(x, y) => {
                self.mouse_pos = (*x, *y);
            },
            Event::MouseEnter(true) => {
                self.mouse_pos = cursor;
            },
            _ => {},
        }
    }

    pub fn mouse_position(&self) -> (r: (u64, u64))
        ensures
            r == self.spec_mouse(),
    {
        self.mouse_pos
    }

    /// Asks the loop to stop; honoured at the top of the next iteration.
    pub fn close(&mut self)
        ensures
            final(self).spec_close_requested(),
            final(self).wf() == old(self).wf(),
            same_resources(final(self), old(self)),
            same_callbacks(final(self), old(self)),
            same_queue(final(self), old(self)),
            final(self).spec_camera() == old(self).spec_camera(),
            same_timing(final(self), old(self)),
            final(self).spec_mouse() == old(self).spec_mouse(),
    {
        self.close_requested = true;
    }

    pub fn should_close(&self) -> (r: bool)
        ensures
            r == self.spec_close_requested(),
    {
        self.close_requested
    }

    /// Accounts one iteration's elapsed nanoseconds (see `FrameClock::advance`)
    /// and records the deltas the hooks read.
    pub fn advance(&mut self, elapsed: u64) -> (r: FrameStep)
        requires
            old(self).wf(),
        ensures
            final(self).wf(),
            ({
                let mut c = old(self).spec_clock();
                &&& r.fixed_updates == crate::scheduler::fixed_updates_for(c.fixed_acc + elapsed, c.fixed_step as int)
                &&& final(self).spec_clock().fixed_acc == crate::scheduler::fixed_residual(c.fixed_acc + elapsed, c.fixed_step as int)
            }),
            r.run_update == match old(self).spec_clock().frame_interval {
                Some(n) => old(self).spec_clock().variable_acc + elapsed >= n,
                None => true,
            },
            r.run_update ==> r.update_delta == old(self).spec_clock().variable_acc + elapsed,
            final(self).spec_delta_time() == if r.run_update { r.update_delta } else { old(self).spec_delta_time() },
            final(self).spec_clock().fixed_step == old(self).spec_clock().fixed_step,
            final(self).spec_clock().frame_interval == old(self).spec_clock().frame_interval,
            r.run_update ==> final(self).spec_clock().variable_acc == 0,
            !r.run_update ==> final(self).spec_clock().variable_acc == old(self).spec_clock().variable_acc + elapsed,
            same_resources(final(self), old(self)),
            same_callbacks(final(self), old(self)),
            same_queue(final(self), old(self)),
            final(self).spec_camera() == old(self).spec_camera(),
            final(self).spec_mouse() == old(self).spec_mouse(),
            final(self).spec_close_requested() == old(self).spec_close_requested(),
    {
        let step = self.clock.advance(elapsed);
        self.fixed_delta_time = self.clock.fixed_step;
        if step.run_update {
            self.delta_time = step.update_delta;
        }
        step
    }

    /// Nanoseconds handed to the last update.
    pub fn delta_time(&self) -> (r: u128)
        ensures
            r == self.spec_delta_time(),
    {
        self.delta_time
    }

    /// Nanoseconds of one fixed step.
    pub fn fixed_delta_time(&self) -> (r: u64)
        ensures
            r == self.spec_clock().fixed_step,
    {
        self.clock.fixed_step
    }

    /// The frame's dispatch: for each event in order, its callbacks in
    /// registration order, as (event position, callback) pairs.
    pub fn dispatch_plan(&self, events: &Vec<Event>) -> (r: Vec<(usize, usize)>)
        ensures
            r@ == plan(self.callback_entries(), events@),
    {
        self.callbacks.dispatch_plan(events)
    }

    /// Prepares a draw with `material`: sets the projection matrix, the model
    /// matrix and, if given, the color uniform, then binds the material and
    /// hands back the uniforms to push. `None`, with nothing changed, if the
    /// handle is not registered.
    pub fn prepare_draw(&mut self, material: MaterialId, projection: Mat4Bits, model: Mat4Bits, color: Option<Srgba>) -> (r: Option<Vec<(String, ShaderUniform)>>)
        requires
            old(self).wf(),
        ensures
            final(self).wf(),
            r is Some == handle_taken(old(self).material_store(), material.0),
            r is None ==> same_resources(final(self), old(self)),
            final(self).material_store() == old(self).material_store(),
            forall|i: int| 0 <= i < old(self).material_store().len() ==> #[trigger] final(self).material_uniforms(i)
                == if old(self).material_store()[i].0 == material.0 {
                cleaned(draw_uniforms(old(self).material_uniforms(i), projection, model, color))
            } else {
                old(self).material_uniforms(i)
            },
            r matches Some(v) ==> named_values(v@).no_duplicates(),
            forall|i: int| 0 <= i < old(self).material_store().len() && old(self).material_store()[i].0 == material.0 ==> (
            r matches Some(v) && named_values(v@).to_set() == pending(
                draw_uniforms(#[trigger] old(self).material_uniforms(i), projection, model, color),
            )),
            final(self).mesh_store() == old(self).mesh_store(),
            final(self).entity_map() == old(self).entity_map(),
            same_frame(final(self), old(self)),
    {
        if !self.set_material_uniform(material, PROJECTION_UNIFORM, ShaderUniform::Mat4(projection)) {
            return None;
        }
        self.set_material_uniform(material, MODEL_UNIFORM, ShaderUniform::Mat4(model));
        match color {
            Some(c) => {
                self.set_material_uniform(material, COLOR_UNIFORM, ShaderUniform::Vec4(c.as_array()));
            },
            None => {},
        }
        let ghost mid = *self;
        let r = self.bind_material(material);
        proof {
            assert forall|i: int| 0 <= i < old(self).material_store().len() && old(self).material_store()[i].0
                == material.0 implies (r matches Some(v) && named_values(v@).to_set() == pending(
                draw_uniforms(#[trigger] old(self).material_uniforms(i), projection, model, color),
            )) by {
                assert(mid.material_uniforms(i) == draw_uniforms(old(self).material_uniforms(i), projection, model, color));
            }
        }
        r
    }

    /// The render pass's plan: one item per live entity, in the table's
    /// order. An entity whose mesh or material handle is not registered is
    /// skipped and reported; every other entity is drawn.
    pub fn render_plan(&self) -> (r: Vec<RenderItem>)
        requires
            self.wf(),
        ensures
            r@.len() == self.entity_map().dom().len(),
            forall|i: int| 0 <= i < r@.len() ==> {
                let id = match #[trigger] r@[i] {
                    RenderItem::Draw { entity, .. } => entity,
                    RenderItem::Skip { entity, .. } => entity,
                };
                &&& self.entity_map().dom().contains(id.0)
                &&& r@[i] == render_item_for(self.mesh_store(), self.material_store(), id, self.entity_map()[id.0])
            },
            forall|k: u128| #[trigger] self.entity_map().dom().contains(k) ==> exists|i: int| 0 <= i < r@.len()
                && r@[i] == render_item_for(self.mesh_store(), self.material_store(), EntityId(k), self.entity_map()[k]),
    {
        let ids = self.entities.ids();
        let mut out: Vec<RenderItem> = Vec::new();
        let mut i: usize = 0;
        while i < ids.len()
            invariant
                self.wf(),
                i <= ids@.len(),
                out@.len() == i,
                forall|k: u128| self.entity_map().dom().contains(k) <==> exists|j: int| 0 <= j < ids@.len() && (#[trigger] ids@[j]).0 == k,
                forall|j: int| 0 <= j < i ==> #[trigger] out@[j] == render_item_for(
                    self.mesh_store(),
                    self.material_store(),
                    ids@[j],
                    self.entity_map()[ids@[j].0],
                ),
            decreases ids@.len() - i,
        {
            let id = ids[i];
            proof {
                assert(self.entity_map().dom().contains(id.0));
            }
            let rec = match self.entities.record(id) {
                Some(rec) => rec,
                None => {
                    proof {
                        assert(false);
                    }
                    return out;
                },
            };
            let item = match rec.entity {
                Entity::MeshMaterial { mesh_id, material_id, transform } => {
                    if self.meshes.get(mesh_id).is_none() {
                        RenderItem::Skip { entity: id, missing: Missing::Mesh(mesh_id) }
                    } else if self.materials.kind(material_id).is_none() {
                        RenderItem::Skip { entity: id, missing: Missing::Material(material_id) }
                    } else {
                        RenderItem::Draw { entity: id, mesh: mesh_id, material: material_id, transform, color: rec.color }
                    }
                },
                Entity::Primitive { .. } => {
                    proof {
                        assert(false);
                    }
                    RenderItem::Skip { entity: id, missing: Missing::Mesh(MeshId(Handle { hash: 0, salt: 0 })) }
                },
            };
            out.push(item);
            i += 1;
        }
        proof {
            assert forall|j: int| 0 <= j < out@.len() implies {
                let id = match #[trigger] out@[j] {
                    RenderItem::Draw { entity, .. } => entity,
                    RenderItem::Skip { entity, .. } => entity,
                };
                &&& self.entity_map().dom().contains(id.0)
                &&& out@[j] == render_item_for(self.mesh_store(), self.material_store(), id, self.entity_map()[id.0])
            } by {
                assert(self.entity_map().dom().contains(ids@[j].0));
            }
            assert forall|k: u128| #[trigger] self.entity_map().dom().contains(k) implies exists|j: int| 0 <= j < out@.len()
                && out@[j] == render_item_for(self.mesh_store(), self.material_store(), EntityId(k), self.entity_map()[k]) by {
                let j = choose|j: int| 0 <= j < ids@.len() && (#[trigger] ids@[j]).0 == k;
                assert(out@[j] == render_item_for(self.mesh_store(), self.material_store(), ids@[j], self.entity_map()[ids@[j].0]));
                assert(ids@[j] == EntityId(k));
            }
        }
        out
    }
}

} // verus!
