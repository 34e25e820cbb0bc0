//! Live drawable entities, keyed by identifiers that are unique within the
//! table. Entities are stored resolved: a mesh, a material and a transform.
use vstd::prelude::*;
use crate::color::Srgba;
use crate::material::MaterialId;
use crate::math::Transform;
use crate::registry::MeshId;
use crate::shapes::Shape2D;

verus! {

/// Identifier of a live entity.
#[derive(Debug, Clone, Copy, PartialEq, Eq, Hash, Structural)]
pub struct EntityId(pub u128);

/// Relies on uuid's `Uuid::new_v4`, a random version-4 UUID; nothing is
/// promised of the value.
#[verifier::external_body]
fn random_uuid() -> (r: u128) {
    uuid::Uuid::new_v4().as_u128()
}

impl EntityId {
    /// A random identifier. Whether it is free in a table is checked when
    /// the entity is inserted.
    pub fn new() -> (r: EntityId) {
        EntityId(random_uuid())
    }
}

/// A drawable: either resolved (mesh, material, transform) or a primitive
/// shape with a color, which insertion resolves.
#[derive(Debug, Clone, Copy, PartialEq, Eq, Hash, Structural)]
pub enum Entity {
    MeshMaterial { mesh_id: MeshId, material_id: MaterialId, transform: Transform },
    Primitive { shape: Shape2D, color: Srgba },
}

impl Entity {
    /// The extra color uniform an entity carries: a primitive's color.
    pub open spec fn spec_color_uniform(self) -> Option<Srgba> {
        match self {
            Entity::Primitive { color, .. } => Some(color),
            Entity::MeshMaterial { .. } => None,
        }
    }

    pub fn color_uniform(&self) -> (r: Option<Srgba>)
        ensures
            r == self.spec_color_uniform(),
    {
        match self {
            Entity::Primitive { color, .. } => Some(*color),
            Entity::MeshMaterial { .. } => None,
        }
    }

    pub fn is_primitive(&self) -> (r: bool)
        ensures
            r == self is Primitive,
    {
        match self {
            Entity::Primitive { .. } => true,
            Entity::MeshMaterial { .. } => false,
        }
    }

    /// The transform of a resolved entity.
    pub fn transform(&self) -> (r: Option<Transform>)
        ensures
            match *self {
                Entity::MeshMaterial { transform, .. } => r == Some(transform),
                Entity::Primitive { .. } => r is None,
            },
    {
        match self {
            Entity::MeshMaterial { transform, .. } => Some(*transform),
            Entity::Primitive { .. } => None,
        }
    }
}

/// A stored entity and the extra color uniform drawn with it.
#[derive(Debug, Clone, Copy, PartialEq, Eq, Hash, Structural)]
pub struct EntityRecord {
    pub entity: Entity,
    pub color: Option<Srgba>,
}

/// hashbrown's map from identifier to record.
#[verifier::external_body]
pub struct EntityMap {
    inner: hashbrown::HashMap<u128, EntityRecord>,
}

/// What an `EntityMap` holds.
pub uninterp spec fn entity_map_contents(m: EntityMap) -> Map<u128, EntityRecord>;

/// The empty table contents.
pub open spec fn no_entities() -> Map<u128, EntityRecord> {
    Map::empty()
}

impl EntityMap {
    /// Relies on `hashbrown::HashMap::new`: an empty map.
    #[verifier::external_body]
    fn new() -> (r: EntityMap)
        ensures
            entity_map_contents(r) == no_entities(),
    {
        EntityMap { inner: hashbrown::HashMap::new() }
    }

    /// Relies on `hashbrown::HashMap::len`: the number of keys.
    #[verifier::external_body]
    fn len(&self) -> (r: usize)
        ensures
            r == entity_map_contents(*self).dom().len(),
    {
        self.inner.len()
    }

    /// Relies on `hashbrown::HashMap::contains_key`.
    #[verifier::external_body]
    fn contains(&self, k: u128) -> (r: bool)
        ensures
            r == entity_map_contents(*self).dom().contains(k),
    {
        self.inner.contains_key(&k)
    }

    /// Relies on `hashbrown::HashMap::get`: the value under `k`, copied.
    #[verifier::external_body]
    fn get(&self, k: u128) -> (r: Option<EntityRecord>)
        ensures
            match r {
                Some(v) => entity_map_contents(*self).dom().contains(k) && entity_map_contents(*self)[k] == v,
                None => !entity_map_contents(*self).dom().contains(k),
            },
    {
        self.inner.get(&k).copied()
    }

    /// Relies on `hashbrown::HashMap::insert`: `k` maps to `v` afterwards,
    /// the other keys are untouched.
    #[verifier::external_body]
    fn insert(&mut self, k: u128, v: EntityRecord) -> (r: Option<EntityRecord>)
        ensures
            entity_map_contents(*final(self)) == entity_map_contents(*old(self)).insert(k, v),
    {
        self.inner.insert(k, v)
    }

    /// Relies on `hashbrown::HashMap::remove`: the value under `k`, which
    /// is gone afterwards.
    #[verifier::external_body]
    fn remove(&mut self, k: u128) -> (r: Option<EntityRecord>)
        ensures
            entity_map_contents(*final(self)) == entity_map_contents(*old(self)).remove(k),
            match r {
                Some(v) => entity_map_contents(*old(self)).dom().contains(k) && entity_map_contents(*old(self))[k] == v,
                None => !entity_map_contents(*old(self)).dom().contains(k),
            },
    {
        self.inner.remove(&k)
    }

    /// Relies on `hashbrown::HashMap::clear`: no keys afterwards.
    #[verifier::external_body]
    fn clear(&mut self)
        ensures
            entity_map_contents(*final(self)) == no_entities(),
    {
        self.inner.clear()
    }

    /// Relies on `hashbrown::HashMap::keys`: every key once, in the map's
    /// own order, which is not specified.
    #[verifier::external_body]
    fn keys(&self) -> (r: Vec<u128>)
        ensures
            r@.no_duplicates() && r@.to_set() == entity_map_contents(*self).dom(),
    {
        self.inner.keys().copied().collect()
    }
}

/// The live entities. Every stored entity is resolved.
pub struct EntityTable {
    map: EntityMap,
}

impl EntityTable {
    pub closed spec fn view(&self) -> Map<u128, EntityRecord> {
        entity_map_contents(self.map)
    }

    pub open spec fn wf(&self) -> bool {
        &&& self@.dom().finite()
        &&& forall|k: u128| #[trigger] self@.dom().contains(k) ==> self@[k].entity is MeshMaterial
    }

    pub fn new() -> (r: EntityTable)
        ensures
            r.wf(),
            r@ == Map::<u128, EntityRecord>::empty(),
    {
        EntityTable { map: EntityMap::new() }
    }

    pub fn len(&self) -> (r: usize)
        requires
            self.wf(),
        ensures
            r == self@.dom().len(),
    {
        self.map.len()
    }

    pub fn contains(&self, id: EntityId) -> (r: bool)
        ensures
            r == self@.dom().contains(id.0),
    {
        self.map.contains(id.0)
    }

    /// An identifier not in use: `candidate` if it is free, else the
    /// smallest free number.
    pub fn fresh_id(&self, candidate: EntityId) -> (r: EntityId)
        requires
            self.wf(),
        ensures
            !self@.dom().contains(r.0),
            !self@.dom().contains(candidate.0) ==> r == candidate,
    {
        if !self.map.contains(candidate.0) {
            return candidate;
        }
        let n = self.map.len();
        let mut k: u128 = 0;
        while k <= n as u128
            invariant
                self@.dom().finite(),
                self@.dom().contains(candidate.0),
                n == self@.dom().len(),
                k <= n + 1,
                forall|j: u128| j < k ==> #[trigger] self@.dom().contains(j),
            decreases n + 1 - k,
        {
            if !self.map.contains(k) {
                return EntityId(k);
            }
            k += 1;
        }
        proof {
            let s = Seq::new((n + 1) as nat, |j: int| j as u128);
            assert(s.no_duplicates());
            s.unique_seq_to_set();
            assert(s.to_set().subset_of(self@.dom())) by {
                assert forall|x: u128| s.to_set().contains(x) implies self@.dom().contains(x) by {
                    let j = choose|j: int| 0 <= j < s.len() && s[j] == x;
                    assert(x < k);
                }
            }
            vstd::set_lib::lemma_len_subset(s.to_set(), self@.dom());
        }
        EntityId(k)
    }

    /// Stores a resolved entity under a fresh identifier (`candidate` if it
    /// is free).
    pub fn insert(&mut self, candidate: EntityId, entity: Entity, color: Option<Srgba>) -> (r: EntityId)
        requires
            old(self).wf(),
            entity is MeshMaterial,
        ensures
            final(self).wf(),
            !old(self)@.dom().contains(r.0),
            !old(self)@.dom().contains(candidate.0) ==> r == candidate,
            final(self)@ == old(self)@.insert(r.0, EntityRecord { entity, color }),
    {
        let id = self.fresh_id(candidate);
        self.map.insert(id.0, EntityRecord { entity, color });
        id
    }

    /// The entity stored under `id`; `None` if there is none.
    pub fn get(&self, id: EntityId) -> (r: Option<Entity>)
        requires
            self.wf(),
        ensures
            match r {
                Some(e) => self@.dom().contains(id.0) && self@[id.0].entity == e && e is MeshMaterial,
                None => !self@.dom().contains(id.0),
            },
    {
        match self.map.get(id.0) {
            Some(rec) => Some(rec.entity),
            None => None,
        }
    }

    /// The record (entity and color uniform) stored under `id`.
    pub fn record(&self, id: EntityId) -> (r: Option<EntityRecord>)
        ensures
            match r {
                Some(v) => self@.dom().contains(id.0) && self@[id.0] == v,
                None => !self@.dom().contains(id.0),
            },
    {
        self.map.get(id.0)
    }

    /// Removes the entity under `id` and returns it; `None` if there is none.
    pub fn remove(&mut self, id: EntityId) -> (r: Option<Entity>)
        requires
            old(self).wf(),
        ensures
            final(self).wf(),
            final(self)@ == old(self)@.remove(id.0),
            match r {
                Some(e) => old(self)@.dom().contains(id.0) && old(self)@[id.0].entity == e,
                None => !old(self)@.dom().contains(id.0),
            },
    {
        match self.map.remove(id.0) {
            Some(rec) => Some(rec.entity),
            None => None,
        }
    }

    /// Removes every entity.
    pub fn clear(&mut self)
        ensures
            final(self).wf(),
            final(self)@ == Map::<u128, EntityRecord>::empty(),
    {
        self.map.clear();
    }

    /// The transform of the entity under `id`.
    pub fn transform(&self, id: EntityId) -> (r: Option<Transform>)
        requires
            self.wf(),
        ensures
            match r {
                Some(t) => self@.dom().contains(id.0) && self@[id.0].entity->MeshMaterial_transform == t,
                None => !self@.dom().contains(id.0),
            },
    {
        match self.map.get(id.0) {
            Some(EntityRecord { entity: Entity::MeshMaterial { transform, .. }, .. }) => Some(transform),
            _ => None,
        }
    }

    /// Replaces the transform of the entity under `id`; false if there is none.
    pub fn set_transform(&mut self, id: EntityId, transform: Transform) -> (r: bool)
        requires
            old(self).wf(),
        ensures
            final(self).wf(),
            r == old(self)@.dom().contains(id.0),
            r ==> ({
                let old_rec = old(self)@[id.0];
                final(self)@ == old(self)@.insert(id.0, EntityRecord {
                    entity: Entity::MeshMaterial {
                        mesh_id: old_rec.entity->MeshMaterial_mesh_id,
                        material_id: old_rec.entity->MeshMaterial_material_id,
                        transform,
                    },
                    ..old_rec
                })
            }),
            !r ==> final(self)@ == old(self)@,
    {
        match self.map.get(id.0) {
            Some(EntityRecord { entity: Entity::MeshMaterial { mesh_id, material_id, .. }, color }) => {
                self.map.insert(
                    id.0,
                    EntityRecord { entity: Entity::MeshMaterial { mesh_id, material_id, transform }, color },
                );
                true
            },
            _ => false,
        }
    }

    /// Every live identifier once, in the table's own order.
    pub fn ids(&self) -> (r: Vec<EntityId>)
        ensures
            r@.len() == self@.dom().len(),
            forall|i: int, j: int| 0 <= i < r@.len() && 0 <= j < r@.len() && i != j ==> r@[i] != r@[j],
            forall|k: u128| self@.dom().contains(k) <==> exists|i: int| 0 <= i < r@.len() && (#[trigger] r@[i]).0 == k,
    {
        let keys = self.map.keys();
        let mut out: Vec<EntityId> = Vec::new();
        let mut i: usize = 0;
        while i < keys.len()
            invariant
                i <= keys@.len(),
                out@.len() == i,
                forall|j: int| 0 <= j < i ==> (#[trigger] out@[j]).0 == keys@[j],
            decreases keys@.len() - i,
        {
            out.push(EntityId(keys[i]));
            i += 1;
        }
        proof {
            keys@.unique_seq_to_set();
            assert forall|k: u128| self@.dom().contains(k) implies exists|i: int| 0 <= i < out@.len() && (#[trigger] out@[i]).0 == k by {
                assert(keys@.to_set().contains(k));
                let i = choose|i: int| 0 <= i < keys@.len() && keys@[i] == k;
                assert(out@[i].0 == k);
            }
            assert forall|k: u128| (exists|i: int| 0 <= i < out@.len() && (#[trigger] out@[i]).0 == k) implies self@.dom().contains(k) by {
                let i = choose|i: int| 0 <= i < out@.len() && (#[trigger] out@[i]).0 == k;
                assert(keys@.contains(k));
            }
            assert forall|a: int, b: int| 0 <= a < out@.len() && 0 <= b < out@.len() && a != b implies out@[a] != out@[b] by {
                assert(keys@[a] != keys@[b]);
            }
        }
        out
    }
}

} // verus!
