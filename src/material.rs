//! Materials: a kind, which decides the handle, and named uniform values
//! with a dirty flag each, so that only changed values reach the backend.
use vstd::prelude::*;
use crate::color::Srgba;
use crate::math::{Mat4Bits, Vec2Bits, Vec3Bits, Vec4Bits};
use crate::registry::{Handle, HandleIndex, handle_index_contents, handle_taken, indexes, lemma_fresh_handle, lemma_index_lookup, lemma_index_push, lemma_position_of, lemma_position_unique, lemma_push_wf, position_of, register_spec, store_wf};

verus! {

/// A value for a shader uniform; floats as bit patterns, so equality is
/// bit-for-bit.
#[derive(Debug, Clone, Copy, PartialEq, Eq, Hash, Structural)]
pub enum ShaderUniform {
    Int(i32),
    UInt(u32),
    Bool(bool),
    Float(u32),
    Vec2(Vec2Bits),
    Vec3(Vec3Bits),
    Vec4(Vec4Bits),
    Mat4(Mat4Bits),
}

/// The built-in material kinds. The kind is all that tells two materials
/// apart when they are registered.
#[derive(Debug, Clone, Copy, PartialEq, Eq, Hash, Structural)]
pub enum MaterialKind {
    Default,
    Color(Srgba),
}

/// The handle that the default material always has.
pub open spec fn default_handle() -> Handle {
    Handle { hash: 0, salt: 0 }
}

/// A material's uniforms: by name, the current value and whether it
/// changed since the last bind.
pub type UniformTable = Map<Seq<char>, (ShaderUniform, bool)>;

/// The uniforms after setting `name` to `value`: an unknown name is added,
/// dirty; a changed value is stored and marked dirty; an equal value
/// changes nothing.
pub open spec fn set_uniform_spec(u: UniformTable, name: Seq<char>, value: ShaderUniform) -> UniformTable {
    if u.dom().contains(name) {
        if u[name].0 == value {
            u
        } else {
            u.insert(name, (value, true))
        }
    } else {
        u.insert(name, (value, true))
    }
}

/// The uniforms that a bind pushes: the dirty ones, with their values.
pub open spec fn pending(u: UniformTable) -> Set<(Seq<char>, ShaderUniform)> {
    Set::new(|p: (Seq<char>, ShaderUniform)| u.dom().contains(p.0) && u[p.0].1 && u[p.0].0 == p.1)
}

/// Uniforms handed to the backend, by the names' text.
pub open spec fn named_values(v: Seq<(String, ShaderUniform)>) -> Seq<(Seq<char>, ShaderUniform)> {
    v.map_values(|p: (String, ShaderUniform)| (p.0@, p.1))
}

/// The uniforms after a bind: same names and values, no dirty flag.
pub open spec fn cleaned(u: UniformTable) -> UniformTable {
    Map::new(|k: Seq<char>| u.dom().contains(k), |k: Seq<char>| (u[k].0, false))
}

/// The empty uniform table.
pub open spec fn no_uniforms() -> UniformTable {
    Map::empty()
}

/// Setting a uniform to the value it already holds (bit for bit) leaves the
/// uniforms as they are, its dirty flag included; setting a different value
/// stores it and marks it dirty; a bind leaves no flag set.
pub proof fn uniform_dirty_tracking(u: UniformTable, name: Seq<char>, value: ShaderUniform)
    requires
        u.dom().contains(name),
    ensures
        u[name].0 == value ==> set_uniform_spec(u, name, value) == u,
        u[name].0 != value ==> set_uniform_spec(u, name, value)[name] == (value, true),
        forall|k: Seq<char>| #[trigger] cleaned(u).dom().contains(k) ==> !cleaned(u)[k].1,
{
}

/// hashbrown's map from uniform name to value and dirty flag.
#[verifier::external_body]
pub struct UniformMap {
    inner: hashbrown::HashMap<String, (ShaderUniform, bool)>,
}

/// What a `UniformMap` holds, by the names' text.
pub uninterp spec fn uniform_map_contents(m: UniformMap) -> UniformTable;

impl UniformMap {
    /// Relies on `hashbrown::HashMap::new`: an empty map.
    #[verifier::external_body]
    fn new() -> (r: UniformMap)
        ensures
            uniform_map_contents(r) == no_uniforms(),
    {
        UniformMap { inner: hashbrown::HashMap::new() }
    }

    /// Relies on `hashbrown::HashMap::get`: the entry under `name`, copied.
    #[verifier::external_body]
    fn get(&self, name: &str) -> (r: Option<(ShaderUniform, bool)>)
        ensures
            match r {
                Some(v) => uniform_map_contents(*self).dom().contains(name@) && uniform_map_contents(*self)[name@] == v,
                None => !uniform_map_contents(*self).dom().contains(name@),
            },
    {
        self.inner.get(name).copied()
    }

    /// Relies on `hashbrown::HashMap::insert`: `name` maps to `v`
    /// afterwards, the other names are untouched.
    #[verifier::external_body]
    fn insert(&mut self, name: String, v: (ShaderUniform, bool))
        ensures
            uniform_map_contents(*final(self)) == uniform_map_contents(*old(self)).insert(name@, v),
    {
        self.inner.insert(name, v);
    }

    /// Relies on `hashbrown::HashMap::keys`: every name once, in the map's
    /// own order, which is not specified.
    #[verifier::external_body]
    fn names(&self) -> (r: Vec<String>)
        ensures
            r@.map_values(|s: String| s@).no_duplicates(),
            r@.map_values(|s: String| s@).to_set() == uniform_map_contents(*self).dom(),
    {
        self.inner.keys().cloned().collect()
    }
}

/// A material: its kind and its uniform values.
pub struct Material {
    kind: MaterialKind,
    uniforms: UniformMap,
}

impl Material {
    pub closed spec fn kind_of(&self) -> MaterialKind {
        self.kind
    }

    pub closed spec fn uniforms(&self) -> UniformTable {
        uniform_map_contents(self.uniforms)
    }

    /// A material of the given kind with no uniforms yet.
    pub fn new(kind: MaterialKind) -> (r: Material)
        ensures
            r.kind_of() == kind,
            r.uniforms() == no_uniforms(),
    {
        Material { kind, uniforms: UniformMap::new() }
    }

    pub fn kind(&self) -> (r: MaterialKind)
        ensures
            r == self.kind_of(),
    {
        self.kind
    }

    /// The kind's display name.
    pub fn name(&self) -> (r: &str)
        ensures
            r@ == match self.kind_of() {
                MaterialKind::Default => "DefaultMaterial"@,
                MaterialKind::Color(_) => "ColorMaterial"@,
            },
    {
        match self.kind {
            MaterialKind::Default => {
                proof {
                    reveal_strlit("DefaultMaterial");
                }
                "DefaultMaterial"
            },
            MaterialKind::Color(_) => {
                proof {
                    reveal_strlit("ColorMaterial");
                }
                "ColorMaterial"
            },
        }
    }

    /// Sets uniform `name`. Setting a value bit-for-bit equal to the current
    /// one changes nothing and leaves the flag as it was.
    pub fn set_uniform(&mut self, name: &str, value: ShaderUniform)
        ensures
            final(self).kind_of() == old(self).kind_of(),
            final(self).uniforms() == set_uniform_spec(old(self).uniforms(), name@, value),
    {
        match self.uniforms.get(name) {
            Some((current, _)) => {
                if current != value {
                    self.uniforms.insert(name.to_owned(), (value, true));
                }
            },
            None => {
                self.uniforms.insert(name.to_owned(), (value, true));
            },
        }
    }

    /// Binds the material: hands back the uniforms changed since the last
    /// bind, each once, and clears every dirty flag.
    pub fn bind(&mut self) -> (r: Vec<(String, ShaderUniform)>)
        ensures
            final(self).kind_of() == old(self).kind_of(),
            final(self).uniforms() == cleaned(old(self).uniforms()),
            named_values(r@).no_duplicates(),
            named_values(r@).to_set() == pending(old(self).uniforms()),
    {
        let ghost u = self.uniforms();
        let names = self.uniforms.names();
        let ghost nv = names@.map_values(|s: String| s@);
        let mut out: Vec<(String, ShaderUniform)> = Vec::new();
        let mut i: usize = 0;
        proof {
            assert forall|k: Seq<char>| u.dom().contains(k) implies exists|j: int| 0 <= j < nv.len() && nv[j] == k by {
                assert(nv.to_set().contains(k));
            }
        }
        while i < names.len()
            invariant
                i <= names@.len(),
                nv == names@.map_values(|s: String| s@),
                nv.no_duplicates(),
                nv.to_set() == u.dom(),
                self.kind == old(self).kind,
                self.uniforms().dom() == u.dom(),
                forall|j: int| 0 <= j < i ==> #[trigger] self.uniforms()[nv[j]] == (u[nv[j]].0, false),
                forall|j: int| i <= j < nv.len() ==> #[trigger] self.uniforms()[nv[j]] == u[nv[j]],
                named_values(out@).no_duplicates(),
                forall|p: (Seq<char>, ShaderUniform)| #[trigger] named_values(out@).contains(p)
                    <==> exists|j: int| 0 <= j < i && nv[j] == p.0 && u[nv[j]].1 && u[nv[j]].0 == p.1,
            decreases names@.len() - i,
        {
            let ghost before = self.uniforms();
            let ghost ov = named_values(out@);
            proof {
                assert(nv[i as int] == names@[i as int]@);
                assert(nv.to_set().contains(nv[i as int]));
            }
            match self.uniforms.get(names[i].as_str()) {
                Some((value, dirty)) => {
                    if dirty {
                        out.push((names[i].clone(), value));
                    }
                    self.uniforms.insert(names[i].clone(), (value, false));
                },
                None => {
                    proof {
                        assert(false);
                    }
                },
            }
            proof {
                let now = self.uniforms();
                let nov = named_values(out@);
                assert(now.dom() =~= u.dom());
                assert forall|j: int| 0 <= j < i + 1 implies #[trigger] now[nv[j]] == (u[nv[j]].0, false) by {
                    if j < i {
                        assert(nv[j] != nv[i as int]);
                        assert(before[nv[j]] == (u[nv[j]].0, false));
                    }
                }
                assert forall|j: int| i + 1 <= j < nv.len() implies #[trigger] now[nv[j]] == u[nv[j]] by {
                    assert(nv[j] != nv[i as int]);
                    assert(before[nv[j]] == u[nv[j]]);
                }
                if u[nv[i as int]].1 {
                    assert(nov =~= ov.push((nv[i as int], u[nv[i as int]].0)));
                    assert(!ov.contains((nv[i as int], u[nv[i as int]].0))) by {
                        if ov.contains((nv[i as int], u[nv[i as int]].0)) {
                            let j = choose|j: int| 0 <= j < i && #[trigger] nv[j] == nv[i as int] && u[nv[j]].1
                                && u[nv[j]].0 == u[nv[i as int]].0;
                        }
                    }
                    assert forall|a: int, b: int| 0 <= a < nov.len() && 0 <= b < nov.len() && a != b implies nov[a] != nov[b] by {
                        if a < ov.len() && b < ov.len() {
                        } else if a < ov.len() {
                            assert(ov.contains(ov[a]));
                        } else {
                            assert(ov.contains(ov[b]));
                        }
                    }
                } else {
                    assert(nov =~= ov);
                }
                assert forall|p: (Seq<char>, ShaderUniform)| nov.contains(p) <==> exists|j: int| 0 <= j < i + 1 && #[trigger] nv[j]
                    == p.0 && u[nv[j]].1 && u[nv[j]].0 == p.1 by {
                    if nov.contains(p) && !ov.contains(p) {
                        assert(nv[i as int] == p.0);
                    }
                    if exists|j: int| 0 <= j < i + 1 && #[trigger] nv[j] == p.0 && u[nv[j]].1 && u[nv[j]].0 == p.1 {
                        let j = choose|j: int| 0 <= j < i + 1 && #[trigger] nv[j] == p.0 && u[nv[j]].1 && u[nv[j]].0 == p.1;
                        if j == i {
                            assert(nov.last() == p);
                            assert(nov.contains(p));
                        } else {
                            assert(ov.contains(p));
                            let k = choose|k: int| 0 <= k < ov.len() && ov[k] == p;
                            assert(nov[k] == p);
                        }
                    }
                }
            }
            i += 1;
        }
        proof {
            let now = self.uniforms();
            let ov = named_values(out@);
            assert forall|k: Seq<char>| now.dom().contains(k) implies now[k] == cleaned(u)[k] by {
                assert(nv.to_set().contains(k));
                let j = choose|j: int| 0 <= j < nv.len() && nv[j] == k;
            }
            assert(now =~= cleaned(u));
            assert forall|p: (Seq<char>, ShaderUniform)| ov.to_set().contains(p) <==> pending(u).contains(p) by {
                if pending(u).contains(p) {
                    assert(nv.to_set().contains(p.0));
                    let j = choose|j: int| 0 <= j < nv.len() && nv[j] == p.0;
                }
            }
            assert(ov.to_set() =~= pending(u));
        }
        out
    }
}

/// The content hash of a material kind; a function of the kind alone.
pub uninterp spec fn material_digest(kind: MaterialKind) -> u64;

/// Relies on ahash's `AHasher::default()`, which (the crate being built
/// without its `runtime-rng` feature) uses fixed keys, fed the kind's derived
/// `Hash`: the digest depends on the kind's value alone.
#[verifier::external_body]
fn digest_material(kind: &MaterialKind) -> (r: u64)
    ensures
        r == material_digest(*kind),
{
    let mut hasher = ahash::AHasher::default();
    std::hash::Hash::hash(kind, &mut hasher);
    std::hash::Hasher::finish(&hasher)
}

/// Handle of a registered material.
#[derive(Debug, Clone, Copy, PartialEq, Eq, Hash, Structural)]
pub struct MaterialId(pub Handle);

impl MaterialId {
    /// The reserved handle of the default material.
    pub fn default_material() -> (r: MaterialId)
        ensures
            r.0 == default_handle(),
    {
        MaterialId(Handle { hash: 0, salt: 0 })
    }
}

/// A stored material and its handle.
pub struct MaterialEntry {
    pub id: MaterialId,
    pub material: Material,
}

/// Registration of a material kind: the default kind gets the reserved
/// handle (and is stored the first time it is asked for); every other kind
/// is content-addressed by its hash, never under the reserved handle.
pub open spec fn register_material_spec(s: Seq<(Handle, MaterialKind)>, kind: MaterialKind) -> (Handle, Seq<(Handle, MaterialKind)>) {
    if kind == MaterialKind::Default {
        match position_of(s, kind) {
            Some(i) => (s[i].0, s),
            None => (default_handle(), s.push((default_handle(), kind))),
        }
    } else {
        register_spec(s, kind, material_digest(kind), true)
    }
}

/// Every registered material, one per kind. The default material, once
/// registered, has the reserved handle, which no other kind gets. An index
/// maps handles to positions.
pub struct MaterialStore {
    entries: Vec<MaterialEntry>,
    index: HandleIndex,
}

impl MaterialStore {
    pub closed spec fn view(&self) -> Seq<(Handle, MaterialKind)> {
        self.entries@.map_values(|e: MaterialEntry| (e.id.0, e.material.kind_of()))
    }

    /// The uniforms of the material at position `i`.
    pub closed spec fn uniforms_at(&self, i: int) -> UniformTable {
        self.entries@[i].material.uniforms()
    }

    pub closed spec fn wf(&self) -> bool {
        &&& store_wf(self@)
        &&& indexes(handle_index_contents(self.index), self@)
        &&& forall|i: int| 0 <= i < self@.len() ==> ((#[trigger] self@[i]).1 == MaterialKind::Default) == (self@[i].0
            == default_handle())
        &&& forall|i: int| 0 <= i < self@.len() && (#[trigger] self@[i]).1 != MaterialKind::Default ==> self@[i].0.hash
            == material_digest(self@[i].1)
        &&& forall|i: int| 0 <= i < self@.len() && (#[trigger] self@[i]).1 != MaterialKind::Default && self@[i].0.hash != 0
            ==> handle_taken(self@, Handle { hash: self@[i].0.hash, salt: 0 })
    }

    /// An empty store.
    pub fn new() -> (r: MaterialStore)
        ensures
            r.wf(),
            r@ == Seq::<(Handle, MaterialKind)>::empty(),
    {
        let r = MaterialStore { entries: Vec::new(), index: HandleIndex::new() };
        assert(r@ =~= Seq::<(Handle, MaterialKind)>::empty());
        assert(handle_index_contents(r.index) =~= crate::registry::no_handles());
        r
    }

    pub fn len(&self) -> (r: usize)
        ensures
            r == self@.len(),
    {
        self.entries.len()
    }

    /// Stores a new material of kind `kind` under a handle no entry has.
    fn push_new(&mut self, id: MaterialId, kind: MaterialKind)
        requires
            old(self).wf(),
            old(self)@.len() + 2 < u64::MAX,
            !handle_taken(old(self)@, id.0),
            id.0.salt == 0 || id.0.salt == old(self)@.len() + 1,
            (kind == MaterialKind::Default) == (id.0 == default_handle()),
            kind != MaterialKind::Default ==> id.0.hash == material_digest(kind),
            kind != MaterialKind::Default && id.0.hash != 0 ==> handle_taken(
                old(self)@.push((id.0, kind)),
                Handle { hash: id.0.hash, salt: 0 },
            ),
            forall|i: int| 0 <= i < old(self)@.len() ==> (#[trigger] old(self)@[i]).1 != kind,
        ensures
            final(self).wf(),
            final(self)@ == old(self)@.push((id.0, kind)),
            forall|i: int| 0 <= i < old(self)@.len() ==> #[trigger] final(self).uniforms_at(i) == old(self).uniforms_at(i),
            final(self).uniforms_at(old(self)@.len() as int) == no_uniforms(),
    {
        let ghost s = self@;
        let ghost old_entries = self.entries@;
        let n = self.entries.len();
        proof {
            lemma_index_push(handle_index_contents(self.index), s, id.0, kind, n);
            lemma_push_wf(s, id.0, kind);
        }
        self.entries.push(MaterialEntry { id, material: Material::new(kind) });
        self.index.insert((id.0.hash, id.0.salt), n);
        proof {
            let t = self@;
            assert(t =~= s.push((id.0, kind)));
            assert forall|j: int| 0 <= j < old_entries.len() implies #[trigger] self.entries@[j] == old_entries[j] by {}
            assert forall|i: int| 0 <= i < t.len() implies ((#[trigger] t[i]).1 == MaterialKind::Default) == (t[i].0
                == default_handle()) by {
                if i < s.len() {
                    assert(t[i] == s[i]);
                }
            }
            assert forall|i: int| 0 <= i < t.len() && (#[trigger] t[i]).1 != MaterialKind::Default implies t[i].0.hash
                == material_digest(t[i].1) by {
                if i < s.len() {
                    assert(t[i] == s[i]);
                }
            }
            assert forall|i: int| 0 <= i < t.len() && (#[trigger] t[i]).1 != MaterialKind::Default && t[i].0.hash != 0
                implies handle_taken(t, Handle { hash: t[i].0.hash, salt: 0 }) by {
                if i < s.len() {
                    assert(t[i] == s[i]);
                    let w = Handle { hash: s[i].0.hash, salt: 0 };
                    let k = choose|k: int| 0 <= k < s.len() && (#[trigger] s[k]).0 == w;
                    assert(t[k] == s[k]);
                }
            }
        }
    }

    /// Registers a material kind (see `register_material_spec`); a newly
    /// stored material has no uniforms.
    pub fn register(&mut self, kind: MaterialKind) -> (r: MaterialId)
        requires
            old(self).wf(),
            old(self)@.len() + 2 < u64::MAX,
        ensures
            final(self).wf(),
            (r.0, final(self)@) == register_material_spec(old(self)@, kind),
            kind == MaterialKind::Default ==> r.0 == default_handle(),
            forall|i: int| 0 <= i < old(self)@.len() ==> #[trigger] final(self).uniforms_at(i) == old(self).uniforms_at(i),
            final(self)@.len() > old(self)@.len() ==> final(self).uniforms_at(old(self)@.len() as int)
                == no_uniforms(),
    {
        let ghost s = self@;
        proof {
            lemma_position_of(s, kind);
        }
        if kind == MaterialKind::Default {
            proof {
                lemma_index_lookup(handle_index_contents(self.index), s, default_handle());
            }
            match self.index.get((0, 0)) {
                Some(pos) => {
                    proof {
                        assert(s[pos as int].0 == default_handle());
                        lemma_position_unique(s, kind, pos as int);
                    }
                    return self.entries[pos].id;
                },
                None => {
                    proof {
                        if let Some(i) = position_of(s, kind) {
                            assert(s[i].0 == default_handle());
                        }
                    }
                    let id = MaterialId::default_material();
                    self.push_new(id, kind);
                    return id;
                },
            }
        }
        let hash = digest_material(&kind);
        let first = Handle { hash, salt: 0 };
        proof {
            lemma_index_lookup(handle_index_contents(self.index), s, first);
        }
        if hash != 0 {
            match self.index.get((hash, 0)) {
                None => {
                    proof {
                        if let Some(i) = position_of(s, kind) {
                            assert(s[i].0.hash == hash);
                            assert(handle_taken(s, Handle { hash: s[i].0.hash, salt: 0 }));
                        }
                        assert(s.push((first, kind))[s.len() as int].0 == first);
                    }
                    let id = MaterialId(first);
                    self.push_new(id, kind);
                    return id;
                },
                Some(pos) => {
                    if self.entries[pos].material.kind() == kind {
                        proof {
                            assert(s[pos as int].1 == kind);
                            lemma_position_unique(s, kind, pos as int);
                        }
                        return self.entries[pos].id;
                    }
                },
            }
        }
        let mut i: usize = 0;
        while i < self.entries.len()
            invariant
                self.wf(),
                s == self@,
                *self == *old(self),
                kind != MaterialKind::Default,
                hash == material_digest(kind),
                hash == 0 || handle_taken(s, first),
                i <= self.entries@.len(),
                forall|j: int| 0 <= j < i ==> (#[trigger] s[j]).1 != kind,
            decreases self.entries@.len() - i,
        {
            if self.entries[i].material.kind() == kind {
                proof {
                    assert(s[i as int].1 == kind);
                    lemma_position_unique(s, kind, i as int);
                }
                return self.entries[i].id;
            }
            i += 1;
        }
        let id = MaterialId(Handle { hash, salt: self.entries.len() as u64 + 1 });
        proof {
            lemma_position_of(s, kind);
            lemma_fresh_handle(s, hash, true);
            if hash != 0 {
                let k = choose|k: int| 0 <= k < s.len() && (#[trigger] s[k]).0 == first;
                assert(s.push((id.0, kind))[k] == s[k]);
            }
        }
        self.push_new(id, kind);
        id
    }

    /// Position of the material with handle `id`, if stored.
    fn find(&self, id: MaterialId) -> (r: Option<usize>)
        requires
            self.wf(),
        ensures
            match r {
                Some(i) => i < self@.len() && self@[i as int].0 == id.0,
                None => !handle_taken(self@, id.0),
            },
    {
        proof {
            lemma_index_lookup(handle_index_contents(self.index), self@, id.0);
        }
        self.index.get((id.0.hash, id.0.salt))
    }

    /// The kind of the material with handle `id`, if stored.
    pub fn kind(&self, id: MaterialId) -> (r: Option<MaterialKind>)
        requires
            self.wf(),
        ensures
            match r {
                Some(k) => exists|i: int| 0 <= i < self@.len() && (#[trigger] self@[i]) == (id.0, k),
                None => !handle_taken(self@, id.0),
            },
    {
        match self.find(id) {
            Some(i) => Some(self.entries[i].material.kind()),
            None => None,
        }
    }

    /// Sets a uniform of the material with handle `id`. A missing handle is
    /// reported by returning false, and nothing changes.
    pub fn set_uniform(&mut self, id: MaterialId, name: &str, value: ShaderUniform) -> (r: bool)
        requires
            old(self).wf(),
        ensures
            final(self).wf(),
            final(self)@ == old(self)@,
            r == handle_taken(old(self)@, id.0),
            forall|i: int| 0 <= i < old(self)@.len() ==> #[trigger] final(self).uniforms_at(i) == if old(self)@[i].0
                == id.0 {
                set_uniform_spec(old(self).uniforms_at(i), name@, value)
            } else {
                old(self).uniforms_at(i)
            },
    {
        match self.find(id) {
            None => false,
            Some(i) => {
                let ghost s = self@;
                let ghost old_entries = self.entries@;
                let mut entry = self.entries.remove(i);
                entry.material.set_uniform(name, value);
                self.entries.insert(i, entry);
                proof {
                    assert(self.entries@ =~= old_entries.update(i as int, self.entries@[i as int]));
                    assert(self@ =~= s);
                    assert forall|a: int| 0 <= a < s.len() && a != i implies s[a].0 != id.0 by {}
                }
                true
            },
        }
    }

    /// Binds the material with handle `id`: the uniforms changed since its
    /// last bind, with every flag cleared; `None` if the handle is missing.
    pub fn bind(&mut self, id: MaterialId) -> (r: Option<Vec<(String, ShaderUniform)>>)
        requires
            old(self).wf(),
        ensures
            final(self).wf(),
            final(self)@ == old(self)@,
            r is Some == handle_taken(old(self)@, id.0),
            forall|i: int| 0 <= i < old(self)@.len() ==> #[trigger] final(self).uniforms_at(i) == if old(self)@[i].0
                == id.0 {
                cleaned(old(self).uniforms_at(i))
            } else {
                old(self).uniforms_at(i)
            },
            r matches Some(v) ==> named_values(v@).no_duplicates(),
            forall|i: int| 0 <= i < old(self)@.len() && old(self)@[i].0 == id.0 ==> (r matches Some(v)
                && named_values(v@).to_set() == pending(#[trigger] old(self).uniforms_at(i))),
    {
        match self.find(id) {
            None => None,
            Some(i) => {
                let ghost s = self@;
                let ghost old_entries = self.entries@;
                let mut entry = self.entries.remove(i);
                let pushed = entry.material.bind();
                self.entries.insert(i, entry);
                proof {
                    assert(self.entries@ =~= old_entries.update(i as int, self.entries@[i as int]));
                    assert(self@ =~= s);
                    assert forall|a: int| 0 <= a < s.len() && a != i implies s[a].0 != id.0 by {}
                }
                Some(pushed)
            },
        }
    }
}

} // verus!
