//! Content-addressed stores. A handle is derived from a content hash; a
//! second registration of the same content returns the handle already given,
//! and distinct contents never share a handle, hash collisions included.
use vstd::prelude::*;
use crate::mesh::{Mesh, MeshView, mesh_digest, digest_mesh};

verus! {

/// A content hash and a salt that tells colliding contents apart (zero
/// unless the hash was already taken, or the handle is reserved).
#[derive(Debug, Clone, Copy, PartialEq, Eq, Hash, Structural)]
pub struct Handle {
    pub hash: u64,
    pub salt: u64,
}

/// Where content `c` stands in a store, searching from the newest entry.
pub open spec fn position_of<C>(s: Seq<(Handle, C)>, c: C) -> Option<int>
    decreases s.len(),
{
    if s.len() == 0 {
        None
    } else if s.last().1 == c {
        Some(s.len() - 1)
    } else {
        position_of(s.drop_last(), c)
    }
}

/// Whether some entry of the store has handle `h`.
pub open spec fn handle_taken<C>(s: Seq<(Handle, C)>, h: Handle) -> bool {
    exists|i: int| 0 <= i < s.len() && (#[trigger] s[i]).0 == h
}

/// The handle new content with hash `hash` gets: salt zero if that is free
/// (and, in a store that reserves the zero handle, not the zero handle),
/// else the store's length plus one as salt.
pub open spec fn fresh_handle<C>(s: Seq<(Handle, C)>, hash: u64, reserve_zero: bool) -> Handle {
    if !(reserve_zero && hash == 0) && !handle_taken(s, Handle { hash, salt: 0 }) {
        Handle { hash, salt: 0 }
    } else {
        Handle { hash, salt: (s.len() + 1) as u64 }
    }
}

/// Registration of content `c` whose hash is `hash`: the handle returned and
/// the store afterwards.
pub open spec fn register_spec<C>(s: Seq<(Handle, C)>, c: C, hash: u64, reserve_zero: bool) -> (Handle, Seq<(Handle, C)>) {
    match position_of(s, c) {
        Some(i) => (s[i].0, s),
        None => {
            let h = fresh_handle(s, hash, reserve_zero);
            (h, s.push((h, c)))
        },
    }
}

/// A store's invariant: handles are distinct, contents are distinct, and a
/// nonzero salt is the entry's own position plus one.
pub open spec fn store_wf<C>(s: Seq<(Handle, C)>) -> bool {
    &&& s.len() < u64::MAX
    &&& forall|i: int, j: int| 0 <= i < s.len() && 0 <= j < s.len() && i != j ==> (#[trigger] s[i]).0 != (#[trigger] s[j]).0
    &&& forall|i: int, j: int| 0 <= i < s.len() && 0 <= j < s.len() && i != j ==> (#[trigger] s[i]).1 != (#[trigger] s[j]).1
    &&& forall|i: int| 0 <= i < s.len() ==> (#[trigger] s[i]).0.salt == 0 || s[i].0.salt == i + 1
}

pub proof fn lemma_position_of<C>(s: Seq<(Handle, C)>, c: C)
    ensures
        match position_of(s, c) {
            Some(i) => 0 <= i < s.len() && s[i].1 == c,
            None => forall|j: int| 0 <= j < s.len() ==> (#[trigger] s[j]).1 != c,
        },
    decreases s.len(),
{
    if s.len() > 0 && s.last().1 != c {
        lemma_position_of(s.drop_last(), c);
        if position_of(s.drop_last(), c) is None {
            assert forall|j: int| 0 <= j < s.len() implies (#[trigger] s[j]).1 != c by {
                if j < s.len() - 1 {
                    assert(s.drop_last()[j] == s[j]);
                }
            }
        }
    }
}

pub proof fn lemma_position_unique<C>(s: Seq<(Handle, C)>, c: C, i: int)
    requires
        store_wf(s),
        0 <= i < s.len(),
        s[i].1 == c,
    ensures
        position_of(s, c) == Some(i),
{
    lemma_position_of(s, c);
}

pub proof fn lemma_fresh_handle<C>(s: Seq<(Handle, C)>, hash: u64, reserve_zero: bool)
    requires
        store_wf(s),
    ensures
        !handle_taken(s, fresh_handle(s, hash, reserve_zero)),
        reserve_zero ==> fresh_handle(s, hash, reserve_zero) != (Handle { hash: 0, salt: 0 }),
{
    let h = fresh_handle(s, hash, reserve_zero);
    if h.salt != 0 {
        if handle_taken(s, h) {
            let i = choose|i: int| 0 <= i < s.len() && (#[trigger] s[i]).0 == h;
            assert(s[i].0.salt == i + 1);
        }
    }
}

/// A push of content not yet stored, under a handle not yet taken, whose
/// salt is zero or the store's length plus one, keeps the store well formed.
pub proof fn lemma_push_wf<C>(s: Seq<(Handle, C)>, h: Handle, c: C)
    requires
        store_wf(s),
        s.len() + 2 < u64::MAX,
        !handle_taken(s, h),
        h.salt == 0 || h.salt == s.len() + 1,
        forall|i: int| 0 <= i < s.len() ==> (#[trigger] s[i]).1 != c,
    ensures
        store_wf(s.push((h, c))),
{
    let t = s.push((h, c));
    let n = s.len() as int;
    assert(t[n] == (h, c));
    assert forall|i: int| 0 <= i < t.len() implies (#[trigger] t[i]).0.salt == 0 || t[i].0.salt == i + 1 by {
        if i < n {
            assert(t[i] == s[i]);
        }
    }
    assert forall|i: int, j: int| 0 <= i < t.len() && 0 <= j < t.len() && i != j implies (#[trigger] t[i]).0 != (#[trigger] t[j]).0 by {
        if i < n && j < n {
            assert(t[i] == s[i] && t[j] == s[j]);
        } else if i < n {
            assert(t[i] == s[i]);
        } else {
            assert(t[j] == s[j]);
        }
    }
    assert forall|i: int, j: int| 0 <= i < t.len() && 0 <= j < t.len() && i != j implies (#[trigger] t[i]).1 != (#[trigger] t[j]).1 by {
        if i < n && j < n {
            assert(t[i] == s[i] && t[j] == s[j]);
        } else if i < n {
            assert(t[i] == s[i]);
        } else {
            assert(t[j] == s[j]);
        }
    }
}

pub proof fn lemma_register_wf<C>(s: Seq<(Handle, C)>, c: C, hash: u64, reserve_zero: bool)
    requires
        store_wf(s),
        s.len() + 2 < u64::MAX,
    ensures
        store_wf(register_spec(s, c, hash, reserve_zero).1),
        ({
            let (h, t) = register_spec(s, c, hash, reserve_zero);
            exists|i: int| 0 <= i < t.len() && (#[trigger] t[i]) == (h, c)
        }),
{
    lemma_position_of(s, c);
    let (h, t) = register_spec(s, c, hash, reserve_zero);
    match position_of(s, c) {
        Some(i) => {
            assert(t[i] == (h, c));
        },
        None => {
            lemma_fresh_handle(s, hash, reserve_zero);
            lemma_push_wf(s, h, c);
            assert(t[s.len() as int] == (h, c));
        },
    }
}

/// Registering the same content twice, one after the other, gives one
/// handle; registering two different contents gives two handles.
pub proof fn registration_dedup<C>(s: Seq<(Handle, C)>, c1: C, h1: u64, c2: C, h2: u64, reserve_zero: bool)
    requires
        store_wf(s),
        s.len() + 3 < u64::MAX,
    ensures
        ({
            let (a, s1) = register_spec(s, c1, h1, reserve_zero);
            let (b, s2) = register_spec(s1, c2, h2, reserve_zero);
            &&& a == b <==> c1 == c2
            &&& c1 == c2 ==> s2 == s1
        }),
{
    let (a, s1) = register_spec(s, c1, h1, reserve_zero);
    lemma_register_wf(s, c1, h1, reserve_zero);
    let k = choose|i: int| 0 <= i < s1.len() && (#[trigger] s1[i]) == (a, c1);
    let (b, s2) = register_spec(s1, c2, h2, reserve_zero);
    lemma_position_of(s1, c2);
    if c1 == c2 {
        lemma_position_unique(s1, c2, k);
    } else {
        match position_of(s1, c2) {
            Some(j) => {
                assert(j != k);
            },
            None => {
                lemma_fresh_handle(s1, h2, reserve_zero);
                assert(s1[k].0 == a);
            },
        }
    }
}

/// A handle as the pair of numbers it is keyed by.
pub open spec fn key_of(h: Handle) -> (u64, u64) {
    (h.hash, h.salt)
}

/// hashbrown's map from a handle's key to the position of its entry.
#[verifier::external_body]
pub struct HandleIndex {
    inner: hashbrown::HashMap<(u64, u64), usize>,
}

/// What a `HandleIndex` holds.
pub uninterp spec fn handle_index_contents(m: HandleIndex) -> Map<(u64, u64), usize>;

/// The empty index contents.
pub open spec fn no_handles() -> Map<(u64, u64), usize> {
    Map::empty()
}

impl HandleIndex {
    /// Relies on `hashbrown::HashMap::new`: an empty map.
    #[verifier::external_body]
    pub(crate) fn new() -> (r: HandleIndex)
        ensures
            handle_index_contents(r) == no_handles(),
    {
        HandleIndex { inner: hashbrown::HashMap::new() }
    }

    /// Relies on `hashbrown::HashMap::get`: the value under `k`, copied.
    #[verifier::external_body]
    pub(crate) fn get(&self, k: (u64, u64)) -> (r: Option<usize>)
        ensures
            match r {
                Some(v) => handle_index_contents(*self).dom().contains(k) && handle_index_contents(*self)[k] == v,
                None => !handle_index_contents(*self).dom().contains(k),
            },
    {
        self.inner.get(&k).copied()
    }

    /// Relies on `hashbrown::HashMap::insert`: `k` maps to `v` afterwards,
    /// the other keys are untouched.
    #[verifier::external_body]
    pub(crate) fn insert(&mut self, k: (u64, u64), v: usize)
        ensures
            handle_index_contents(*final(self)) == handle_index_contents(*old(self)).insert(k, v),
    {
        self.inner.insert(k, v);
    }
}

/// `m` maps the key of every entry of `s`, and nothing else, to the entry's
/// position.
pub open spec fn indexes<C>(m: Map<(u64, u64), usize>, s: Seq<(Handle, C)>) -> bool {
    &&& forall|k: (u64, u64)| #[trigger] m.dom().contains(k) ==> (m[k] as int) < s.len() && key_of(s[m[k] as int].0) == k
    &&& forall|i: int| 0 <= i < s.len() ==> m.dom().contains(key_of(#[trigger] s[i].0)) && m[key_of(s[i].0)] == i
}

pub proof fn lemma_index_lookup<C>(m: Map<(u64, u64), usize>, s: Seq<(Handle, C)>, h: Handle)
    requires
        indexes(m, s),
    ensures
        m.dom().contains(key_of(h)) <==> handle_taken(s, h),
        m.dom().contains(key_of(h)) ==> (m[key_of(h)] as int) < s.len() && s[m[key_of(h)] as int].0 == h,
{
    if m.dom().contains(key_of(h)) {
        let i = m[key_of(h)] as int;
        assert(key_of(s[i].0) == key_of(h));
        assert(s[i].0 == h);
    }
    if handle_taken(s, h) {
        let i = choose|i: int| 0 <= i < s.len() && (#[trigger] s[i]).0 == h;
        assert(m.dom().contains(key_of(s[i].0)));
    }
}

pub proof fn lemma_index_push<C>(m: Map<(u64, u64), usize>, s: Seq<(Handle, C)>, h: Handle, c: C, n: usize)
    requires
        indexes(m, s),
        !handle_taken(s, h),
        n == s.len(),
    ensures
        indexes(m.insert(key_of(h), n), s.push((h, c))),
{
    lemma_index_lookup(m, s, h);
    let m2 = m.insert(key_of(h), n);
    let s2 = s.push((h, c));
    assert forall|k: (u64, u64)| #[trigger] m2.dom().contains(k) implies (m2[k] as int) < s2.len() && key_of(s2[m2[k] as int].0) == k by {
        if k != key_of(h) {
            assert(s2[m[k] as int] == s[m[k] as int]);
        }
    }
    assert forall|i: int| 0 <= i < s2.len() implies m2.dom().contains(key_of(#[trigger] s2[i].0)) && m2[key_of(s2[i].0)] == i by {
        if i < s.len() {
            assert(s2[i] == s[i]);
            assert(m.dom().contains(key_of(s[i].0)));
            if key_of(s[i].0) == key_of(h) {
                assert(s[i].0 == h);
            }
        }
    }
}

/// Handle of a registered mesh.
#[derive(Debug, Clone, Copy, PartialEq, Eq, Hash, Structural)]
pub struct MeshId(pub Handle);

impl MeshId {
    /// The handle a mesh gets when its hash is not yet taken.
    pub fn new(mesh: &Mesh) -> (r: MeshId)
        requires
            mesh.wf(),
        ensures
            r.0 == (Handle { hash: mesh_digest(mesh.view()), salt: 0 }),
    {
        MeshId(Handle { hash: digest_mesh(mesh), salt: 0 })
    }
}

/// A stored mesh and its handle.
pub struct MeshEntry {
    pub id: MeshId,
    pub mesh: Mesh,
}

/// Every registered mesh, each stored once, with an index from handle to
/// position.
pub struct MeshStore {
    entries: Vec<MeshEntry>,
    index: HandleIndex,
}

impl MeshStore {
    pub closed spec fn view(&self) -> Seq<(Handle, MeshView)> {
        self.entries@.map_values(|e: MeshEntry| (e.id.0, e.mesh.view()))
    }

    pub closed spec fn wf(&self) -> bool {
        &&& store_wf(self@)
        &&& indexes(handle_index_contents(self.index), self@)
        &&& forall|i: int| 0 <= i < self@.len() ==> (#[trigger] self@[i]).0.hash == mesh_digest(self@[i].1)
        &&& forall|i: int| 0 <= i < self@.len() ==> handle_taken(self@, Handle { hash: (#[trigger] self@[i]).0.hash, salt: 0 })
        &&& forall|i: int| 0 <= i < self.entries@.len() ==> (#[trigger] self.entries@[i]).mesh.wf()
    }

    pub fn new() -> (r: MeshStore)
        ensures
            r.wf(),
            r@ == Seq::<(Handle, MeshView)>::empty(),
    {
        let r = MeshStore { entries: Vec::new(), index: HandleIndex::new() };
        assert(r@ =~= Seq::<(Handle, MeshView)>::empty());
        r
    }

    pub fn len(&self) -> (r: usize)
        ensures
            r == self@.len(),
    {
        self.entries.len()
    }

    /// In a well-formed store, handles and contents are distinct and every
    /// handle carries its content's hash; content whose hash has no salt-zero
    /// handle yet is not stored.
    pub proof fn lemma_first_handle(&self, v: MeshView)
        requires
            self.wf(),
        ensures
            store_wf(self@),
            forall|i: int| 0 <= i < self@.len() ==> (#[trigger] self@[i]).0.hash == mesh_digest(self@[i].1),
            !handle_taken(self@, Handle { hash: mesh_digest(v), salt: 0 }) ==> position_of(self@, v) is None,
    {
        lemma_position_of(self@, v);
        if let Some(i) = position_of(self@, v) {
            assert(self@[i].0.hash == mesh_digest(v));
            assert(handle_taken(self@, Handle { hash: self@[i].0.hash, salt: 0 }));
        }
    }

    /// Stores a mesh under a handle no entry has.
    fn push_new(&mut self, id: MeshId, mesh: Mesh)
        requires
            old(self).wf(),
            mesh.wf(),
            old(self)@.len() + 2 < u64::MAX,
            !handle_taken(old(self)@, id.0),
            id.0.hash == mesh_digest(mesh.view()),
            id.0.salt == 0 || id.0.salt == old(self)@.len() + 1,
            handle_taken(old(self)@.push((id.0, mesh.view())), Handle { hash: id.0.hash, salt: 0 }),
            forall|i: int| 0 <= i < old(self)@.len() ==> (#[trigger] old(self)@[i]).1 != mesh.view(),
        ensures
            final(self).wf(),
            final(self)@ == old(self)@.push((id.0, mesh.view())),
    {
        let ghost s = self@;
        let ghost v = mesh.view();
        let n = self.entries.len();
        proof {
            lemma_index_push(handle_index_contents(self.index), s, id.0, v, n);
            lemma_push_wf(s, id.0, v);
        }
        self.entries.push(MeshEntry { id, mesh });
        self.index.insert((id.0.hash, id.0.salt), n);
        proof {
            let t = self@;
            assert(t =~= s.push((id.0, v)));
            assert forall|i: int| 0 <= i < t.len() implies (#[trigger] t[i]).0.hash == mesh_digest(t[i].1) by {
                if i < s.len() {
                    assert(t[i] == s[i]);
                }
            }
            assert forall|i: int| 0 <= i < t.len() implies handle_taken(t, Handle { hash: (#[trigger] t[i]).0.hash, salt: 0 }) by {
                if i < s.len() {
                    assert(t[i] == s[i]);
                    let w = Handle { hash: s[i].0.hash, salt: 0 };
                    let k = choose|k: int| 0 <= k < s.len() && (#[trigger] s[k]).0 == w;
                    assert(t[k] == s[k]);
                }
            }
        }
    }

    /// Registers a mesh: the handle of equal content already stored, else a
    /// fresh handle derived from the mesh's hash, with the mesh stored under it.
    pub fn register(&mut self, mesh: Mesh) -> (r: MeshId)
        requires
            old(self).wf(),
            mesh.wf(),
            old(self)@.len() + 2 < u64::MAX,
        ensures
            final(self).wf(),
            (r.0, final(self)@) == register_spec(old(self)@, mesh.view(), mesh_digest(mesh.view()), false),
    {
        let ghost s = self@;
        let ghost v = mesh.view();
        let hash = digest_mesh(&mesh);
        let first = Handle { hash, salt: 0 };
        proof {
            lemma_index_lookup(handle_index_contents(self.index), s, first);
            lemma_position_of(s, v);
        }
        match self.index.get((hash, 0)) {
            None => {
                proof {
                    if let Some(i) = position_of(s, v) {
                        assert(s[i].0.hash == hash);
                        assert(handle_taken(s, Handle { hash: s[i].0.hash, salt: 0 }));
                    }
                    assert(s.push((first, v))[s.len() as int].0 == first);
                }
                let id = MeshId(first);
                self.push_new(id, mesh);
                id
            },
            Some(pos) => {
                if self.entries[pos].mesh.same_content(&mesh) {
                    proof {
                        assert(s[pos as int].1 == v);
                        lemma_position_unique(s, v, pos as int);
                    }
                    return self.entries[pos].id;
                }
                let mut i: usize = 0;
                while i < self.entries.len()
                    invariant
                        self.wf(),
                        s == self@,
                        v == mesh.view(),
                        i <= self.entries@.len(),
                        forall|j: int| 0 <= j < i ==> (#[trigger] s[j]).1 != v,
                    decreases self.entries@.len() - i,
                {
                    if self.entries[i].mesh.same_content(&mesh) {
                        proof {
                            assert(s[i as int].1 == v);
                            lemma_position_unique(s, v, i as int);
                        }
                        return self.entries[i].id;
                    }
                    i += 1;
                }
                let id = MeshId(Handle { hash, salt: self.entries.len() as u64 + 1 });
                proof {
                    lemma_position_of(s, v);
                    lemma_fresh_handle(s, hash, false);
                    let k = choose|k: int| 0 <= k < s.len() && (#[trigger] s[k]).0 == first;
                    assert(s.push((id.0, v))[k] == s[k]);
                }
                self.push_new(id, mesh);
                id
            },
        }
    }

    /// The mesh stored under `id`, if any.
    pub fn get(&self, id: MeshId) -> (r: Option<&Mesh>)
        requires
            self.wf(),
        ensures
            match r {
                Some(m) => exists|i: int| 0 <= i < self@.len() && (#[trigger] self@[i]) == (id.0, m.view()),
                None => !handle_taken(self@, id.0),
            },
    {
        proof {
            lemma_index_lookup(handle_index_contents(self.index), self@, id.0);
        }
        match self.index.get((id.0.hash, id.0.salt)) {
            Some(pos) => {
                proof {
                    assert(self@[pos as int] == (id.0, self.entries@[pos as int].mesh.view()));
                }
                Some(&self.entries[pos].mesh)
            },
            None => None,
        }
    }
}

} // verus!
