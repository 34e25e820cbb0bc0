//! Mesh data as the runtime sees it: floats are held as their IEEE-754 bit
//! patterns, so content comparison and hashing are bit-for-bit.
use vstd::prelude::*;

verus! {

/// Floats in a position.
pub const POSITION_SIZE: u32 = 3;

/// Floats in a color.
pub const COLOR_SIZE: u32 = 4;

/// Bytes in one float.
pub const F32_SIZE: u32 = 4;

/// Floats that every vertex holds before custom attributes: position, then color.
pub const BASE_FLOATS: usize = 7;

/// Why attribute data was rejected.
#[derive(Debug, Clone, Copy, PartialEq, Eq, Structural)]
pub enum MeshError {
    /// The data does not split into whole chunks of the attribute's size.
    InvalidLength { expected: u32, found: usize },
    /// A custom attribute declared with size zero.
    ZeroSize,
    /// The vertex stride would not fit in a `u32`.
    StrideOverflow,
    /// Shape geometry with the wrong number of floats.
    VertexCount { wanted: u64, given: usize },
}

/// The kind of a per-vertex attribute.
#[derive(Debug, Hash)]
pub enum AttributeType {
    Position,
    Color,
    Custom { name: String, size: u32 },
}

/// What identifies an attribute kind, as plain values.
pub struct AttributeView {
    pub tag: u8,
    pub name: Seq<char>,
    pub size: u32,
}

impl AttributeType {
    pub open spec fn spec_size(&self) -> u32 {
        match self {
            AttributeType::Position => POSITION_SIZE,
            AttributeType::Color => COLOR_SIZE,
            AttributeType::Custom { size, .. } => *size,
        }
    }

    pub open spec fn view(&self) -> AttributeView {
        match self {
            AttributeType::Position => AttributeView { tag: 0, name: "position"@, size: POSITION_SIZE },
            AttributeType::Color => AttributeView { tag: 1, name: "color"@, size: COLOR_SIZE },
            AttributeType::Custom { name, size } => AttributeView { tag: 2, name: name@, size: *size },
        }
    }

    pub fn name(&self) -> (r: &str)
        ensures
            r@ == self.view().name,
    {
        match self {
            AttributeType::Position => {
                proof {
                    reveal_strlit("position");
                }
                "position"
            },
            AttributeType::Color => {
                proof {
                    reveal_strlit("color");
                }
                "color"
            },
            AttributeType::Custom { name, .. } => name.as_str(),
        }
    }

    pub fn size(&self) -> (r: u32)
        ensures
            r == self.spec_size(),
    {
        match self {
            AttributeType::Position => POSITION_SIZE,
            AttributeType::Color => COLOR_SIZE,
            AttributeType::Custom { size, .. } => *size,
        }
    }

    /// A copy with the same view.
    pub fn duplicate(&self) -> (r: AttributeType)
        ensures
            r.view() == self.view(),
            r.spec_size() == self.spec_size(),
    {
        match self {
            AttributeType::Position => AttributeType::Position,
            AttributeType::Color => AttributeType::Color,
            AttributeType::Custom { name, size } => AttributeType::Custom {
                name: name.clone(),
                size: *size,
            },
        }
    }
}

/// An attribute as recorded in a mesh's layout.
#[derive(Debug, Hash)]
pub struct VertexAttribute {
    pub name: String,
    pub size: u32,
    pub attribute_type: AttributeType,
}

impl VertexAttribute {
    pub open spec fn view(&self) -> AttributeView {
        self.attribute_type.view()
    }

    pub fn new(attribute_type: &AttributeType) -> (r: VertexAttribute)
        ensures
            r.view() == attribute_type.view(),
            r.name@ == attribute_type.view().name,
            r.size == attribute_type.spec_size(),
    {
        let name = attribute_type.name();
        VertexAttribute {
            name: name.to_owned(),
            size: attribute_type.size(),
            attribute_type: attribute_type.duplicate(),
        }
    }
}

/// What a vertex holds once an attribute's chunk is written into it: the
/// position and the color overwrite their slots, custom data is appended.
pub open spec fn with_chunk(v: Seq<u32>, t: AttributeView, chunk: Seq<u32>) -> Seq<u32> {
    if t.tag == 0 {
        chunk + v.subrange(3, v.len() as int)
    } else if t.tag == 1 {
        v.subrange(0, 3) + chunk + v.subrange(7, v.len() as int)
    } else {
        v + chunk
    }
}

/// One vertex: position (3 floats), color (4 floats), then custom data, all
/// as bit patterns.
#[derive(Debug, Hash)]
pub struct Vertex {
    data: Vec<u32>,
}

impl Vertex {
    pub closed spec fn view(&self) -> Seq<u32> {
        self.data@
    }

    pub closed spec fn wf(&self) -> bool {
        self.data@.len() >= BASE_FLOATS
    }

    /// A vertex at the origin, with a zero color and no custom data.
    pub fn new() -> (r: Vertex)
        ensures
            r.wf(),
            r@ == Seq::new(7, |i: int| 0u32),
    {
        let mut data: Vec<u32> = Vec::new();
        let mut i: usize = 0;
        while i < BASE_FLOATS
            invariant
                i <= BASE_FLOATS,
                data@ == Seq::new(i as nat, |j: int| 0u32),
            decreases BASE_FLOATS - i,
        {
            data.push(0);
            i += 1;
        }
        Vertex { data }
    }

    /// Writes one attribute's chunk; the chunk must have the attribute's size.
    pub fn add_attribute(&mut self, attribute_type: &AttributeType, data: Vec<u32>) -> (r: Result<(), MeshError>)
        requires
            old(self).wf(),
        ensures
            final(self).wf(),
            r is Ok <==> data@.len() == attribute_type.spec_size(),
            r is Ok ==> final(self)@ == with_chunk(old(self)@, attribute_type.view(), data@),
            r is Err ==> *final(self) == *old(self) && r == Err::<(), MeshError>(
                MeshError::InvalidLength { expected: attribute_type.spec_size(), found: data@.len() as usize },
            ),
    {
        let size = attribute_type.size();
        if data.len() != size as usize {
            return Err(MeshError::InvalidLength { expected: size, found: data.len() });
        }
        let ghost before = self.data@;
        match attribute_type {
            AttributeType::Position => {
                let mut i: usize = 0;
                while i < 3
                    invariant
                        i <= 3,
                        data@.len() == 3,
                        self.data@.len() == before.len(),
                        before.len() >= 7,
                        forall|j: int| 0 <= j < i ==> self.data@[j] == data@[j],
                        forall|j: int| i <= j < before.len() ==> self.data@[j] == before[j],
                    decreases 3 - i,
                {
                    self.data.set(i, data[i]);
                    i += 1;
                }
                assert(self.data@ =~= with_chunk(before, attribute_type.view(), data@));
            },
            AttributeType::Color => {
                let mut i: usize = 0;
                while i < 4
                    invariant
                        i <= 4,
                        data@.len() == 4,
                        self.data@.len() == before.len(),
                        before.len() >= 7,
                        forall|j: int| 3 <= j < 3 + i ==> self.data@[j] == data@[j - 3],
                        forall|j: int| 0 <= j < before.len() && !(3 <= j < 3 + i) ==> self.data@[j] == before[j],
                    decreases 4 - i,
                {
                    self.data.set(3 + i, data[i]);
                    i += 1;
                }
                assert(self.data@ =~= with_chunk(before, attribute_type.view(), data@));
            },
            AttributeType::Custom { .. } => {
                let mut extra = data;
                self.data.append(&mut extra);
            },
        }
        Ok(())
    }

    /// The vertex's floats in layout order.
    pub fn flatten(&self) -> (r: Vec<u32>)
        ensures
            r@ == self@,
    {
        self.data.clone()
    }
}

/// The chunks of `size` floats that `data` splits into, in order (a short
/// tail makes no chunk).
pub open spec fn chunks(data: Seq<u32>, size: nat) -> Seq<Seq<u32>>
    decreases data.len(),
{
    if size == 0 || data.len() < size {
        Seq::empty()
    } else {
        seq![data.take(size as int)] + chunks(data.skip(size as int), size)
    }
}

/// A vertex of an empty mesh after its first attribute chunk.
pub open spec fn fresh_vertex(t: AttributeView, chunk: Seq<u32>) -> Seq<u32> {
    with_chunk(Seq::new(7, |i: int| 0u32), t, chunk)
}

/// The floats of a run of vertices, one after the other.
pub open spec fn concat(vs: Seq<Seq<u32>>) -> Seq<u32>
    decreases vs.len(),
{
    if vs.len() == 0 {
        Seq::empty()
    } else {
        concat(vs.drop_last()) + vs.last()
    }
}

/// How a mesh is drawn: over its index list, or over its vertices in order.
#[derive(Debug, Clone, Copy, PartialEq, Eq, Structural)]
pub enum DrawCall {
    Indexed { count: usize },
    Arrays { count: usize },
}

/// A mesh's content as plain values.
pub struct MeshView {
    pub vertices: Seq<Seq<u32>>,
    pub attributes: Seq<AttributeView>,
    pub indices: Option<Seq<u32>>,
    pub stride: u32,
}

/// Vertices, their attribute layout and an optional index list.
#[derive(Debug, Hash)]
pub struct Mesh {
    vertices: Vec<Vertex>,
    attributes: Vec<VertexAttribute>,
    indices: Option<Vec<u32>>,
    stride: u32,
}

/// Splits `data` into chunks of `size`, as `chunks` describes.
fn split_chunks(data: &Vec<u32>, size: usize) -> (r: Vec<Vec<u32>>)
    requires
        size > 0,
    ensures
        r@.len() == chunks(data@, size as nat).len(),
        forall|i: int| 0 <= i < r@.len() ==> #[trigger] r@[i]@ == chunks(data@, size as nat)[i],
{
    let mut out: Vec<Vec<u32>> = Vec::new();
    let mut start: usize = 0;
    let ghost done: Seq<Seq<u32>> = Seq::empty();
    assert(data@.skip(0) =~= data@);
    while size <= data.len() - start
        invariant
            size > 0,
            start <= data.len(),
            out@.len() == done.len(),
            forall|i: int| 0 <= i < out@.len() ==> #[trigger] out@[i]@ == done[i],
            chunks(data@, size as nat) == done + chunks(data@.skip(start as int), size as nat),
        decreases data.len() - start,
    {
        let mut chunk: Vec<u32> = Vec::new();
        let mut j: usize = 0;
        while j < size
            invariant
                j <= size,
                start + size <= data.len(),
                chunk@ == data@.subrange(start as int, start + j),
            decreases size - j,
        {
            chunk.push(data[start + j]);
            j += 1;
            assert(chunk@ =~= data@.subrange(start as int, start + j));
        }
        proof {
            let rest = data@.skip(start as int);
            assert(rest.take(size as int) =~= chunk@);
            assert(rest.skip(size as int) =~= data@.skip(start + size));
            done = done.push(chunk@);
            assert(chunks(data@, size as nat) =~= done + chunks(data@.skip(start + size), size as nat));
        }
        out.push(chunk);
        start = start + size;
    }
    proof {
        assert(chunks(data@.skip(start as int), size as nat) =~= Seq::empty());
        assert(done + Seq::<Seq<u32>>::empty() =~= done);
    }
    out
}

impl Mesh {
    pub closed spec fn view(&self) -> MeshView {
        MeshView {
            vertices: self.vertices@.map_values(|v: Vertex| v@),
            attributes: self.attributes@.map_values(|a: VertexAttribute| a.view()),
            indices: match self.indices {
                Some(i) => Some(i@),
                None => None,
            },
            stride: self.stride,
        }
    }

    pub closed spec fn wf(&self) -> bool {
        &&& forall|i: int| 0 <= i < self.vertices@.len() ==> (#[trigger] self.vertices@[i]).wf()
        &&& forall|i: int| 0 <= i < self.attributes@.len() ==> {
            let a = #[trigger] self.attributes@[i];
            a.name@ == a.view().name && a.size == a.view().size
        }
    }

    /// An empty mesh: no vertices, no attributes, no indices.
    pub fn new() -> (r: Mesh)
        ensures
            r.wf(),
            r.view().vertices.len() == 0,
            r.view().attributes.len() == 0,
            r.view().indices is None,
            r.view().stride == 0,
    {
        Mesh { vertices: Vec::new(), attributes: Vec::new(), indices: None, stride: 0 }
    }

    /// Adds an attribute to the layout and writes its data, one chunk of the
    /// attribute's size per vertex. An empty mesh gets one vertex per chunk;
    /// otherwise chunk `i` goes to vertex `i` for as many as both have.
    pub fn add_attribute(&mut self, attribute_type: AttributeType, data: Vec<u32>) -> (r: Result<(), MeshError>)
        requires
            old(self).wf(),
        ensures
            final(self).wf(),
            r is Ok <==> attribute_type.spec_size() > 0
                && data@.len() % (attribute_type.spec_size() as nat) == 0
                && old(self).view().stride + attribute_type.spec_size() * F32_SIZE <= u32::MAX,
            r == Err::<(), MeshError>(MeshError::ZeroSize) <==> attribute_type.spec_size() == 0,
            r == Err::<(), MeshError>(MeshError::InvalidLength {
                expected: attribute_type.spec_size(),
                found: data@.len() as usize,
            }) <==> attribute_type.spec_size() > 0 && data@.len() % (attribute_type.spec_size() as nat) != 0,
            r == Err::<(), MeshError>(MeshError::StrideOverflow) <==> attribute_type.spec_size() > 0
                && data@.len() % (attribute_type.spec_size() as nat) == 0
                && old(self).view().stride + attribute_type.spec_size() * F32_SIZE > u32::MAX,
            r is Err ==> final(self).view() == old(self).view(),
            r is Ok ==> ({
                let t = attribute_type.view();
                let cs = chunks(data@, attribute_type.spec_size() as nat);
                let before = old(self).view();
                let after = final(self).view();
                &&& after.attributes == before.attributes.push(t)
                &&& after.stride == before.stride + attribute_type.spec_size() * F32_SIZE
                &&& after.indices == before.indices
                &&& before.vertices.len() == 0 ==> after.vertices == cs.map_values(
                    |c: Seq<u32>| fresh_vertex(t, c),
                )
                &&& before.vertices.len() > 0 ==> after.vertices.len() == before.vertices.len()
                    && forall|i: int| 0 <= i < before.vertices.len() ==> #[trigger] after.vertices[i] == if i < cs.len() {
                        with_chunk(before.vertices[i], t, cs[i])
                    } else {
                        before.vertices[i]
                    }
            }),
    {
        let size = attribute_type.size();
        if size == 0 {
            return Err(MeshError::ZeroSize);
        }
        if data.len() % (size as usize) != 0 {
            return Err(MeshError::InvalidLength { expected: size, found: data.len() });
        }
        if size > (u32::MAX - self.stride) / F32_SIZE {
            return Err(MeshError::StrideOverflow);
        }
        let ghost before = self.view();
        let ghost t = attribute_type.view();
        let parts = split_chunks(&data, size as usize);
        let ghost cs = chunks(data@, size as nat);
        self.stride = self.stride + size * F32_SIZE;
        self.attributes.push(VertexAttribute::new(&attribute_type));
        let ghost attrs = self.attributes@;
        let ghost stride = self.stride;
        let ghost indices = self.indices;
        if self.vertices.len() == 0 {
            let mut i: usize = 0;
            while i < parts.len()
                invariant
                    i <= parts@.len(),
                    parts@.len() == cs.len(),
                    forall|k: int| 0 <= k < parts@.len() ==> #[trigger] parts@[k]@ == cs[k],
                    attribute_type.view() == t,
                    attribute_type.spec_size() == size,
                    size > 0,
                    forall|k: int| 0 <= k < self.attributes@.len() ==> {
                        let a = #[trigger] self.attributes@[k];
                        a.name@ == a.view().name && a.size == a.view().size
                    },
                    cs == chunks(data@, size as nat),
                    self.attributes@ == attrs,
                    self.stride == stride,
                    self.indices == indices,
                    self.vertices@.len() == i,
                    forall|k: int| 0 <= k < i ==> (#[trigger] self.vertices@[k]).wf() && self.vertices@[k]@
                        == fresh_vertex(t, cs[k]),
                decreases parts@.len() - i,
            {
                let mut v = Vertex::new();
                let chunk = parts[i].clone();
                let res = v.add_attribute(&attribute_type, chunk);
                proof {
                    assert(cs[i as int].len() == size) by {
                        lemma_chunk_len(data@, size as nat, i as int);
                    }
                }
                self.vertices.push(v);
                i += 1;
            }
        } else {
            let n = self.vertices.len();
            let mut i: usize = 0;
            while i < n && i < parts.len()
                invariant
                    i <= n,
                    i <= parts@.len(),
                    n == before.vertices.len(),
                    parts@.len() == cs.len(),
                    forall|k: int| 0 <= k < parts@.len() ==> #[trigger] parts@[k]@ == cs[k],
                    attribute_type.view() == t,
                    attribute_type.spec_size() == size,
                    size > 0,
                    forall|k: int| 0 <= k < self.attributes@.len() ==> {
                        let a = #[trigger] self.attributes@[k];
                        a.name@ == a.view().name && a.size == a.view().size
                    },
                    cs == chunks(data@, size as nat),
                    self.attributes@ == attrs,
                    self.stride == stride,
                    self.indices == indices,
                    self.vertices@.len() == n,
                    forall|k: int| 0 <= k < n ==> (#[trigger] self.vertices@[k]).wf(),
                    forall|k: int| 0 <= k < n ==> #[trigger] self.vertices@[k]@ == if k < i {
                        with_chunk(before.vertices[k], t, cs[k])
                    } else {
                        before.vertices[k]
                    },
                decreases n - i,
            {
                let ghost old_v = self.vertices@[i as int]@;
                assert(old_v == before.vertices[i as int]);
                let mut v = Vertex { data: self.vertices[i].data.clone() };
                let chunk = parts[i].clone();
                assert(v@ == old_v);
                assert(chunk@ == cs[i as int]);
                proof {
                    assert(cs[i as int].len() == size) by {
                        lemma_chunk_len(data@, size as nat, i as int);
                    }
                }
                let res = v.add_attribute(&attribute_type, chunk);
                assert(v@ == with_chunk(old_v, t, cs[i as int]));
                self.vertices.set(i, v);
                assert(self.vertices@[i as int]@ == with_chunk(before.vertices[i as int], t, cs[i as int]));
                i += 1;
            }
            proof {
                let after = self.view();
                assert forall|k: int| 0 <= k < n implies #[trigger] after.vertices[k] == if k < cs.len() {
                    with_chunk(before.vertices[k], t, cs[k])
                } else {
                    before.vertices[k]
                } by {
                    assert(self.vertices@[k]@ == after.vertices[k]);
                    assert(k < i <==> k < cs.len());
                    if k < i {
                        assert(self.vertices@[k]@ == with_chunk(before.vertices[k], t, cs[k]));
                    } else {
                        assert(self.vertices@[k]@ == before.vertices[k]);
                    }
                }
            }
        }
        proof {
            let after = self.view();
            assert(after.attributes =~= before.attributes.push(t));
            if before.vertices.len() == 0 {
                assert(after.vertices =~= cs.map_values(|c: Seq<u32>| fresh_vertex(t, c)));
            }
        }
        Ok(())
    }

    /// `add_attribute`, in builder form.
    pub fn with_attribute(self, attribute_type: AttributeType, data: Vec<u32>) -> (r: Result<Mesh, MeshError>)
        requires
            self.wf(),
        ensures
            r is Ok ==> r->Ok_0.wf(),
            r is Err <==> attribute_type.spec_size() == 0
                || data@.len() % (attribute_type.spec_size() as nat) != 0
                || self.view().stride + attribute_type.spec_size() * F32_SIZE > u32::MAX,
            r is Ok ==> ({
                let t = attribute_type.view();
                let cs = chunks(data@, attribute_type.spec_size() as nat);
                let after = r->Ok_0.view();
                &&& after.attributes == self.view().attributes.push(t)
                &&& after.stride == self.view().stride + attribute_type.spec_size() * F32_SIZE
                &&& after.indices == self.view().indices
                &&& self.view().vertices.len() == 0 ==> after.vertices == cs.map_values(
                    |c: Seq<u32>| fresh_vertex(t, c),
                )
                &&& self.view().vertices.len() > 0 ==> after.vertices.len() == self.view().vertices.len()
                    && forall|i: int| 0 <= i < self.view().vertices.len() ==> #[trigger] after.vertices[i] == if i < cs.len() {
                        with_chunk(self.view().vertices[i], t, cs[i])
                    } else {
                        self.view().vertices[i]
                    }
            }),
    {
        let mut m = self;
        match m.add_attribute(attribute_type, data) {
            Ok(()) => Ok(m),
            Err(e) => Err(e),
        }
    }

    pub fn set_indices(&mut self, indices: Vec<u32>)
        requires
            old(self).wf(),
        ensures
            final(self).wf(),
            final(self).view() == (MeshView { indices: Some(indices@), ..old(self).view() }),
    {
        self.indices = Some(indices);
    }

    pub fn with_indices(self, indices: Vec<u32>) -> (r: Mesh)
        requires
            self.wf(),
        ensures
            r.wf(),
            r.view() == (MeshView { indices: Some(indices@), ..self.view() }),
    {
        let mut m = self;
        m.set_indices(indices);
        m
    }

    pub fn vertex_count(&self) -> (r: usize)
        ensures
            r == self.view().vertices.len(),
    {
        self.vertices.len()
    }

    pub fn stride(&self) -> (r: u32)
        ensures
            r == self.view().stride,
    {
        self.stride
    }

    /// The index list, if the mesh has one.
    pub fn indices(&self) -> (r: Option<&Vec<u32>>)
        ensures
            match r {
                Some(i) => self.view().indices == Some(i@),
                None => self.view().indices is None,
            },
    {
        match &self.indices {
            Some(i) => Some(i),
            None => None,
        }
    }

    /// The draw call for this mesh: indexed when it has an index list, else
    /// over all its vertices.
    pub fn draw_call(&self) -> (r: DrawCall)
        ensures
            r == match self.view().indices {
                Some(i) => DrawCall::Indexed { count: i.len() as usize },
                None => DrawCall::Arrays { count: self.view().vertices.len() as usize },
            },
    {
        match &self.indices {
            Some(i) => DrawCall::Indexed { count: i.len() },
            None => DrawCall::Arrays { count: self.vertices.len() },
        }
    }

    /// Each attribute's float count, in layout order.
    pub fn attribute_sizes(&self) -> (r: Vec<u32>)
        ensures
            r@.len() == self.view().attributes.len(),
            forall|i: int| 0 <= i < r@.len() ==> r@[i] == #[trigger] self.view().attributes[i].size,
    {
        let mut out: Vec<u32> = Vec::new();
        let mut i: usize = 0;
        while i < self.attributes.len()
            invariant
                i <= self.attributes@.len(),
                out@.len() == i,
                forall|k: int| 0 <= k < i ==> out@[k] == #[trigger] self.view().attributes[k].size,
            decreases self.attributes@.len() - i,
        {
            out.push(self.attributes[i].attribute_type.size());
            i += 1;
        }
        out
    }

    /// All vertices' floats, one vertex after the other, as uploaded to the GPU.
    pub fn flatten(&self) -> (r: Vec<u32>)
        ensures
            r@ == concat(self.view().vertices),
    {
        let mut out: Vec<u32> = Vec::new();
        let mut i: usize = 0;
        while i < self.vertices.len()
            invariant
                i <= self.vertices@.len(),
                out@ == concat(self.view().vertices.take(i as int)),
            decreases self.vertices@.len() - i,
        {
            let mut part = self.vertices[i].flatten();
            proof {
                let vs = self.view().vertices;
                assert(vs.take(i + 1).drop_last() =~= vs.take(i as int));
            }
            out.append(&mut part);
            i += 1;
        }
        proof {
            assert(self.view().vertices.take(i as int) =~= self.view().vertices);
        }
        out
    }
}

proof fn lemma_chunk_len(data: Seq<u32>, size: nat, i: int)
    requires
        size > 0,
        0 <= i < chunks(data, size).len(),
    ensures
        chunks(data, size)[i].len() == size,
    decreases data.len(),
{
    if i > 0 {
        lemma_chunk_len(data.skip(size as int), size, i - 1);
    }
}

/// Compares two float runs bit for bit.
pub fn bits_equal(a: &Vec<u32>, b: &Vec<u32>) -> (r: bool)
    ensures
        r == (a@ == b@),
{
    if a.len() != b.len() {
        return false;
    }
    let mut i: usize = 0;
    while i < a.len()
        invariant
            i <= a@.len(),
            a@.len() == b@.len(),
            forall|j: int| 0 <= j < i ==> a@[j] == b@[j],
        decreases a@.len() - i,
    {
        if a[i] != b[i] {
            return false;
        }
        i += 1;
    }
    assert(a@ =~= b@);
    true
}

fn attributes_equal(a: &AttributeType, b: &AttributeType) -> (r: bool)
    ensures
        r == (a.view() == b.view()),
{
    match (a, b) {
        (AttributeType::Position, AttributeType::Position) => true,
        (AttributeType::Color, AttributeType::Color) => true,
        (AttributeType::Custom { name: n, size: s }, AttributeType::Custom { name: m, size: t }) => {
            *s == *t && *n == *m
        },
        _ => false,
    }
}

impl Mesh {
    /// Whether two meshes hold the same vertices, layout, indices and stride.
    pub fn same_content(&self, other: &Mesh) -> (r: bool)
        ensures
            r == (self.view() == other.view()),
    {
        let ghost a = self.view();
        let ghost b = other.view();
        if self.stride != other.stride {
            return false;
        }
        if self.vertices.len() != other.vertices.len() {
            assert(a.vertices.len() != b.vertices.len());
            return false;
        }
        if self.attributes.len() != other.attributes.len() {
            assert(a.attributes.len() != b.attributes.len());
            return false;
        }
        let same_indices = match (&self.indices, &other.indices) {
            (Some(x), Some(y)) => bits_equal(x, y),
            (None, None) => true,
            _ => false,
        };
        if !same_indices {
            return false;
        }
        let mut i: usize = 0;
        while i < self.vertices.len()
            invariant
                i <= self.vertices@.len(),
                a == self.view(),
                b == other.view(),
                self.vertices@.len() == other.vertices@.len(),
                forall|j: int| 0 <= j < i ==> a.vertices[j] == b.vertices[j],
            decreases self.vertices@.len() - i,
        {
            if !bits_equal(&self.vertices[i].data, &other.vertices[i].data) {
                assert(a.vertices[i as int] != b.vertices[i as int]);
                return false;
            }
            i += 1;
        }
        let mut k: usize = 0;
        while k < self.attributes.len()
            invariant
                k <= self.attributes@.len(),
                a == self.view(),
                b == other.view(),
                self.attributes@.len() == other.attributes@.len(),
                forall|j: int| 0 <= j < k ==> a.attributes[j] == b.attributes[j],
            decreases self.attributes@.len() - k,
        {
            if !attributes_equal(&self.attributes[k].attribute_type, &other.attributes[k].attribute_type) {
                assert(a.attributes[k as int] != b.attributes[k as int]);
                return false;
            }
            k += 1;
        }
        assert(a.vertices =~= b.vertices);
        assert(a.attributes =~= b.attributes);
        true
    }
}

/// The content hash of a mesh. It is a function of the mesh's content alone.
pub uninterp spec fn mesh_digest(m: MeshView) -> u64;

/// Relies on ahash's `AHasher::default()`, which (the crate being built
/// without its `runtime-rng` feature) uses fixed keys, fed the mesh's derived
/// `Hash`. For a well-formed mesh every field it visits is determined by
/// `Mesh::view` (attribute names and sizes agree with their types).
#[verifier::external_body]
pub(crate) fn digest_mesh(m: &Mesh) -> (r: u64)
    requires
        m.wf(),
    ensures
        r == mesh_digest(m.view()),
{
    let mut hasher = ahash::AHasher::default();
    std::hash::Hash::hash(m, &mut hasher);
    std::hash::Hasher::finish(&hasher)
}

} // verus!
