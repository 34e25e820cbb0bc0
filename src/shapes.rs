//! 2D shape descriptors and the geometry they stand for: unit shapes
//! centred on the origin, placed and sized by a transform.
use vstd::prelude::*;
use crate::math::{ONE_BITS, Transform, Vec2Bits, Vec3Bits, ZERO_BITS};
use crate::mesh::{AttributeType, AttributeView, Mesh, MeshError, MeshView, chunks, fresh_vertex};

verus! {

/// Bit pattern of `0.5f32`.
pub const HALF_BITS: u32 = 0x3f00_0000;

/// Bit pattern of `-0.5f32`.
pub const MINUS_HALF_BITS: u32 = 0xbf00_0000;

/// The primitive topology a mesh is drawn with.
#[derive(Debug, Clone, Copy, PartialEq, Eq, Hash, Structural)]
pub enum DrawMode {
    Triangles,
    TriangleFan,
    Points,
}

/// Flattens positions into three floats each.
pub fn positions_from_vec3s(positions: Vec<Vec3Bits>) -> (r: Vec<u32>)
    ensures
        r@.len() == 3 * positions@.len(),
        forall|i: int| 0 <= i < positions@.len() ==> r@[3 * i] == (#[trigger] positions@[i]).x && r@[3 * i + 1]
            == positions@[i].y && r@[3 * i + 2] == positions@[i].z,
{
    let mut out: Vec<u32> = Vec::new();
    let mut i: usize = 0;
    while i < positions.len()
        invariant
            i <= positions@.len(),
            out@.len() == 3 * i,
            forall|j: int| 0 <= j < i ==> out@[3 * j] == (#[trigger] positions@[j]).x && out@[3 * j + 1]
                == positions@[j].y && out@[3 * j + 2] == positions@[j].z,
        decreases positions@.len() - i,
    {
        let p = positions[i];
        out.push(p.x);
        out.push(p.y);
        out.push(p.z);
        i += 1;
    }
    out
}

/// A 2D shape: position and size as float bit patterns. A circle has as many
/// vertices as segments.
#[derive(Debug, Clone, Copy, PartialEq, Eq, Hash, Structural)]
pub enum Shape2D {
    Triangle { pos: Vec2Bits, size: Vec2Bits },
    Rectangle { pos: Vec2Bits, size: Vec2Bits },
    Square { pos: Vec2Bits, size: u32 },
    Circle { pos: Vec2Bits, radius: u32, segments: u32 },
}

pub open spec fn triangle_vertices() -> Seq<u32> {
    seq![MINUS_HALF_BITS, MINUS_HALF_BITS, ZERO_BITS, HALF_BITS, MINUS_HALF_BITS, ZERO_BITS, ZERO_BITS, HALF_BITS, ZERO_BITS]
}

pub open spec fn rectangle_vertices() -> Seq<u32> {
    seq![
        MINUS_HALF_BITS, MINUS_HALF_BITS, ZERO_BITS,
        HALF_BITS, MINUS_HALF_BITS, ZERO_BITS,
        HALF_BITS, HALF_BITS, ZERO_BITS,
        MINUS_HALF_BITS, HALF_BITS, ZERO_BITS,
    ]
}

/// A triangle fan over the first `i` segments of an `n`-segment circle:
/// segment `j` is the triangle `0, (j + 1) % n, j`.
pub open spec fn circle_fan(n: u32, i: nat) -> Seq<u32>
    decreases i,
{
    if i == 0 {
        Seq::empty()
    } else {
        let j = (i - 1) as u32;
        circle_fan(n, (i - 1) as nat) + seq![0u32, ((j + 1) % (n as int)) as u32, j]
    }
}

/// The layout of a shape mesh: positions only.
pub open spec fn position_layout() -> Seq<AttributeView> {
    seq![AttributeType::Position.view()]
}

impl Shape2D {
    pub open spec fn spec_indices(self) -> Seq<u32> {
        match self {
            Shape2D::Triangle { .. } => seq![0u32, 1, 2],
            Shape2D::Rectangle { .. } | Shape2D::Square { .. } => seq![0u32, 1, 3, 1, 2, 3],
            Shape2D::Circle { segments, .. } => circle_fan(segments, segments as nat),
        }
    }

    /// Floats of position data the shape's mesh holds.
    pub open spec fn spec_vertex_floats(self) -> nat {
        match self {
            Shape2D::Triangle { .. } => 9,
            Shape2D::Rectangle { .. } | Shape2D::Square { .. } => 12,
            Shape2D::Circle { segments, .. } => 3 * segments as nat,
        }
    }

    pub open spec fn spec_transform(self) -> Transform {
        let t = Transform::identity();
        match self {
            Shape2D::Triangle { pos, size } | Shape2D::Rectangle { pos, size } => Transform {
                translation: Vec3Bits { x: pos.x, y: pos.y, z: ZERO_BITS },
                scale: Vec3Bits { x: size.x, y: size.y, z: ONE_BITS },
                ..t
            },
            Shape2D::Square { pos, size } => Transform {
                translation: Vec3Bits { x: pos.x, y: pos.y, z: ZERO_BITS },
                scale: Vec3Bits { x: size, y: size, z: ONE_BITS },
                ..t
            },
            Shape2D::Circle { pos, radius, .. } => Transform {
                translation: Vec3Bits { x: pos.x, y: pos.y, z: ZERO_BITS },
                scale: Vec3Bits { x: radius, y: radius, z: ONE_BITS },
                ..t
            },
        }
    }

    pub fn triangle(pos: Vec2Bits, size: Vec2Bits) -> (r: Shape2D)
        ensures
            r == (Shape2D::Triangle { pos, size }),
    {
        Shape2D::Triangle { pos, size }
    }

    pub fn rectangle(pos: Vec2Bits, size: Vec2Bits) -> (r: Shape2D)
        ensures
            r == (Shape2D::Rectangle { pos, size }),
    {
        Shape2D::Rectangle { pos, size }
    }

    pub fn square(pos: Vec2Bits, size: u32) -> (r: Shape2D)
        ensures
            r == (Shape2D::Square { pos, size }),
    {
        Shape2D::Square { pos, size }
    }

    pub fn circle(pos: Vec2Bits, radius: u32, segments: u32) -> (r: Shape2D)
        ensures
            r == (Shape2D::Circle { pos, radius, segments }),
    {
        Shape2D::Circle { pos, radius, segments }
    }

    /// Floats of position data the shape's mesh holds: three per vertex.
    pub fn vertex_floats(&self) -> (r: u64)
        ensures
            r == self.spec_vertex_floats(),
    {
        match self {
            Shape2D::Triangle { .. } => 9,
            Shape2D::Rectangle { .. } | Shape2D::Square { .. } => 12,
            Shape2D::Circle { segments, .. } => 3 * (*segments as u64),
        }
    }

    /// The unit geometry of shapes with fixed corners; `None` for a circle,
    /// whose points lie on the unit circle at evenly spaced angles.
    pub fn builtin_vertices(&self) -> (r: Option<Vec<u32>>)
        ensures
            match *self {
                Shape2D::Triangle { .. } => r matches Some(v) && v@ == triangle_vertices(),
                Shape2D::Rectangle { .. } | Shape2D::Square { .. } => r matches Some(v) && v@ == rectangle_vertices(),
                Shape2D::Circle { .. } => r is None,
            },
    {
        match self {
            Shape2D::Triangle { .. } => {
                let v = vec![MINUS_HALF_BITS, MINUS_HALF_BITS, ZERO_BITS, HALF_BITS, MINUS_HALF_BITS, ZERO_BITS, ZERO_BITS, HALF_BITS, ZERO_BITS];
                assert(v@ =~= triangle_vertices());
                Some(v)
            },
            Shape2D::Rectangle { .. } | Shape2D::Square { .. } => {
                let v = vec![
                    MINUS_HALF_BITS, MINUS_HALF_BITS, ZERO_BITS,
                    HALF_BITS, MINUS_HALF_BITS, ZERO_BITS,
                    HALF_BITS, HALF_BITS, ZERO_BITS,
                    MINUS_HALF_BITS, HALF_BITS, ZERO_BITS,
                ];
                assert(v@ =~= rectangle_vertices());
                Some(v)
            },
            Shape2D::Circle { .. } => None,
        }
    }

    /// The topology the shape is drawn with: triangles for a triangle or a
    /// rectangle, a fan for a circle with segments, points otherwise.
    pub fn draw_mode(&self) -> (r: DrawMode)
        ensures
            r == match *self {
                Shape2D::Triangle { .. } | Shape2D::Rectangle { .. } => DrawMode::Triangles,
                Shape2D::Circle { segments, .. } => if segments > 0 { DrawMode::TriangleFan } else { DrawMode::Points },
                Shape2D::Square { .. } => DrawMode::Points,
            },
    {
        match self {
            Shape2D::Triangle { .. } | Shape2D::Rectangle { .. } => DrawMode::Triangles,
            Shape2D::Circle { segments, .. } if *segments > 0 => DrawMode::TriangleFan,
            _ => DrawMode::Points,
        }
    }

    /// The shape's index list: one triangle, two for a rectangle or square,
    /// a fan of one triangle per segment for a circle.
    pub fn indices(&self) -> (r: Vec<u32>)
        ensures
            r@ == self.spec_indices(),
    {
        match self {
            Shape2D::Triangle { .. } => {
                let v = vec![0u32, 1, 2];
                assert(v@ =~= self.spec_indices());
                v
            },
            Shape2D::Rectangle { .. } | Shape2D::Square { .. } => {
                let v = vec![0u32, 1, 3, 1, 2, 3];
                assert(v@ =~= self.spec_indices());
                v
            },
            Shape2D::Circle { segments, .. } => {
                let n = *segments;
                let mut out: Vec<u32> = Vec::new();
                let mut i: u32 = 0;
                while i < n
                    invariant
                        i <= n,
                        out@ == circle_fan(n, i as nat),
                    decreases n - i,
                {
                    out.push(0);
                    out.push((i + 1) % n);
                    out.push(i);
                    proof {
                        assert(out@ =~= circle_fan(n, (i + 1) as nat));
                    }
                    i += 1;
                }
                out
            },
        }
    }

    /// Where the unit shape is placed: translated to `pos`, scaled by its
    /// size (both axes by the size or radius of a square or circle).
    pub fn transform(&self) -> (r: Transform)
        ensures
            r == self.spec_transform(),
    {
        match self {
            Shape2D::Triangle { pos, size } | Shape2D::Rectangle { pos, size } => {
                Transform::from_translation(pos.extend(ZERO_BITS)).with_scale(size.extend(ONE_BITS))
            },
            Shape2D::Square { pos, size } => {
                Transform::from_translation(pos.extend(ZERO_BITS)).with_scale(Vec2Bits::splat(*size).extend(ONE_BITS))
            },
            Shape2D::Circle { pos, radius, .. } => {
                Transform::from_translation(pos.extend(ZERO_BITS)).with_scale(Vec2Bits::splat(*radius).extend(ONE_BITS))
            },
        }
    }

    /// The shape's mesh from its unit geometry: `vertices` holds three floats
    /// per vertex and must have the shape's vertex count.
    pub fn mesh(&self, vertices: Vec<u32>) -> (r: Result<Mesh, MeshError>)
        ensures
            r is Ok <==> vertices@.len() == self.spec_vertex_floats(),
            r is Err ==> r == Err::<Mesh, MeshError>(MeshError::VertexCount {
                wanted: self.spec_vertex_floats() as u64,
                given: vertices@.len() as usize,
            }),
            r matches Ok(m) ==> m.wf() && m.view() == (MeshView {
                vertices: chunks(vertices@, 3).map_values(|c: Seq<u32>| fresh_vertex(AttributeType::Position.view(), c)),
                attributes: position_layout(),
                indices: Some(self.spec_indices()),
                stride: 12,
            }),
    {
        let expected = self.vertex_floats();
        if vertices.len() as u64 != expected {
            return Err(MeshError::VertexCount { wanted: expected, given: vertices.len() });
        }
        let empty = Mesh::new();
        let positioned = match empty.with_attribute(AttributeType::Position, vertices) {
            Ok(m) => m,
            Err(e) => {
                proof {
                    assert(vertices@.len() % 3 == 0);
                }
                return Err(e);
            },
        };
        proof {
            assert(positioned.view().attributes =~= position_layout());
        }
        Ok(positioned.with_indices(self.indices()))
    }
}

} // verus!
