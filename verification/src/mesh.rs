//! Mesh data as the engine sees it.
//!
//! Vertex attributes and matrices are carried as raw IEEE-754 bit
//! patterns (`u32` words): the engine never computes with them, it only
//! stores, sizes and forwards them, so the words pass through unchanged
//! and every statement about them is exact.  GPU objects (buffers,
//! memory) appear as opaque integer handles chosen by the engine and
//! mapped to driver objects by the caller.

use vstd::prelude::*;
use crate::pool::MemoryBlock;

verus! {

/// Bit pattern of the `f32` value `1.0`.
pub const F32_ONE_BITS: u32 = 0x3F80_0000;

/// Bit pattern of the `f32` value `0.5`.
pub const F32_HALF_BITS: u32 = 0x3F00_0000;

/// Bit pattern of the `f32` value `-2.0`.
pub const F32_NEG_TWO_BITS: u32 = 0xC000_0000;

/// A 4x4 matrix in column-major order; each word is the bit pattern of
/// one `f32` entry.
#[derive(Clone, Copy, Debug, PartialEq, Eq)]
pub struct Mat4 {
    pub w: [u32; 16],
}

impl Mat4 {
    /// All entries zero.
    pub fn zero() -> (r: Mat4)
        ensures
            r == spec_zero_mat4(),
    {
        Mat4 { w: [0, 0, 0, 0, 0, 0, 0, 0, 0, 0, 0, 0, 0, 0, 0, 0] }
    }

    /// The identity matrix.
    pub fn identity() -> (r: Mat4)
        ensures
            r == spec_identity_mat4(),
    {
        Mat4 {
            w: [
                F32_ONE_BITS,
                0,
                0,
                0,
                0,
                F32_ONE_BITS,
                0,
                0,
                0,
                0,
                F32_ONE_BITS,
                0,
                0,
                0,
                0,
                F32_ONE_BITS,
            ],
        }
    }
}

pub open spec fn spec_zero_mat4() -> Mat4 {
    Mat4 { w: [0, 0, 0, 0, 0, 0, 0, 0, 0, 0, 0, 0, 0, 0, 0, 0] }
}

/// `ms` cut or zero-padded to exactly `MAX_JOINTS` entries: the shape of
/// a joint uniform buffer.
pub open spec fn spec_pad_joints(ms: Seq<Mat4>) -> Seq<Mat4> {
    Seq::new(
        MAX_JOINTS as nat,
        |k: int|
            if k < ms.len() {
                ms[k]
            } else {
                spec_zero_mat4()
            },
    )
}

/// Round-trip of the joint-update call: a joint buffer that holds the
/// written matrices in front and zeros behind — which is what every
/// joint write leaves, whatever the buffer held before — reads back as
/// exactly `js` cut or zero-padded to `MAX_JOINTS` entries.
pub proof fn lemma_joint_matrices_round_trip(js: Seq<Mat4>, buf: Seq<Mat4>)
    requires
        buf.len() == MAX_JOINTS,
        forall|k: int|
            0 <= k < MAX_JOINTS ==> buf[k] == (if k < js.len() {
                js[k]
            } else {
                spec_zero_mat4()
            }),
    ensures
        buf =~= spec_pad_joints(js),
{
}

pub open spec fn spec_identity_mat4() -> Mat4 {
    Mat4 {
        w: [
            F32_ONE_BITS,
            0,
            0,
            0,
            0,
            F32_ONE_BITS,
            0,
            0,
            0,
            0,
            F32_ONE_BITS,
            0,
            0,
            0,
            0,
            F32_ONE_BITS,
        ],
    }
}

/// The translation matrix moving the origin to `p`: the identity with
/// `p` as the fourth column.  Pure bit shuffling — a translation matrix
/// holds the position's own words.
pub fn translation_matrix(p: [u32; 3]) -> (r: Mat4)
    ensures
        r == spec_translation_matrix(p),
{
    Mat4 {
        w: [
            F32_ONE_BITS,
            0,
            0,
            0,
            0,
            F32_ONE_BITS,
            0,
            0,
            0,
            0,
            F32_ONE_BITS,
            0,
            p[0],
            p[1],
            p[2],
            F32_ONE_BITS,
        ],
    }
}

pub open spec fn spec_translation_matrix(p: [u32; 3]) -> Mat4 {
    Mat4 {
        w: [
            F32_ONE_BITS,
            0,
            0,
            0,
            0,
            F32_ONE_BITS,
            0,
            0,
            0,
            0,
            F32_ONE_BITS,
            0,
            p[0],
            p[1],
            p[2],
            F32_ONE_BITS,
        ],
    }
}

/// An RGBA color as four `f32` bit patterns.
#[derive(Clone, Copy, Debug, PartialEq, Eq)]
pub struct Color4 {
    pub w: [u32; 4],
}

impl Color4 {
    /// Opaque white, the default base color of every mesh.
    pub fn white() -> (r: Color4)
        ensures
            r == spec_white(),
    {
        Color4 { w: [F32_ONE_BITS, F32_ONE_BITS, F32_ONE_BITS, F32_ONE_BITS] }
    }
}

pub open spec fn spec_white() -> Color4 {
    Color4 { w: [F32_ONE_BITS, F32_ONE_BITS, F32_ONE_BITS, F32_ONE_BITS] }
}

/// Bytes of one ordinary vertex on the GPU.
pub const VERTEX_STRIDE: u64 = 48;

/// Bytes of one skinned vertex on the GPU.
pub const SKINNED_VERTEX_STRIDE: u64 = 80;

/// Bytes of one texture-array vertex on the GPU.
pub const TEXTURED_VERTEX_STRIDE: u64 = 36;

/// Format code of two 32-bit floats, as the graphics API numbers it.
pub const FORMAT_R32G32_SFLOAT: u32 = 103;

/// Format code of three 32-bit floats.
pub const FORMAT_R32G32B32_SFLOAT: u32 = 106;

/// Format code of four 32-bit unsigned integers.
pub const FORMAT_R32G32B32A32_UINT: u32 = 107;

/// Format code of four 32-bit floats.
pub const FORMAT_R32G32B32A32_SFLOAT: u32 = 109;

/// Format code of one 32-bit unsigned integer.
pub const FORMAT_R32_UINT: u32 = 98;

/// How a vertex buffer is stepped: byte stride per vertex at one
/// binding slot.
#[derive(Clone, Copy, Debug, PartialEq, Eq, Structural)]
pub struct VertexBinding {
    pub binding: u32,
    pub stride: u32,
}

/// One vertex attribute: where the shader reads it, its format code,
/// and its byte offset inside the vertex.
#[derive(Clone, Copy, Debug, PartialEq, Eq, Structural)]
pub struct VertexAttribute {
    pub binding: u32,
    pub location: u32,
    pub format: u32,
    pub offset: u32,
}

/// One vertex: position, normal, texture coordinates and color, each
/// component an `f32` bit pattern.
#[derive(Clone, Copy, Debug, PartialEq, Eq)]
pub struct Vertex {
    pub position: [u32; 3],
    pub normal: [u32; 3],
    pub uv: [u32; 2],
    pub color: [u32; 4],
}

impl Vertex {
    /// A vertex with the default white color.
    pub fn new(position: [u32; 3], normal: [u32; 3], uv: [u32; 2]) -> (r: Vertex)
        ensures
            r.position == position,
            r.normal == normal,
            r.uv == uv,
            r.color == spec_white().w,
    {
        Vertex {
            position,
            normal,
            uv,
            color: [F32_ONE_BITS, F32_ONE_BITS, F32_ONE_BITS, F32_ONE_BITS],
        }
    }

    pub fn with_color(position: [u32; 3], normal: [u32; 3], uv: [u32; 2], color: [u32; 4]) -> (r:
        Vertex)
        ensures
            r.position == position,
            r.normal == normal,
            r.uv == uv,
            r.color == color,
    {
        Vertex { position, normal, uv, color }
    }

    /// The vertex buffer layout: one vertex per step at binding zero.
    pub fn get_binding_description() -> (r: VertexBinding)
        ensures
            r == (VertexBinding { binding: 0, stride: VERTEX_STRIDE as u32 }),
    {
        VertexBinding { binding: 0, stride: VERTEX_STRIDE as u32 }
    }

    /// Position, normal, texture coordinates and color, in shader
    /// location order with their byte offsets.
    pub fn get_attribute_descriptions() -> (r: Vec<VertexAttribute>)
        ensures
            r@ =~= seq![
                VertexAttribute {
                    binding: 0,
                    location: 0,
                    format: FORMAT_R32G32B32_SFLOAT,
                    offset: 0,
                },
                VertexAttribute {
                    binding: 0,
                    location: 1,
                    format: FORMAT_R32G32B32_SFLOAT,
                    offset: 12,
                },
                VertexAttribute { binding: 0, location: 2, format: FORMAT_R32G32_SFLOAT, offset: 24 },
                VertexAttribute {
                    binding: 0,
                    location: 3,
                    format: FORMAT_R32G32B32A32_SFLOAT,
                    offset: 32,
                },
            ],
    {
        let mut attrs: Vec<VertexAttribute> = Vec::new();
        attrs.push(VertexAttribute { binding: 0, location: 0, format: FORMAT_R32G32B32_SFLOAT, offset: 0 });
        attrs.push(VertexAttribute { binding: 0, location: 1, format: FORMAT_R32G32B32_SFLOAT, offset: 12 });
        attrs.push(VertexAttribute { binding: 0, location: 2, format: FORMAT_R32G32_SFLOAT, offset: 24 });
        attrs.push(
            VertexAttribute { binding: 0, location: 3, format: FORMAT_R32G32B32A32_SFLOAT, offset: 32 },
        );
        attrs
    }
}

/// One skinned vertex: an ordinary vertex plus up to four joint indices
/// and their weights.
#[derive(Clone, Copy, Debug, PartialEq, Eq)]
pub struct SkinnedVertex {
    pub position: [u32; 3],
    pub normal: [u32; 3],
    pub uv: [u32; 2],
    pub color: [u32; 4],
    pub joint_indices: [u32; 4],
    pub joint_weights: [u32; 4],
}

impl SkinnedVertex {
    pub fn new(
        position: [u32; 3],
        normal: [u32; 3],
        uv: [u32; 2],
        color: [u32; 4],
        joint_indices: [u32; 4],
        joint_weights: [u32; 4],
    ) -> (r: SkinnedVertex)
        ensures
            r == (SkinnedVertex { position, normal, uv, color, joint_indices, joint_weights }),
    {
        SkinnedVertex { position, normal, uv, color, joint_indices, joint_weights }
    }

    /// The skinned vertex buffer layout at binding zero.
    pub fn get_binding_description() -> (r: VertexBinding)
        ensures
            r == (VertexBinding { binding: 0, stride: SKINNED_VERTEX_STRIDE as u32 }),
    {
        VertexBinding { binding: 0, stride: SKINNED_VERTEX_STRIDE as u32 }
    }

    /// The ordinary attributes followed by joint indices and weights.
    pub fn get_attribute_descriptions() -> (r: Vec<VertexAttribute>)
        ensures
            r@ =~= seq![
                VertexAttribute {
                    binding: 0,
                    location: 0,
                    format: FORMAT_R32G32B32_SFLOAT,
                    offset: 0,
                },
                VertexAttribute {
                    binding: 0,
                    location: 1,
                    format: FORMAT_R32G32B32_SFLOAT,
                    offset: 12,
                },
                VertexAttribute { binding: 0, location: 2, format: FORMAT_R32G32_SFLOAT, offset: 24 },
                VertexAttribute {
                    binding: 0,
                    location: 3,
                    format: FORMAT_R32G32B32A32_SFLOAT,
                    offset: 32,
                },
                VertexAttribute {
                    binding: 0,
                    location: 4,
                    format: FORMAT_R32G32B32A32_UINT,
                    offset: 48,
                },
                VertexAttribute {
                    binding: 0,
                    location: 5,
                    format: FORMAT_R32G32B32A32_SFLOAT,
                    offset: 64,
                },
            ],
    {
        let mut attrs: Vec<VertexAttribute> = Vec::new();
        attrs.push(VertexAttribute { binding: 0, location: 0, format: FORMAT_R32G32B32_SFLOAT, offset: 0 });
        attrs.push(VertexAttribute { binding: 0, location: 1, format: FORMAT_R32G32B32_SFLOAT, offset: 12 });
        attrs.push(VertexAttribute { binding: 0, location: 2, format: FORMAT_R32G32_SFLOAT, offset: 24 });
        attrs.push(
            VertexAttribute { binding: 0, location: 3, format: FORMAT_R32G32B32A32_SFLOAT, offset: 32 },
        );
        attrs.push(
            VertexAttribute { binding: 0, location: 4, format: FORMAT_R32G32B32A32_UINT, offset: 48 },
        );
        attrs.push(
            VertexAttribute { binding: 0, location: 5, format: FORMAT_R32G32B32A32_SFLOAT, offset: 64 },
        );
        attrs
    }
}

/// One vertex of a texture-array mesh: the color is replaced by the
/// index of the texture layer to sample.
#[derive(Clone, Copy, Debug, PartialEq, Eq)]
pub struct TexturedVertex {
    pub position: [u32; 3],
    pub normal: [u32; 3],
    pub uv: [u32; 2],
    pub texture_index: u32,
}

impl TexturedVertex {
    pub fn new(position: [u32; 3], normal: [u32; 3], uv: [u32; 2], texture_index: u32) -> (r:
        TexturedVertex)
        ensures
            r == (TexturedVertex { position, normal, uv, texture_index }),
    {
        TexturedVertex { position, normal, uv, texture_index }
    }

    /// The texture-array vertex buffer layout at binding zero.
    pub fn get_binding_description() -> (r: VertexBinding)
        ensures
            r == (VertexBinding { binding: 0, stride: TEXTURED_VERTEX_STRIDE as u32 }),
    {
        VertexBinding { binding: 0, stride: TEXTURED_VERTEX_STRIDE as u32 }
    }

    /// Position, normal and texture coordinates, then the layer index.
    pub fn get_attribute_descriptions() -> (r: Vec<VertexAttribute>)
        ensures
            r@ =~= seq![
                VertexAttribute {
                    binding: 0,
                    location: 0,
                    format: FORMAT_R32G32B32_SFLOAT,
                    offset: 0,
                },
                VertexAttribute {
                    binding: 0,
                    location: 1,
                    format: FORMAT_R32G32B32_SFLOAT,
                    offset: 12,
                },
                VertexAttribute { binding: 0, location: 2, format: FORMAT_R32G32_SFLOAT, offset: 24 },
                VertexAttribute { binding: 0, location: 3, format: FORMAT_R32_UINT, offset: 32 },
            ],
    {
        let mut attrs: Vec<VertexAttribute> = Vec::new();
        attrs.push(VertexAttribute { binding: 0, location: 0, format: FORMAT_R32G32B32_SFLOAT, offset: 0 });
        attrs.push(VertexAttribute { binding: 0, location: 1, format: FORMAT_R32G32B32_SFLOAT, offset: 12 });
        attrs.push(VertexAttribute { binding: 0, location: 2, format: FORMAT_R32G32_SFLOAT, offset: 24 });
        attrs.push(VertexAttribute { binding: 0, location: 3, format: FORMAT_R32_UINT, offset: 32 });
        attrs
    }
}

/// Vertex and index arrays of one mesh, as handed in by the caller.
pub struct MeshData {
    pub vertices: Vec<Vertex>,
    pub indices: Vec<u32>,
}

impl MeshData {
    pub fn new(vertices: Vec<Vertex>, indices: Vec<u32>) -> (r: MeshData)
        ensures
            r.vertices@ == vertices@,
            r.indices@ == indices@,
    {
        MeshData { vertices, indices }
    }
}

/// A skinned mesh: skinned vertices, indices and the initial joint
/// matrices.
pub struct SkinnedMeshData {
    pub vertices: Vec<SkinnedVertex>,
    pub indices: Vec<u32>,
    pub joint_matrices: Vec<Mat4>,
}

impl SkinnedMeshData {
    pub fn new(vertices: Vec<SkinnedVertex>, indices: Vec<u32>, joint_matrices: Vec<Mat4>) -> (r:
        SkinnedMeshData)
        ensures
            r.vertices@ == vertices@,
            r.indices@ == indices@,
            r.joint_matrices@ == joint_matrices@,
    {
        SkinnedMeshData { vertices, indices, joint_matrices }
    }
}

/// A texture-array mesh: textured vertices and indices.
pub struct TexturedMeshData {
    pub vertices: Vec<TexturedVertex>,
    pub indices: Vec<u32>,
}

impl TexturedMeshData {
    pub fn new(vertices: Vec<TexturedVertex>, indices: Vec<u32>) -> (r: TexturedMeshData)
        ensures
            r.vertices@ == vertices@,
            r.indices@ == indices@,
    {
        TexturedMeshData { vertices, indices }
    }
}

/// How a GPU resource's memory is owned: a whole driver allocation of
/// its own, or a sub-allocation of the pool.  A resource has exactly one
/// of the two, never both.
#[derive(Clone, Copy, Debug)]
pub enum MeshMemory {
    DirectOwned(u64),
    Pooled(MemoryBlock),
}

/// How a mesh's copies are drawn: one indexed draw per transform, or one
/// hardware-instanced draw over a buffer of per-instance positions.  The
/// two are mutually exclusive by construction.
pub enum Instancing {
    Individual(Vec<Mat4>),
    Instanced { buffer: u64, memory: MeshMemory, positions: Vec<[u32; 3]> },
}

/// How many joint matrices a skinned mesh's uniform buffer holds.
pub const MAX_JOINTS: usize = 128;

/// Skeletal-animation state of one mesh: the joint uniform buffer
/// contents (always exactly `MAX_JOINTS` entries, zero-filled where
/// unwritten), the handle of its joint uniform buffer, and the handle
/// of its camera uniform buffer where one was created (a mesh turned
/// skinned after creation has none, and its camera then travels only
/// through push constants).
pub struct Skinning {
    pub joint_matrices: Vec<Mat4>,
    pub joint_buffer: u64,
    pub camera_buffer: Option<u64>,
}

/// One renderable unit: its GPU buffers, draw mode, pipeline assignment
/// and optional texture and skinning state.
pub struct MeshEntry {
    pub vertex_buffer: u64,
    pub vertex_memory: MeshMemory,
    pub vertex_buffer_size: u64,
    pub index_buffer: u64,
    pub index_memory: MeshMemory,
    pub index_count: u32,
    pub instancing: Instancing,
    pub pipeline_name: Option<String>,
    pub has_texture: bool,
    pub base_color: Color4,
    pub skinning: Option<Skinning>,
    /// Identity of the logical mesh this slot denotes; never reused.
    pub id: Ghost<nat>,
}

/// One slot of the mesh registry.  Removing a mesh empties its slot and
/// the slot stays inert forever, so indices handed out earlier keep
/// their meaning.
pub enum MeshSlot {
    Live(MeshEntry),
    Empty,
}

impl MeshSlot {
    /// Whether this slot takes part in a frame: an empty slot never
    /// draws, a live one draws when it has at least one instance.
    pub open spec fn spec_drawn(self) -> bool {
        match self {
            MeshSlot::Live(m) => match m.instancing {
                Instancing::Individual(ts) => ts@.len() > 0,
                Instancing::Instanced { positions, .. } => positions@.len() > 0,
            },
            MeshSlot::Empty => false,
        }
    }

    /// The logical mesh this slot denotes, if any.
    pub open spec fn spec_id(self) -> Option<nat> {
        match self {
            MeshSlot::Live(m) => Some(m.id@),
            MeshSlot::Empty => None,
        }
    }
}

} // verus!
