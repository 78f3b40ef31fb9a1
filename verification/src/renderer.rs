//! The renderer: mesh registry, pipeline registry, frame pacing and the
//! pooled allocator, tied together under the engine's invariant.
//!
//! All GPU objects appear as opaque integer handles the renderer makes
//! up; the caller keeps the table from handles to driver objects, queries
//! the driver for plain values (memory requirements), and replays the
//! recorded command stream.  The invariant couples the mesh registry to
//! the pools: every pooled block held by a mesh is live in its pool, and
//! no two meshes hold the same block, so freeing on removal is sound and
//! no two live meshes ever share pool bytes.

use vstd::prelude::*;
use vstd::string::StringExecFns;
use crate::commands::{
    spec_frame_cmds,
    spec_requested_name,
    spec_resolved_pipeline,
    DescriptorSource,
    DrawCommand,
    PushConstants,
    PushData,
};
use crate::frame::FramePacer;
use crate::mesh::{
    spec_translation_matrix,
    spec_white,
    Color4,
    Instancing,
    Mat4,
    MeshData,
    MeshEntry,
    MeshMemory,
    MeshSlot,
    SkinnedMeshData,
    Skinning,
    Vertex,
    F32_HALF_BITS,
    F32_NEG_TWO_BITS,
    F32_ONE_BITS,
    MAX_JOINTS,
    VERTEX_STRIDE,
};
use crate::pipelines::{Pipeline, PipelineRegistry};
use crate::pool::{MemoryBlock, MemoryPoolManager, PoolStats, RegionModel, MAX_POOL_BYTES};

verus! {

/// Why an engine call was refused.
#[derive(Clone, Copy, Debug, PartialEq, Eq, Structural)]
pub enum EngineError {
    /// The mesh index is outside the registry.
    MeshIndexOutOfBounds,
    /// No pipeline of that name exists.
    PipelineNotFound,
}

/// Memory requirements the driver reported for one resource, plus the
/// memory type chosen for it.
#[derive(Clone, Copy, Debug)]
pub struct MemReq {
    pub size: u64,
    pub alignment: u64,
    pub memory_type_index: u32,
}

impl MemReq {
    /// The machine limits the pool asks of a request.
    pub open spec fn spec_valid(self) -> bool {
        &&& 1 <= self.size
        &&& 1 <= self.alignment
        &&& self.size + self.alignment <= MAX_POOL_BYTES
    }
}

/// The synchronous streaming upload the caller must perform: copy
/// `copy_size` bytes into the staging buffer of the given generation,
/// record a one-shot copy into `dst_buffer`, submit, and block until the
/// copy completes.
#[derive(Clone, Copy, Debug, PartialEq, Eq, Structural)]
pub struct UploadPlan {
    pub staging_generation: u64,
    pub copy_size: u64,
    pub dst_buffer: u64,
}

/// Everything one frame asks of the caller: which slot's command buffer
/// to record, and the commands to replay into it.
pub struct FramePlan {
    pub slot: usize,
    pub commands: Vec<DrawCommand>,
}

/// Handles of the raw single-mesh buffers kept by the oldest demo entry
/// points; drawn only when the mesh registry is empty.
#[derive(Clone, Copy, Debug)]
pub struct LegacyBuffers {
    pub vertex_buffer: u64,
    pub index_buffer: Option<u64>,
    pub index_count: u32,
    pub instance_count: u32,
}

/// Clear color of every frame: opaque magenta, loud on purpose so that
/// an unpainted region is impossible to miss.
pub open spec fn spec_clear_magenta() -> Color4 {
    Color4 { w: [F32_ONE_BITS, 0, F32_ONE_BITS, F32_ONE_BITS] }
}

/// Fixed model matrix of the legacy single-mesh path: half scale, two
/// units into the screen.
pub open spec fn spec_legacy_model() -> Mat4 {
    Mat4 {
        w: [
            F32_HALF_BITS,
            0,
            0,
            0,
            0,
            F32_HALF_BITS,
            0,
            0,
            0,
            0,
            F32_HALF_BITS,
            0,
            0,
            0,
            F32_NEG_TWO_BITS,
            F32_ONE_BITS,
        ],
    }
}

/// The name currently bound, as the frame walk compares it.
pub open spec fn spec_cur_name(cur: Option<String>) -> Option<Seq<char>> {
    match cur {
        Some(s) => Some(s@),
        None => None,
    }
}

/// The pooled block a slot holds in one of its three roles (vertex,
/// index, instance memory), if that role is pool-backed.
pub open spec fn spec_slot_block(s: MeshSlot, w: int) -> Option<MemoryBlock> {
    match s {
        MeshSlot::Empty => None,
        MeshSlot::Live(m) => if w == 0 {
            match m.vertex_memory {
                MeshMemory::Pooled(b) => Some(b),
                MeshMemory::DirectOwned(_) => None,
            }
        } else if w == 1 {
            match m.index_memory {
                MeshMemory::Pooled(b) => Some(b),
                MeshMemory::DirectOwned(_) => None,
            }
        } else {
            match m.instancing {
                Instancing::Instanced { memory: MeshMemory::Pooled(b), .. } => Some(b),
                _ => None,
            }
        },
    }
}

/// What identifies a pooled block across pools: its memory type and its
/// place in that type's chunks.
pub open spec fn spec_block_key(b: MemoryBlock) -> (int, RegionModel) {
    (b.pool_memory_type as int, b.region())
}

/// The registry/pool coupling: every pooled block a mesh holds is live
/// in its pool, and no two held blocks are the same.
pub open spec fn spec_blocks_wf(slots: Seq<MeshSlot>, mgr: MemoryPoolManager) -> bool {
    &&& forall|j: int, w: int|
        0 <= j < slots.len() && 0 <= w < 3 && (#[trigger] spec_slot_block(slots[j], w)) is Some
            ==> mgr.block_live(spec_slot_block(slots[j], w)->0)
    &&& forall|j1: int, w1: int, j2: int, w2: int|
        0 <= j1 < slots.len() && 0 <= w1 < 3 && 0 <= j2 < slots.len() && 0 <= w2 < 3 && (j1 != j2
            || w1 != w2) && (#[trigger] spec_slot_block(slots[j1], w1)) is Some && (
        #[trigger] spec_slot_block(slots[j2], w2)) is Some ==> spec_block_key(
            spec_slot_block(slots[j1], w1)->0,
        ) != spec_block_key(spec_slot_block(slots[j2], w2)->0)
}

/// Structural invariants of one live entry.
pub open spec fn spec_entry_inv(m: MeshEntry) -> bool {
    &&& match m.skinning {
        Some(sk) => sk.joint_matrices@.len() == MAX_JOINTS,
        None => true,
    }
    &&& match m.instancing {
        Instancing::Instanced { positions, .. } => positions@.len() <= u32::MAX,
        Instancing::Individual(_) => true,
    }
}

/// Index stability: between two registry states, every slot keeps the
/// logical mesh it denoted, or has become (and stays) inert.  Slots are
/// only appended, so an index handed out once never changes meaning.
pub open spec fn spec_index_stable(old_slots: Seq<MeshSlot>, new_slots: Seq<MeshSlot>) -> bool {
    &&& new_slots.len() >= old_slots.len()
    &&& forall|j: int|
        0 <= j < old_slots.len() ==> ((#[trigger] new_slots[j]).spec_id()
            == old_slots[j].spec_id() || new_slots[j] is Empty)
    &&& forall|j: int|
        0 <= j < old_slots.len() && (#[trigger] old_slots[j]) is Empty ==> new_slots[j] is Empty
}

/// Index stability composes across any number of calls.
pub proof fn lemma_index_stable_trans(a: Seq<MeshSlot>, b: Seq<MeshSlot>, c: Seq<MeshSlot>)
    requires
        spec_index_stable(a, b),
        spec_index_stable(b, c),
    ensures
        spec_index_stable(a, c),
{
}

/// The entry a live slot carries; unspecified for an empty slot.
pub open spec fn spec_live_entry(s: MeshSlot) -> MeshEntry
    recommends
        s is Live,
{
    match s {
        MeshSlot::Live(m) => m,
        MeshSlot::Empty => arbitrary(),
    }
}

/// Removing a slot and putting one back at the same index is a plain
/// update of that index.
pub proof fn lemma_remove_insert_is_update(s: Seq<MeshSlot>, i: int, x: MeshSlot)
    requires
        0 <= i < s.len(),
    ensures
        s.remove(i).insert(i, x) =~= s.update(i, x),
{
}

/// The coupling invariant survives any slot update that keeps the same
/// pooled blocks in the same roles.
pub proof fn lemma_blocks_wf_update_same(
    slots: Seq<MeshSlot>,
    mgr: MemoryPoolManager,
    i: int,
    x: MeshSlot,
)
    requires
        spec_blocks_wf(slots, mgr),
        0 <= i < slots.len(),
        forall|w: int| 0 <= w < 3 ==> spec_slot_block(x, w) == spec_slot_block(slots[i], w),
    ensures
        spec_blocks_wf(slots.update(i, x), mgr),
{
    let s2 = slots.update(i, x);
    assert forall|j: int, w: int|
        0 <= j < s2.len() && 0 <= w < 3 && (#[trigger] spec_slot_block(s2[j], w)) is Some
        implies mgr.block_live(spec_slot_block(s2[j], w)->0) by {
        assert(spec_slot_block(s2[j], w) == spec_slot_block(slots[j], w));
    }
    assert forall|j1: int, w1: int, j2: int, w2: int|
        0 <= j1 < s2.len() && 0 <= w1 < 3 && 0 <= j2 < s2.len() && 0 <= w2 < 3 && (j1 != j2 || w1
            != w2) && (#[trigger] spec_slot_block(s2[j1], w1)) is Some && (#[trigger] spec_slot_block(
        s2[j2], w2)) is Some implies spec_block_key(spec_slot_block(s2[j1], w1)->0)
        != spec_block_key(spec_slot_block(s2[j2], w2)->0) by {
        assert(spec_slot_block(s2[j1], w1) == spec_slot_block(slots[j1], w1));
        assert(spec_slot_block(s2[j2], w2) == spec_slot_block(slots[j2], w2));
    }
}

/// The whole renderer invariant survives updating one live slot in
/// place, as long as the entry keeps its identity, its structural
/// invariant, and the same pooled blocks.
pub proof fn lemma_wf_after_entry_update(pre: VulkanRenderer, post: VulkanRenderer, i: int)
    requires
        pre.wf(),
        0 <= i < pre.meshes@.len(),
        pre.meshes@[i] is Live,
        post.meshes@[i] is Live,
        post.meshes@ == pre.meshes@.update(i, post.meshes@[i]),
        spec_live_entry(post.meshes@[i]).id == spec_live_entry(pre.meshes@[i]).id,
        spec_entry_inv(spec_live_entry(post.meshes@[i])),
        forall|w: int|
            0 <= w < 3 ==> spec_slot_block(post.meshes@[i], w) == spec_slot_block(
                pre.meshes@[i],
                w,
            ),
        post.pipelines == pre.pipelines,
        post.pacer == pre.pacer,
        post.memory_pool == pre.memory_pool,
        post.default_name == pre.default_name,
        post.next_id == pre.next_id,
    ensures
        post.wf(),
        spec_index_stable(pre.meshes@, post.meshes@),
{
    lemma_blocks_wf_update_same(pre.meshes@, pre.memory_pool, i, post.meshes@[i]);
    assert(post.meshes@ =~= pre.meshes@.update(i, post.meshes@[i]));
    assert forall|j: int| 0 <= j < post.meshes@.len() implies match #[trigger] post.meshes@[j] {
        MeshSlot::Live(m) => spec_entry_inv(m) && m.id@ < post.next_id@,
        MeshSlot::Empty => true,
    } by {
        if j != i {
            assert(post.meshes@[j] == pre.meshes@[j]);
        } else {
            assert(spec_live_entry(post.meshes@[i]).id@ == spec_live_entry(pre.meshes@[i]).id@);
        }
    }
    assert forall|j: int| 0 <= j < post.meshes@.len() implies (#[trigger] post.meshes@[j]).spec_id()
        == pre.meshes@[j].spec_id() by {
        if j != i {
            assert(post.meshes@[j] == pre.meshes@[j]);
        }
    }
}

/// The renderer invariant survives appending one live slot whose pooled
/// blocks were just handed out by the pool manager, in a chain of up to
/// three allocations (`pre.memory_pool` to `mgr_a` to `mgr_b` to
/// `post.memory_pool`): each handed-out block is live, each allocation
/// keeps every previously live block live, and each is distinct from
/// everything live before it.
pub proof fn lemma_wf_after_push_blocks(
    pre: VulkanRenderer,
    post: VulkanRenderer,
    mgr_a: MemoryPoolManager,
    mgr_b: MemoryPoolManager,
    b0: Option<MemoryBlock>,
    b1: Option<MemoryBlock>,
    b2: Option<MemoryBlock>,
)
    requires
        pre.wf(),
        post.meshes@.len() == pre.meshes@.len() + 1,
        forall|j: int| 0 <= j < pre.meshes@.len() ==> post.meshes@[j] == pre.meshes@[j],
        post.meshes@[pre.meshes@.len() as int] is Live,
        spec_entry_inv(spec_live_entry(post.meshes@[pre.meshes@.len() as int])),
        spec_live_entry(post.meshes@[pre.meshes@.len() as int]).id@ == pre.next_id@,
        post.next_id@ == pre.next_id@ + 1,
        spec_slot_block(post.meshes@[pre.meshes@.len() as int], 0) == b0,
        spec_slot_block(post.meshes@[pre.meshes@.len() as int], 1) == b1,
        spec_slot_block(post.meshes@[pre.meshes@.len() as int], 2) == b2,
        forall|b: MemoryBlock| #[trigger] pre.memory_pool.block_live(b) ==> mgr_a.block_live(b),
        forall|b: MemoryBlock| #[trigger] mgr_a.block_live(b) ==> mgr_b.block_live(b),
        forall|b: MemoryBlock| #[trigger] mgr_b.block_live(b) ==> post.memory_pool.block_live(b),
        (b0 matches Some(x) ==> mgr_a.block_live(x) && (forall|b: MemoryBlock|
            #[trigger] pre.memory_pool.block_live(b) ==> spec_block_key(b) != spec_block_key(x))),
        (b1 matches Some(x) ==> mgr_b.block_live(x) && (forall|b: MemoryBlock|
            #[trigger] mgr_a.block_live(b) ==> spec_block_key(b) != spec_block_key(x))),
        (b2 matches Some(x) ==> post.memory_pool.block_live(x) && (forall|b: MemoryBlock|
            #[trigger] mgr_b.block_live(b) ==> spec_block_key(b) != spec_block_key(x))),
        post.memory_pool.wf(),
        post.pipelines == pre.pipelines,
        post.pacer == pre.pacer,
        post.default_name == pre.default_name,
    ensures
        post.wf(),
        spec_index_stable(pre.meshes@, post.meshes@),
{
    let n = pre.meshes@.len() as int;
    let slots2 = post.meshes@;
    let mgr3 = post.memory_pool;
    assert forall|b: MemoryBlock| pre.memory_pool.block_live(b) implies mgr3.block_live(b) by {}
    assert forall|j: int, w: int|
        0 <= j < slots2.len() && 0 <= w < 3 && (#[trigger] spec_slot_block(slots2[j], w)) is Some
        implies mgr3.block_live(spec_slot_block(slots2[j], w)->0) by {
        if j < n {
            assert(slots2[j] == pre.meshes@[j]);
            assert(pre.memory_pool.block_live(spec_slot_block(pre.meshes@[j], w)->0));
        }
    }
    assert forall|j1: int, w1: int, j2: int, w2: int|
        0 <= j1 < slots2.len() && 0 <= w1 < 3 && 0 <= j2 < slots2.len() && 0 <= w2 < 3 && (j1 != j2
            || w1 != w2) && (#[trigger] spec_slot_block(slots2[j1], w1)) is Some && (
    #[trigger] spec_slot_block(slots2[j2], w2)) is Some implies spec_block_key(
        spec_slot_block(slots2[j1], w1)->0,
    ) != spec_block_key(spec_slot_block(slots2[j2], w2)->0) by {
        if j1 < n && j2 < n {
            assert(slots2[j1] == pre.meshes@[j1]);
            assert(slots2[j2] == pre.meshes@[j2]);
        } else if j1 < n && j2 == n {
            assert(slots2[j1] == pre.meshes@[j1]);
            assert(pre.memory_pool.block_live(spec_slot_block(pre.meshes@[j1], w1)->0));
        } else if j1 == n && j2 < n {
            assert(slots2[j2] == pre.meshes@[j2]);
            assert(pre.memory_pool.block_live(spec_slot_block(pre.meshes@[j2], w2)->0));
        }
    }
    assert forall|j: int| 0 <= j < slots2.len() implies match #[trigger] slots2[j] {
        MeshSlot::Live(m) => spec_entry_inv(m) && m.id@ < post.next_id@,
        MeshSlot::Empty => true,
    } by {
        if j < n {
            assert(slots2[j] == pre.meshes@[j]);
        }
    }
    assert forall|j1: int, j2: int|
        0 <= j1 < j2 < slots2.len() && (#[trigger] slots2[j1]) is Live && (#[trigger] slots2[j2])
            is Live implies slots2[j1].spec_id() != slots2[j2].spec_id() by {
        if j2 < n {
            assert(slots2[j1] == pre.meshes@[j1]);
            assert(slots2[j2] == pre.meshes@[j2]);
        } else {
            assert(slots2[j1] == pre.meshes@[j1]);
        }
    }
}

/// The renderer invariant survives rewriting one live slot after freeing
/// some of its pooled blocks back to their pools, in a chain of up to
/// three frees (`pre.memory_pool` to `mgr_a` to `mgr_b` to
/// `post.memory_pool`).  Each freed block must be the one the old entry
/// held in that role, and each role the new slot still fills must keep
/// the old block un-freed.
pub proof fn lemma_wf_after_slot_shrink(
    pre: VulkanRenderer,
    post: VulkanRenderer,
    i: int,
    mgr_a: MemoryPoolManager,
    mgr_b: MemoryPoolManager,
    f0: Option<MemoryBlock>,
    f1: Option<MemoryBlock>,
    f2: Option<MemoryBlock>,
)
    requires
        pre.wf(),
        0 <= i < pre.meshes@.len(),
        pre.meshes@[i] is Live,
        post.meshes@ == pre.meshes@.update(i, post.meshes@[i]),
        (post.meshes@[i] is Live ==> spec_entry_inv(spec_live_entry(post.meshes@[i]))
            && spec_live_entry(post.meshes@[i]).id == spec_live_entry(pre.meshes@[i]).id),
        (f0 matches Some(x) ==> Some(x) == spec_slot_block(pre.meshes@[i], 0)),
        (f1 matches Some(x) ==> Some(x) == spec_slot_block(pre.meshes@[i], 1)),
        (f2 matches Some(x) ==> Some(x) == spec_slot_block(pre.meshes@[i], 2)),
        forall|w: int|
            0 <= w < 3 && (#[trigger] spec_slot_block(post.meshes@[i], w)) is Some ==> {
                &&& spec_slot_block(post.meshes@[i], w) == spec_slot_block(pre.meshes@[i], w)
                &&& (w == 0 ==> f0 is None)
                &&& (w == 1 ==> f1 is None)
                &&& (w == 2 ==> f2 is None)
            },
        // the free chain, as `free_buffer` promises it
        (f0 matches Some(x) ==> (forall|b: MemoryBlock|
            #[trigger] pre.memory_pool.block_live(b) && spec_block_key(b) != spec_block_key(x)
                ==> mgr_a.block_live(b))),
        f0 is None ==> mgr_a == pre.memory_pool,
        (f1 matches Some(x) ==> (forall|b: MemoryBlock|
            #[trigger] mgr_a.block_live(b) && spec_block_key(b) != spec_block_key(x)
                ==> mgr_b.block_live(b))),
        f1 is None ==> mgr_b == mgr_a,
        (f2 matches Some(x) ==> (forall|b: MemoryBlock|
            #[trigger] mgr_b.block_live(b) && spec_block_key(b) != spec_block_key(x)
                ==> post.memory_pool.block_live(b))),
        f2 is None ==> post.memory_pool == mgr_b,
        post.memory_pool.wf(),
        post.pipelines == pre.pipelines,
        post.pacer == pre.pacer,
        post.default_name == pre.default_name,
        post.next_id == pre.next_id,
    ensures
        post.wf(),
        spec_index_stable(pre.meshes@, post.meshes@),
{
    let slots2 = post.meshes@;
    assert forall|j: int, w: int|
        0 <= j < slots2.len() && 0 <= w < 3 && (#[trigger] spec_slot_block(slots2[j], w)) is Some
        implies post.memory_pool.block_live(spec_slot_block(slots2[j], w)->0) by {
        let b = spec_slot_block(slots2[j], w)->0;
        assert(spec_slot_block(slots2[j], w) == spec_slot_block(pre.meshes@[j], w));
        assert(pre.memory_pool.block_live(b));
        match f0 {
            Some(x) => {
                assert(Some(x) == spec_slot_block(pre.meshes@[i], 0));
                assert(spec_block_key(b) != spec_block_key(x));
            },
            None => {},
        }
        assert(mgr_a.block_live(b));
        match f1 {
            Some(x) => {
                assert(Some(x) == spec_slot_block(pre.meshes@[i], 1));
                assert(spec_block_key(b) != spec_block_key(x));
            },
            None => {},
        }
        assert(mgr_b.block_live(b));
        match f2 {
            Some(x) => {
                assert(Some(x) == spec_slot_block(pre.meshes@[i], 2));
                assert(spec_block_key(b) != spec_block_key(x));
            },
            None => {},
        }
    }
    assert forall|j1: int, w1: int, j2: int, w2: int|
        0 <= j1 < slots2.len() && 0 <= w1 < 3 && 0 <= j2 < slots2.len() && 0 <= w2 < 3 && (j1 != j2
            || w1 != w2) && (#[trigger] spec_slot_block(slots2[j1], w1)) is Some && (
    #[trigger] spec_slot_block(slots2[j2], w2)) is Some implies spec_block_key(
        spec_slot_block(slots2[j1], w1)->0,
    ) != spec_block_key(spec_slot_block(slots2[j2], w2)->0) by {
        assert(spec_slot_block(slots2[j1], w1) == spec_slot_block(pre.meshes@[j1], w1));
        assert(spec_slot_block(slots2[j2], w2) == spec_slot_block(pre.meshes@[j2], w2));
    }
    assert forall|j: int| 0 <= j < slots2.len() implies match #[trigger] slots2[j] {
        MeshSlot::Live(m) => spec_entry_inv(m) && m.id@ < post.next_id@,
        MeshSlot::Empty => true,
    } by {
        if j != i {
            assert(slots2[j] == pre.meshes@[j]);
        } else if slots2[i] is Live {
            assert(spec_live_entry(slots2[i]).id@ == spec_live_entry(pre.meshes@[i]).id@);
        }
    }
    assert forall|j1: int, j2: int|
        0 <= j1 < j2 < slots2.len() && (#[trigger] slots2[j1]) is Live && (#[trigger] slots2[j2])
            is Live implies slots2[j1].spec_id() != slots2[j2].spec_id() by {
        if j1 != i {
            assert(slots2[j1] == pre.meshes@[j1]);
        }
        if j2 != i {
            assert(slots2[j2] == pre.meshes@[j2]);
        }
        if j1 == i && slots2[i] is Live {
            assert(slots2[i].spec_id() == pre.meshes@[i].spec_id());
        }
        if j2 == i && slots2[i] is Live {
            assert(slots2[i].spec_id() == pre.meshes@[i].spec_id());
        }
    }
}

/// The engine: every registry, the allocator and the frame pacer.
pub struct VulkanRenderer {
    pub meshes: Vec<MeshSlot>,
    pub pipelines: PipelineRegistry,
    /// Fallback pipeline for unknown names; follows `set_current_pipeline`.
    pub default_pipeline: Pipeline,
    pub default_name: String,
    pub current_pipeline: String,
    pub pacer: FramePacer,
    pub memory_pool: MemoryPoolManager,
    /// The renderer-wide texture set of the legacy single-mesh path.
    pub has_global_texture: bool,
    pub legacy: Option<LegacyBuffers>,
    pub extent_width: u32,
    pub extent_height: u32,
    pub water_push_constants: Option<PushConstants>,
    /// Names of fluid pipelines that carry their own texture set, in
    /// registration order.
    pub textured_pipelines: Vec<String>,
    /// Identity source for logical meshes; never decreases.
    pub next_id: Ghost<nat>,
    /// Source of fresh opaque handles for driver objects.
    pub next_handle: u64,
}

impl VulkanRenderer {
    pub open spec fn wf(self) -> bool {
        &&& self.pipelines.wf()
        &&& self.pacer.wf()
        &&& self.memory_pool.wf()
        &&& self.default_name@ == "default"@
        &&& spec_blocks_wf(self.meshes@, self.memory_pool)
        &&& forall|j: int|
            0 <= j < self.meshes@.len() ==> match #[trigger] self.meshes@[j] {
                MeshSlot::Live(m) => spec_entry_inv(m) && m.id@ < self.next_id@,
                MeshSlot::Empty => true,
            }
        &&& forall|j1: int, j2: int|
            0 <= j1 < j2 < self.meshes@.len() && (#[trigger] self.meshes@[j1]) is Live && (
            #[trigger] self.meshes@[j2]) is Live ==> self.meshes@[j1].spec_id()
                != self.meshes@[j2].spec_id()
    }

    /// A fresh multi-mesh renderer over a surface of the given extent.
    /// The caller has built the default pipeline; it is registered under
    /// `"default"`, is the current pipeline, and is the fallback for
    /// unknown names.  The registry starts empty — callers compose the
    /// scene through the add-mesh calls — and every mesh begins with the
    /// plain white base color until `set_mesh_color` assigns another.
    pub fn new_multi_mesh(extent_width: u32, extent_height: u32, default_pipeline: Pipeline) -> (r:
        VulkanRenderer)
        ensures
            r.wf(),
            r.meshes@.len() == 0,
            r.pipelines.spec_contains("default"@),
            r.pipelines.spec_get("default"@) == Some(default_pipeline),
            r.default_pipeline == default_pipeline,
            r.current_pipeline@ == "default"@,
            r.extent_width == extent_width,
            r.extent_height == extent_height,
            !r.pacer.recording,
            r.pacer.frame_index@ == 0,
            r.memory_pool.pools@.len() == 0,
            r.memory_pool.staging_generation == 0,
            r.legacy is None,
            !r.has_global_texture,
            r.water_push_constants is None,
            r.textured_pipelines@.len() == 0,
            r.next_handle == 1,
            r.next_id@ == 0,
    {
        let default_name = String::from_str("default");
        let current_pipeline = String::from_str("default");
        let mut pipelines = PipelineRegistry::new();
        pipelines.insert(String::from_str("default"), default_pipeline);
        VulkanRenderer {
            meshes: Vec::new(),
            pipelines,
            default_pipeline,
            default_name,
            current_pipeline,
            pacer: FramePacer::new(),
            memory_pool: MemoryPoolManager::new(),
            has_global_texture: false,
            legacy: None,
            extent_width,
            extent_height,
            water_push_constants: None,
            textured_pipelines: Vec::new(),
            next_id: Ghost(0),
            next_handle: 1,
        }
    }

    /// How many slots the registry holds, removed meshes included:
    /// indices are never compacted.
    pub fn get_mesh_count(&self) -> (r: usize)
        ensures
            r == self.meshes@.len(),
    {
        self.meshes.len()
    }

    /// Register a pipeline the caller has built under `name`; a second
    /// registration of one name replaces its handles.  Entries are never
    /// removed.
    pub fn add_pipeline(&mut self, name: String, pipeline: Pipeline)
        requires
            old(self).wf(),
        ensures
            final(self).wf(),
            final(self).pipelines.spec_get(name@) == Some(pipeline),
            forall|n: Seq<char>|
                n != name@ ==> final(self).pipelines.spec_get(n) == old(self).pipelines.spec_get(
                    n,
                ),
            final(self).meshes@ == old(self).meshes@,
            final(self).pacer == old(self).pacer,
            final(self).memory_pool == old(self).memory_pool,
            final(self).spec_same_frame_config(*old(self)),
            final(self).textured_pipelines@ == old(self).textured_pipelines@,
            final(self).next_handle == old(self).next_handle,
            final(self).next_id == old(self).next_id,
    {
        self.pipelines.insert(name, pipeline);
    }

    /// Make `name` the current pipeline: the compatibility fallback the
    /// frame walk uses for unregistered names follows it.  Fails if and
    /// only if no pipeline of that name exists.
    pub fn set_current_pipeline(&mut self, name: &String) -> (r: Result<(), EngineError>)
        requires
            old(self).wf(),
        ensures
            final(self).wf(),
            old(self).pipelines.spec_contains(name@) ==> {
                &&& r is Ok
                &&& final(self).current_pipeline@ == name@
                &&& Some(final(self).default_pipeline) == old(self).pipelines.spec_get(name@)
            },
            !old(self).pipelines.spec_contains(name@) ==> r == Result::<(), EngineError>::Err(
                EngineError::PipelineNotFound,
            ) && *final(self) == *old(self),
            final(self).pipelines == old(self).pipelines,
            final(self).meshes@ == old(self).meshes@,
            final(self).pacer == old(self).pacer,
            final(self).memory_pool == old(self).memory_pool,
    {
        let found = self.pipelines.get(name);
        match found {
            Some(p) => {
                self.current_pipeline = name.clone();
                self.default_pipeline = p;
                Ok(())
            },
            None => Err(EngineError::PipelineNotFound),
        }
    }

    /// `set_current_pipeline` under its older name.
    pub fn set_active_pipeline(&mut self, name: &String) -> (r: Result<(), EngineError>)
        requires
            old(self).wf(),
        ensures
            final(self).wf(),
            old(self).pipelines.spec_contains(name@) ==> r is Ok && final(self).current_pipeline@
                == name@ && Some(final(self).default_pipeline) == old(self).pipelines.spec_get(
                name@,
            ),
            !old(self).pipelines.spec_contains(name@) ==> r == Result::<(), EngineError>::Err(
                EngineError::PipelineNotFound,
            ) && *final(self) == *old(self),
            final(self).pipelines == old(self).pipelines,
            final(self).meshes@ == old(self).meshes@,
            final(self).pacer == old(self).pacer,
            final(self).memory_pool == old(self).memory_pool,
    {
        self.set_current_pipeline(name)
    }

    /// Store the push constants the fluid pipelines read each frame.
    pub fn set_water_push_constants(&mut self, push_constants: PushConstants)
        requires
            old(self).wf(),
        ensures
            final(self).wf(),
            final(self).water_push_constants == Some(push_constants),
            final(self).meshes@ == old(self).meshes@,
            final(self).pacer == old(self).pacer,
            final(self).memory_pool == old(self).memory_pool,
    {
        self.water_push_constants = Some(push_constants);
    }

    /// Totals of the pooled allocator.
    pub fn get_memory_stats(&self) -> (r: PoolStats)
        requires
            self.wf(),
            MemoryPoolManager::spec_total_chunks(
                self.memory_pool.pools@,
                self.memory_pool.pools@.len() as int,
            ) <= usize::MAX,
        ensures
            r.total_pools == self.memory_pool.pools@.len(),
            r.total_allocations == MemoryPoolManager::spec_total_chunks(
                self.memory_pool.pools@,
                self.memory_pool.pools@.len() as int,
            ),
    {
        self.memory_pool.get_stats()
    }

    /// Everything a recorded frame reads besides the mesh and pipeline
    /// registries is unchanged: the default pipeline and its name, the
    /// current pipeline, the legacy buffers and renderer-wide texture
    /// flag, the surface extent and the stored water constants.
    pub open spec fn spec_same_frame_config(self, other: VulkanRenderer) -> bool {
        &&& self.default_pipeline == other.default_pipeline
        &&& self.default_name == other.default_name
        &&& self.current_pipeline == other.current_pipeline
        &&& self.has_global_texture == other.has_global_texture
        &&& self.legacy == other.legacy
        &&& self.extent_width == other.extent_width
        &&& self.extent_height == other.extent_height
        &&& self.water_push_constants == other.water_push_constants
    }

    /// Everything except the mesh registry is unchanged.
    pub open spec fn spec_same_but_meshes(self, other: VulkanRenderer) -> bool {
        &&& self.pipelines == other.pipelines
        &&& self.default_pipeline == other.default_pipeline
        &&& self.default_name == other.default_name
        &&& self.current_pipeline == other.current_pipeline
        &&& self.pacer == other.pacer
        &&& self.memory_pool == other.memory_pool
        &&& self.has_global_texture == other.has_global_texture
        &&& self.legacy == other.legacy
        &&& self.extent_width == other.extent_width
        &&& self.extent_height == other.extent_height
        &&& self.water_push_constants == other.water_push_constants
        &&& self.textured_pipelines@ == other.textured_pipelines@
        &&& self.next_handle == other.next_handle
    }

    /// Set the pipeline a mesh draws with; an out-of-range index or an
    /// emptied slot is a no-op, and a name that no pipeline carries yet
    /// simply falls back to the default at draw time.
    pub fn set_mesh_pipeline(&mut self, mesh_index: usize, pipeline_name: String)
        requires
            old(self).wf(),
        ensures
            final(self).wf(),
            final(self).spec_same_but_meshes(*old(self)),
            final(self).next_id == old(self).next_id,
            spec_index_stable(old(self).meshes@, final(self).meshes@),
            mesh_index < old(self).meshes@.len() && old(self).meshes@[mesh_index as int] is Live
                ==> final(self).meshes@ == old(self).meshes@.update(
                mesh_index as int,
                MeshSlot::Live(
                    MeshEntry {
                        pipeline_name: Some(pipeline_name),
                        ..spec_live_entry(old(self).meshes@[mesh_index as int])
                    },
                ),
            ),
            mesh_index >= old(self).meshes@.len() || old(self).meshes@[mesh_index as int] is Empty
                ==> final(self).meshes@ == old(self).meshes@,
    {
        if mesh_index >= self.meshes.len() {
            return ;
        }
        let slot = self.meshes.remove(mesh_index);
        match slot {
            MeshSlot::Empty => {
                self.meshes.insert(mesh_index, MeshSlot::Empty);
                proof {
                    lemma_remove_insert_is_update(
                        old(self).meshes@,
                        mesh_index as int,
                        MeshSlot::Empty,
                    );
                    assert(final(self).meshes@ =~= old(self).meshes@);
                }
            },
            MeshSlot::Live(m) => {
                let m2 = MeshEntry { pipeline_name: Some(pipeline_name), ..m };
                self.meshes.insert(mesh_index, MeshSlot::Live(m2));
                proof {
                    lemma_remove_insert_is_update(
                        old(self).meshes@,
                        mesh_index as int,
                        MeshSlot::Live(m2),
                    );
                    lemma_wf_after_entry_update(*old(self), *self, mesh_index as int);
                }
            },
        }
    }

    /// Set the base color pushed with every draw of this mesh; no-op out
    /// of range or on an emptied slot.
    pub fn set_mesh_color(&mut self, mesh_index: usize, color: Color4)
        requires
            old(self).wf(),
        ensures
            final(self).wf(),
            final(self).spec_same_but_meshes(*old(self)),
            final(self).next_id == old(self).next_id,
            spec_index_stable(old(self).meshes@, final(self).meshes@),
            mesh_index < old(self).meshes@.len() && old(self).meshes@[mesh_index as int] is Live
                ==> final(self).meshes@ == old(self).meshes@.update(
                mesh_index as int,
                MeshSlot::Live(
                    MeshEntry {
                        base_color: color,
                        ..spec_live_entry(old(self).meshes@[mesh_index as int])
                    },
                ),
            ),
            mesh_index >= old(self).meshes@.len() || old(self).meshes@[mesh_index as int] is Empty
                ==> final(self).meshes@ == old(self).meshes@,
    {
        if mesh_index >= self.meshes.len() {
            return ;
        }
        let slot = self.meshes.remove(mesh_index);
        match slot {
            MeshSlot::Empty => {
                self.meshes.insert(mesh_index, MeshSlot::Empty);
                proof {
                    lemma_remove_insert_is_update(
                        old(self).meshes@,
                        mesh_index as int,
                        MeshSlot::Empty,
                    );
                    assert(final(self).meshes@ =~= old(self).meshes@);
                }
            },
            MeshSlot::Live(m) => {
                let m2 = MeshEntry { base_color: color, ..m };
                self.meshes.insert(mesh_index, MeshSlot::Live(m2));
                proof {
                    lemma_remove_insert_is_update(
                        old(self).meshes@,
                        mesh_index as int,
                        MeshSlot::Live(m2),
                    );
                    lemma_wf_after_entry_update(*old(self), *self, mesh_index as int);
                }
            },
        }
    }

    /// Mark a mesh as carrying its own texture set.  The caller builds
    /// the image, sampler and descriptor set for the mesh; the frame walk
    /// then binds them.  Fails if and only if the index is out of range.
    pub fn set_mesh_texture(&mut self, mesh_index: usize) -> (r: Result<(), EngineError>)
        requires
            old(self).wf(),
        ensures
            final(self).wf(),
            final(self).spec_same_but_meshes(*old(self)),
            final(self).next_id == old(self).next_id,
            spec_index_stable(old(self).meshes@, final(self).meshes@),
            mesh_index < old(self).meshes@.len() ==> r == Result::<(), EngineError>::Ok(()),
            mesh_index >= old(self).meshes@.len() ==> r == Result::<(), EngineError>::Err(
                EngineError::MeshIndexOutOfBounds,
            ),
            mesh_index < old(self).meshes@.len() && old(self).meshes@[mesh_index as int] is Live
                ==> final(self).meshes@ == old(self).meshes@.update(
                mesh_index as int,
                MeshSlot::Live(
                    MeshEntry {
                        has_texture: true,
                        ..spec_live_entry(old(self).meshes@[mesh_index as int])
                    },
                ),
            ),
            mesh_index >= old(self).meshes@.len() || old(self).meshes@[mesh_index as int] is Empty
                ==> final(self).meshes@ == old(self).meshes@,
    {
        if mesh_index >= self.meshes.len() {
            return Err(EngineError::MeshIndexOutOfBounds);
        }
        let slot = self.meshes.remove(mesh_index);
        match slot {
            MeshSlot::Empty => {
                self.meshes.insert(mesh_index, MeshSlot::Empty);
                proof {
                    lemma_remove_insert_is_update(
                        old(self).meshes@,
                        mesh_index as int,
                        MeshSlot::Empty,
                    );
                    assert(final(self).meshes@ =~= old(self).meshes@);
                }
            },
            MeshSlot::Live(m) => {
                let m2 = MeshEntry { has_texture: true, ..m };
                self.meshes.insert(mesh_index, MeshSlot::Live(m2));
                proof {
                    lemma_remove_insert_is_update(
                        old(self).meshes@,
                        mesh_index as int,
                        MeshSlot::Live(m2),
                    );
                    lemma_wf_after_entry_update(*old(self), *self, mesh_index as int);
                }
            },
        }
        Ok(())
    }

    /// Replace the transform list of a per-transform mesh: the next frame
    /// issues one draw per transform.  No-op out of range, on an emptied
    /// slot, or on a hardware-instanced mesh (whose copies are described
    /// by its instance buffer instead).
    pub fn update_mesh_transforms(&mut self, mesh_index: usize, transforms: Vec<Mat4>)
        requires
            old(self).wf(),
        ensures
            final(self).wf(),
            final(self).spec_same_but_meshes(*old(self)),
            final(self).next_id == old(self).next_id,
            spec_index_stable(old(self).meshes@, final(self).meshes@),
            mesh_index < old(self).meshes@.len() && old(self).meshes@[mesh_index as int] is Live
                && spec_live_entry(old(self).meshes@[mesh_index as int]).instancing is Individual
                ==> final(self).meshes@ == old(self).meshes@.update(
                mesh_index as int,
                MeshSlot::Live(
                    MeshEntry {
                        instancing: Instancing::Individual(transforms),
                        ..spec_live_entry(old(self).meshes@[mesh_index as int])
                    },
                ),
            ),
            mesh_index >= old(self).meshes@.len() || old(self).meshes@[mesh_index as int] is Empty
                || spec_live_entry(old(self).meshes@[mesh_index as int]).instancing is Instanced
                ==> final(self).meshes@ == old(self).meshes@,
    {
        if mesh_index >= self.meshes.len() {
            return ;
        }
        let slot = self.meshes.remove(mesh_index);
        match slot {
            MeshSlot::Live(m) => {
                if let Instancing::Individual(_) = m.instancing {
                    let m2 = MeshEntry { instancing: Instancing::Individual(transforms), ..m };
                    self.meshes.insert(mesh_index, MeshSlot::Live(m2));
                    proof {
                        lemma_remove_insert_is_update(
                            old(self).meshes@,
                            mesh_index as int,
                            MeshSlot::Live(m2),
                        );
                        lemma_wf_after_entry_update(*old(self), *self, mesh_index as int);
                    }
                } else {
                    self.meshes.insert(mesh_index, MeshSlot::Live(m));
                    proof {
                        lemma_remove_insert_is_update(
                            old(self).meshes@,
                            mesh_index as int,
                            old(self).meshes@[mesh_index as int],
                        );
                        assert(final(self).meshes@ =~= old(self).meshes@);
                    }
                }
            },
            MeshSlot::Empty => {
                self.meshes.insert(mesh_index, MeshSlot::Empty);
                proof {
                    lemma_remove_insert_is_update(
                        old(self).meshes@,
                        mesh_index as int,
                        MeshSlot::Empty,
                    );
                    assert(final(self).meshes@ =~= old(self).meshes@);
                }
            },
        }
    }

    /// Place one copy of the mesh at each position: the transform list
    /// becomes one translation matrix per position.  Same no-op cases as
    /// `update_mesh_transforms`.
    pub fn update_mesh_instances(&mut self, mesh_index: usize, positions: Vec<[u32; 3]>)
        requires
            old(self).wf(),
        ensures
            final(self).wf(),
            final(self).spec_same_but_meshes(*old(self)),
            final(self).next_id == old(self).next_id,
            spec_index_stable(old(self).meshes@, final(self).meshes@),
            mesh_index < old(self).meshes@.len() && old(self).meshes@[mesh_index as int] is Live
                && spec_live_entry(old(self).meshes@[mesh_index as int]).instancing is Individual
                ==> {
                &&& final(self).meshes@.len() == old(self).meshes@.len()
                &&& forall|j: int|
                    0 <= j < old(self).meshes@.len() && j != mesh_index ==> final(self).meshes@[j]
                        == old(self).meshes@[j]
                &&& final(self).meshes@[mesh_index as int] is Live
                &&& ({
                    let mn = spec_live_entry(final(self).meshes@[mesh_index as int]);
                    let mo = spec_live_entry(old(self).meshes@[mesh_index as int]);
                    &&& mn.instancing is Individual
                    &&& ({
                        let ts = match mn.instancing {
                            Instancing::Individual(ts) => ts,
                            Instancing::Instanced { .. } => arbitrary(),
                        };
                        &&& ts@.len() == positions@.len()
                        &&& forall|k: int|
                            0 <= k < positions@.len() ==> ts@[k] == spec_translation_matrix(
                                #[trigger] positions@[k],
                            )
                    })
                    &&& mn == MeshEntry { instancing: mn.instancing, ..mo }
                })
            },
            mesh_index >= old(self).meshes@.len() || old(self).meshes@[mesh_index as int] is Empty
                || spec_live_entry(old(self).meshes@[mesh_index as int]).instancing is Instanced
                ==> final(self).meshes@ == old(self).meshes@,
    {
        let mut transforms: Vec<Mat4> = Vec::new();
        let mut k: usize = 0;
        while k < positions.len()
            invariant
                0 <= k <= positions@.len(),
                transforms@.len() == k,
                forall|j: int|
                    0 <= j < k ==> transforms@[j] == spec_translation_matrix(
                        #[trigger] positions@[j],
                    ),
            decreases positions@.len() - k,
        {
            transforms.push(crate::mesh::translation_matrix(positions[k]));
            k = k + 1;
        }
        self.update_mesh_transforms(mesh_index, transforms);
    }

    /// Append a mesh to the registry: its vertex and index buffers are
    /// sub-allocated from the pool of the memory type the driver chose
    /// for each (the caller created the buffers, queried their
    /// requirements, and binds them to the returned blocks).  The new
    /// mesh starts with no transforms (it draws nothing until
    /// `update_mesh_transforms`), no pipeline override, no texture, and
    /// the default white base color.  Returns the mesh's index, which
    /// denotes this logical mesh until `remove_mesh`.
    pub fn add_mesh(&mut self, mesh_data: &MeshData, vertex_req: MemReq, index_req: MemReq) -> (r:
        usize)
        requires
            old(self).wf(),
            vertex_req.spec_valid(),
            index_req.spec_valid(),
            mesh_data.indices@.len() <= u32::MAX,
            mesh_data.vertices@.len() * VERTEX_STRIDE <= u64::MAX,
            old(self).next_handle + 2 <= u64::MAX,
        ensures
            final(self).wf(),
            r == old(self).meshes@.len(),
            final(self).meshes@.len() == old(self).meshes@.len() + 1,
            forall|j: int|
                0 <= j < old(self).meshes@.len() ==> final(self).meshes@[j] == old(self).meshes@[j],
            spec_index_stable(old(self).meshes@, final(self).meshes@),
            final(self).meshes@[r as int] is Live,
            ({
                let m = spec_live_entry(final(self).meshes@[r as int]);
                &&& m.index_count == mesh_data.indices@.len()
                &&& m.vertex_buffer_size == mesh_data.vertices@.len() * VERTEX_STRIDE
                &&& (m.instancing matches Instancing::Individual(ts) && ts@.len() == 0)
                &&& m.pipeline_name is None
                &&& !m.has_texture
                &&& m.base_color == spec_white()
                &&& m.skinning is None
                &&& m.id@ == old(self).next_id@
                &&& (m.vertex_memory matches MeshMemory::Pooled(b) && b.pool_memory_type
                    == vertex_req.memory_type_index && b.offset % vertex_req.alignment == 0)
                &&& (m.index_memory matches MeshMemory::Pooled(b) && b.pool_memory_type
                    == index_req.memory_type_index && b.offset % index_req.alignment == 0)
            }),
            final(self).next_id@ == old(self).next_id@ + 1,
            final(self).pipelines == old(self).pipelines,
            final(self).pacer == old(self).pacer,
            final(self).spec_same_frame_config(*old(self)),
            final(self).textured_pipelines@ == old(self).textured_pipelines@,
            final(self).next_handle == old(self).next_handle + 2,
    {
        let vertex_buffer = self.next_handle;
        let index_buffer = self.next_handle + 1;
        self.next_handle = self.next_handle + 2;
        let ghost mgr0 = self.memory_pool;
        let vb = self.memory_pool.allocate_buffer(
            vertex_req.memory_type_index,
            vertex_req.size,
            vertex_req.alignment,
        );
        let ghost mgr1 = self.memory_pool;
        let ib = self.memory_pool.allocate_buffer(
            index_req.memory_type_index,
            index_req.size,
            index_req.alignment,
        );
        let index = self.meshes.len();
        let entry = MeshEntry {
            vertex_buffer,
            vertex_memory: MeshMemory::Pooled(vb),
            vertex_buffer_size: (mesh_data.vertices.len() as u64) * VERTEX_STRIDE,
            index_buffer,
            index_memory: MeshMemory::Pooled(ib),
            index_count: mesh_data.indices.len() as u32,
            instancing: Instancing::Individual(Vec::new()),
            pipeline_name: None,
            has_texture: false,
            base_color: Color4::white(),
            skinning: None,
            id: Ghost(self.next_id@),
        };
        self.meshes.push(MeshSlot::Live(entry));
        proof {
            self.next_id@ = self.next_id@ + 1;
            lemma_wf_after_push_blocks(
                *old(self),
                *self,
                mgr1,
                self.memory_pool,
                Some(vb),
                Some(ib),
                None,
            );
        }
        index
    }

    /// Append a hardware-instanced mesh: vertex, index and per-instance
    /// position buffers all come from the pool, and one frame draws all
    /// its instances with a single indexed-instanced call.  The texture
    /// path argument is accepted for compatibility and currently ignored
    /// (the mesh starts without a texture binding).
    pub fn add_mesh_instanced(
        &mut self,
        mesh_data: &MeshData,
        instance_positions: Vec<[u32; 3]>,
        _texture_path: Option<String>,
        pipeline_name: Option<String>,
        vertex_req: MemReq,
        index_req: MemReq,
        instance_req: MemReq,
    ) -> (r: usize)
        requires
            old(self).wf(),
            vertex_req.spec_valid(),
            index_req.spec_valid(),
            instance_req.spec_valid(),
            mesh_data.indices@.len() <= u32::MAX,
            instance_positions@.len() <= u32::MAX,
            mesh_data.vertices@.len() * VERTEX_STRIDE <= u64::MAX,
            old(self).next_handle + 3 <= u64::MAX,
        ensures
            final(self).wf(),
            r == old(self).meshes@.len(),
            final(self).meshes@.len() == old(self).meshes@.len() + 1,
            forall|j: int|
                0 <= j < old(self).meshes@.len() ==> final(self).meshes@[j] == old(self).meshes@[j],
            spec_index_stable(old(self).meshes@, final(self).meshes@),
            final(self).meshes@[r as int] is Live,
            ({
                let m = spec_live_entry(final(self).meshes@[r as int]);
                &&& m.index_count == mesh_data.indices@.len()
                &&& (m.instancing matches Instancing::Instanced { positions, .. } && positions@
                    == instance_positions@)
                &&& m.pipeline_name == pipeline_name
                &&& !m.has_texture
                &&& m.base_color == spec_white()
                &&& m.skinning is None
                &&& m.id@ == old(self).next_id@
            }),
            final(self).next_id@ == old(self).next_id@ + 1,
            final(self).pipelines == old(self).pipelines,
            final(self).pacer == old(self).pacer,
            final(self).spec_same_frame_config(*old(self)),
            final(self).textured_pipelines@ == old(self).textured_pipelines@,
            final(self).next_handle == old(self).next_handle + 3,
    {
        let vertex_buffer = self.next_handle;
        let index_buffer = self.next_handle + 1;
        let instance_buffer = self.next_handle + 2;
        self.next_handle = self.next_handle + 3;
        let ghost mgr0 = self.memory_pool;
        let vb = self.memory_pool.allocate_buffer(
            vertex_req.memory_type_index,
            vertex_req.size,
            vertex_req.alignment,
        );
        let ghost mgr1 = self.memory_pool;
        let ib = self.memory_pool.allocate_buffer(
            index_req.memory_type_index,
            index_req.size,
            index_req.alignment,
        );
        let ghost mgr2 = self.memory_pool;
        let nb = self.memory_pool.allocate_buffer(
            instance_req.memory_type_index,
            instance_req.size,
            instance_req.alignment,
        );
        let index = self.meshes.len();
        let entry = MeshEntry {
            vertex_buffer,
            vertex_memory: MeshMemory::Pooled(vb),
            vertex_buffer_size: (mesh_data.vertices.len() as u64) * VERTEX_STRIDE,
            index_buffer,
            index_memory: MeshMemory::Pooled(ib),
            index_count: mesh_data.indices.len() as u32,
            instancing: Instancing::Instanced {
                buffer: instance_buffer,
                memory: MeshMemory::Pooled(nb),
                positions: instance_positions,
            },
            pipeline_name,
            has_texture: false,
            base_color: Color4::white(),
            skinning: None,
            id: Ghost(self.next_id@),
        };
        self.meshes.push(MeshSlot::Live(entry));
        proof {
            self.next_id@ = self.next_id@ + 1;
            lemma_wf_after_push_blocks(
                *old(self),
                *self,
                mgr1,
                mgr2,
                Some(vb),
                Some(ib),
                Some(nb),
            );
        }
        index
    }

    /// Append a skinned, hardware-instanced mesh.  Its buffers (vertex,
    /// index, instance positions, joint uniforms, camera uniforms) are
    /// whole driver allocations the caller owns directly, not pool
    /// blocks.  The joint uniform buffer starts as the given joint
    /// matrices cut or zero-padded to `MAX_JOINTS` entries.
    pub fn add_skinned_mesh_instanced(
        &mut self,
        mesh_data: &SkinnedMeshData,
        instance_positions: Vec<[u32; 3]>,
        pipeline_name: Option<String>,
    ) -> (r: usize)
        requires
            old(self).wf(),
            mesh_data.indices@.len() <= u32::MAX,
            instance_positions@.len() <= u32::MAX,
            old(self).next_handle + 5 <= u64::MAX,
        ensures
            final(self).wf(),
            r == old(self).meshes@.len(),
            final(self).meshes@.len() == old(self).meshes@.len() + 1,
            forall|j: int|
                0 <= j < old(self).meshes@.len() ==> final(self).meshes@[j] == old(self).meshes@[j],
            spec_index_stable(old(self).meshes@, final(self).meshes@),
            final(self).meshes@[r as int] is Live,
            ({
                let m = spec_live_entry(final(self).meshes@[r as int]);
                &&& m.index_count == mesh_data.indices@.len()
                &&& m.vertex_buffer == old(self).next_handle
                &&& m.index_buffer == old(self).next_handle + 1
                &&& (m.instancing matches Instancing::Instanced { buffer, positions, memory }
                    && buffer == old(self).next_handle + 2 && positions@ == instance_positions@
                    && memory is DirectOwned)
                &&& m.pipeline_name == pipeline_name
                &&& !m.has_texture
                &&& m.base_color == spec_white()
                &&& m.vertex_memory is DirectOwned
                &&& m.index_memory is DirectOwned
                &&& (m.skinning matches Some(sk) && {
                    &&& sk.joint_matrices@ == crate::mesh::spec_pad_joints(
                        mesh_data.joint_matrices@,
                    )
                    &&& sk.joint_buffer == old(self).next_handle + 3
                    // the camera uniform buffer exists, so the frame walk
                    // rewrites it with view and projection every frame
                    &&& sk.camera_buffer == Some((old(self).next_handle + 4) as u64)
                })
                &&& m.id@ == old(self).next_id@
            }),
            final(self).next_id@ == old(self).next_id@ + 1,
            final(self).pipelines == old(self).pipelines,
            final(self).pacer == old(self).pacer,
            final(self).memory_pool == old(self).memory_pool,
            final(self).spec_same_frame_config(*old(self)),
            final(self).textured_pipelines@ == old(self).textured_pipelines@,
            final(self).next_handle == old(self).next_handle + 5,
    {
        let vertex_buffer = self.next_handle;
        let index_buffer = self.next_handle + 1;
        let instance_buffer = self.next_handle + 2;
        let joint_buffer = self.next_handle + 3;
        let camera_buffer = self.next_handle + 4;
        self.next_handle = self.next_handle + 5;
        let mut joints: Vec<Mat4> = Vec::new();
        let mut k: usize = 0;
        while k < MAX_JOINTS
            invariant
                0 <= k <= MAX_JOINTS,
                joints@.len() == k,
                forall|j: int|
                    0 <= j < k ==> joints@[j] == crate::mesh::spec_pad_joints(
                        mesh_data.joint_matrices@,
                    )[j],
            decreases MAX_JOINTS - k,
        {
            if k < mesh_data.joint_matrices.len() {
                joints.push(mesh_data.joint_matrices[k]);
            } else {
                joints.push(Mat4::zero());
            }
            k = k + 1;
        }
        proof {
            assert(joints@ =~= crate::mesh::spec_pad_joints(mesh_data.joint_matrices@));
        }
        let index = self.meshes.len();
        let entry = MeshEntry {
            vertex_buffer,
            vertex_memory: MeshMemory::DirectOwned(vertex_buffer),
            vertex_buffer_size: 0,
            index_buffer,
            index_memory: MeshMemory::DirectOwned(index_buffer),
            index_count: mesh_data.indices.len() as u32,
            instancing: Instancing::Instanced {
                buffer: instance_buffer,
                memory: MeshMemory::DirectOwned(instance_buffer),
                positions: instance_positions,
            },
            pipeline_name,
            has_texture: false,
            base_color: Color4::white(),
            skinning: Some(
                Skinning { joint_matrices: joints, joint_buffer, camera_buffer: Some(camera_buffer) },
            ),
            id: Ghost(self.next_id@),
        };
        self.meshes.push(MeshSlot::Live(entry));
        proof {
            self.next_id@ = self.next_id@ + 1;
            let slots2 = self.meshes@;
            let slots1 = old(self).meshes@;
            assert forall|j: int, w: int|
                0 <= j < slots2.len() && 0 <= w < 3 && (#[trigger] spec_slot_block(slots2[j], w))
                    is Some implies self.memory_pool.block_live(spec_slot_block(slots2[j], w)->0) by {
                if j < slots1.len() {
                    assert(slots2[j] == slots1[j]);
                } else {
                    assert(spec_slot_block(slots2[j], w) is None);
                }
            }
            assert forall|j1: int, w1: int, j2: int, w2: int|
                0 <= j1 < slots2.len() && 0 <= w1 < 3 && 0 <= j2 < slots2.len() && 0 <= w2 < 3 && (
            j1 != j2 || w1 != w2) && (#[trigger] spec_slot_block(slots2[j1], w1)) is Some && (
            #[trigger] spec_slot_block(slots2[j2], w2)) is Some implies spec_block_key(
                spec_slot_block(slots2[j1], w1)->0,
            ) != spec_block_key(spec_slot_block(slots2[j2], w2)->0) by {
                if j1 < slots1.len() && j2 < slots1.len() {
                    assert(slots2[j1] == slots1[j1]);
                    assert(slots2[j2] == slots1[j2]);
                } else if j1 >= slots1.len() {
                    assert(spec_slot_block(slots2[j1], w1) is None);
                } else {
                    assert(spec_slot_block(slots2[j2], w2) is None);
                }
            }
        }
        index
    }

    /// Remove a mesh: every pooled block it held is freed back to its
    /// pool exactly once, and the slot becomes inert.  The index keeps
    /// denoting that inert slot forever — indices are never reused for a
    /// different logical mesh.  No-op out of range; removing an already
    /// emptied slot frees nothing.
    pub fn remove_mesh(&mut self, mesh_index: usize)
        requires
            old(self).wf(),
        ensures
            final(self).wf(),
            final(self).pipelines == old(self).pipelines,
            final(self).pacer == old(self).pacer,
            final(self).next_id == old(self).next_id,
            final(self).spec_same_frame_config(*old(self)),
            final(self).textured_pipelines@ == old(self).textured_pipelines@,
            final(self).next_handle == old(self).next_handle,
            spec_index_stable(old(self).meshes@, final(self).meshes@),
            mesh_index >= old(self).meshes@.len() ==> *final(self) == *old(self),
            mesh_index < old(self).meshes@.len() ==> final(self).meshes@ == old(
                self,
            ).meshes@.update(mesh_index as int, MeshSlot::Empty),
            mesh_index < old(self).meshes@.len() ==> forall|w: int|
                0 <= w < 3 && (#[trigger] spec_slot_block(
                    old(self).meshes@[mesh_index as int],
                    w,
                )) is Some ==> !final(self).memory_pool.block_live(
                    spec_slot_block(old(self).meshes@[mesh_index as int], w)->0,
                ),
    {
        if mesh_index >= self.meshes.len() {
            return ;
        }
        let slot = self.meshes.remove(mesh_index);
        let ghost pre = *old(self);
        let ghost i = mesh_index as int;
        match slot {
            MeshSlot::Empty => {
                self.meshes.insert(mesh_index, MeshSlot::Empty);
                proof {
                    lemma_remove_insert_is_update(pre.meshes@, i, MeshSlot::Empty);
                    assert(final(self).meshes@ =~= pre.meshes@.update(i, MeshSlot::Empty));
                    lemma_blocks_wf_update_same(
                        pre.meshes@,
                        pre.memory_pool,
                        i,
                        MeshSlot::Empty,
                    );
                    assert forall|j: int| 0 <= j < self.meshes@.len() implies match
                        #[trigger] self.meshes@[j] {
                        MeshSlot::Live(m) => spec_entry_inv(m) && m.id@ < self.next_id@,
                        MeshSlot::Empty => true,
                    } by {
                        if j != i {
                            assert(self.meshes@[j] == pre.meshes@[j]);
                        }
                    }
                    assert forall|j1: int, j2: int|
                        0 <= j1 < j2 < self.meshes@.len() && (#[trigger] self.meshes@[j1]) is Live
                            && (#[trigger] self.meshes@[j2]) is Live implies self.meshes@[j1].spec_id()
                        != self.meshes@[j2].spec_id() by {
                        assert(self.meshes@[j1] == pre.meshes@[j1]);
                        assert(self.meshes@[j2] == pre.meshes@[j2]);
                    }
                }
            },
            MeshSlot::Live(m) => {
                let ghost mgr0 = self.memory_pool;
                let ghost ob0 = spec_slot_block(pre.meshes@[i], 0);
                let ghost ob1 = spec_slot_block(pre.meshes@[i], 1);
                let ghost ob2 = spec_slot_block(pre.meshes@[i], 2);
                match &m.vertex_memory {
                    MeshMemory::Pooled(b) => {
                        proof {
                            assert(mgr0.block_live(spec_slot_block(pre.meshes@[i], 0)->0));
                        }
                        self.memory_pool.free_buffer(*b);
                    },
                    MeshMemory::DirectOwned(_) => {},
                }
                let ghost mgr_a = self.memory_pool;
                match &m.index_memory {
                    MeshMemory::Pooled(b) => {
                        proof {
                            assert(mgr0.block_live(spec_slot_block(pre.meshes@[i], 1)->0));
                            match ob0 {
                                Some(x) => {
                                    assert(spec_block_key(spec_slot_block(pre.meshes@[i], 1)->0)
                                        != spec_block_key(x));
                                },
                                None => {},
                            }
                        }
                        self.memory_pool.free_buffer(*b);
                    },
                    MeshMemory::DirectOwned(_) => {},
                }
                let ghost mgr_b = self.memory_pool;
                match &m.instancing {
                    Instancing::Instanced { memory: MeshMemory::Pooled(b), .. } => {
                        proof {
                            assert(mgr0.block_live(spec_slot_block(pre.meshes@[i], 2)->0));
                            match ob0 {
                                Some(x) => {
                                    assert(spec_block_key(spec_slot_block(pre.meshes@[i], 2)->0)
                                        != spec_block_key(x));
                                },
                                None => {},
                            }
                            match ob1 {
                                Some(x) => {
                                    assert(spec_block_key(spec_slot_block(pre.meshes@[i], 2)->0)
                                        != spec_block_key(x));
                                },
                                None => {},
                            }
                        }
                        self.memory_pool.free_buffer(*b);
                    },
                    _ => {},
                }
                self.meshes.insert(mesh_index, MeshSlot::Empty);
                proof {
                    lemma_remove_insert_is_update(pre.meshes@, i, MeshSlot::Empty);
                    assert(final(self).meshes@ =~= pre.meshes@.update(i, MeshSlot::Empty));
                    lemma_wf_after_slot_shrink(
                        pre,
                        *self,
                        i,
                        mgr_a,
                        mgr_b,
                        ob0,
                        ob1,
                        ob2,
                    );
                }
            },
        }
    }

    /// Replace a mesh's geometry in place: the old vertex and index
    /// buffers go away (pooled blocks return to their pools; directly
    /// owned allocations are destroyed by the caller), new directly owned
    /// buffers take their place, and everything else — transforms or
    /// instances, pipeline assignment, texture, color, skinning, and the
    /// mesh's identity — is preserved, so the index keeps denoting the
    /// same logical mesh.  Fails if and only if the index is out of
    /// range; replacing an emptied slot is accepted and leaves it inert.
    pub fn replace_mesh(&mut self, mesh_index: usize, mesh_data: &MeshData) -> (r: Result<
        (),
        EngineError,
    >)
        requires
            old(self).wf(),
            mesh_data.indices@.len() <= u32::MAX,
            mesh_data.vertices@.len() * VERTEX_STRIDE <= u64::MAX,
            old(self).next_handle + 2 <= u64::MAX,
        ensures
            final(self).wf(),
            final(self).pipelines == old(self).pipelines,
            final(self).pacer == old(self).pacer,
            final(self).next_id == old(self).next_id,
            final(self).spec_same_frame_config(*old(self)),
            final(self).textured_pipelines@ == old(self).textured_pipelines@,
            spec_index_stable(old(self).meshes@, final(self).meshes@),
            mesh_index < old(self).meshes@.len() ==> r == Result::<(), EngineError>::Ok(()),
            mesh_index >= old(self).meshes@.len() ==> r == Result::<(), EngineError>::Err(
                EngineError::MeshIndexOutOfBounds,
            ),
            mesh_index >= old(self).meshes@.len() ==> *final(self) == *old(self),
            mesh_index < old(self).meshes@.len() && old(self).meshes@[mesh_index as int] is Empty
                ==> final(self).meshes@ == old(self).meshes@ && final(self).next_handle == old(
                    self,
                ).next_handle && final(self).memory_pool == old(self).memory_pool,
            mesh_index < old(self).meshes@.len() && old(self).meshes@[mesh_index as int] is Live
                ==> final(self).next_handle == old(self).next_handle + 2,
            mesh_index < old(self).meshes@.len() && old(self).meshes@[mesh_index as int] is Live
                ==> {
                let mo = spec_live_entry(old(self).meshes@[mesh_index as int]);
                &&& final(self).meshes@.len() == old(self).meshes@.len()
                &&& forall|j: int|
                    0 <= j < old(self).meshes@.len() && j != mesh_index ==> final(self).meshes@[j]
                        == old(self).meshes@[j]
                &&& final(self).meshes@[mesh_index as int] is Live
                &&& ({
                    let mn = spec_live_entry(final(self).meshes@[mesh_index as int]);
                    &&& mn.index_count == mesh_data.indices@.len()
                    &&& mn.vertex_buffer_size == mesh_data.vertices@.len() * VERTEX_STRIDE
                    &&& mn.vertex_memory is DirectOwned
                    &&& mn.index_memory is DirectOwned
                    &&& mn.instancing == mo.instancing
                    &&& mn.pipeline_name == mo.pipeline_name
                    &&& mn.has_texture == mo.has_texture
                    &&& mn.base_color == mo.base_color
                    &&& mn.skinning == mo.skinning
                    &&& mn.id == mo.id
                })
            },
    {
        if mesh_index >= self.meshes.len() {
            return Err(EngineError::MeshIndexOutOfBounds);
        }
        let slot = self.meshes.remove(mesh_index);
        let ghost pre = *old(self);
        let ghost i = mesh_index as int;
        match slot {
            MeshSlot::Empty => {
                self.meshes.insert(mesh_index, MeshSlot::Empty);
                proof {
                    lemma_remove_insert_is_update(pre.meshes@, i, MeshSlot::Empty);
                    assert(final(self).meshes@ =~= pre.meshes@);
                }
            },
            MeshSlot::Live(m) => {
                let MeshEntry {
                    vertex_buffer: _,
                    vertex_memory,
                    vertex_buffer_size: _,
                    index_buffer: _,
                    index_memory,
                    index_count: _,
                    instancing,
                    pipeline_name,
                    has_texture,
                    base_color,
                    skinning,
                    id,
                } = m;
                let ghost mgr0 = self.memory_pool;
                let ghost ob0 = spec_slot_block(pre.meshes@[i], 0);
                let ghost ob1 = spec_slot_block(pre.meshes@[i], 1);
                match &vertex_memory {
                    MeshMemory::Pooled(b) => {
                        proof {
                            assert(mgr0.block_live(spec_slot_block(pre.meshes@[i], 0)->0));
                        }
                        self.memory_pool.free_buffer(*b);
                    },
                    MeshMemory::DirectOwned(_) => {},
                }
                let ghost mgr_a = self.memory_pool;
                match &index_memory {
                    MeshMemory::Pooled(b) => {
                        proof {
                            assert(mgr0.block_live(spec_slot_block(pre.meshes@[i], 1)->0));
                            match ob0 {
                                Some(x) => {
                                    assert(spec_block_key(spec_slot_block(pre.meshes@[i], 1)->0)
                                        != spec_block_key(x));
                                },
                                None => {},
                            }
                        }
                        self.memory_pool.free_buffer(*b);
                    },
                    MeshMemory::DirectOwned(_) => {},
                }
                let vertex_buffer = self.next_handle;
                let index_buffer = self.next_handle + 1;
                self.next_handle = self.next_handle + 2;
                let m2 = MeshEntry {
                    vertex_buffer,
                    vertex_memory: MeshMemory::DirectOwned(vertex_buffer),
                    vertex_buffer_size: (mesh_data.vertices.len() as u64) * VERTEX_STRIDE,
                    index_buffer,
                    index_memory: MeshMemory::DirectOwned(index_buffer),
                    index_count: mesh_data.indices.len() as u32,
                    instancing,
                    pipeline_name,
                    has_texture,
                    base_color,
                    skinning,
                    id,
                };
                self.meshes.insert(mesh_index, MeshSlot::Live(m2));
                proof {
                    lemma_remove_insert_is_update(pre.meshes@, i, MeshSlot::Live(m2));
                    assert(final(self).meshes@ =~= pre.meshes@.update(i, MeshSlot::Live(m2)));
                    lemma_wf_after_slot_shrink(
                        pre,
                        *self,
                        i,
                        mgr_a,
                        self.memory_pool,
                        ob0,
                        ob1,
                        None,
                    );
                }
            },
        }
        Ok(())
    }

    /// Whether the slot at `mesh_index` is a live skinned mesh.
    pub open spec fn spec_is_skinned(self, mesh_index: usize) -> bool {
        &&& mesh_index < self.meshes@.len()
        &&& self.meshes@[mesh_index as int] is Live
        &&& spec_live_entry(self.meshes@[mesh_index as int]).skinning is Some
    }

    /// Overwrite the leading entries of a skinned mesh's joint uniform
    /// buffer with `joint_matrices` and clear every entry past the new
    /// list to zero; entries beyond `MAX_JOINTS` are silently dropped.
    /// Reading the buffer back therefore always yields the given
    /// matrices cut or zero-padded to `MAX_JOINTS` entries.  No-op out
    /// of range, on an emptied slot, or on a mesh without skinning.
    /// Called once per animated mesh per frame.
    pub fn update_mesh_joint_matrices(&mut self, mesh_index: usize, joint_matrices: &Vec<Mat4>)
        requires
            old(self).wf(),
        ensures
            final(self).wf(),
            final(self).spec_same_but_meshes(*old(self)),
            final(self).next_id == old(self).next_id,
            spec_index_stable(old(self).meshes@, final(self).meshes@),
            !old(self).spec_is_skinned(mesh_index) ==> final(self).meshes@ == old(self).meshes@,
            old(self).spec_is_skinned(mesh_index) ==> {
                let mo = spec_live_entry(old(self).meshes@[mesh_index as int]);
                let sko = mo.skinning->0;
                &&& final(self).meshes@.len() == old(self).meshes@.len()
                &&& forall|j: int|
                    0 <= j < old(self).meshes@.len() && j != mesh_index ==> final(self).meshes@[j]
                        == old(self).meshes@[j]
                &&& final(self).meshes@[mesh_index as int] is Live
                &&& ({
                    let mn = spec_live_entry(final(self).meshes@[mesh_index as int]);
                    &&& mn.skinning is Some
                    &&& ({
                        let skn = mn.skinning->0;
                        &&& skn.joint_buffer == sko.joint_buffer
                        &&& skn.camera_buffer == sko.camera_buffer
                        &&& skn.joint_matrices@ == crate::mesh::spec_pad_joints(joint_matrices@)
                    })
                    &&& mn == MeshEntry { skinning: mn.skinning, ..mo }
                })
            },
    {
        if mesh_index >= self.meshes.len() {
            return ;
        }
        let slot = self.meshes.remove(mesh_index);
        match slot {
            MeshSlot::Live(m) => {
                let MeshEntry {
                    vertex_buffer,
                    vertex_memory,
                    vertex_buffer_size,
                    index_buffer,
                    index_memory,
                    index_count,
                    instancing,
                    pipeline_name,
                    has_texture,
                    base_color,
                    skinning,
                    id,
                } = m;
                match skinning {
                    Some(sk) => {
                        let Skinning { joint_matrices: mut stored, joint_buffer, camera_buffer } =
                            sk;
                        let n = if joint_matrices.len() < MAX_JOINTS {
                            joint_matrices.len()
                        } else {
                            MAX_JOINTS
                        };
                        let ghost stored0 = stored@;
                        let mut k: usize = 0;
                        while k < n
                            invariant
                                0 <= k <= n,
                                n <= joint_matrices@.len(),
                                n <= MAX_JOINTS,
                                stored@.len() == stored0.len(),
                                forall|j: int|
                                    0 <= j < k ==> stored@[j] == joint_matrices@[j],
                                forall|j: int|
                                    k <= j < stored0.len() ==> stored@[j] == stored0[j],
                                stored0.len() == MAX_JOINTS,
                            decreases n - k,
                        {
                            stored.set(k, joint_matrices[k]);
                            k = k + 1;
                        }
                        let mut z: usize = n;
                        while z < MAX_JOINTS
                            invariant
                                n <= z <= MAX_JOINTS,
                                n == if joint_matrices@.len() < MAX_JOINTS {
                                    joint_matrices@.len() as int
                                } else {
                                    MAX_JOINTS as int
                                },
                                stored@.len() == MAX_JOINTS,
                                forall|j: int|
                                    0 <= j < n ==> stored@[j] == joint_matrices@[j],
                                forall|j: int|
                                    n <= j < z ==> stored@[j]
                                        == crate::mesh::spec_zero_mat4(),
                            decreases MAX_JOINTS - z,
                        {
                            stored.set(z, Mat4::zero());
                            z = z + 1;
                        }
                        proof {
                            assert(stored@ =~= crate::mesh::spec_pad_joints(joint_matrices@));
                        }
                        let m2 = MeshEntry {
                            vertex_buffer,
                            vertex_memory,
                            vertex_buffer_size,
                            index_buffer,
                            index_memory,
                            index_count,
                            instancing,
                            pipeline_name,
                            has_texture,
                            base_color,
                            skinning: Some(
                                Skinning { joint_matrices: stored, joint_buffer, camera_buffer },
                            ),
                            id,
                        };
                        self.meshes.insert(mesh_index, MeshSlot::Live(m2));
                        proof {
                            lemma_remove_insert_is_update(
                                old(self).meshes@,
                                mesh_index as int,
                                MeshSlot::Live(m2),
                            );
                            lemma_wf_after_entry_update(*old(self), *self, mesh_index as int);
                        }
                    },
                    None => {
                        let m2 = MeshEntry {
                            vertex_buffer,
                            vertex_memory,
                            vertex_buffer_size,
                            index_buffer,
                            index_memory,
                            index_count,
                            instancing,
                            pipeline_name,
                            has_texture,
                            base_color,
                            skinning: None,
                            id,
                        };
                        self.meshes.insert(mesh_index, MeshSlot::Live(m2));
                        proof {
                            assert(MeshSlot::Live(m2) == old(self).meshes@[mesh_index as int]);
                            lemma_remove_insert_is_update(
                                old(self).meshes@,
                                mesh_index as int,
                                MeshSlot::Live(m2),
                            );
                            assert(final(self).meshes@ =~= old(self).meshes@);
                        }
                    },
                }
            },
            MeshSlot::Empty => {
                self.meshes.insert(mesh_index, MeshSlot::Empty);
                proof {
                    lemma_remove_insert_is_update(
                        old(self).meshes@,
                        mesh_index as int,
                        MeshSlot::Empty,
                    );
                    assert(final(self).meshes@ =~= old(self).meshes@);
                }
            },
        }
    }

    /// Turn a mesh skinned in place, or refresh its joints: a mesh that
    /// already has skinning gets its joint buffer rewritten exactly as
    /// `update_mesh_joint_matrices` does; a mesh without skinning gets
    /// a fresh joint uniform buffer (the caller creates it) — but no
    /// camera uniform buffer, so its camera keeps traveling through
    /// push constants.  Either way the buffer afterwards holds the
    /// given matrices cut or zero-padded to `MAX_JOINTS`.  Fails if and
    /// only if the index is out of range; an emptied slot stays inert.
    pub fn update_skinned_mesh_joints(&mut self, mesh_index: usize, joint_matrices: Vec<Mat4>)
        -> (r: Result<(), EngineError>)
        requires
            old(self).wf(),
            old(self).next_handle < u64::MAX,
        ensures
            final(self).wf(),
            final(self).pipelines == old(self).pipelines,
            final(self).pacer == old(self).pacer,
            final(self).memory_pool == old(self).memory_pool,
            final(self).next_id == old(self).next_id,
            final(self).spec_same_frame_config(*old(self)),
            final(self).textured_pipelines@ == old(self).textured_pipelines@,
            spec_index_stable(old(self).meshes@, final(self).meshes@),
            mesh_index < old(self).meshes@.len() ==> r == Result::<(), EngineError>::Ok(()),
            mesh_index >= old(self).meshes@.len() ==> r == Result::<(), EngineError>::Err(
                EngineError::MeshIndexOutOfBounds,
            ),
            mesh_index >= old(self).meshes@.len() || old(self).meshes@[mesh_index as int] is Empty
                ==> final(self).meshes@ == old(self).meshes@ && final(self).next_handle == old(
                    self,
                ).next_handle,
            mesh_index < old(self).meshes@.len() && old(self).meshes@[mesh_index as int] is Live
                ==> {
                let mo = spec_live_entry(old(self).meshes@[mesh_index as int]);
                &&& final(self).meshes@.len() == old(self).meshes@.len()
                &&& forall|j: int|
                    0 <= j < old(self).meshes@.len() && j != mesh_index ==> final(self).meshes@[j]
                        == old(self).meshes@[j]
                &&& final(self).meshes@[mesh_index as int] is Live
                &&& ({
                    let mn = spec_live_entry(final(self).meshes@[mesh_index as int]);
                    &&& mn.skinning is Some
                    &&& ({
                        let skn = mn.skinning->0;
                        &&& skn.joint_matrices@ == crate::mesh::spec_pad_joints(joint_matrices@)
                        &&& (mo.skinning matches Some(sko) ==> {
                            &&& skn.joint_buffer == sko.joint_buffer
                            &&& skn.camera_buffer == sko.camera_buffer
                            &&& final(self).next_handle == old(self).next_handle
                        })
                        &&& (mo.skinning is None ==> {
                            &&& skn.joint_buffer == old(self).next_handle
                            &&& skn.camera_buffer is None
                            &&& final(self).next_handle == old(self).next_handle + 1
                        })
                    })
                    &&& mn == MeshEntry { skinning: mn.skinning, ..mo }
                })
            },
    {
        if mesh_index >= self.meshes.len() {
            return Err(EngineError::MeshIndexOutOfBounds);
        }
        let slot = self.meshes.remove(mesh_index);
        match slot {
            MeshSlot::Live(m) => {
                let MeshEntry {
                    vertex_buffer,
                    vertex_memory,
                    vertex_buffer_size,
                    index_buffer,
                    index_memory,
                    index_count,
                    instancing,
                    pipeline_name,
                    has_texture,
                    base_color,
                    skinning,
                    id,
                } = m;
                let new_skinning = match skinning {
                    Some(sk) => {
                        let Skinning { joint_matrices: mut stored, joint_buffer, camera_buffer } =
                            sk;
                        let n = if joint_matrices.len() < MAX_JOINTS {
                            joint_matrices.len()
                        } else {
                            MAX_JOINTS
                        };
                        let ghost stored0 = stored@;
                        let mut k: usize = 0;
                        while k < n
                            invariant
                                0 <= k <= n,
                                n <= joint_matrices@.len(),
                                n <= MAX_JOINTS,
                                stored@.len() == stored0.len(),
                                forall|j: int|
                                    0 <= j < k ==> stored@[j] == joint_matrices@[j],
                                forall|j: int|
                                    k <= j < stored0.len() ==> stored@[j] == stored0[j],
                                stored0.len() == MAX_JOINTS,
                            decreases n - k,
                        {
                            stored.set(k, joint_matrices[k]);
                            k = k + 1;
                        }
                        let mut z: usize = n;
                        while z < MAX_JOINTS
                            invariant
                                n <= z <= MAX_JOINTS,
                                n == if joint_matrices@.len() < MAX_JOINTS {
                                    joint_matrices@.len() as int
                                } else {
                                    MAX_JOINTS as int
                                },
                                stored@.len() == MAX_JOINTS,
                                forall|j: int|
                                    0 <= j < n ==> stored@[j] == joint_matrices@[j],
                                forall|j: int|
                                    n <= j < z ==> stored@[j]
                                        == crate::mesh::spec_zero_mat4(),
                            decreases MAX_JOINTS - z,
                        {
                            stored.set(z, Mat4::zero());
                            z = z + 1;
                        }
                        proof {
                            assert(stored@ =~= crate::mesh::spec_pad_joints(joint_matrices@));
                        }
                        Some(Skinning { joint_matrices: stored, joint_buffer, camera_buffer })
                    },
                    None => {
                        let joint_buffer = self.next_handle;
                        self.next_handle = self.next_handle + 1;
                        let mut joints: Vec<Mat4> = Vec::new();
                        let mut k: usize = 0;
                        while k < MAX_JOINTS
                            invariant
                                0 <= k <= MAX_JOINTS,
                                joints@.len() == k,
                                forall|j: int|
                                    0 <= j < k ==> joints@[j] == crate::mesh::spec_pad_joints(
                                        joint_matrices@,
                                    )[j],
                            decreases MAX_JOINTS - k,
                        {
                            if k < joint_matrices.len() {
                                joints.push(joint_matrices[k]);
                            } else {
                                joints.push(Mat4::zero());
                            }
                            k = k + 1;
                        }
                        proof {
                            assert(joints@ =~= crate::mesh::spec_pad_joints(joint_matrices@));
                        }
                        Some(
                            Skinning {
                                joint_matrices: joints,
                                joint_buffer,
                                camera_buffer: None,
                            },
                        )
                    },
                };
                let m2 = MeshEntry {
                    vertex_buffer,
                    vertex_memory,
                    vertex_buffer_size,
                    index_buffer,
                    index_memory,
                    index_count,
                    instancing,
                    pipeline_name,
                    has_texture,
                    base_color,
                    skinning: new_skinning,
                    id,
                };
                self.meshes.insert(mesh_index, MeshSlot::Live(m2));
                proof {
                    lemma_remove_insert_is_update(
                        old(self).meshes@,
                        mesh_index as int,
                        MeshSlot::Live(m2),
                    );
                    lemma_wf_after_entry_update(*old(self), *self, mesh_index as int);
                }
            },
            MeshSlot::Empty => {
                self.meshes.insert(mesh_index, MeshSlot::Empty);
                proof {
                    lemma_remove_insert_is_update(
                        old(self).meshes@,
                        mesh_index as int,
                        MeshSlot::Empty,
                    );
                    assert(final(self).meshes@ =~= old(self).meshes@);
                }
            },
        }
        Ok(())
    }

    /// Read a skinned mesh's joint uniform buffer back, as a mapped read
    /// of the driver buffer would see it; `None` where
    /// `update_mesh_joint_matrices` would have been a no-op.
    pub fn read_joint_matrices(&self, mesh_index: usize) -> (r: Option<&Vec<Mat4>>)
        requires
            self.wf(),
        ensures
            self.spec_is_skinned(mesh_index) ==> (r matches Some(jm) && jm@ == spec_live_entry(
                self.meshes@[mesh_index as int],
            ).skinning->0.joint_matrices@),
            !self.spec_is_skinned(mesh_index) ==> r is None,
    {
        if mesh_index >= self.meshes.len() {
            return None;
        }
        match &self.meshes[mesh_index] {
            MeshSlot::Live(m) => match &m.skinning {
                Some(sk) => Some(&sk.joint_matrices),
                None => None,
            },
            MeshSlot::Empty => None,
        }
    }

    /// Rewrite a hardware-instanced mesh's per-instance positions (the
    /// caller re-uploads its instance buffer); the next frame's single
    /// instanced draw covers the new count.  Fails if and only if the
    /// index is out of range; an emptied slot or a per-transform mesh is
    /// left unchanged.
    pub fn update_mesh_instance_buffer(&mut self, mesh_index: usize, positions: Vec<[u32; 3]>)
        -> (r: Result<(), EngineError>)
        requires
            old(self).wf(),
            positions@.len() <= u32::MAX,
        ensures
            final(self).wf(),
            final(self).spec_same_but_meshes(*old(self)),
            final(self).next_id == old(self).next_id,
            spec_index_stable(old(self).meshes@, final(self).meshes@),
            mesh_index < old(self).meshes@.len() ==> r == Result::<(), EngineError>::Ok(()),
            mesh_index >= old(self).meshes@.len() ==> r == Result::<(), EngineError>::Err(
                EngineError::MeshIndexOutOfBounds,
            ),
            mesh_index < old(self).meshes@.len() && old(self).meshes@[mesh_index as int] is Live
                && spec_live_entry(old(self).meshes@[mesh_index as int]).instancing is Instanced
                ==> {
                let mo = spec_live_entry(old(self).meshes@[mesh_index as int]);
                final(self).meshes@ == old(self).meshes@.update(
                    mesh_index as int,
                    MeshSlot::Live(
                        MeshEntry {
                            instancing: (match mo.instancing {
                                Instancing::Instanced { buffer, memory, .. } =>
                                    Instancing::Instanced { buffer, memory, positions },
                                Instancing::Individual(_) => arbitrary(),
                            }),
                            ..mo
                        },
                    ),
                )
            },
            mesh_index >= old(self).meshes@.len() || old(self).meshes@[mesh_index as int] is Empty
                || spec_live_entry(old(self).meshes@[mesh_index as int]).instancing is Individual
                ==> final(self).meshes@ == old(self).meshes@,
    {
        if mesh_index >= self.meshes.len() {
            return Err(EngineError::MeshIndexOutOfBounds);
        }
        let slot = self.meshes.remove(mesh_index);
        match slot {
            MeshSlot::Live(m) => {
                match m.instancing {
                    Instancing::Instanced { buffer, memory, positions: _ } => {
                        let m2 = MeshEntry {
                            instancing: Instancing::Instanced { buffer, memory, positions },
                            ..m
                        };
                        self.meshes.insert(mesh_index, MeshSlot::Live(m2));
                        proof {
                            lemma_remove_insert_is_update(
                                old(self).meshes@,
                                mesh_index as int,
                                MeshSlot::Live(m2),
                            );
                            lemma_wf_after_entry_update(*old(self), *self, mesh_index as int);
                        }
                    },
                    Instancing::Individual(ts) => {
                        let m2 = MeshEntry { instancing: Instancing::Individual(ts), ..m };
                        self.meshes.insert(mesh_index, MeshSlot::Live(m2));
                        proof {
                            assert(MeshSlot::Live(m2) == old(self).meshes@[mesh_index as int]);
                            lemma_remove_insert_is_update(
                                old(self).meshes@,
                                mesh_index as int,
                                MeshSlot::Live(m2),
                            );
                            assert(final(self).meshes@ =~= old(self).meshes@);
                        }
                    },
                }
            },
            MeshSlot::Empty => {
                self.meshes.insert(mesh_index, MeshSlot::Empty);
                proof {
                    lemma_remove_insert_is_update(
                        old(self).meshes@,
                        mesh_index as int,
                        MeshSlot::Empty,
                    );
                    assert(final(self).meshes@ =~= old(self).meshes@);
                }
            },
        }
        Ok(())
    }

    /// Stream a whole new vertex array into a mesh's GPU vertex buffer.
    /// The shared staging buffer is grown (never shrunk) to the upload
    /// size, and the returned plan tells the caller to copy the bytes
    /// into that staging buffer, record a one-shot staging-to-vertex
    /// copy, submit it and block until it completes — the upload is
    /// synchronous by design.  `None` (and no state change) out of range
    /// or on an emptied slot.
    pub fn update_mesh_vertices_full(&mut self, mesh_index: usize, new_vertices: &Vec<Vertex>)
        -> (r: Option<UploadPlan>)
        requires
            old(self).wf(),
            new_vertices@.len() * VERTEX_STRIDE <= u64::MAX,
            old(self).memory_pool.staging_generation < u64::MAX,
        ensures
            final(self).wf(),
            final(self).meshes@ == old(self).meshes@,
            final(self).pipelines == old(self).pipelines,
            final(self).pacer == old(self).pacer,
            final(self).next_id == old(self).next_id,
            final(self).spec_same_frame_config(*old(self)),
            final(self).textured_pipelines@ == old(self).textured_pipelines@,
            final(self).next_handle == old(self).next_handle,
            // only the staging buffer may change in the pool manager: the
            // pools and every block they track are untouched
            final(self).memory_pool.pools == old(self).memory_pool.pools,
            mesh_index >= old(self).meshes@.len() || old(self).meshes@[mesh_index as int]
                is Empty ==> r is None && *final(self) == *old(self),
            mesh_index < old(self).meshes@.len() && old(self).meshes@[mesh_index as int] is Live
                ==> {
                let size = new_vertices@.len() * VERTEX_STRIDE;
                &&& (r matches Some(plan) && {
                    &&& plan.copy_size == size
                    &&& plan.dst_buffer == spec_live_entry(
                        old(self).meshes@[mesh_index as int],
                    ).vertex_buffer
                    &&& plan.staging_generation == final(self).memory_pool.staging_generation
                })
                &&& final(self).memory_pool.staging_size >= size
                &&& (old(self).memory_pool.staging_size >= size ==> final(self).memory_pool == old(
                    self,
                ).memory_pool)
                &&& (old(self).memory_pool.staging_size < size ==> {
                    &&& final(self).memory_pool.staging_size == (if size
                        >= crate::pool::MIN_STAGING_SIZE as int {
                        size
                    } else {
                        crate::pool::MIN_STAGING_SIZE as int
                    })
                    &&& final(self).memory_pool.staging_generation == old(
                        self,
                    ).memory_pool.staging_generation + 1
                })
            },
    {
        if mesh_index >= self.meshes.len() {
            return None;
        }
        let is_live = match &self.meshes[mesh_index] {
            MeshSlot::Live(_) => true,
            MeshSlot::Empty => false,
        };
        if !is_live {
            return None;
        }
        let vertex_size = (new_vertices.len() as u64) * VERTEX_STRIDE;
        let generation = self.memory_pool.get_staging_buffer(vertex_size);
        let dst_buffer = match &self.meshes[mesh_index] {
            MeshSlot::Live(m) => m.vertex_buffer,
            MeshSlot::Empty => 0,
        };
        Some(UploadPlan { staging_generation: generation, copy_size: vertex_size, dst_buffer })
    }

    /// The legacy fallback's commands: when the mesh registry is empty
    /// but the raw single-mesh buffers still exist, one fixed-transform
    /// draw of those buffers (and nothing at all when they lack an index
    /// buffer).
    pub open spec fn spec_legacy_cmds(self, view: Mat4, proj: Mat4) -> Seq<DrawCommand> {
        if self.meshes@.len() == 0 && self.legacy is Some {
            let lb = self.legacy->0;
            match lb.index_buffer {
                Some(ib) => seq![
                    DrawCommand::BindVertexBuffer { binding: 0, buffer: lb.vertex_buffer },
                    DrawCommand::BindIndexBuffer { buffer: ib },
                    DrawCommand::PushConstants {
                        layout: self.default_pipeline.layout,
                        data: PushData::Mvp {
                            model: spec_legacy_model(),
                            view,
                            proj,
                            base_color: spec_white(),
                        },
                    },
                    DrawCommand::DrawIndexed {
                        index_count: lb.index_count,
                        instance_count: if lb.instance_count >= 1 {
                            lb.instance_count
                        } else {
                            1
                        },
                    },
                ],
                None => seq![
                    DrawCommand::BindVertexBuffer { binding: 0, buffer: lb.vertex_buffer },
                ],
            }
        } else {
            Seq::empty()
        }
    }

    /// Everything one recorded frame replays, in order: render pass and
    /// viewport setup, the mesh pass with minimized pipeline binds, the
    /// legacy fallback, the UI overlay when one was handed in for this
    /// frame, and the render-pass end.
    pub open spec fn spec_frame_commands(self, view: Mat4, proj: Mat4, overlay: bool) -> Seq<
        DrawCommand,
    > {
        seq![
            DrawCommand::BeginRenderPass { clear_color: spec_clear_magenta() },
            DrawCommand::SetViewport { width: self.extent_width, height: self.extent_height },
            DrawCommand::SetScissor { width: self.extent_width, height: self.extent_height },
        ] + spec_frame_cmds(
            self.meshes@,
            0,
            self.pipelines,
            self.default_pipeline,
            self.default_name@,
            self.has_global_texture,
            view,
            proj,
            None,
        ) + self.spec_legacy_cmds(view, proj) + (if overlay {
            seq![DrawCommand::DrawUiOverlay]
        } else {
            Seq::<DrawCommand>::empty()
        }) + seq![DrawCommand::EndRenderPass]
    }

    /// Emit everything one drawn mesh adds after its (possible)
    /// pipeline bind: buffer binds, descriptor work, push constants and
    /// draws.
    #[verifier::rlimit(100)]
    fn emit_mesh_body(
        m: &MeshEntry,
        i: usize,
        layout_arg: u64,
        global_texture: bool,
        view: Mat4,
        proj: Mat4,
        out: &mut Vec<DrawCommand>,
    )
        requires
            spec_entry_inv(*m),
        ensures
            final(out)@ == old(out)@ + crate::commands::spec_mesh_cmds(
                *m,
                i,
                layout_arg,
                global_texture,
                view,
                proj,
            ),
    {
        let ghost body = crate::commands::spec_mesh_cmds(*m, i, layout_arg, global_texture, view, proj);
        let resolved_layout = layout_arg;
            match &m.instancing {
                Instancing::Instanced { buffer, positions, .. } => {
                    out.push(
                        DrawCommand::BindVertexBuffer {
                            binding: 0,
                            buffer: m.vertex_buffer,
                        },
                    );
                    out.push(
                        DrawCommand::BindVertexBuffer { binding: 1, buffer: *buffer },
                    );
                    out.push(DrawCommand::BindIndexBuffer { buffer: m.index_buffer });
                    match &m.skinning {
                        Some(sk) => {
                            match &sk.camera_buffer {
                                Some(cb) => {
                                    out.push(
                                        DrawCommand::WriteCameraUniform {
                                            camera_buffer: *cb,
                                            view,
                                            proj,
                                        },
                                    );
                                },
                                None => {},
                            }
                            out.push(
                                DrawCommand::BindDescriptorSets {
                                    layout: resolved_layout,
                                    source: DescriptorSource::Skinned {
                                        mesh_index: i,
                                    },
                                },
                            );
                            out.push(
                                DrawCommand::PushConstants {
                                    layout: resolved_layout,
                                    data: PushData::Time,
                                },
                            );
                        },
                        None => {
                            if m.has_texture {
                                out.push(
                                    DrawCommand::BindDescriptorSets {
                                        layout: resolved_layout,
                                        source: DescriptorSource::MeshTexture {
                                            mesh_index: i,
                                        },
                                    },
                                );
                            } else if global_texture {
                                out.push(
                                    DrawCommand::BindDescriptorSets {
                                        layout: resolved_layout,
                                        source: DescriptorSource::GlobalTexture,
                                    },
                                );
                            }
                            out.push(
                                DrawCommand::PushConstants {
                                    layout: resolved_layout,
                                    data: PushData::Mvp {
                                        model: Mat4::identity(),
                                        view,
                                        proj,
                                        base_color: m.base_color,
                                    },
                                },
                            );
                        },
                    }
                    out.push(
                        DrawCommand::DrawIndexed {
                            index_count: m.index_count,
                            instance_count: positions.len() as u32,
                        },
                    );
                    proof {
                        assert(out@ =~= old(out)@ + body);
                    }
                },
                Instancing::Individual(ts) => {
                    out.push(
                        DrawCommand::BindVertexBuffer {
                            binding: 0,
                            buffer: m.vertex_buffer,
                        },
                    );
                    out.push(DrawCommand::BindIndexBuffer { buffer: m.index_buffer });
                    match &m.skinning {
                        Some(_) => {
                            out.push(
                                DrawCommand::BindDescriptorSets {
                                    layout: resolved_layout,
                                    source: DescriptorSource::Skinned {
                                        mesh_index: i,
                                    },
                                },
                            );
                        },
                        None => {
                            if m.has_texture {
                                out.push(
                                    DrawCommand::BindDescriptorSets {
                                        layout: resolved_layout,
                                        source: DescriptorSource::MeshTexture {
                                            mesh_index: i,
                                        },
                                    },
                                );
                            } else if global_texture {
                                out.push(
                                    DrawCommand::BindDescriptorSets {
                                        layout: resolved_layout,
                                        source: DescriptorSource::GlobalTexture,
                                    },
                                );
                            }
                        },
                    }
                    let ghost mid = out@;
                    let ghost tss = ts@;
                    let layout = resolved_layout;
                    let color = m.base_color;
                    let icount = m.index_count;
                    proof {
                        assert(tss.skip(0) =~= tss);
                    }
                    let mut k: usize = 0;
                    while k < ts.len()
                        invariant
                            0 <= k <= ts@.len(),
                            tss == ts@,
                            out@ + crate::commands::spec_transform_cmds(
                                tss.skip(k as int),
                                layout,
                                view,
                                proj,
                                color,
                                icount,
                            ) =~= mid + crate::commands::spec_transform_cmds(
                                tss,
                                layout,
                                view,
                                proj,
                                color,
                                icount,
                            ),
                        decreases ts@.len() - k,
                    {
                        let ghost rem = tss.skip(k as int);
                        out.push(
                            DrawCommand::PushConstants {
                                layout,
                                data: PushData::Mvp {
                                    model: ts[k],
                                    view,
                                    proj,
                                    base_color: color,
                                },
                            },
                        );
                        out.push(
                            DrawCommand::DrawIndexed {
                                index_count: icount,
                                instance_count: 1,
                            },
                        );
                        proof {
                            assert(rem[0] == tss[k as int]);
                            assert(rem.drop_first() =~= tss.skip(k as int + 1));
                        }
                        k = k + 1;
                    }
                    proof {
                        assert(tss.skip(ts@.len() as int)
                            =~= Seq::<Mat4>::empty());
                        assert(out@ =~= mid + crate::commands::spec_transform_cmds(
                            tss,
                            layout,
                            view,
                            proj,
                            color,
                            icount,
                        ));
                        assert(out@ =~= old(out)@ + body);
                    }
                },
            }
        proof {
            assert(out@ =~= old(out)@ + body);
        }
    }

    /// Record one frame: walk the registry in order, skip meshes with
    /// nothing to draw, bind a pipeline only when the requested name
    /// changes, and emit every bind, uniform write, push-constant block
    /// and draw the frame needs; with `overlay`, the UI paint pass
    /// follows the opaque geometry inside the render pass.  The caller
    /// replays the list into the slot's command buffer between
    /// `begin_frame` and `end_frame`.
    #[verifier::rlimit(100)]
    pub fn record_frame_commands(&self, view: Mat4, proj: Mat4, overlay: bool) -> (cmds: Vec<
        DrawCommand,
    >)
        requires
            self.wf(),
        ensures
            cmds@ == self.spec_frame_commands(view, proj, overlay),
    {
        let ghost slots = self.meshes@;
        let ghost dn = self.default_name@;
        let ghost gt = self.has_global_texture;
        let ghost full = spec_frame_cmds(
            slots,
            0,
            self.pipelines,
            self.default_pipeline,
            dn,
            gt,
            view,
            proj,
            None,
        );
        let mut out: Vec<DrawCommand> = Vec::new();
        out.push(
            DrawCommand::BeginRenderPass {
                clear_color: Color4 { w: [F32_ONE_BITS, 0, F32_ONE_BITS, F32_ONE_BITS] },
            },
        );
        out.push(
            DrawCommand::SetViewport { width: self.extent_width, height: self.extent_height },
        );
        out.push(DrawCommand::SetScissor { width: self.extent_width, height: self.extent_height });
        let ghost prefix = out@;
        proof {
            assert(prefix =~= seq![
                DrawCommand::BeginRenderPass { clear_color: spec_clear_magenta() },
                DrawCommand::SetViewport { width: self.extent_width, height: self.extent_height },
                DrawCommand::SetScissor { width: self.extent_width, height: self.extent_height },
            ]);
        }
        let mut cur: Option<String> = None;
        let mut i: usize = 0;
        while i < self.meshes.len()
            invariant
                self.wf(),
                0 <= i <= self.meshes@.len(),
                slots == self.meshes@,
                dn == self.default_name@,
                gt == self.has_global_texture,
                full == spec_frame_cmds(
                    slots,
                    0,
                    self.pipelines,
                    self.default_pipeline,
                    dn,
                    gt,
                    view,
                    proj,
                    None,
                ),
                out@ + spec_frame_cmds(
                    slots,
                    i as int,
                    self.pipelines,
                    self.default_pipeline,
                    dn,
                    gt,
                    view,
                    proj,
                    spec_cur_name(cur),
                ) =~= prefix + full,
            decreases self.meshes@.len() - i,
        {
            let ghost cur0 = spec_cur_name(cur);
            let ghost rest0 = spec_frame_cmds(
                slots,
                i as int,
                self.pipelines,
                self.default_pipeline,
                dn,
                gt,
                view,
                proj,
                cur0,
            );
            match &self.meshes[i] {
                MeshSlot::Empty => {
                    proof {
                        assert(rest0 == spec_frame_cmds(
                            slots,
                            i as int + 1,
                            self.pipelines,
                            self.default_pipeline,
                            dn,
                            gt,
                            view,
                            proj,
                            cur0,
                        ));
                    }
                },
                MeshSlot::Live(m) => {
                    proof {
                        assert(slots[i as int] == MeshSlot::Live(*m));
                        assert(spec_live_entry(slots[i as int]) == *m);
                        assert(spec_entry_inv(*m));
                    }
                    let drawn = match &m.instancing {
                        Instancing::Individual(ts) => ts.len() > 0,
                        Instancing::Instanced { positions, .. } => positions.len() > 0,
                    };
                    if !drawn {
                        proof {
                            assert(!slots[i as int].spec_drawn());
                            assert(rest0 == spec_frame_cmds(
                                slots,
                                i as int + 1,
                                self.pipelines,
                                self.default_pipeline,
                                dn,
                                gt,
                                view,
                                proj,
                                cur0,
                            ));
                        }
                    } else {
                        let name: &String = match &m.pipeline_name {
                            Some(n) => n,
                            None => &self.default_name,
                        };
                        let ghost gname = spec_requested_name(*m, dn);
                        proof {
                            assert(name@ == gname);
                        }
                        let same = match &cur {
                            Some(c) => c.eq(name),
                            None => false,
                        };
                        proof {
                            assert(same == (cur0 == Some(gname)));
                        }
                        let resolved = match self.pipelines.get(name) {
                            Some(p) => p,
                            None => self.default_pipeline,
                        };
                        proof {
                            assert(resolved == spec_resolved_pipeline(
                                self.pipelines,
                                self.default_pipeline,
                                gname,
                            ));
                        }
                        let ghost bind: Seq<DrawCommand> = if cur0 == Some(gname) {
                            Seq::empty()
                        } else {
                            seq![DrawCommand::BindPipeline { pipeline: resolved }]
                        };
                        let ghost body = crate::commands::spec_mesh_cmds(
                            *m,
                            i,
                            resolved.layout,
                            gt,
                            view,
                            proj,
                        );
                        let ghost out_start = out@;
                        if !same {
                            out.push(DrawCommand::BindPipeline { pipeline: resolved });
                        }
                        let ghost out_bound = out@;
                        proof {
                            assert(out_bound =~= out_start + bind);
                        }
                        Self::emit_mesh_body(m, i, resolved.layout, self.has_global_texture, view, proj, &mut out);
                        proof {
                            assert(out@ =~= out_bound + body);
                        }
                        cur = Some(name.clone());
                        proof {
                            assert(slots[i as int].spec_drawn());
                            assert(rest0 =~= bind + body + spec_frame_cmds(
                                slots,
                                i as int + 1,
                                self.pipelines,
                                self.default_pipeline,
                                dn,
                                gt,
                                view,
                                proj,
                                Some(gname),
                            ));
                            assert(spec_cur_name(cur) == Some(gname));
                            assert(out@ + spec_frame_cmds(
                                slots,
                                i as int + 1,
                                self.pipelines,
                                self.default_pipeline,
                                dn,
                                gt,
                                view,
                                proj,
                                spec_cur_name(cur),
                            ) =~= prefix + full);
                        }
                    }
                },
            }
            i = i + 1;
        }
        proof {
            assert(spec_frame_cmds(
                slots,
                slots.len() as int,
                self.pipelines,
                self.default_pipeline,
                dn,
                gt,
                view,
                proj,
                spec_cur_name(cur),
            ) =~= Seq::<DrawCommand>::empty());
            assert(out@ =~= prefix + full);
        }
        let ghost before_legacy = out@;
        if self.meshes.len() == 0 {
            match &self.legacy {
                Some(lb) => {
                    out.push(
                        DrawCommand::BindVertexBuffer { binding: 0, buffer: lb.vertex_buffer },
                    );
                    match lb.index_buffer {
                        Some(ib) => {
                            out.push(DrawCommand::BindIndexBuffer { buffer: ib });
                            out.push(
                                DrawCommand::PushConstants {
                                    layout: self.default_pipeline.layout,
                                    data: PushData::Mvp {
                                        model: Mat4 {
                                            w: [
                                                F32_HALF_BITS,
                                                0,
                                                0,
                                                0,
                                                0,
                                                F32_HALF_BITS,
                                                0,
                                                0,
                                                0,
                                                0,
                                                F32_HALF_BITS,
                                                0,
                                                0,
                                                0,
                                                F32_NEG_TWO_BITS,
                                                F32_ONE_BITS,
                                            ],
                                        },
                                        view,
                                        proj,
                                        base_color: Color4::white(),
                                    },
                                },
                            );
                            let instances = if lb.instance_count >= 1 {
                                lb.instance_count
                            } else {
                                1
                            };
                            out.push(
                                DrawCommand::DrawIndexed {
                                    index_count: lb.index_count,
                                    instance_count: instances,
                                },
                            );
                        },
                        None => {},
                    }
                },
                None => {},
            }
        }
        proof {
            assert(out@ =~= before_legacy + self.spec_legacy_cmds(view, proj));
        }
        if overlay {
            out.push(DrawCommand::DrawUiOverlay);
        }
        out.push(DrawCommand::EndRenderPass);
        proof {
            assert(out@ =~= self.spec_frame_commands(view, proj, overlay));
        }
        out
    }

    /// Register a fluid pipeline; when `textured` it also joins the
    /// textured-pipeline list, and the frame walk binds its texture set
    /// whenever a mesh draws through it.
    pub fn add_fluid_pipeline(&mut self, name: String, pipeline: Pipeline, textured: bool)
        requires
            old(self).wf(),
        ensures
            final(self).wf(),
            final(self).pipelines.spec_get(name@) == Some(pipeline),
            forall|n: Seq<char>|
                n != name@ ==> final(self).pipelines.spec_get(n) == old(self).pipelines.spec_get(
                    n,
                ),
            textured ==> final(self).textured_pipelines@ == old(self).textured_pipelines@.push(
                name,
            ),
            !textured ==> final(self).textured_pipelines@ == old(self).textured_pipelines@,
            final(self).meshes@ == old(self).meshes@,
            final(self).pacer == old(self).pacer,
            final(self).memory_pool == old(self).memory_pool,
            final(self).spec_same_frame_config(*old(self)),
            final(self).next_handle == old(self).next_handle,
            final(self).next_id == old(self).next_id,
    {
        if textured {
            self.textured_pipelines.push(name.clone());
        }
        self.pipelines.insert(name, pipeline);
    }

    /// First entry of the textured-pipeline list carrying this name.
    pub open spec fn spec_textured_index(names: Seq<String>, name: Seq<char>) -> Option<int> {
        if exists|i: int| 0 <= i < names.len() && (#[trigger] names[i])@ == name {
            Some(
                choose|i: int|
                    {
                        &&& 0 <= i < names.len()
                        &&& (#[trigger] names[i])@ == name
                        &&& forall|j: int| 0 <= j < i ==> (#[trigger] names[j])@ != name
                    },
            )
        } else {
            None
        }
    }

    /// What one mesh adds to a fluid frame: its pipeline is always
    /// bound (this path does not minimize binds), the pipeline's texture
    /// set follows when it has one, then the water constants, the
    /// buffers, and a single indexed draw covering every transform or
    /// instance.
    pub open spec fn spec_fluid_mesh_cmds(
        m: MeshEntry,
        pipe: Pipeline,
        textured: Seq<String>,
        name: Seq<char>,
        pc: PushConstants,
    ) -> Seq<DrawCommand> {
        let bind: Seq<DrawCommand> = seq![DrawCommand::BindPipeline { pipeline: pipe }];
        let desc: Seq<DrawCommand> = match Self::spec_textured_index(textured, name) {
            Some(i) => seq![
                DrawCommand::BindDescriptorSets {
                    layout: pipe.layout,
                    source: DescriptorSource::PipelineTexture { index: i as usize },
                },
            ],
            None => Seq::empty(),
        };
        let instances: u32 = match m.instancing {
            Instancing::Instanced { positions, .. } => positions@.len() as u32,
            Instancing::Individual(ts) => ts@.len() as u32,
        };
        bind + desc + seq![
            DrawCommand::PushConstants { layout: pipe.layout, data: PushData::Water(pc) },
            DrawCommand::BindVertexBuffer { binding: 0, buffer: m.vertex_buffer },
            DrawCommand::BindIndexBuffer { buffer: m.index_buffer },
            DrawCommand::DrawIndexed { index_count: m.index_count, instance_count: instances },
        ]
    }

    /// The fluid walk over the registry: a mesh with no transforms (and
    /// no instancing) is skipped, an unnamed mesh defaults to the
    /// `"water"` pipeline, and a mesh whose pipeline was never
    /// registered is skipped rather than drawn through a fallback.
    pub open spec fn spec_fluid_cmds(
        slots: Seq<MeshSlot>,
        idx: int,
        reg: PipelineRegistry,
        textured: Seq<String>,
        water_name: Seq<char>,
        pc: PushConstants,
    ) -> Seq<DrawCommand>
        decreases slots.len() - idx when 0 <= idx <= slots.len()
    {
        if idx >= slots.len() {
            Seq::empty()
        } else {
            let rest = Self::spec_fluid_cmds(slots, idx + 1, reg, textured, water_name, pc);
            match slots[idx] {
                MeshSlot::Empty => rest,
                MeshSlot::Live(m) => {
                    let skipped = match m.instancing {
                        Instancing::Individual(ts) => ts@.len() == 0,
                        Instancing::Instanced { .. } => false,
                    };
                    if skipped {
                        rest
                    } else {
                        let name = spec_requested_name(m, water_name);
                        match reg.spec_get(name) {
                            Some(pipe) => Self::spec_fluid_mesh_cmds(m, pipe, textured, name, pc)
                                + rest,
                            None => rest,
                        }
                    }
                },
            }
        }
    }

    /// The sky prelude: when a `"sky"` pipeline exists, one fullscreen
    /// triangle drawn with the water constants before any mesh.
    pub open spec fn spec_sky_cmds(reg: PipelineRegistry, pc: PushConstants) -> Seq<DrawCommand> {
        match reg.spec_get("sky"@) {
            Some(pipe) => seq![
                DrawCommand::BindPipeline { pipeline: pipe },
                DrawCommand::PushConstants { layout: pipe.layout, data: PushData::Water(pc) },
                DrawCommand::Draw { vertex_count: 3, instance_count: 1 },
            ],
            None => Seq::empty(),
        }
    }

    /// Everything one fluid frame replays: a black clear, the sky
    /// prelude, and the fluid walk over the meshes.
    pub open spec fn spec_fluid_frame_commands(self, pc: PushConstants) -> Seq<DrawCommand> {
        seq![
            DrawCommand::BeginRenderPass {
                clear_color: Color4 { w: [0, 0, 0, F32_ONE_BITS] },
            },
        ] + Self::spec_sky_cmds(self.pipelines, pc) + Self::spec_fluid_cmds(
            self.meshes@,
            0,
            self.pipelines,
            self.textured_pipelines@,
            "water"@,
            pc,
        ) + seq![DrawCommand::EndRenderPass]
    }

    /// Record one fluid frame: sky background first, then every mesh
    /// through its own (or the `"water"`) pipeline with the given push
    /// constants.  Unlike the multi-mesh walk, a mesh whose pipeline is
    /// missing is skipped entirely, and every drawn mesh binds its
    /// pipeline anew.
    #[verifier::rlimit(100)]
    pub fn record_frame_fluid(&self, push_constants: &PushConstants) -> (cmds: Vec<DrawCommand>)
        requires
            self.wf(),
        ensures
            cmds@ == self.spec_fluid_frame_commands(*push_constants),
    {
        let ghost slots = self.meshes@;
        let ghost textured = self.textured_pipelines@;
        let ghost pc = *push_constants;
        let water_name = String::from_str("water");
        let sky_name = String::from_str("sky");
        let ghost full = Self::spec_fluid_cmds(slots, 0, self.pipelines, textured, "water"@, pc);
        let mut out: Vec<DrawCommand> = Vec::new();
        out.push(
            DrawCommand::BeginRenderPass { clear_color: Color4 { w: [0, 0, 0, F32_ONE_BITS] } },
        );
        match self.pipelines.get(&sky_name) {
            Some(pipe) => {
                out.push(DrawCommand::BindPipeline { pipeline: pipe });
                out.push(
                    DrawCommand::PushConstants {
                        layout: pipe.layout,
                        data: PushData::Water(*push_constants),
                    },
                );
                out.push(DrawCommand::Draw { vertex_count: 3, instance_count: 1 });
            },
            None => {},
        }
        let ghost prefix = out@;
        proof {
            assert(prefix =~= seq![
                DrawCommand::BeginRenderPass {
                    clear_color: Color4 { w: [0, 0, 0, F32_ONE_BITS] },
                },
            ] + Self::spec_sky_cmds(self.pipelines, pc));
        }
        let mut i: usize = 0;
        while i < self.meshes.len()
            invariant
                self.wf(),
                0 <= i <= self.meshes@.len(),
                slots == self.meshes@,
                textured == self.textured_pipelines@,
                pc == *push_constants,
                water_name@ == "water"@,
                full == Self::spec_fluid_cmds(slots, 0, self.pipelines, textured, "water"@, pc),
                out@ + Self::spec_fluid_cmds(slots, i as int, self.pipelines, textured, "water"@, pc)
                    =~= prefix + full,
            decreases self.meshes@.len() - i,
        {
            let ghost rest0 = Self::spec_fluid_cmds(
                slots,
                i as int,
                self.pipelines,
                textured,
                "water"@,
                pc,
            );
            match &self.meshes[i] {
                MeshSlot::Empty => {},
                MeshSlot::Live(m) => {
                    proof {
                        assert(slots[i as int] == MeshSlot::Live(*m));
                        assert(spec_entry_inv(*m));
                    }
                    let skipped = match &m.instancing {
                        Instancing::Individual(ts) => ts.len() == 0,
                        Instancing::Instanced { .. } => false,
                    };
                    if !skipped {
                        let name: &String = match &m.pipeline_name {
                            Some(n) => n,
                            None => &water_name,
                        };
                        let ghost gname = spec_requested_name(*m, "water"@);
                        proof {
                            assert(name@ == gname);
                        }
                        match self.pipelines.get(name) {
                            Some(pipe) => {
                                let ghost out_start = out@;
                                out.push(DrawCommand::BindPipeline { pipeline: pipe });
                                match self.find_textured_pipeline(name) {
                                    Some(t_index) => {
                                        out.push(
                                            DrawCommand::BindDescriptorSets {
                                                layout: pipe.layout,
                                                source: DescriptorSource::PipelineTexture {
                                                    index: t_index,
                                                },
                                            },
                                        );
                                    },
                                    None => {},
                                }
                                out.push(
                                    DrawCommand::PushConstants {
                                        layout: pipe.layout,
                                        data: PushData::Water(*push_constants),
                                    },
                                );
                                out.push(
                                    DrawCommand::BindVertexBuffer {
                                        binding: 0,
                                        buffer: m.vertex_buffer,
                                    },
                                );
                                out.push(DrawCommand::BindIndexBuffer { buffer: m.index_buffer });
                                let instances: u32 = match &m.instancing {
                                    Instancing::Instanced { positions, .. } => {
                                        positions.len() as u32
                                    },
                                    Instancing::Individual(ts) => {
                                        #[verifier::truncate]
                                        let n = ts.len() as u32;
                                        n
                                    },
                                };
                                out.push(
                                    DrawCommand::DrawIndexed {
                                        index_count: m.index_count,
                                        instance_count: instances,
                                    },
                                );
                                proof {
                                    assert(out@ =~= out_start + Self::spec_fluid_mesh_cmds(
                                        *m,
                                        pipe,
                                        textured,
                                        gname,
                                        pc,
                                    ));
                                    assert(rest0 =~= Self::spec_fluid_mesh_cmds(
                                        *m,
                                        pipe,
                                        textured,
                                        gname,
                                        pc,
                                    ) + Self::spec_fluid_cmds(
                                        slots,
                                        i as int + 1,
                                        self.pipelines,
                                        textured,
                                        "water"@,
                                        pc,
                                    ));
                                }
                            },
                            None => {},
                        }
                    }
                },
            }
            i = i + 1;
        }
        proof {
            assert(Self::spec_fluid_cmds(
                slots,
                slots.len() as int,
                self.pipelines,
                textured,
                "water"@,
                pc,
            ) =~= Seq::<DrawCommand>::empty());
        }
        out.push(DrawCommand::EndRenderPass);
        proof {
            assert(out@ =~= self.spec_fluid_frame_commands(pc));
        }
        out
    }

    /// First textured-pipeline entry of this name, if any.
    fn find_textured_pipeline(&self, name: &String) -> (r: Option<usize>)
        ensures
            match r {
                Some(i) => Self::spec_textured_index(self.textured_pipelines@, name@) == Some(
                    i as int,
                ),
                None => Self::spec_textured_index(self.textured_pipelines@, name@) is None,
            },
    {
        let n = self.textured_pipelines.len();
        let mut i: usize = 0;
        while i < n
            invariant
                n == self.textured_pipelines@.len(),
                0 <= i <= n,
                forall|j: int| 0 <= j < i ==> (#[trigger] self.textured_pipelines@[j])@ != name@,
            decreases n - i,
        {
            if self.textured_pipelines[i].eq(name) {
                proof {
                    let c = choose|k: int|
                        {
                            &&& 0 <= k < self.textured_pipelines@.len()
                            &&& (#[trigger] self.textured_pipelines@[k])@ == name@
                            &&& forall|j: int|
                                0 <= j < k ==> (#[trigger] self.textured_pipelines@[j])@ != name@
                        };
                    assert((self.textured_pipelines@[i as int])@ == name@);
                    assert(Self::spec_textured_index(self.textured_pipelines@, name@) is Some);
                    assert(c == i as int);
                }
                return Some(i);
            }
            i = i + 1;
        }
        proof {
            if Self::spec_textured_index(self.textured_pipelines@, name@) is Some {
                let c = choose|k: int|
                    0 <= k < self.textured_pipelines@.len() && (
                    #[trigger] self.textured_pipelines@[k])@ == name@;
                assert(false);
            }
        }
        None
    }

    /// One whole fluid frame: enter the next slot, record the sky and
    /// every fluid mesh with the given constants, and leave the frame.
    /// The camera matrices are accepted for interface compatibility; the
    /// fluid shaders take everything through the push-constant block.
    pub fn render_frame_fluid(
        &mut self,
        _view: Mat4,
        _proj: Mat4,
        push_constants: &PushConstants,
    ) -> (plan: FramePlan)
        requires
            old(self).wf(),
            !old(self).pacer.recording,
        ensures
            final(self).wf(),
            !final(self).pacer.recording,
            plan.slot == old(self).pacer.current_frame,
            plan.commands@ == old(self).spec_fluid_frame_commands(*push_constants),
            final(self).meshes@ == old(self).meshes@,
            final(self).pipelines == old(self).pipelines,
            final(self).memory_pool == old(self).memory_pool,
            final(self).pacer.frame_index@ == old(self).pacer.frame_index@ + 1,
            final(self).pacer.current_frame == (old(self).pacer.current_frame + 1) % (
            crate::frame::MAX_FRAMES_IN_FLIGHT as int),
            final(self).spec_same_frame_config(*old(self)),
            final(self).textured_pipelines@ == old(self).textured_pipelines@,
            final(self).next_handle == old(self).next_handle,
            final(self).next_id == old(self).next_id,
    {
        let slot = self.pacer.begin_frame();
        let commands = self.record_frame_fluid(push_constants);
        self.pacer.end_frame();
        FramePlan { slot, commands }
    }

    /// Enter the next frame: wait on the slot's fence, acquire a swap
    /// image, reset the slot's command buffer.  Returns the slot whose
    /// command buffer the caller records.
    pub fn begin_frame(&mut self) -> (slot: usize)
        requires
            old(self).wf(),
            !old(self).pacer.recording,
        ensures
            final(self).wf(),
            final(self).pacer.recording,
            slot == old(self).pacer.current_frame,
            final(self).meshes@ == old(self).meshes@,
            final(self).pipelines == old(self).pipelines,
            final(self).memory_pool == old(self).memory_pool,
            final(self).pacer.frame_index@ == old(self).pacer.frame_index@,
            final(self).pacer.current_frame == old(self).pacer.current_frame,
            final(self).pacer.fences@ == old(self).pacer.fences@.update(
                slot as int,
                crate::frame::SlotFence::Signaled,
            ),
            final(self).spec_same_frame_config(*old(self)),
            final(self).textured_pipelines@ == old(self).textured_pipelines@,
            final(self).next_handle == old(self).next_handle,
            final(self).next_id == old(self).next_id,
            old(self).pacer.pending_frame@[slot as int] matches Some(k) ==> k + 2 == old(
                self,
            ).pacer.frame_index@,
    {
        self.pacer.begin_frame()
    }

    /// Leave the current frame: submit the recorded command buffer
    /// (signaling the slot's fence) and present; failure on submit or
    /// present is reported by the caller's driver calls and the frame is
    /// simply dropped, never retried.
    pub fn end_frame(&mut self)
        requires
            old(self).wf(),
            old(self).pacer.recording,
        ensures
            final(self).wf(),
            !final(self).pacer.recording,
            final(self).pacer.frame_index@ == old(self).pacer.frame_index@ + 1,
            final(self).pacer.current_frame == (old(self).pacer.current_frame + 1) % (
            crate::frame::MAX_FRAMES_IN_FLIGHT as int),
            final(self).pacer.fences@ == old(self).pacer.fences@.update(
                old(self).pacer.current_frame as int,
                crate::frame::SlotFence::Pending,
            ),
            final(self).meshes@ == old(self).meshes@,
            final(self).pipelines == old(self).pipelines,
            final(self).memory_pool == old(self).memory_pool,
            final(self).spec_same_frame_config(*old(self)),
            final(self).textured_pipelines@ == old(self).textured_pipelines@,
            final(self).next_handle == old(self).next_handle,
            final(self).next_id == old(self).next_id,
    {
        self.pacer.end_frame()
    }

    /// One whole frame of the multi-mesh path: enter the next slot,
    /// record the mesh pass for the given camera, and leave the frame.
    /// The returned plan names the slot and carries the exact command
    /// stream the caller replays before submitting.
    pub fn render_frame_with_camera_multi(&mut self, view: Mat4, proj: Mat4) -> (plan: FramePlan)
        requires
            old(self).wf(),
            !old(self).pacer.recording,
        ensures
            final(self).wf(),
            !final(self).pacer.recording,
            plan.slot == old(self).pacer.current_frame,
            plan.commands@ == old(self).spec_frame_commands(view, proj, false),
            final(self).meshes@ == old(self).meshes@,
            final(self).pipelines == old(self).pipelines,
            final(self).memory_pool == old(self).memory_pool,
            final(self).pacer.frame_index@ == old(self).pacer.frame_index@ + 1,
            final(self).pacer.current_frame == (old(self).pacer.current_frame + 1) % (
            crate::frame::MAX_FRAMES_IN_FLIGHT as int),
            final(self).spec_same_frame_config(*old(self)),
            final(self).textured_pipelines@ == old(self).textured_pipelines@,
            final(self).next_handle == old(self).next_handle,
            final(self).next_id == old(self).next_id,
    {
        let slot = self.pacer.begin_frame();
        let commands = self.record_frame_commands(view, proj, false);
        self.pacer.end_frame();
        FramePlan { slot, commands }
    }

    /// One whole frame with the UI overlay: as
    /// `render_frame_with_camera_multi`, plus the overlay paint pass
    /// after the opaque geometry.  The caller tessellates its paint
    /// primitives, applies the frame's texture deltas, and replays them
    /// at the overlay command.
    pub fn render_frame_with_egui(&mut self, view: Mat4, proj: Mat4) -> (plan: FramePlan)
        requires
            old(self).wf(),
            !old(self).pacer.recording,
        ensures
            final(self).wf(),
            !final(self).pacer.recording,
            plan.slot == old(self).pacer.current_frame,
            plan.commands@ == old(self).spec_frame_commands(view, proj, true),
            final(self).meshes@ == old(self).meshes@,
            final(self).pipelines == old(self).pipelines,
            final(self).memory_pool == old(self).memory_pool,
            final(self).pacer.frame_index@ == old(self).pacer.frame_index@ + 1,
            final(self).pacer.current_frame == (old(self).pacer.current_frame + 1) % (
            crate::frame::MAX_FRAMES_IN_FLIGHT as int),
            final(self).spec_same_frame_config(*old(self)),
            final(self).textured_pipelines@ == old(self).textured_pipelines@,
            final(self).next_handle == old(self).next_handle,
            final(self).next_id == old(self).next_id,
    {
        let slot = self.pacer.begin_frame();
        let commands = self.record_frame_commands(view, proj, true);
        self.pacer.end_frame();
        FramePlan { slot, commands }
    }

    /// Install the raw single-mesh buffers of the legacy path; they are
    /// drawn only while the mesh registry is empty.
    pub fn set_legacy_buffers(&mut self, buffers: LegacyBuffers, has_texture: bool)
        requires
            old(self).wf(),
        ensures
            final(self).wf(),
            final(self).legacy == Some(buffers),
            final(self).has_global_texture == has_texture,
            final(self).meshes@ == old(self).meshes@,
            final(self).pipelines == old(self).pipelines,
            final(self).pacer == old(self).pacer,
            final(self).memory_pool == old(self).memory_pool,
            final(self).default_pipeline == old(self).default_pipeline,
            final(self).default_name == old(self).default_name,
            final(self).current_pipeline == old(self).current_pipeline,
            final(self).extent_width == old(self).extent_width,
            final(self).extent_height == old(self).extent_height,
            final(self).water_push_constants == old(self).water_push_constants,
            final(self).textured_pipelines@ == old(self).textured_pipelines@,
            final(self).next_handle == old(self).next_handle,
            final(self).next_id == old(self).next_id,
    {
        self.legacy = Some(buffers);
        self.has_global_texture = has_texture;
    }
}

} // verus!
