//! A frame's draw list: one command per mesh, grouped by material so that
//! each material is bound once.
use vstd::prelude::*;

verus! {

/// Draw one mesh with one material.
#[derive(Debug, Clone, Copy, PartialEq, Eq, Structural)]
pub struct DrawCommand {
    pub mesh_id: u64,
    pub material_id: u64,
}

/// The number of meshes drawn in a frame.
pub const FRAME_MESHES: u64 = 100;

/// The number of materials they share.
pub const FRAME_MATERIALS: u64 = 5;

/// A command of the frame: mesh `m` is drawn with material
/// `(FRAME_MESHES - m) % FRAME_MATERIALS`.
pub open spec fn in_frame(c: DrawCommand) -> bool {
    &&& c.mesh_id < FRAME_MESHES
    &&& c.material_id == (FRAME_MESHES - c.mesh_id) % (FRAME_MATERIALS as int)
}

/// `a` is drawn before `b`: by material, and in mesh order within one
/// material.
pub open spec fn draws_before(a: DrawCommand, b: DrawCommand) -> bool {
    ||| a.material_id < b.material_id
    ||| (a.material_id == b.material_id && a.mesh_id < b.mesh_id)
}

/// The frame's commands, one per mesh, sorted by material; meshes that share
/// a material keep their order, as a stable sort of the commands in mesh
/// order leaves them.
pub fn build_frame_draw_list() -> (r: Vec<DrawCommand>)
    ensures
        r@.len() == FRAME_MESHES,
        forall|k: int| 0 <= k < r@.len() ==> in_frame(#[trigger] r@[k]),
        forall|a: int, b: int| 0 <= a < b < r@.len() ==> draws_before(r@[a], r@[b]),
{
    let mut v: Vec<DrawCommand> = Vec::new();
    let mut m: u64 = 0;
    while m < FRAME_MESHES
        invariant
            m <= FRAME_MESHES,
            v@.len() == m,
            forall|k: int| 0 <= k < m ==> in_frame(#[trigger] v@[k]) && v@[k].mesh_id == k,
        decreases FRAME_MESHES - m,
    {
        v.push(DrawCommand { mesh_id: m, material_id: (FRAME_MESHES - m) % FRAME_MATERIALS });
        m = m + 1;
    }
    sort_by_material(&mut v);
    v
}

/// Stable insertion sort by material, on commands that arrive in mesh
/// order.
fn sort_by_material(v: &mut Vec<DrawCommand>)
    requires
        forall|k: int| 0 <= k < old(v)@.len() ==> in_frame(#[trigger] old(v)@[k]),
        forall|k: int| 0 <= k < old(v)@.len() ==> (#[trigger] old(v)@[k]).mesh_id == k,
    ensures
        final(v)@.len() == old(v)@.len(),
        forall|k: int| 0 <= k < final(v)@.len() ==> in_frame(#[trigger] final(v)@[k]),
        forall|a: int, b: int| 0 <= a < b < final(v)@.len() ==> draws_before(final(v)@[a], final(v)@[b]),
{
    let n = v.len();
    let mut i: usize = 0;
    while i < n
        invariant
            v@.len() == n,
            i <= n,
            forall|k: int| 0 <= k < n ==> in_frame(#[trigger] v@[k]),
            forall|a: int, b: int| 0 <= a < b < i ==> draws_before(v@[a], v@[b]),
            forall|a: int| 0 <= a < i ==> (#[trigger] v@[a]).mesh_id < i,
            forall|b: int| i <= b < n ==> (#[trigger] v@[b]).mesh_id == b,
        decreases n - i,
    {
        let ghost x = v@[i as int];
        let mut j: usize = i;
        while j > 0 && v[j - 1].material_id > v[j].material_id
            invariant
                v@.len() == n,
                j <= i < n,
                v@[j as int] == x,
                x.mesh_id == i,
                forall|k: int| 0 <= k < n ==> in_frame(#[trigger] v@[k]),
                forall|a: int, b: int|
                    0 <= a < b <= i && a != j && b != j ==> draws_before(v@[a], v@[b]),
                forall|b: int| j < b <= i ==> draws_before(x, #[trigger] v@[b]),
                forall|a: int| 0 <= a <= i && a != j ==> (#[trigger] v@[a]).mesh_id < i,
                forall|b: int| i < b < n ==> (#[trigger] v@[b]).mesh_id == b,
            decreases j,
        {
            let moved = v[j - 1];
            v.set(j - 1, v[j]);
            v.set(j, moved);
            j = j - 1;
        }
        assert forall|a: int, b: int| 0 <= a < b <= i implies draws_before(v@[a], v@[b]) by {
            if b == j && a < j {
                assert(draws_before(v@[j - 1], x));
                if a < j - 1 {
                    assert(draws_before(v@[a], v@[j - 1]));
                }
            }
        }
        i = i + 1;
    }
}

} // verus!
