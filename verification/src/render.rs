//! Render extraction: a pure function of a skeleton's current pose.
//!
//! Walking the skeleton's slots in draw order, each slot with an active
//! region attachment yields one run of six vertices — two triangles over
//! the region's four world-space corners, winding 0-1-2, 2-3-0 — sharing
//! one texture identifier and one blend mode. Each vertex carries the
//! product of the three tint sources: skeleton level, slot level and
//! attachment level. Slots with no attachment are skipped. Other
//! attachment kinds carry no geometry in this core.

use vstd::prelude::*;
use crate::enums::BlendMode;
use crate::pose::{color_mul, Color};
use crate::skeleton::{is_slot_view, world_corners, Skeleton};

verus! {

/// One extracted vertex: a world-space position in plain units, a
/// texture coordinate in fixed-point, and a composited color.
#[derive(Debug, Copy, Clone, PartialEq, Eq, Structural)]
pub struct Vertex {
    /// World-space x.
    pub x: i32,
    /// World-space y.
    pub y: i32,
    /// Texture coordinate u, fixed-point.
    pub u: i32,
    /// Texture coordinate v, fixed-point.
    pub v: i32,
    /// The composited tint.
    pub color: Color,
}

/// One contiguous run of extracted geometry: six vertices from one
/// slot, sharing one texture identifier and one blend mode. The caller
/// applies the texture binding and blend function before drawing the
/// run.
pub struct RenderRun {
    /// Index of the slot the run came from.
    pub slot: usize,
    /// The texture to bind for this run.
    pub texture_id: u32,
    /// The blend mode to apply for this run.
    pub blend_mode: BlendMode,
    /// Six vertices: two triangles, corners 0-1-2 then 2-3-0.
    pub vertices: Vec<Vertex>,
}

/// The slots among the first `n` of the draw order that have an active
/// attachment, in draw order.
pub open spec fn visible_slots_upto(s: Skeleton, n: int) -> Seq<int>
    decreases n,
{
    if n <= 0 {
        Seq::<int>::empty()
    } else {
        let rest = visible_slots_upto(s, n - 1);
        let idx = s.draw_order_view()[n - 1] as int;
        if s.slot_defs_view()[idx].attachment is Some {
            rest.push(idx)
        } else {
            rest
        }
    }
}

/// The vertex is corner `corner` of the quad: its world position, its
/// texture coordinates, and the composited color.
pub open spec fn vertex_matches(
    v: Vertex,
    corners: Seq<i32>,
    uvs: Seq<i32>,
    col: Color,
    corner: int,
) -> bool {
    &&& v.x == corners[2 * corner]
    &&& v.y == corners[2 * corner + 1]
    &&& v.u == uvs[2 * corner]
    &&& v.v == uvs[2 * corner + 1]
    &&& v.color == col
}

/// The run is the geometry of slot `idx` of `s`: six vertices over the
/// attachment's world corners under the owning bone's world transform,
/// wound 0-1-2, 2-3-0, each tinted skeleton x slot x attachment, under
/// the slot's blend mode and the attachment's resolved texture.
pub open spec fn run_matches(s: Skeleton, idx: int, run: RenderRun) -> bool {
    &&& run.slot == idx
    &&& s.slot_defs_view()[idx].attachment is Some
    &&& {
        let att = s.slot_defs_view()[idx].attachment.unwrap();
        let bone = s.slot_defs_view()[idx].bone as int;
        let corners = world_corners(s.worlds_view()[bone], att.offset@);
        let col = color_mul(color_mul(s.color_spec(), s.slot_colors_view()[idx]), att.color);
        &&& run.texture_id == att.texture_id
        &&& run.blend_mode == s.slot_defs_view()[idx].blend_mode
        &&& run.vertices@.len() == 6
        &&& vertex_matches(run.vertices@[0], corners, att.uvs@, col, 0)
        &&& vertex_matches(run.vertices@[1], corners, att.uvs@, col, 1)
        &&& vertex_matches(run.vertices@[2], corners, att.uvs@, col, 2)
        &&& vertex_matches(run.vertices@[3], corners, att.uvs@, col, 2)
        &&& vertex_matches(run.vertices@[4], corners, att.uvs@, col, 3)
        &&& vertex_matches(run.vertices@[5], corners, att.uvs@, col, 0)
    }
}

/// Extracts the drawable geometry of the skeleton's current pose: one
/// run per slot with an active attachment, in draw order. Pure: the
/// skeleton is not changed. World transforms must be current
/// (`update_world_transform`), or the geometry reflects a stale pose.
pub fn extract(skeleton: &Skeleton) -> (r: Vec<RenderRun>)
    requires
        skeleton.wf(),
    ensures
        r@.len() == visible_slots_upto(*skeleton, skeleton.draw_order_view().len() as int).len(),
        forall|m: int|
            0 <= m < r@.len() ==> run_matches(
                *skeleton,
                visible_slots_upto(*skeleton, skeleton.draw_order_view().len() as int)[m],
                #[trigger] r@[m],
            ),
{
    let slots = skeleton.draw_slots();
    let mut runs: Vec<RenderRun> = Vec::new();
    let mut k: usize = 0;
    while k < slots.len()
        invariant
            skeleton.wf(),
            slots@.len() == skeleton.slot_defs_view().len(),
            slots@.len() == skeleton.draw_order_view().len(),
            forall|j: int|
                0 <= j < slots@.len() ==> is_slot_view(
                    *skeleton,
                    skeleton.draw_order_view()[j] as int,
                    #[trigger] slots@[j],
                ),
            k <= slots@.len(),
            runs@.len() == visible_slots_upto(*skeleton, k as int).len(),
            forall|m: int|
                0 <= m < runs@.len() ==> run_matches(
                    *skeleton,
                    visible_slots_upto(*skeleton, k as int)[m],
                    #[trigger] runs@[m],
                ),
        decreases slots@.len() - k,
    {
        let slot = &slots[k];
        proof {
            assert(is_slot_view(*skeleton, skeleton.draw_order_view()[k as int] as int, slots@[k as int]));
        }
        match slot.active_attachment() {
            Option::None => {},
            Option::Some(att) => {
                let region = att.as_region_attachment();
                let bone = match slot.bone() {
                    Option::Some(b) => b,
                    Option::None => {
                        proof {
                            assert(false);
                        }
                        return runs;
                    },
                };
                let corners = region.get_vertices(&bone);
                let uvs = region.uv();
                let slot_color = slot.color();
                let region_color = region.color();
                let col = skeleton.color().tint(&slot_color).tint(&region_color);
                let mut vertices: Vec<Vertex> = Vec::new();
                vertices.push(Vertex { x: corners[0], y: corners[1], u: uvs[0], v: uvs[1], color: col });
                vertices.push(Vertex { x: corners[2], y: corners[3], u: uvs[2], v: uvs[3], color: col });
                vertices.push(Vertex { x: corners[4], y: corners[5], u: uvs[4], v: uvs[5], color: col });
                vertices.push(Vertex { x: corners[4], y: corners[5], u: uvs[4], v: uvs[5], color: col });
                vertices.push(Vertex { x: corners[6], y: corners[7], u: uvs[6], v: uvs[7], color: col });
                vertices.push(Vertex { x: corners[0], y: corners[1], u: uvs[0], v: uvs[1], color: col });
                let si = slot.index();
                runs.push(
                    RenderRun {
                        slot: si.0 as usize,
                        texture_id: region.texture_id(),
                        blend_mode: slot.blend_mode(),
                        vertices,
                    },
                );
            },
        }
        k += 1;
    }
    runs
}

} // verus!
