//! Skeleton definitions and live skeleton instances.
//!
//! A [`SkeletonData`] is the immutable, shared definition decoded from a
//! skeleton asset: bones with their setup pose, slots with their setup
//! tint and attachment, animations, and the string table. It consumes
//! and retains the atlas it was loaded against; region attachments
//! resolve their texture identifiers through the atlas pages at load
//! time. A [`Skeleton`] is one mutable, per-playthrough pose built from
//! a definition.

use vstd::prelude::*;
use crate::animation::{animations_wf, anims_eq, Animation, AnimationDef};
use crate::atlas::{Atlas, AtlasPage};
use crate::enums::{AttachmentType, BlendMode};
use crate::handles::{occ, HandleStore, ResourceKind, SharedHandle};
use crate::pose::{apply_x, apply_y, compose, identity_pose, BonePose, Color, FX_ONE};
use crate::SpineError;

verus! {

/// Index of a bone in its skeleton, or -1 for "no such bone".
pub struct BoneIndex(pub i32);

/// Index of a slot in its skeleton, or -1 for "no such slot".
pub struct SlotIndex(pub i32);

/// A region attachment: a textured quad. `offset` holds its four local
/// corner points (x0,y0,..,x3,y3) in the owning bone's coordinates;
/// `uvs` holds the matching texture coordinates as fixed-point values
/// with `FX_ONE` as 1.0.
pub struct RegionAttachment {
    /// The attachment's name.
    pub name: String,
    /// Local corner points, (x0,y0,x1,y1,x2,y2,x3,y3).
    pub offset: [i32; 8],
    /// Texture coordinates per corner, fixed-point.
    pub uvs: [i32; 8],
    /// The attachment's own tint.
    pub color: Color,
    /// Authored position within the bone.
    pub position: (i32, i32),
    /// Authored scale, fixed-point.
    pub scale: (i32, i32),
    /// Authored size in plain units.
    pub size: (i32, i32),
    /// Which atlas page the region lives on.
    pub page_index: usize,
    /// The host texture identifier of that page, resolved at load time.
    pub texture_id: u32,
}

/// The two attachments agree on everything authored; the resolved
/// texture identifier may differ.
pub open spec fn region_desc_eq(a: RegionAttachment, b: RegionAttachment) -> bool {
    &&& a.name@ == b.name@
    &&& a.offset@ == b.offset@
    &&& a.uvs@ == b.uvs@
    &&& a.color == b.color
    &&& a.position == b.position
    &&& a.scale == b.scale
    &&& a.size == b.size
    &&& a.page_index == b.page_index
}

/// The world-space corner coordinates of a quad with local corners
/// `off`, under the transform `t`.
pub open spec fn world_corners(t: BonePose, off: Seq<i32>) -> Seq<i32> {
    seq![
        apply_x(t, off[0] as int, off[1] as int) as i32,
        apply_y(t, off[0] as int, off[1] as int) as i32,
        apply_x(t, off[2] as int, off[3] as int) as i32,
        apply_y(t, off[2] as int, off[3] as int) as i32,
        apply_x(t, off[4] as int, off[5] as int) as i32,
        apply_y(t, off[4] as int, off[5] as int) as i32,
        apply_x(t, off[6] as int, off[7] as int) as i32,
        apply_y(t, off[6] as int, off[7] as int) as i32,
    ]
}

impl RegionAttachment {
    /// Writes the four world-space corner positions of this region under
    /// `bone`'s world transform into `vertices`.
    pub fn load_vertices(&self, bone: &Bone, vertices: &mut [i32; 8])
        ensures
            final(vertices)@ == world_corners(bone.world, self.offset@),
    {
        let (x0, y0) = bone.world.transform_point(self.offset[0], self.offset[1]);
        let (x1, y1) = bone.world.transform_point(self.offset[2], self.offset[3]);
        let (x2, y2) = bone.world.transform_point(self.offset[4], self.offset[5]);
        let (x3, y3) = bone.world.transform_point(self.offset[6], self.offset[7]);
        *vertices = [x0, y0, x1, y1, x2, y2, x3, y3];
        proof {
            assert(vertices@ =~= world_corners(bone.world, self.offset@));
        }
    }

    /// The four world-space corner positions of this region under
    /// `bone`'s world transform.
    pub fn get_vertices(&self, bone: &Bone) -> (r: [i32; 8])
        ensures
            r@ == world_corners(bone.world, self.offset@),
    {
        let mut vertices: [i32; 8] = [0, 0, 0, 0, 0, 0, 0, 0];
        self.load_vertices(bone, &mut vertices);
        vertices
    }

    /// The host texture identifier of the page this region lives on.
    pub fn texture_id(&self) -> (r: u32)
        ensures
            r == self.texture_id,
    {
        self.texture_id
    }

    /// The attachment's own tint.
    pub fn color(&self) -> (r: Color)
        ensures
            r == self.color,
    {
        self.color
    }

    /// Authored position within the bone.
    pub fn position(&self) -> (r: (i32, i32))
        ensures
            r == self.position,
    {
        self.position
    }

    /// Authored scale, fixed-point.
    pub fn scale(&self) -> (r: (i32, i32))
        ensures
            r == self.scale,
    {
        self.scale
    }

    /// Authored size in plain units.
    pub fn dimensions(&self) -> (r: (i32, i32))
        ensures
            r == self.size,
    {
        self.size
    }

    /// Texture coordinates per corner, fixed-point.
    pub fn uv(&self) -> (r: [i32; 8])
        ensures
            r@ == self.uvs@,
    {
        self.uvs
    }

    /// Local corner points.
    pub fn offset(&self) -> (r: [i32; 8])
        ensures
            r@ == self.offset@,
    {
        self.offset
    }

    /// A copy of this attachment, with its texture identifier replaced.
    pub(crate) fn with_texture(&self, texture_id: u32) -> (r: RegionAttachment)
        ensures
            region_desc_eq(r, *self),
            r.texture_id == texture_id,
    {
        RegionAttachment {
            name: self.name.clone(),
            offset: self.offset,
            uvs: self.uvs,
            color: self.color,
            position: self.position,
            scale: self.scale,
            size: self.size,
            page_index: self.page_index,
            texture_id,
        }
    }

    /// A copy of this attachment, field for field.
    pub(crate) fn duplicate(&self) -> (r: RegionAttachment)
        ensures
            region_desc_eq(r, *self),
            r.texture_id == self.texture_id,
    {
        self.with_texture(self.texture_id)
    }
}

/// The visual content bound to a slot. Only region attachments carry
/// geometry in this core; the kind is recorded for the host's benefit.
pub struct Attachment {
    pub(crate) kind: AttachmentType,
    pub(crate) region: RegionAttachment,
}

impl Attachment {
    /// The attachment's kind spec.
    pub closed spec fn kind_spec(self) -> AttachmentType {
        self.kind
    }

    /// The region payload spec.
    pub closed spec fn region_spec(self) -> RegionAttachment {
        self.region
    }

    /// The region payload of this attachment.
    pub fn as_region_attachment(&self) -> (r: RegionAttachment)
        ensures
            region_desc_eq(r, self.region_spec()),
            r.texture_id == self.region_spec().texture_id,
    {
        self.region.duplicate()
    }

    /// The attachment's name.
    pub fn name(&self) -> (r: &String)
        ensures
            r@ == self.region_spec().name@,
    {
        &self.region.name
    }

    /// The attachment's kind.
    pub fn kind(&self) -> (r: AttachmentType)
        ensures
            r == self.kind_spec(),
    {
        self.kind
    }
}

/// One bone of a skeleton definition: its name, its parent, and its
/// authored setup-pose local transform. Parents always come before
/// children in the bone list.
pub struct BoneDef {
    /// The bone's name.
    pub name: String,
    /// Index of the parent bone, which must be smaller than this bone's
    /// own index; `None` for a root.
    pub parent: Option<usize>,
    /// The authored setup-pose local transform.
    pub pose: BonePose,
}

/// The two bone definitions agree on every field.
pub open spec fn bone_def_eq(a: BoneDef, b: BoneDef) -> bool {
    &&& a.name@ == b.name@
    &&& a.parent == b.parent
    &&& a.pose == b.pose
}

impl BoneDef {
    /// A copy of this bone definition.
    pub(crate) fn duplicate(&self) -> (r: BoneDef)
        ensures
            bone_def_eq(r, *self),
    {
        BoneDef { name: self.name.clone(), parent: self.parent, pose: self.pose }
    }
}

/// Parents come strictly before their children in the bone list, so a
/// single forward pass can propagate world transforms.
pub open spec fn bones_wf(bones: Seq<BoneDef>) -> bool {
    forall|i: int|
        0 <= i < bones.len() ==> ((#[trigger] bones[i]).parent is Some ==> bones[i].parent.unwrap()
            < i)
}

/// One slot of a skeleton definition: a named attachment point in the
/// authored draw order, with its setup tint and setup attachment.
pub struct SlotDef {
    /// The slot's name.
    pub name: String,
    /// Index of the bone the slot follows.
    pub bone: usize,
    /// The authored setup tint.
    pub color: Color,
    /// How the slot's geometry blends over what is already drawn.
    pub blend_mode: BlendMode,
    /// The setup attachment, if any.
    pub attachment: Option<RegionAttachment>,
}

/// The two slot definitions agree on everything authored.
pub open spec fn slot_def_desc_eq(a: SlotDef, b: SlotDef) -> bool {
    &&& a.name@ == b.name@
    &&& a.bone == b.bone
    &&& a.color == b.color
    &&& a.blend_mode == b.blend_mode
    &&& (a.attachment is Some <==> b.attachment is Some)
    &&& (a.attachment is Some ==> region_desc_eq(a.attachment.unwrap(), b.attachment.unwrap()))
}

/// Every slot names a bone that exists and an atlas page that exists.
pub open spec fn slots_wf(slots: Seq<SlotDef>, nbones: int, npages: int) -> bool {
    forall|i: int|
        0 <= i < slots.len() ==> (#[trigger] slots[i]).bone < nbones && (slots[i].attachment
            is Some ==> slots[i].attachment.unwrap().page_index < npages)
}

impl SlotDef {
    /// A copy of this slot definition with its attachment's texture
    /// identifier resolved through the atlas pages.
    pub(crate) fn resolve(&self, pages: &Vec<AtlasPage>) -> (r: SlotDef)
        requires
            self.attachment is Some ==> self.attachment.unwrap().page_index < pages@.len(),
        ensures
            slot_def_desc_eq(r, *self),
            r.attachment is Some ==> r.attachment.unwrap().texture_id == pages@[self.attachment.unwrap().page_index as int].texture_id,
    {
        let attachment = match &self.attachment {
            Option::None => Option::None,
            Option::Some(region) => {
                let tid = pages[region.page_index].texture_id;
                Option::Some(region.with_texture(tid))
            },
        };
        SlotDef {
            name: self.name.clone(),
            bone: self.bone,
            color: self.color,
            blend_mode: self.blend_mode,
            attachment,
        }
    }

    /// A copy of this slot definition, field for field.
    pub(crate) fn duplicate(&self) -> (r: SlotDef)
        ensures
            slot_def_desc_eq(r, *self),
            r.attachment is Some ==> r.attachment.unwrap().texture_id
                == self.attachment.unwrap().texture_id,
    {
        let attachment = match &self.attachment {
            Option::None => Option::None,
            Option::Some(region) => Option::Some(region.duplicate()),
        };
        SlotDef {
            name: self.name.clone(),
            bone: self.bone,
            color: self.color,
            blend_mode: self.blend_mode,
            attachment,
        }
    }
}

/// A read view of one bone definition: its name.
pub struct BoneData {
    /// The bone's name.
    pub name: String,
}

impl BoneData {
    /// The bone's name.
    pub fn name(&self) -> (r: &String)
        ensures
            r@ == self.name@,
    {
        &self.name
    }
}

/// A decoded skeleton asset, as the host's decoder hands it over:
/// bones, slots, animations, the string table, and the authored layout
/// fields.
pub struct SkeletonAsset {
    /// Bones, parents before children.
    pub bones: Vec<BoneDef>,
    /// Slots, in authored draw order.
    pub slots: Vec<SlotDef>,
    /// Animations.
    pub animations: Vec<AnimationDef>,
    /// The string table referenced by attachment names.
    pub strings: Vec<String>,
    /// Authored origin offset.
    pub position: (i32, i32),
    /// Authored bounding dimensions.
    pub dimensions: (i32, i32),
}

impl SkeletonAsset {
    /// The asset is consistent: parents precede children, slots name
    /// existing bones and pages, timelines pose existing bones.
    pub open spec fn wf(self, npages: int) -> bool {
        &&& bones_wf(self.bones@)
        &&& slots_wf(self.slots@, self.bones@.len() as int, npages)
        &&& animations_wf(self.animations@, self.bones@.len() as int)
        &&& self.bones@.len() <= 0x7fffffff
        &&& self.slots@.len() <= 0x7fffffff
    }
}

fn check_bones(bones: &Vec<BoneDef>) -> (r: bool)
    ensures
        r == bones_wf(bones@),
{
    let mut i: usize = 0;
    while i < bones.len()
        invariant
            i <= bones@.len(),
            forall|k: int|
                0 <= k < i ==> ((#[trigger] bones@[k]).parent is Some ==> bones@[k].parent.unwrap()
                    < k),
        decreases bones@.len() - i,
    {
        match bones[i].parent {
            Option::Some(p) => {
                if p >= i {
                    return false;
                }
            },
            Option::None => {},
        }
        i += 1;
    }
    true
}

fn check_slots(slots: &Vec<SlotDef>, nbones: usize, npages: usize) -> (r: bool)
    ensures
        r == slots_wf(slots@, nbones as int, npages as int),
{
    let mut i: usize = 0;
    while i < slots.len()
        invariant
            i <= slots@.len(),
            forall|k: int|
                0 <= k < i ==> (#[trigger] slots@[k]).bone < nbones && (slots@[k].attachment
                    is Some ==> slots@[k].attachment.unwrap().page_index < npages),
        decreases slots@.len() - i,
    {
        if slots[i].bone >= nbones {
            return false;
        }
        match &slots[i].attachment {
            Option::Some(region) => {
                if region.page_index >= npages {
                    return false;
                }
            },
            Option::None => {},
        }
        i += 1;
    }
    true
}

fn check_animations(anims: &Vec<AnimationDef>, nbones: usize) -> (r: bool)
    ensures
        r == animations_wf(anims@, nbones as int),
{
    let mut a: usize = 0;
    while a < anims.len()
        invariant
            a <= anims@.len(),
            forall|i: int, t: int|
                0 <= i < a && 0 <= t < anims@[i].timelines@.len() ==> (
                #[trigger] anims@[i].timelines@[t]).bone < nbones,
        decreases anims@.len() - a,
    {
        let timelines = &anims[a].timelines;
        let mut t: usize = 0;
        while t < timelines.len()
            invariant
                t <= timelines@.len(),
                timelines@ == anims@[a as int].timelines@,
                a < anims@.len(),
                forall|k: int| 0 <= k < t ==> (#[trigger] timelines@[k]).bone < nbones,
            decreases timelines@.len() - t,
        {
            if timelines[t].bone >= nbones {
                return false;
            }
            t += 1;
        }
        a += 1;
    }
    true
}

/// The shared, immutable definition of a skeleton: one store resource,
/// the atlas it retains, and the decoded bones, slots, animations and
/// strings. Only the two authored layout fields may be mutated.
pub struct SkeletonData {
    pub(crate) handle: SharedHandle,
    pub(crate) atlas: Atlas,
    pub(crate) bones: Vec<BoneDef>,
    pub(crate) slots: Vec<SlotDef>,
    pub(crate) animations: Vec<AnimationDef>,
    pub(crate) strings: Vec<String>,
    pub(crate) position: (i32, i32),
    pub(crate) dimensions: (i32, i32),
}

impl SkeletonData {
    /// The store resource this definition owns.
    pub closed spec fn id(self) -> int {
        self.handle.id_spec()
    }

    /// The atlas this definition retains.
    pub closed spec fn atlas_spec(self) -> Atlas {
        self.atlas
    }

    /// Bones, parents before children.
    pub closed spec fn bones_view(self) -> Seq<BoneDef> {
        self.bones@
    }

    /// Slots, in authored draw order.
    pub closed spec fn slots_view(self) -> Seq<SlotDef> {
        self.slots@
    }

    /// Animations.
    pub closed spec fn animations_view(self) -> Seq<AnimationDef> {
        self.animations@
    }

    /// The string table.
    pub closed spec fn strings_view(self) -> Seq<String> {
        self.strings@
    }

    /// Authored origin offset.
    pub closed spec fn position_spec(self) -> (i32, i32) {
        self.position
    }

    /// Authored bounding dimensions.
    pub closed spec fn dimensions_spec(self) -> (i32, i32) {
        self.dimensions
    }

    /// The definition's internal consistency.
    pub open spec fn wf(self) -> bool {
        &&& bones_wf(self.bones_view())
        &&& slots_wf(
            self.slots_view(),
            self.bones_view().len() as int,
            self.atlas_spec().pages_view().len() as int,
        )
        &&& animations_wf(self.animations_view(), self.bones_view().len() as int)
        &&& self.bones_view().len() <= 0x7fffffff
        &&& self.slots_view().len() <= 0x7fffffff
    }

    /// The definition holds counted references to a live definition
    /// resource and to its atlas.
    pub open spec fn valid(self, store: HandleStore) -> bool {
        &&& 0 <= self.id() < store.n()
        &&& store.live(self.id())
        &&& store.externals_view()[self.id()] >= 1
        &&& store.kinds_view()[self.id()] == ResourceKind::SkeletonData
        &&& self.atlas_spec().valid(store)
        &&& self.atlas_spec().id() < self.id()
    }


    /// The store resource this definition owns.
    pub fn handle_id(&self) -> (r: usize)
        ensures
            r == self.id(),
    {
        self.handle.id()
    }

    /// The definition's animations, for sibling components.
    pub(crate) fn animations_ref(&self) -> (r: &Vec<AnimationDef>)
        ensures
            r@ == self.animations_view(),
    {
        &self.animations
    }

    /// Read views of the definition's animations: name and duration
    /// each.
    pub fn animations(&self) -> (r: Vec<Animation>)
        ensures
            r@.len() == self.animations_view().len(),
            forall|i: int|
                0 <= i < r@.len() ==> (#[trigger] r@[i]).name@ == self.animations_view()[i].name@
                    && r@[i].duration == self.animations_view()[i].duration,
    {
        let mut r: Vec<Animation> = Vec::new();
        let mut i: usize = 0;
        while i < self.animations.len()
            invariant
                i <= self.animations@.len(),
                r@.len() == i,
                forall|k: int|
                    0 <= k < i ==> (#[trigger] r@[k]).name@ == self.animations@[k].name@
                        && r@[k].duration == self.animations@[k].duration,
            decreases self.animations@.len() - i,
        {
            r.push(
                Animation {
                    name: self.animations[i].name.clone(),
                    duration: self.animations[i].duration,
                },
            );
            i += 1;
        }
        r
    }

    /// Read views of the definition's bones: a name each.
    pub fn bones(&self) -> (r: Vec<BoneData>)
        ensures
            r@.len() == self.bones_view().len(),
            forall|i: int|
                0 <= i < r@.len() ==> (#[trigger] r@[i]).name@ == self.bones_view()[i].name@,
    {
        let mut r: Vec<BoneData> = Vec::new();
        let mut i: usize = 0;
        while i < self.bones.len()
            invariant
                i <= self.bones@.len(),
                r@.len() == i,
                forall|k: int|
                    0 <= k < i ==> (#[trigger] r@[k]).name@ == self.bones@[k].name@,
            decreases self.bones@.len() - i,
        {
            r.push(BoneData { name: self.bones[i].name.clone() });
            i += 1;
        }
        r
    }

    /// The string table referenced by attachment names.
    pub fn strings(&self) -> (r: &Vec<String>)
        ensures
            r@ == self.strings_view(),
    {
        &self.strings
    }

    /// The authored origin offset.
    pub fn position(&self) -> (r: (i32, i32))
        ensures
            r == self.position_spec(),
    {
        self.position
    }

    /// The authored bounding dimensions.
    pub fn dimensions(&self) -> (r: (i32, i32))
        ensures
            r == self.dimensions_spec(),
    {
        self.dimensions
    }

    /// Overwrites the authored origin offset, one of the two mutable
    /// layout fields.
    pub fn set_position(&mut self, position: (i32, i32))
        ensures
            final(self).position_spec() == position,
            final(self).dimensions_spec() == old(self).dimensions_spec(),
            final(self).bones_view() == old(self).bones_view(),
            final(self).slots_view() == old(self).slots_view(),
            final(self).animations_view() == old(self).animations_view(),
            final(self).strings_view() == old(self).strings_view(),
            final(self).atlas_spec() == old(self).atlas_spec(),
            final(self).id() == old(self).id(),
    {
        self.position = position;
    }

    /// Overwrites the authored bounding dimensions, one of the two
    /// mutable layout fields.
    pub fn set_dimensions(&mut self, dimensions: (i32, i32))
        ensures
            final(self).dimensions_spec() == dimensions,
            final(self).position_spec() == old(self).position_spec(),
            final(self).bones_view() == old(self).bones_view(),
            final(self).slots_view() == old(self).slots_view(),
            final(self).animations_view() == old(self).animations_view(),
            final(self).strings_view() == old(self).strings_view(),
            final(self).atlas_spec() == old(self).atlas_spec(),
            final(self).id() == old(self).id(),
    {
        self.dimensions = dimensions;
    }

    /// Consumes the definition, releasing its own reference and the
    /// reference its atlas wrapper holds. The retain-list reference the
    /// definition resource holds on the atlas is given back when the
    /// definition is disposed, so the atlas can never be disposed first.
    pub fn release(self, store: &mut HandleStore)
        requires
            old(store).wf(),
            self.valid(*old(store)),
        ensures
            final(store).wf(),
            final(store).n() == old(store).n(),
            final(store).kinds_view() == old(store).kinds_view(),
            final(store).counts_view()[self.id()] as int == old(store).counts_view()[self.id()]
                - 1,
            final(store).externals_view()[self.atlas_spec().id()] as int == old(
                store,
            ).externals_view()[self.atlas_spec().id()] - 1,
            old(store).log_view().is_prefix_of(final(store).log_view()),
            old(store).counts_view()[self.id()] == 1 ==> final(store).disposed(self.id()),
    {
        let ghost aid = self.atlas_spec().id();
        let SkeletonData { handle, atlas, .. } = self;
        store.release(handle);
        let ghost mid = *store;
        proof {
            assert(store.counts_view()[aid] as int == store.edges(aid)
                + store.externals_view()[aid] + crate::handles::occ(Seq::<usize>::empty(), aid));
        }
        atlas.release(store);
        proof {
            crate::handles::lemma_prefix_trans(
                old(store).log_view(),
                mid.log_view(),
                store.log_view(),
            );
        }
    }

    /// Builds a definition from a decoded skeleton asset, consuming the
    /// atlas. On success the definition retains the atlas, and every
    /// region attachment's texture identifier is resolved through the
    /// atlas page it names. On failure (an inconsistent asset, the
    /// decoder's concern notwithstanding) the atlas reference is still
    /// consumed — ownership transfer completes regardless — and the
    /// error carries a diagnostic.
    pub fn from_binary_file(asset: &SkeletonAsset, atlas: Atlas, store: &mut HandleStore) -> (r:
        Result<SkeletonData, SpineError>)
        requires
            old(store).wf(),
            atlas.valid(*old(store)),
            old(store).counts_view()[atlas.id()] as int + 1 <= u32::MAX,
        ensures
            final(store).wf(),
            r is Ok <==> asset.wf(atlas.pages_view().len() as int),
            r is Ok ==> ({
                let d = r->Ok_0;
                &&& d.wf()
                &&& d.valid(*final(store))
                &&& d.id() == old(store).n()
                &&& d.atlas_spec().pages_view() == atlas.pages_view()
                &&& d.atlas_spec().id() == atlas.id()
                &&& final(store).n() == old(store).n() + 1
                &&& final(store).kinds_view() == old(store).kinds_view().push(
                    ResourceKind::SkeletonData,
                )
                &&& final(store).log_view() == old(store).log_view()
                &&& final(store).counts_view()[atlas.id()] as int == old(store).counts_view()[atlas.id()]
                    + 1
                &&& d.bones_view().len() == asset.bones@.len()
                &&& (forall|i: int|
                    0 <= i < asset.bones@.len() ==> bone_def_eq(
                        #[trigger] d.bones_view()[i],
                        asset.bones@[i],
                    ))
                &&& d.slots_view().len() == asset.slots@.len()
                &&& (forall|i: int|
                    0 <= i < asset.slots@.len() ==> slot_def_desc_eq(
                        #[trigger] d.slots_view()[i],
                        asset.slots@[i],
                    ))
                &&& (forall|i: int|
                    0 <= i < asset.slots@.len() ==> ((#[trigger] d.slots_view()[i]).attachment
                        is Some ==> d.slots_view()[i].attachment.unwrap().texture_id
                        == atlas.pages_view()[asset.slots@[i].attachment.unwrap().page_index as int].texture_id))
                &&& anims_eq(d.animations_view(), asset.animations@)
                &&& d.strings_view().len() == asset.strings@.len()
                &&& (forall|i: int|
                    0 <= i < asset.strings@.len() ==> (#[trigger] d.strings_view()[i])@
                        == asset.strings@[i]@)
                &&& d.position_spec() == asset.position
                &&& d.dimensions_spec() == asset.dimensions
            }),
            r is Err ==> ({
                &&& r->Err_0 is FailLoadSkeleton
                &&& final(store).n() == old(store).n()
                &&& final(store).kinds_view() == old(store).kinds_view()
                &&& final(store).counts_view()[atlas.id()] as int == old(store).counts_view()[atlas.id()]
                    - 1
                &&& old(store).log_view().is_prefix_of(final(store).log_view())
            }),
    {
        let npages = atlas.page_count();
        let ok_bones = check_bones(&asset.bones);
        let ok_slots = check_slots(&asset.slots, asset.bones.len(), npages);
        let ok_anims = check_animations(&asset.animations, asset.bones.len());
        let small = asset.bones.len() <= 0x7fffffff && asset.slots.len() <= 0x7fffffff;
        if !(ok_bones && ok_slots && ok_anims && small) {
            atlas.release(store);
            return Result::Err(
                SpineError::FailLoadSkeleton("inconsistent skeleton asset".to_owned()),
            );
        }
        let mut bones: Vec<BoneDef> = Vec::new();
        let mut i: usize = 0;
        while i < asset.bones.len()
            invariant
                i <= asset.bones@.len(),
                bones@.len() == i,
                forall|k: int| 0 <= k < i ==> bone_def_eq(#[trigger] bones@[k], asset.bones@[k]),
            decreases asset.bones@.len() - i,
        {
            bones.push(asset.bones[i].duplicate());
            i += 1;
        }
        let mut slots: Vec<SlotDef> = Vec::new();
        let mut j: usize = 0;
        while j < asset.slots.len()
            invariant
                j <= asset.slots@.len(),
                slots@.len() == j,
                slots_wf(
                    asset.slots@,
                    asset.bones@.len() as int,
                    atlas.pages_view().len() as int,
                ),
                atlas.pages_view().len() == npages,
                forall|k: int|
                    0 <= k < j ==> slot_def_desc_eq(#[trigger] slots@[k], asset.slots@[k]),
                forall|k: int|
                    0 <= k < j ==> ((#[trigger] slots@[k]).attachment is Some ==> slots@[k].attachment.unwrap().texture_id
                        == atlas.pages_view()[asset.slots@[k].attachment.unwrap().page_index as int].texture_id),
            decreases asset.slots@.len() - j,
        {
            slots.push(asset.slots[j].resolve(atlas.pages()));
            j += 1;
        }
        let animations = crate::animation::copy_anims(&asset.animations);
        let mut strings: Vec<String> = Vec::new();
        let mut s: usize = 0;
        while s < asset.strings.len()
            invariant
                s <= asset.strings@.len(),
                strings@.len() == s,
                forall|k: int| 0 <= k < s ==> (#[trigger] strings@[k])@ == asset.strings@[k]@,
            decreases asset.strings@.len() - s,
        {
            strings.push(asset.strings[s].clone());
            s += 1;
        }
        let mut parents: Vec<usize> = Vec::new();
        parents.push(atlas.handle_id());
        let ghost ps = parents@;
        proof {
            assert(ps.drop_last() =~= Seq::<usize>::empty());
            assert(occ(ps, atlas.id()) == 1);
        }
        let handle = store.allocate_retaining(ResourceKind::SkeletonData, parents);
        Result::Ok(
            SkeletonData {
                handle,
                atlas,
                bones,
                slots,
                animations,
                strings,
                position: asset.position,
                dimensions: asset.dimensions,
            },
        )
    }
}

/// A snapshot view of one bone of a live skeleton: its index and its
/// transforms at the time the view was taken. Views are copies; they
/// stay unchanged when the skeleton is mutated, and a fresh view must be
/// taken afterwards.
#[derive(Debug, Copy, Clone, PartialEq, Eq, Structural)]
pub struct Bone {
    /// Index of the bone in its skeleton.
    pub index: usize,
    /// The bone's local transform when the view was taken.
    pub local: BonePose,
    /// The bone's world transform when the view was taken.
    pub world: BonePose,
}

impl Bone {
    /// The bone's index in its skeleton.
    pub fn index(&self) -> (r: BoneIndex)
        requires
            self.index <= 0x7fffffff,
        ensures
            r.0 == self.index,
    {
        BoneIndex(self.index as i32)
    }
}

/// A snapshot view of one slot of a live skeleton: its current tint,
/// blend mode, owning bone and attachment at the time the view was
/// taken.
pub struct Slot {
    pub(crate) index: usize,
    pub(crate) color: Color,
    pub(crate) blend_mode: BlendMode,
    pub(crate) bone: Bone,
    pub(crate) attachment: Option<Attachment>,
}

impl Slot {
    /// Index of the slot in its skeleton.
    pub closed spec fn index_spec(self) -> int {
        self.index as int
    }

    /// The slot's current tint.
    pub closed spec fn color_spec(self) -> Color {
        self.color
    }

    /// The slot's blend mode.
    pub closed spec fn blend_mode_spec(self) -> BlendMode {
        self.blend_mode
    }

    /// The owning bone's snapshot.
    pub closed spec fn bone_spec(self) -> Bone {
        self.bone
    }

    /// The slot's attachment snapshot.
    pub closed spec fn attachment_spec(self) -> Option<Attachment> {
        self.attachment
    }

    /// The owning bone, as snapshotted when the view was taken.
    pub fn bone(&self) -> (r: Option<Bone>)
        ensures
            r == Option::Some(self.bone_spec()),
    {
        Option::Some(self.bone)
    }

    /// The slot's current tint.
    pub fn color(&self) -> (r: Color)
        ensures
            r == self.color_spec(),
    {
        self.color
    }

    /// How the slot's geometry blends over what is already drawn.
    pub fn blend_mode(&self) -> (r: BlendMode)
        ensures
            r == self.blend_mode_spec(),
    {
        self.blend_mode
    }

    /// The slot's active attachment, if any.
    pub fn active_attachment(&self) -> (r: Option<&Attachment>)
        ensures
            r is Some <==> self.attachment_spec() is Some,
            r is Some ==> *r.unwrap() == self.attachment_spec().unwrap(),
    {
        match &self.attachment {
            Option::Some(a) => Option::Some(a),
            Option::None => Option::None,
        }
    }

    /// Index of the slot in its skeleton.
    pub fn index(&self) -> (r: SlotIndex)
        requires
            self.index_spec() <= 0x7fffffff,
        ensures
            r.0 == self.index_spec(),
    {
        SlotIndex(self.index as i32)
    }
}

/// The world transform of bone `i`: its local transform composed under
/// its parent's world transform, down from the root.
pub open spec fn world_of(defs: Seq<BoneDef>, locals: Seq<BonePose>, i: int) -> BonePose
    decreases i,
{
    if 0 <= i < defs.len() {
        if defs[i].parent is Some && defs[i].parent.unwrap() < i {
            compose(world_of(defs, locals, defs[i].parent.unwrap() as int), locals[i])
        } else {
            locals[i]
        }
    } else {
        identity_pose()
    }
}

/// One mutable, per-playthrough skeleton pose: local and world
/// transforms per bone, current tint per slot, the current draw order,
/// and the skeleton-level tint. It copies what it needs from its
/// definition at creation, so it does not retain the definition.
pub struct Skeleton {
    pub(crate) handle: SharedHandle,
    pub(crate) bone_defs: Vec<BoneDef>,
    pub(crate) slot_defs: Vec<SlotDef>,
    pub(crate) locals: Vec<BonePose>,
    pub(crate) worlds: Vec<BonePose>,
    pub(crate) slot_colors: Vec<Color>,
    pub(crate) draw_order: Vec<usize>,
    pub(crate) color: Color,
    pub(crate) position: (i32, i32),
    pub(crate) scale: (i32, i32),
    pub(crate) time: u64,
}

impl Skeleton {
    /// The store resource this instance owns.
    pub closed spec fn id(self) -> int {
        self.handle.id_spec()
    }

    /// The bone definitions the instance was built from.
    pub closed spec fn bone_defs_view(self) -> Seq<BoneDef> {
        self.bone_defs@
    }

    /// The slot definitions the instance was built from.
    pub closed spec fn slot_defs_view(self) -> Seq<SlotDef> {
        self.slot_defs@
    }

    /// Current local transform per bone.
    pub closed spec fn locals_view(self) -> Seq<BonePose> {
        self.locals@
    }

    /// Current world transform per bone.
    pub closed spec fn worlds_view(self) -> Seq<BonePose> {
        self.worlds@
    }

    /// Current tint per slot.
    pub closed spec fn slot_colors_view(self) -> Seq<Color> {
        self.slot_colors@
    }

    /// Current draw order: slot indexes, render first to render last.
    pub closed spec fn draw_order_view(self) -> Seq<usize> {
        self.draw_order@
    }

    /// The skeleton-level tint.
    pub closed spec fn color_spec(self) -> Color {
        self.color
    }

    /// The skeleton's root position.
    pub closed spec fn position_spec(self) -> (i32, i32) {
        self.position
    }

    /// The skeleton's root scale, fixed-point.
    pub closed spec fn scale_spec(self) -> (i32, i32) {
        self.scale
    }

    /// Accumulated time in ticks.
    pub closed spec fn time_spec(self) -> int {
        self.time as int
    }

    /// The instance's internal consistency.
    pub open spec fn wf(self) -> bool {
        &&& self.locals_view().len() == self.bone_defs_view().len()
        &&& self.worlds_view().len() == self.bone_defs_view().len()
        &&& self.slot_colors_view().len() == self.slot_defs_view().len()
        &&& self.draw_order_view().len() == self.slot_defs_view().len()
        &&& bones_wf(self.bone_defs_view())
        &&& (forall|i: int|
            0 <= i < self.slot_defs_view().len() ==> (#[trigger] self.slot_defs_view()[i]).bone
                < self.bone_defs_view().len())
        &&& (forall|i: int|
            0 <= i < self.draw_order_view().len() ==> (#[trigger] self.draw_order_view()[i])
                < self.slot_defs_view().len())
        &&& (forall|i: int, j: int|
            0 <= i < j < self.draw_order_view().len() ==> #[trigger] self.draw_order_view()[i]
                != #[trigger] self.draw_order_view()[j])
        &&& self.bone_defs_view().len() <= 0x7fffffff
        &&& self.slot_defs_view().len() <= 0x7fffffff
    }

    /// The instance holds a counted reference to a live skeleton
    /// resource.
    pub open spec fn valid(self, store: HandleStore) -> bool {
        &&& 0 <= self.id() < store.n()
        &&& store.live(self.id())
        &&& store.externals_view()[self.id()] >= 1
        &&& store.kinds_view()[self.id()] == ResourceKind::Skeleton
    }

    /// Every per-playthrough value equals the authored setup pose: every
    /// bone's local transform, every slot's tint, and the draw order.
    pub open spec fn at_setup_pose(self) -> bool {
        &&& (forall|i: int|
            0 <= i < self.locals_view().len() ==> #[trigger] self.locals_view()[i]
                == self.bone_defs_view()[i].pose)
        &&& (forall|i: int|
            0 <= i < self.slot_colors_view().len() ==> #[trigger] self.slot_colors_view()[i]
                == self.slot_defs_view()[i].color)
        &&& (forall|i: int|
            0 <= i < self.draw_order_view().len() ==> #[trigger] self.draw_order_view()[i] == i)
    }

    /// The instance's definitions match those of `data`.
    pub open spec fn built_from(self, data: SkeletonData) -> bool {
        &&& self.bone_defs_view().len() == data.bones_view().len()
        &&& (forall|i: int|
            0 <= i < data.bones_view().len() ==> bone_def_eq(
                #[trigger] self.bone_defs_view()[i],
                data.bones_view()[i],
            ))
        &&& self.slot_defs_view().len() == data.slots_view().len()
        &&& (forall|i: int|
            0 <= i < data.slots_view().len() ==> slot_def_desc_eq(
                #[trigger] self.slot_defs_view()[i],
                data.slots_view()[i],
            ))
        &&& (forall|i: int|
            0 <= i < data.slots_view().len() ==> ((#[trigger] self.slot_defs_view()[i]).attachment
                is Some ==> self.slot_defs_view()[i].attachment.unwrap().texture_id
                == data.slots_view()[i].attachment.unwrap().texture_id))
    }

    /// Creates one live skeleton from a definition, copying the setup
    /// pose. The instance does not retain the definition: it is
    /// self-contained, so it stays usable however long the definition
    /// lives.
    pub fn new(data: &SkeletonData, store: &mut HandleStore) -> (r: Skeleton)
        requires
            old(store).wf(),
            data.wf(),
        ensures
            final(store).wf(),
            final(store).n() == old(store).n() + 1,
            final(store).counts_view() == old(store).counts_view().push(1u32),
            final(store).externals_view() == old(store).externals_view().push(1u32),
            final(store).kinds_view() == old(store).kinds_view().push(ResourceKind::Skeleton),
            final(store).log_view() == old(store).log_view(),
            r.id() == old(store).n(),
            r.valid(*final(store)),
            r.wf(),
            r.built_from(*data),
            r.at_setup_pose(),
            forall|i: int|
                0 <= i < r.worlds_view().len() ==> #[trigger] r.worlds_view()[i]
                    == r.bone_defs_view()[i].pose,
            r.color_spec() == (Color { r: 255u8, g: 255u8, b: 255u8, a: 255u8 }),
            r.position_spec() == (0i32, 0i32),
            r.scale_spec() == (FX_ONE, FX_ONE),
            r.time_spec() == 0,
    {
        let mut bone_defs: Vec<BoneDef> = Vec::new();
        let mut locals: Vec<BonePose> = Vec::new();
        let mut worlds: Vec<BonePose> = Vec::new();
        let mut i: usize = 0;
        while i < data.bones.len()
            invariant
                i <= data.bones@.len(),
                bone_defs@.len() == i,
                locals@.len() == i,
                worlds@.len() == i,
                forall|k: int|
                    0 <= k < i ==> bone_def_eq(#[trigger] bone_defs@[k], data.bones@[k]),
                forall|k: int| 0 <= k < i ==> #[trigger] locals@[k] == data.bones@[k].pose,
                forall|k: int| 0 <= k < i ==> #[trigger] worlds@[k] == data.bones@[k].pose,
            decreases data.bones@.len() - i,
        {
            let def = data.bones[i].duplicate();
            locals.push(def.pose);
            worlds.push(def.pose);
            bone_defs.push(def);
            i += 1;
        }
        let mut slot_defs: Vec<SlotDef> = Vec::new();
        let mut slot_colors: Vec<Color> = Vec::new();
        let mut draw_order: Vec<usize> = Vec::new();
        let mut j: usize = 0;
        while j < data.slots.len()
            invariant
                j <= data.slots@.len(),
                slot_defs@.len() == j,
                slot_colors@.len() == j,
                draw_order@.len() == j,
                forall|k: int|
                    0 <= k < j ==> slot_def_desc_eq(#[trigger] slot_defs@[k], data.slots@[k]),
                forall|k: int|
                    0 <= k < j ==> ((#[trigger] slot_defs@[k]).attachment is Some ==> slot_defs@[k].attachment.unwrap().texture_id
                        == data.slots@[k].attachment.unwrap().texture_id),
                forall|k: int| 0 <= k < j ==> #[trigger] slot_colors@[k] == data.slots@[k].color,
                forall|k: int| 0 <= k < j ==> #[trigger] draw_order@[k] == k,
            decreases data.slots@.len() - j,
        {
            let def = data.slots[j].duplicate();
            slot_colors.push(def.color);
            draw_order.push(j);
            slot_defs.push(def);
            j += 1;
        }
        let handle = store.allocate(ResourceKind::Skeleton);
        Skeleton {
            handle,
            bone_defs,
            slot_defs,
            locals,
            worlds,
            slot_colors,
            draw_order,
            color: Color::white(),
            position: (0, 0),
            scale: (FX_ONE, FX_ONE),
            time: 0,
        }
    }

    /// Returns every bone's local transform to the authored setup pose.
    pub fn reset_bones(&mut self)
        ensures
            final(self).bone_defs_view() == old(self).bone_defs_view(),
            final(self).slot_defs_view() == old(self).slot_defs_view(),
            final(self).worlds_view() == old(self).worlds_view(),
            final(self).slot_colors_view() == old(self).slot_colors_view(),
            final(self).draw_order_view() == old(self).draw_order_view(),
            final(self).color_spec() == old(self).color_spec(),
            final(self).position_spec() == old(self).position_spec(),
            final(self).scale_spec() == old(self).scale_spec(),
            final(self).time_spec() == old(self).time_spec(),
            final(self).id() == old(self).id(),
            final(self).locals_view().len() == old(self).bone_defs_view().len(),
            forall|i: int|
                0 <= i < final(self).locals_view().len() ==> #[trigger] final(self).locals_view()[i]
                    == old(self).bone_defs_view()[i].pose,
    {
        let n = self.bone_defs.len();
        let mut locals: Vec<BonePose> = Vec::new();
        let mut i: usize = 0;
        while i < n
            invariant
                n == self.bone_defs@.len(),
                i <= n,
                locals@.len() == i,
                forall|k: int| 0 <= k < i ==> #[trigger] locals@[k] == self.bone_defs@[k].pose,
            decreases n - i,
        {
            locals.push(self.bone_defs[i].pose);
            i += 1;
        }
        self.locals = locals;
    }

    /// Returns every slot's tint and the draw order to the authored
    /// setup pose.
    pub fn reset_slots(&mut self)
        ensures
            final(self).bone_defs_view() == old(self).bone_defs_view(),
            final(self).slot_defs_view() == old(self).slot_defs_view(),
            final(self).locals_view() == old(self).locals_view(),
            final(self).worlds_view() == old(self).worlds_view(),
            final(self).color_spec() == old(self).color_spec(),
            final(self).position_spec() == old(self).position_spec(),
            final(self).scale_spec() == old(self).scale_spec(),
            final(self).time_spec() == old(self).time_spec(),
            final(self).id() == old(self).id(),
            final(self).slot_colors_view().len() == old(self).slot_defs_view().len(),
            final(self).draw_order_view().len() == old(self).slot_defs_view().len(),
            forall|i: int|
                0 <= i < final(self).slot_colors_view().len()
                    ==> #[trigger] final(self).slot_colors_view()[i]
                    == old(self).slot_defs_view()[i].color,
            forall|i: int|
                0 <= i < final(self).draw_order_view().len()
                    ==> #[trigger] final(self).draw_order_view()[i] == i,
    {
        let n = self.slot_defs.len();
        let mut slot_colors: Vec<Color> = Vec::new();
        let mut draw_order: Vec<usize> = Vec::new();
        let mut i: usize = 0;
        while i < n
            invariant
                n == self.slot_defs@.len(),
                i <= n,
                slot_colors@.len() == i,
                draw_order@.len() == i,
                forall|k: int| 0 <= k < i ==> #[trigger] slot_colors@[k] == self.slot_defs@[k].color,
                forall|k: int| 0 <= k < i ==> #[trigger] draw_order@[k] == k,
            decreases n - i,
        {
            slot_colors.push(self.slot_defs[i].color);
            draw_order.push(i);
            i += 1;
        }
        self.slot_colors = slot_colors;
        self.draw_order = draw_order;
    }

    /// Returns the whole pose — bones, slot tints and draw order — to
    /// the authored setup pose.
    pub fn reset(&mut self)
        ensures
            final(self).bone_defs_view() == old(self).bone_defs_view(),
            final(self).slot_defs_view() == old(self).slot_defs_view(),
            final(self).worlds_view() == old(self).worlds_view(),
            final(self).color_spec() == old(self).color_spec(),
            final(self).position_spec() == old(self).position_spec(),
            final(self).scale_spec() == old(self).scale_spec(),
            final(self).time_spec() == old(self).time_spec(),
            final(self).id() == old(self).id(),
            final(self).locals_view().len() == old(self).bone_defs_view().len(),
            final(self).slot_colors_view().len() == old(self).slot_defs_view().len(),
            final(self).draw_order_view().len() == old(self).slot_defs_view().len(),
            final(self).at_setup_pose(),
    {
        self.reset_bones();
        self.reset_slots();
    }

    /// Advances time-dependent procedural pose elements by `delta`
    /// ticks. Idempotent only for `delta == 0`.
    pub fn update(&mut self, delta: u32)
        requires
            old(self).time_spec() + delta <= u64::MAX,
        ensures
            final(self).time_spec() == old(self).time_spec() + delta,
            final(self).bone_defs_view() == old(self).bone_defs_view(),
            final(self).slot_defs_view() == old(self).slot_defs_view(),
            final(self).locals_view() == old(self).locals_view(),
            final(self).worlds_view() == old(self).worlds_view(),
            final(self).slot_colors_view() == old(self).slot_colors_view(),
            final(self).draw_order_view() == old(self).draw_order_view(),
            final(self).color_spec() == old(self).color_spec(),
            final(self).position_spec() == old(self).position_spec(),
            final(self).scale_spec() == old(self).scale_spec(),
            final(self).id() == old(self).id(),
    {
        self.time = self.time + (delta as u64);
    }

    /// Rebuilds the bone update order. This instance evaluates bones in
    /// index order, parents first, so there is nothing to rebuild; the
    /// pose is untouched.
    pub fn update_cache(&mut self)
        ensures
            *final(self) == *old(self),
    {
    }

    /// Recomputes every bone's world transform from its local transform
    /// composed with its parent's world transform, parents before
    /// children. Must run after every pose-affecting step and before
    /// geometry extraction.
    pub fn update_world_transform(&mut self)
        requires
            old(self).wf(),
        ensures
            final(self).wf(),
            world_transformed(*old(self), *final(self)),
    {
        let n = self.bone_defs.len();
        let mut i: usize = 0;
        while i < n
            invariant
                self.wf(),
                n == self.bone_defs@.len(),
                i <= n,
                self.bone_defs@ == old(self).bone_defs@,
                self.slot_defs@ == old(self).slot_defs@,
                self.locals@ == old(self).locals@,
                self.worlds@.len() == n,
                self.slot_colors@ == old(self).slot_colors@,
                self.draw_order@ == old(self).draw_order@,
                self.color == old(self).color,
                self.position == old(self).position,
                self.scale == old(self).scale,
                self.time == old(self).time,
                self.handle == old(self).handle,
                forall|k: int|
                    0 <= k < i ==> #[trigger] self.worlds@[k] == world_of(
                        self.bone_defs@,
                        self.locals@,
                        k,
                    ),
            decreases n - i,
        {
            let w = match self.bone_defs[i].parent {
                Option::None => self.locals[i],
                Option::Some(p) => {
                    let pw = self.worlds[p];
                    pw.chain(&self.locals[i])
                },
            };
            self.worlds[i] = w;
            i += 1;
        }
    }

    /// A snapshot view of the slot at `idx`.
    fn make_slot_view(&self, idx: usize) -> (r: Slot)
        requires
            self.wf(),
            idx < self.slot_defs_view().len(),
        ensures
            is_slot_view(*self, idx as int, r),
    {
        let def = &self.slot_defs[idx];
        let bone_index = def.bone;
        let bone = Bone {
            index: bone_index,
            local: self.locals[bone_index],
            world: self.worlds[bone_index],
        };
        let attachment = match &def.attachment {
            Option::None => Option::None,
            Option::Some(region) => Option::Some(
                Attachment { kind: AttachmentType::Region, region: region.duplicate() },
            ),
        };
        Slot {
            index: idx,
            color: self.slot_colors[idx],
            blend_mode: def.blend_mode,
            bone,
            attachment,
        }
    }

    /// Snapshot views of every slot, in definition order.
    pub fn slots(&self) -> (r: Vec<Slot>)
        requires
            self.wf(),
        ensures
            r@.len() == self.slot_defs_view().len(),
            forall|k: int| 0 <= k < r@.len() ==> is_slot_view(*self, k, #[trigger] r@[k]),
    {
        let mut r: Vec<Slot> = Vec::new();
        let mut k: usize = 0;
        while k < self.slot_defs.len()
            invariant
                self.wf(),
                k <= self.slot_defs@.len(),
                r@.len() == k,
                forall|m: int| 0 <= m < k ==> is_slot_view(*self, m, #[trigger] r@[m]),
            decreases self.slot_defs@.len() - k,
        {
            let v = self.make_slot_view(k);
            r.push(v);
            k += 1;
        }
        r
    }

    /// Snapshot views of every slot, in the current draw order. Render
    /// extraction must use this order, never definition order.
    pub fn draw_slots(&self) -> (r: Vec<Slot>)
        requires
            self.wf(),
        ensures
            r@.len() == self.slot_defs_view().len(),
            forall|k: int|
                0 <= k < r@.len() ==> is_slot_view(
                    *self,
                    self.draw_order_view()[k] as int,
                    #[trigger] r@[k],
                ),
    {
        let mut r: Vec<Slot> = Vec::new();
        let mut k: usize = 0;
        while k < self.draw_order.len()
            invariant
                self.wf(),
                k <= self.draw_order@.len(),
                r@.len() == k,
                forall|m: int|
                    0 <= m < k ==> is_slot_view(
                        *self,
                        self.draw_order@[m] as int,
                        #[trigger] r@[m],
                    ),
            decreases self.draw_order@.len() - k,
        {
            let v = self.make_slot_view(self.draw_order[k]);
            r.push(v);
            k += 1;
        }
        r
    }

    /// Snapshot views of every bone, in index order.
    pub fn bone(&self) -> (r: Vec<Bone>)
        requires
            self.wf(),
        ensures
            r@.len() == self.bone_defs_view().len(),
            forall|i: int|
                0 <= i < r@.len() ==> (#[trigger] r@[i]) == (Bone {
                    index: i as usize,
                    local: self.locals_view()[i],
                    world: self.worlds_view()[i],
                }),
    {
        let mut r: Vec<Bone> = Vec::new();
        let mut i: usize = 0;
        while i < self.bone_defs.len()
            invariant
                self.wf(),
                i <= self.bone_defs@.len(),
                r@.len() == i,
                forall|k: int|
                    0 <= k < i ==> (#[trigger] r@[k]) == (Bone {
                        index: k as usize,
                        local: self.locals@[k],
                        world: self.worlds@[k],
                    }),
            decreases self.bone_defs@.len() - i,
        {
            r.push(Bone { index: i, local: self.locals[i], world: self.worlds[i] });
            i += 1;
        }
        r
    }

    /// Index of the first bone named `name`, or -1 if there is none.
    pub fn bone_index(&self, name: &String) -> (r: BoneIndex)
        requires
            self.wf(),
        ensures
            r.0 as int == find_bone_from(self.bone_defs_view(), name@, 0),
    {
        let mut i: usize = 0;
        while i < self.bone_defs.len()
            invariant
                self.wf(),
                i <= self.bone_defs@.len(),
                find_bone_from(self.bone_defs@, name@, 0) == find_bone_from(
                    self.bone_defs@,
                    name@,
                    i as int,
                ),
            decreases self.bone_defs@.len() - i,
        {
            if self.bone_defs[i].name == *name {
                proof {
                    assert(find_bone_from(self.bone_defs@, name@, i as int) == i as int);
                }
                return BoneIndex(i as i32);
            }
            proof {
                assert(find_bone_from(self.bone_defs@, name@, i as int) == find_bone_from(
                    self.bone_defs@,
                    name@,
                    i as int + 1,
                ));
            }
            i += 1;
        }
        proof {
            assert(find_bone_from(self.bone_defs@, name@, self.bone_defs@.len() as int) == -1);
        }
        BoneIndex(-1)
    }

    /// The first slot named `name`, as a snapshot view, if there is one.
    pub fn slot(&self, name: &String) -> (r: Option<Slot>)
        requires
            self.wf(),
        ensures
            r is Some <==> find_slot_from(self.slot_defs_view(), name@, 0) >= 0,
            r is Some ==> is_slot_view(
                *self,
                find_slot_from(self.slot_defs_view(), name@, 0),
                r.unwrap(),
            ),
    {
        let mut i: usize = 0;
        while i < self.slot_defs.len()
            invariant
                self.wf(),
                i <= self.slot_defs@.len(),
                find_slot_from(self.slot_defs@, name@, 0) == find_slot_from(
                    self.slot_defs@,
                    name@,
                    i as int,
                ),
            decreases self.slot_defs@.len() - i,
        {
            if self.slot_defs[i].name == *name {
                proof {
                    assert(find_slot_from(self.slot_defs@, name@, i as int) == i as int);
                }
                return Option::Some(self.make_slot_view(i));
            }
            proof {
                assert(find_slot_from(self.slot_defs@, name@, i as int) == find_slot_from(
                    self.slot_defs@,
                    name@,
                    i as int + 1,
                ));
            }
            i += 1;
        }
        proof {
            assert(find_slot_from(self.slot_defs@, name@, self.slot_defs@.len() as int) == -1);
        }
        Option::None
    }

    /// Index of the first slot named `name`, or -1 if there is none.
    pub fn slot_index(&self, name: &String) -> (r: SlotIndex)
        requires
            self.wf(),
        ensures
            r.0 as int == find_slot_from(self.slot_defs_view(), name@, 0),
    {
        let mut i: usize = 0;
        while i < self.slot_defs.len()
            invariant
                self.wf(),
                i <= self.slot_defs@.len(),
                find_slot_from(self.slot_defs@, name@, 0) == find_slot_from(
                    self.slot_defs@,
                    name@,
                    i as int,
                ),
            decreases self.slot_defs@.len() - i,
        {
            if self.slot_defs[i].name == *name {
                proof {
                    assert(find_slot_from(self.slot_defs@, name@, i as int) == i as int);
                }
                return SlotIndex(i as i32);
            }
            proof {
                assert(find_slot_from(self.slot_defs@, name@, i as int) == find_slot_from(
                    self.slot_defs@,
                    name@,
                    i as int + 1,
                ));
            }
            i += 1;
        }
        proof {
            assert(find_slot_from(self.slot_defs@, name@, self.slot_defs@.len() as int) == -1);
        }
        SlotIndex(-1)
    }

    /// The store resource this instance owns.
    pub fn handle_id(&self) -> (r: usize)
        ensures
            r == self.id(),
    {
        self.handle.id()
    }

    /// The skeleton-level tint.
    pub fn color(&self) -> (r: Color)
        ensures
            r == self.color_spec(),
    {
        self.color
    }

    /// The skeleton's root position.
    pub fn position(&self) -> (r: (i32, i32))
        ensures
            r == self.position_spec(),
    {
        self.position
    }

    /// The skeleton's root scale, fixed-point.
    pub fn scale(&self) -> (r: (i32, i32))
        ensures
            r == self.scale_spec(),
    {
        self.scale
    }

    /// Consumes the instance, releasing its reference. If it was the
    /// last reference, the skeleton resource is disposed and logged.
    pub fn release(self, store: &mut HandleStore)
        requires
            old(store).wf(),
            self.valid(*old(store)),
        ensures
            final(store).wf(),
            final(store).n() == old(store).n(),
            final(store).kinds_view() == old(store).kinds_view(),
            final(store).counts_view()[self.id()] as int == old(store).counts_view()[self.id()]
                - 1,
            old(store).log_view().is_prefix_of(final(store).log_view()),
            old(store).counts_view()[self.id()] == 1 ==> final(store).disposed(self.id())
                && final(store).log_view()[old(store).log_view().len() as int] == self.id(),
    {
        store.release(self.handle);
    }
}

/// Crate-internal bridge: the instance's spec views are its fields.
pub(crate) proof fn skeleton_views_are_fields(s: Skeleton)
    ensures
        s.bone_defs_view() == s.bone_defs@,
        s.slot_defs_view() == s.slot_defs@,
        s.locals_view() == s.locals@,
        s.worlds_view() == s.worlds@,
        s.slot_colors_view() == s.slot_colors@,
        s.draw_order_view() == s.draw_order@,
        s.color_spec() == s.color,
        s.position_spec() == s.position,
        s.scale_spec() == s.scale,
        s.time_spec() == s.time as int,
        s.id() == s.handle.id_spec(),
{
}

/// The view `v` is a faithful snapshot of slot `idx` of `s`.
pub open spec fn is_slot_view(s: Skeleton, idx: int, v: Slot) -> bool {
    &&& v.index_spec() == idx
    &&& v.color_spec() == s.slot_colors_view()[idx]
    &&& v.blend_mode_spec() == s.slot_defs_view()[idx].blend_mode
    &&& v.bone_spec().index == s.slot_defs_view()[idx].bone
    &&& v.bone_spec().local == s.locals_view()[s.slot_defs_view()[idx].bone as int]
    &&& v.bone_spec().world == s.worlds_view()[s.slot_defs_view()[idx].bone as int]
    &&& (v.attachment_spec() is Some <==> s.slot_defs_view()[idx].attachment is Some)
    &&& (v.attachment_spec() is Some ==> {
        let a = v.attachment_spec().unwrap();
        &&& a.kind_spec() == AttachmentType::Region
        &&& region_desc_eq(a.region_spec(), s.slot_defs_view()[idx].attachment.unwrap())
        &&& a.region_spec().texture_id == s.slot_defs_view()[idx].attachment.unwrap().texture_id
    })
}

/// `post` is `pre` with every world transform recomputed from `pre`'s
/// local transforms down the bone hierarchy, and nothing else changed.
pub open spec fn world_transformed(pre: Skeleton, post: Skeleton) -> bool {
    &&& post.bone_defs_view() == pre.bone_defs_view()
    &&& post.slot_defs_view() == pre.slot_defs_view()
    &&& post.locals_view() == pre.locals_view()
    &&& post.slot_colors_view() == pre.slot_colors_view()
    &&& post.draw_order_view() == pre.draw_order_view()
    &&& post.color_spec() == pre.color_spec()
    &&& post.position_spec() == pre.position_spec()
    &&& post.scale_spec() == pre.scale_spec()
    &&& post.time_spec() == pre.time_spec()
    &&& post.id() == pre.id()
    &&& post.worlds_view().len() == pre.worlds_view().len()
    &&& post.worlds_view().len() == pre.bone_defs_view().len()
    &&& (forall|i: int|
        0 <= i < post.worlds_view().len() ==> #[trigger] post.worlds_view()[i] == world_of(
            pre.bone_defs_view(),
            pre.locals_view(),
            i,
        ))
}

/// LAW: world-transform propagation is idempotent given no intervening
/// pose mutation. Running the pass twice in a row yields the same world
/// transforms both times.
pub proof fn lemma_update_world_transform_idempotent(s0: Skeleton, s1: Skeleton, s2: Skeleton)
    requires
        world_transformed(s0, s1),
        world_transformed(s1, s2),
    ensures
        s2.worlds_view() == s1.worlds_view(),
{
    assert(s2.worlds_view() =~= s1.worlds_view());
}

/// Index of the first bone at or after `j` named `name`, or -1.
pub open spec fn find_bone_from(defs: Seq<BoneDef>, name: Seq<char>, j: int) -> int
    decreases defs.len() - j,
{
    if j < 0 || j >= defs.len() {
        -1
    } else if defs[j].name@ == name {
        j
    } else {
        find_bone_from(defs, name, j + 1)
    }
}

/// Index of the first slot at or after `j` named `name`, or -1.
pub open spec fn find_slot_from(defs: Seq<SlotDef>, name: Seq<char>, j: int) -> int
    decreases defs.len() - j,
{
    if j < 0 || j >= defs.len() {
        -1
    } else if defs[j].name@ == name {
        j
    } else {
        find_slot_from(defs, name, j + 1)
    }
}

} // verus!
