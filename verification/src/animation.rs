//! Animations and per-track playback.
//!
//! An animation is a named set of bone timelines; sampling a timeline at
//! a time yields the pose of the last key not after that time. An
//! [`AnimationStateData`] is the mixing-duration table derived from one
//! skeleton definition; an [`AnimationState`] holds the live playback
//! cursors and writes sampled (and, during a transition, blended) poses
//! onto a skeleton instance.

use vstd::prelude::*;
use crate::handles::{occ, HandleStore, ResourceKind, SharedHandle};
use crate::pose::{identity_pose, sat32, BonePose};
use crate::skeleton::{skeleton_views_are_fields, Skeleton, SkeletonData};

verus! {

/// An animation-track number. Tracks compose in ascending order: a
/// higher track's writes land after a lower track's.
pub struct TrackIndex(pub u32);

impl TrackIndex {
    /// The first track.
    pub fn zero() -> (r: TrackIndex)
        ensures
            r.0 == 0,
    {
        TrackIndex(0)
    }
}

impl Default for TrackIndex {
    /// The first track.
    fn default() -> (r: TrackIndex)
        ensures
            r.0 == 0,
    {
        TrackIndex(0)
    }
}

/// One key of a bone timeline: from `time` on, the bone's local
/// transform is `pose` (step interpolation).
#[derive(Debug, Copy, Clone, PartialEq, Eq, Structural)]
pub struct TimelineKey {
    /// Key time in ticks.
    pub time: u32,
    /// The local transform the key establishes.
    pub pose: BonePose,
}

/// The keys an animation has for one bone.
pub struct BoneTimeline {
    /// Index of the bone the keys pose.
    pub bone: usize,
    /// The keys, in authored order.
    pub keys: Vec<TimelineKey>,
}

/// The two timelines agree on bone and keys.
pub open spec fn timeline_eq(a: BoneTimeline, b: BoneTimeline) -> bool {
    &&& a.bone == b.bone
    &&& a.keys@ == b.keys@
}

/// A named animation: its duration and its bone timelines.
pub struct AnimationDef {
    /// The animation's name, unique within its skeleton definition.
    pub name: String,
    /// Duration in ticks.
    pub duration: u32,
    /// One entry per posed bone.
    pub timelines: Vec<BoneTimeline>,
}

/// The two definitions agree on name, duration and timelines.
pub open spec fn anim_eq(a: AnimationDef, b: AnimationDef) -> bool {
    &&& a.name@ == b.name@
    &&& a.duration == b.duration
    &&& a.timelines@.len() == b.timelines@.len()
    &&& forall|t: int|
        0 <= t < a.timelines@.len() ==> timeline_eq(#[trigger] a.timelines@[t], b.timelines@[t])
}

/// The two animation lists agree element by element.
pub open spec fn anims_eq(a: Seq<AnimationDef>, b: Seq<AnimationDef>) -> bool {
    &&& a.len() == b.len()
    &&& forall|i: int| 0 <= i < a.len() ==> anim_eq(#[trigger] a[i], b[i])
}

/// Every timeline of every animation poses a bone that exists.
pub open spec fn animations_wf(anims: Seq<AnimationDef>, nbones: int) -> bool {
    forall|a: int, t: int|
        0 <= a < anims.len() && 0 <= t < anims[a].timelines@.len() ==> (#[trigger] anims[a].timelines@[t]).bone
            < nbones
}

/// The pose a key list yields at time `t`: the pose of the last key not
/// after `t`; before the first key, the first key's pose; with no keys,
/// the identity.
pub open spec fn sample_keys(keys: Seq<TimelineKey>, t: int) -> BonePose
    decreases keys.len(),
{
    if keys.len() == 0 {
        identity_pose()
    } else if keys.last().time <= t {
        keys.last().pose
    } else if keys.len() == 1 {
        keys[0].pose
    } else {
        sample_keys(keys.drop_last(), t)
    }
}

/// Samples a key list at time `t`.
pub fn sample_keys_at(keys: &Vec<TimelineKey>, t: u32) -> (r: BonePose)
    ensures
        r == sample_keys(keys@, t as int),
{
    let mut i: usize = keys.len();
    proof {
        assert(keys@.take(keys@.len() as int) =~= keys@);
    }
    while i > 0
        invariant
            i <= keys@.len(),
            sample_keys(keys@.take(i as int), t as int) == sample_keys(keys@, t as int),
            forall|k: int| i <= k < keys@.len() ==> (#[trigger] keys@[k]).time > t,
        decreases i,
    {
        proof {
            assert(keys@.take(i as int).last() == keys@[i - 1]);
            assert(keys@.take(i as int).drop_last() =~= keys@.take(i as int - 1));
        }
        if keys[i - 1].time <= t {
            return keys[i - 1].pose;
        }
        if i == 1 {
            return keys[0].pose;
        }
        i -= 1;
    }
    proof {
        assert(keys@.take(0) =~= Seq::<TimelineKey>::empty());
    }
    BonePose::identity()
}

/// A read view of one animation in a skeleton definition: its name and
/// duration.
pub struct Animation {
    /// The animation's name.
    pub name: String,
    /// Duration in ticks.
    pub duration: u32,
}

impl Animation {
    /// The animation's name.
    pub fn name(&self) -> (r: &String)
        ensures
            r@ == self.name@,
    {
        &self.name
    }

    /// Duration in ticks.
    pub fn duration(&self) -> (r: u32)
        ensures
            r == self.duration,
    {
        self.duration
    }
}

/// A copy of a key list, element by element.
pub(crate) fn copy_keys(v: &Vec<TimelineKey>) -> (r: Vec<TimelineKey>)
    ensures
        r@ == v@,
{
    let mut r: Vec<TimelineKey> = Vec::new();
    let mut j: usize = 0;
    while j < v.len()
        invariant
            j <= v@.len(),
            r@ == v@.take(j as int),
        decreases v@.len() - j,
    {
        r.push(v[j]);
        proof {
            assert(r@ =~= v@.take(j as int + 1));
        }
        j += 1;
    }
    proof {
        assert(v@.take(v@.len() as int) =~= v@);
    }
    r
}

impl BoneTimeline {
    /// A copy of this timeline.
    pub(crate) fn duplicate(&self) -> (r: BoneTimeline)
        ensures
            timeline_eq(r, *self),
    {
        BoneTimeline { bone: self.bone, keys: copy_keys(&self.keys) }
    }
}

impl AnimationDef {
    /// A copy of this animation definition.
    pub(crate) fn duplicate(&self) -> (r: AnimationDef)
        ensures
            anim_eq(r, *self),
    {
        let mut timelines: Vec<BoneTimeline> = Vec::new();
        let mut j: usize = 0;
        while j < self.timelines.len()
            invariant
                j <= self.timelines@.len(),
                timelines@.len() == j,
                forall|t: int|
                    0 <= t < j ==> timeline_eq(#[trigger] timelines@[t], self.timelines@[t]),
            decreases self.timelines@.len() - j,
        {
            timelines.push(self.timelines[j].duplicate());
            j += 1;
        }
        AnimationDef { name: self.name.clone(), duration: self.duration, timelines }
    }
}

/// A copy of an animation list, element by element.
pub(crate) fn copy_anims(v: &Vec<AnimationDef>) -> (r: Vec<AnimationDef>)
    ensures
        anims_eq(r@, v@),
{
    let mut r: Vec<AnimationDef> = Vec::new();
    let mut j: usize = 0;
    while j < v.len()
        invariant
            j <= v@.len(),
            r@.len() == j,
            forall|i: int| 0 <= i < j ==> anim_eq(#[trigger] r@[i], v@[i]),
        decreases v@.len() - j,
    {
        r.push(v[j].duplicate());
        j += 1;
    }
    r
}


/// Index of the first animation at or after `j` named `name`, or -1.
pub open spec fn find_anim_from(anims: Seq<AnimationDef>, name: Seq<char>, j: int) -> int
    decreases anims.len() - j,
{
    if j < 0 || j >= anims.len() {
        -1
    } else if anims[j].name@ == name {
        j
    } else {
        find_anim_from(anims, name, j + 1)
    }
}

/// One entry of the mixing-duration table: transitions on a track from
/// animation `from` to animation `to` blend over `duration` ticks.
#[derive(Debug, Copy, Clone, PartialEq, Eq, Structural)]
pub struct MixEntry {
    /// Index of the animation being left.
    pub from: usize,
    /// Index of the animation being entered.
    pub to: usize,
    /// Blend duration in ticks.
    pub duration: u32,
}

/// The configured mixing duration for a transition: that of the last
/// table entry for the pair, or 0 when the table has none.
pub open spec fn mix_duration_of(mixes: Seq<MixEntry>, from: int, to: int) -> int
    decreases mixes.len(),
{
    if mixes.len() == 0 {
        0
    } else if mixes.last().from == from && mixes.last().to == to {
        mixes.last().duration as int
    } else {
        mix_duration_of(mixes.drop_last(), from, to)
    }
}

/// The shared mixing-duration table between pairs of animations of one
/// skeleton definition: one store resource, a copy of the definition's
/// animations, and the table itself. It retains the definition.
pub struct AnimationStateData {
    pub(crate) handle: SharedHandle,
    pub(crate) animations: Vec<AnimationDef>,
    pub(crate) mixes: Vec<MixEntry>,
}

impl AnimationStateData {
    /// The store resource this table owns.
    pub closed spec fn id(self) -> int {
        self.handle.id_spec()
    }

    /// The animations of the owning definition.
    pub closed spec fn animations_view(self) -> Seq<AnimationDef> {
        self.animations@
    }

    /// The mixing-duration table.
    pub closed spec fn mixes_view(self) -> Seq<MixEntry> {
        self.mixes@
    }

    /// Every table entry names animations that exist.
    pub open spec fn wf(self) -> bool {
        forall|i: int|
            0 <= i < self.mixes_view().len() ==> (#[trigger] self.mixes_view()[i]).from
                < self.animations_view().len() && self.mixes_view()[i].to
                < self.animations_view().len()
    }

    /// The table holds a counted reference to a live resource.
    pub open spec fn valid(self, store: HandleStore) -> bool {
        &&& 0 <= self.id() < store.n()
        &&& store.live(self.id())
        &&& store.externals_view()[self.id()] >= 1
        &&& store.kinds_view()[self.id()] == ResourceKind::AnimationStateData
    }

    /// Creates a mixing table for `data`'s animations, retaining the
    /// definition: the definition cannot be disposed while the table
    /// lives.
    pub fn new(data: &SkeletonData, store: &mut HandleStore) -> (r: AnimationStateData)
        requires
            old(store).wf(),
            data.valid(*old(store)),
            old(store).counts_view()[data.id()] as int + 1 <= u32::MAX,
        ensures
            final(store).wf(),
            final(store).n() == old(store).n() + 1,
            final(store).kinds_view() == old(store).kinds_view().push(
                ResourceKind::AnimationStateData,
            ),
            final(store).log_view() == old(store).log_view(),
            final(store).counts_view()[data.id()] as int == old(store).counts_view()[data.id()]
                + 1,
            r.id() == old(store).n(),
            r.valid(*final(store)),
            r.wf(),
            anims_eq(r.animations_view(), data.animations_view()),
            r.mixes_view() == Seq::<MixEntry>::empty(),
    {
        let animations = copy_anims(data.animations_ref());
        let mut parents: Vec<usize> = Vec::new();
        parents.push(data.handle_id());
        let ghost ps = parents@;
        proof {
            assert(ps.drop_last() =~= Seq::<usize>::empty());
            assert(occ(ps, data.id()) == 1);
        }
        let handle = store.allocate_retaining(ResourceKind::AnimationStateData, parents);
        AnimationStateData { handle, animations, mixes: Vec::new() }
    }

    /// The store resource this table owns.
    pub fn handle_id(&self) -> (r: usize)
        ensures
            r == self.id(),
    {
        self.handle.id()
    }

    /// The configured mixing duration between two animations, 0 when
    /// none was set.
    pub fn get_mix(&self, from: usize, to: usize) -> (r: u32)
        ensures
            r as int == mix_duration_of(self.mixes_view(), from as int, to as int),
    {
        proof {
            assert(self.mixes@.take(self.mixes@.len() as int) =~= self.mixes@);
        }
        let mut j: usize = self.mixes.len();
        while j > 0
            invariant
                j <= self.mixes@.len(),
                mix_duration_of(self.mixes@.take(j as int), from as int, to as int)
                    == mix_duration_of(self.mixes@, from as int, to as int),
            decreases j,
        {
            proof {
                assert(self.mixes@.take(j as int).last() == self.mixes@[j - 1]);
                assert(self.mixes@.take(j as int).drop_last() =~= self.mixes@.take(j as int - 1));
            }
            let e = self.mixes[j - 1];
            if e.from == from && e.to == to {
                return e.duration;
            }
            j -= 1;
        }
        proof {
            assert(self.mixes@.take(0) =~= Seq::<MixEntry>::empty());
        }
        0
    }

    /// Sets the mixing duration between two animations, replacing the
    /// pair's entry if one exists.
    pub fn set_mix(&mut self, from: usize, to: usize, duration: u32)
        requires
            from < old(self).animations_view().len(),
            to < old(self).animations_view().len(),
            old(self).wf(),
        ensures
            final(self).wf(),
            final(self).animations_view() == old(self).animations_view(),
            final(self).id() == old(self).id(),
            mix_duration_of(final(self).mixes_view(), from as int, to as int) == duration,
            forall|f: int, t: int|
                !(f == from && t == to) ==> mix_duration_of(final(self).mixes_view(), f, t)
                    == mix_duration_of(old(self).mixes_view(), f, t),
    {
        let ghost pre = self.mixes@;
        self.mixes.push(MixEntry { from, to, duration });
        proof {
            assert(self.mixes@.drop_last() =~= pre);
            assert forall|i: int|
                0 <= i < self.mixes@.len() implies (#[trigger] self.mixes@[i]).from
                < self.animations@.len() && self.mixes@[i].to < self.animations@.len() by {
                if i < pre.len() {
                    assert((#[trigger] old(self).mixes_view()[i]).from < old(
                        self,
                    ).animations_view().len());
                    assert(old(self).mixes_view()[i].to < old(self).animations_view().len());
                }
            }
        }
    }

    /// Sets the mixing duration between two named animations. Returns
    /// false, changing nothing, when either name is unknown.
    pub fn set_mix_by_name(&mut self, from: &String, to: &String, duration: u32) -> (r: bool)
        requires
            old(self).wf(),
        ensures
            final(self).wf(),
            final(self).animations_view() == old(self).animations_view(),
            final(self).id() == old(self).id(),
            r <==> (find_anim_from(old(self).animations_view(), from@, 0) >= 0 && find_anim_from(
                old(self).animations_view(),
                to@,
                0,
            ) >= 0),
            r ==> mix_duration_of(
                final(self).mixes_view(),
                find_anim_from(old(self).animations_view(), from@, 0),
                find_anim_from(old(self).animations_view(), to@, 0),
            ) == duration,
            !r ==> final(self).mixes_view() == old(self).mixes_view(),
    {
        let fi = find_animation(&self.animations, from);
        let ti = find_animation(&self.animations, to);
        match (fi, ti) {
            (Option::Some(f), Option::Some(t)) => {
                self.set_mix(f, t, duration);
                true
            },
            _ => false,
        }
    }

    /// Consumes the table, releasing its reference. If it was the last,
    /// the table resource is disposed and its reference to the skeleton
    /// definition is given back.
    pub fn release(self, store: &mut HandleStore)
        requires
            old(store).wf(),
            self.valid(*old(store)),
        ensures
            final(store).wf(),
            final(store).n() == old(store).n(),
            final(store).kinds_view() == old(store).kinds_view(),
            final(store).counts_view()[self.id()] as int == old(store).counts_view()[self.id()]
                - 1,
            old(store).log_view().is_prefix_of(final(store).log_view()),
            old(store).counts_view()[self.id()] == 1 ==> final(store).disposed(self.id())
                && final(store).log_view()[old(store).log_view().len() as int] == self.id(),
    {
        store.release(self.handle);
    }
}






/// Index of the first animation named `name`, if any.
pub(crate) fn find_animation(anims: &Vec<AnimationDef>, name: &String) -> (r: Option<usize>)
    ensures
        r is Some <==> find_anim_from(anims@, name@, 0) >= 0,
        r is Some ==> r.unwrap() as int == find_anim_from(anims@, name@, 0) && r.unwrap()
            < anims@.len(),
{
    let mut j: usize = 0;
    while j < anims.len()
        invariant
            j <= anims@.len(),
            find_anim_from(anims@, name@, 0) == find_anim_from(anims@, name@, j as int),
        decreases anims@.len() - j,
    {
        if anims[j].name == *name {
            proof {
                assert(find_anim_from(anims@, name@, j as int) == j as int);
            }
            return Option::Some(j);
        }
        proof {
            assert(find_anim_from(anims@, name@, j as int) == find_anim_from(
                anims@,
                name@,
                j as int + 1,
            ));
        }
        j += 1;
    }
    proof {
        assert(find_anim_from(anims@, name@, anims@.len() as int) == -1);
    }
    Option::None
}


/// The mixing-from state of a track during a transition: the animation
/// being left, its frozen clock, and how far the blend has progressed.
#[derive(Debug, Copy, Clone, PartialEq, Eq, Structural)]
pub struct PrevEntry {
    /// Index of the animation being left.
    pub animation: usize,
    /// The left animation's clock, frozen at the transition.
    pub time: u64,
    /// Ticks since the transition began; always below `mix_duration`.
    pub mix_elapsed: u32,
    /// The configured blend duration; always positive.
    pub mix_duration: u32,
}

/// One live playback cursor: the active animation, its clock, whether
/// it loops, and the transition being blended away from, if any.
#[derive(Debug, Copy, Clone, PartialEq, Eq, Structural)]
pub struct TrackEntry {
    /// Index of the active animation.
    pub animation: usize,
    /// The track's clock in ticks.
    pub time: u64,
    /// Looping tracks wrap their clock; non-looping tracks clamp at the
    /// animation's duration and keep contributing their final pose.
    pub looping: bool,
    /// The transition being blended away from, if any.
    pub previous: Option<PrevEntry>,
}

/// The entry's indexes and clocks are in range for `anims`.
pub open spec fn entry_wf(e: TrackEntry, anims: Seq<AnimationDef>) -> bool {
    &&& e.animation < anims.len()
    &&& e.time <= u32::MAX
    &&& (e.previous is Some ==> {
        let p = e.previous.unwrap();
        &&& p.animation < anims.len()
        &&& p.time <= u32::MAX
        &&& p.mix_duration > 0
        &&& p.mix_elapsed < p.mix_duration
    })
}

/// Every live track entry is in range for `anims`.
pub open spec fn tracks_wf(tracks: Seq<Option<TrackEntry>>, anims: Seq<AnimationDef>) -> bool {
    forall|t: int|
        0 <= t < tracks.len() ==> ((#[trigger] tracks[t]) is Some ==> entry_wf(
            tracks[t].unwrap(),
            anims,
        ))
}

/// What advancing one live track by `delta` ticks yields: looping
/// tracks wrap their clock modulo the animation's duration, non-looping
/// tracks clamp at it; a transition whose blend completes is dropped.
pub open spec fn advanced_entry(e: TrackEntry, anims: Seq<AnimationDef>, delta: int) -> TrackEntry {
    let dur = anims[e.animation as int].duration as int;
    let t2: int = if e.looping {
        if dur > 0 {
            (e.time + delta) % dur
        } else {
            0
        }
    } else {
        if e.time + delta <= dur {
            e.time + delta
        } else {
            dur
        }
    };
    let prev2: Option<PrevEntry> = match e.previous {
        Option::None => Option::None,
        Option::Some(p) => if p.mix_elapsed + delta >= p.mix_duration {
            Option::None
        } else {
            Option::Some(
                PrevEntry {
                    animation: p.animation,
                    time: p.time,
                    mix_elapsed: (p.mix_elapsed + delta) as u32,
                    mix_duration: p.mix_duration,
                },
            )
        },
    };
    TrackEntry { animation: e.animation, time: t2 as u64, looping: e.looping, previous: prev2 }
}

/// LAW: advancing a non-looping track past its animation's duration
/// clamps the clock at the duration.
pub proof fn lemma_nonlooping_clamps(e: TrackEntry, anims: Seq<AnimationDef>, delta: int)
    requires
        !e.looping,
        0 <= e.animation < anims.len(),
        delta >= 0,
        e.time + delta >= anims[e.animation as int].duration,
    ensures
        advanced_entry(e, anims, delta).time == anims[e.animation as int].duration,
{
}

/// LAW: a non-looping track advanced past its animation's duration
/// samples every timeline exactly as at the duration itself — the pose
/// at duration-plus-anything equals the pose at the duration.
pub proof fn lemma_nonlooping_pose_clamps(
    e: TrackEntry,
    anims: Seq<AnimationDef>,
    delta: int,
    keys: Seq<TimelineKey>,
)
    requires
        !e.looping,
        0 <= e.animation < anims.len(),
        delta >= 0,
        e.time + delta >= anims[e.animation as int].duration,
    ensures
        sample_keys(keys, advanced_entry(e, anims, delta).time as int) == sample_keys(
            keys,
            anims[e.animation as int].duration as int,
        ),
{
    lemma_nonlooping_clamps(e, anims, delta);
}

/// Truncating division toward zero by a positive divisor.
pub open spec fn idiv_trunc(x: int, d: int) -> int {
    if d <= 0 {
        0
    } else if x >= 0 {
        x / d
    } else {
        -((-x) / d)
    }
}

/// One component of the linear blend from `a` toward `b` by the
/// fraction `e / m`, saturated into 32 bits.
pub open spec fn lerp_comp(a: int, b: int, e: int, m: int) -> int {
    sat32(a + idiv_trunc((b - a) * e, m))
}

/// Linear blend from pose `a` toward pose `b` by the fraction `e / m`.
pub open spec fn blend_pose(a: BonePose, b: BonePose, e: int, m: int) -> BonePose {
    BonePose {
        a: lerp_comp(a.a as int, b.a as int, e, m) as i32,
        b: lerp_comp(a.b as int, b.b as int, e, m) as i32,
        c: lerp_comp(a.c as int, b.c as int, e, m) as i32,
        d: lerp_comp(a.d as int, b.d as int, e, m) as i32,
        x: lerp_comp(a.x as int, b.x as int, e, m) as i32,
        y: lerp_comp(a.y as int, b.y as int, e, m) as i32,
    }
}

proof fn lemma_lerp_div_bound(mag: int, e: int, m: int)
    by (nonlinear_arith)
    requires
        0 <= mag <= 0x100000000,
        0 <= e < m,
        m <= 0x100000000,
    ensures
        0 <= mag * e <= 0x10000000000000000,
        0 <= (mag * e) / m <= mag,
{
}

proof fn lemma_neg_mul(x: int, e: int)
    by (nonlinear_arith)
    ensures
        (-x) * e == -(x * e),
{
}

fn lerp_comp_exec(a: i32, b: i32, e: u32, m: u32) -> (r: i32)
    requires
        0 < m,
        e < m,
    ensures
        r as int == lerp_comp(a as int, b as int, e as int, m as int),
{
    let diff: i64 = (b as i64) - (a as i64);
    if diff >= 0 {
        let mag: u64 = diff as u64;
        proof {
            lemma_lerp_div_bound(mag as int, e as int, m as int);
        }
        let prod: u128 = (mag as u128) * (e as u128);
        let q: u128 = prod / (m as u128);
        crate::pose::sat32_exec((a as i64) + (q as i64))
    } else {
        let mag: u64 = (-diff) as u64;
        proof {
            lemma_lerp_div_bound(mag as int, e as int, m as int);
            lemma_neg_mul(mag as int, e as int);
        }
        let prod: u128 = (mag as u128) * (e as u128);
        let q: u128 = prod / (m as u128);
        crate::pose::sat32_exec((a as i64) - (q as i64))
    }
}

/// The blend from pose `a` toward pose `b` by the fraction `e / m`.
fn blend_pose_exec(a: &BonePose, b: &BonePose, e: u32, m: u32) -> (r: BonePose)
    requires
        0 < m,
        e < m,
    ensures
        r == blend_pose(*a, *b, e as int, m as int),
{
    BonePose {
        a: lerp_comp_exec(a.a, b.a, e, m),
        b: lerp_comp_exec(a.b, b.b, e, m),
        c: lerp_comp_exec(a.c, b.c, e, m),
        d: lerp_comp_exec(a.d, b.d, e, m),
        x: lerp_comp_exec(a.x, b.x, e, m),
        y: lerp_comp_exec(a.y, b.y, e, m),
    }
}

/// Index of the first timeline at or after `j` posing `bone`, or -1.
pub open spec fn find_timeline_from(tls: Seq<BoneTimeline>, bone: int, j: int) -> int
    decreases tls.len() - j,
{
    if j < 0 || j >= tls.len() {
        -1
    } else if tls[j].bone == bone {
        j
    } else {
        find_timeline_from(tls, bone, j + 1)
    }
}

/// Index of the first timeline posing `bone`, if any.
fn find_timeline(tls: &Vec<BoneTimeline>, bone: usize) -> (r: Option<usize>)
    ensures
        r is Some <==> find_timeline_from(tls@, bone as int, 0) >= 0,
        r is Some ==> r.unwrap() as int == find_timeline_from(tls@, bone as int, 0) && r.unwrap()
            < tls@.len(),
{
    let mut j: usize = 0;
    while j < tls.len()
        invariant
            j <= tls@.len(),
            find_timeline_from(tls@, bone as int, 0) == find_timeline_from(
                tls@,
                bone as int,
                j as int,
            ),
        decreases tls@.len() - j,
    {
        if tls[j].bone == bone {
            proof {
                assert(find_timeline_from(tls@, bone as int, j as int) == j as int);
            }
            return Option::Some(j);
        }
        proof {
            assert(find_timeline_from(tls@, bone as int, j as int) == find_timeline_from(
                tls@,
                bone as int,
                j as int + 1,
            ));
        }
        j += 1;
    }
    proof {
        assert(find_timeline_from(tls@, bone as int, tls@.len() as int) == -1);
    }
    Option::None
}

/// What one live track writes to `bone`: nothing when the active
/// animation has no timeline for it; the sampled pose otherwise,
/// blended from the previous animation's sample during a transition.
pub open spec fn track_pose(e: TrackEntry, anims: Seq<AnimationDef>, bone: int) -> Option<
    BonePose,
> {
    let a = anims[e.animation as int];
    let ti = find_timeline_from(a.timelines@, bone, 0);
    if ti < 0 {
        Option::None
    } else {
        let cur = sample_keys(a.timelines@[ti].keys@, e.time as int);
        match e.previous {
            Option::None => Option::Some(cur),
            Option::Some(p) => {
                let pa = anims[p.animation as int];
                let pti = find_timeline_from(pa.timelines@, bone, 0);
                let prev = if pti >= 0 {
                    sample_keys(pa.timelines@[pti].keys@, p.time as int)
                } else {
                    cur
                };
                Option::Some(blend_pose(prev, cur, p.mix_elapsed as int, p.mix_duration as int))
            },
        }
    }
}

/// What the whole track list writes to `bone`, considering the first
/// `upto` tracks: tracks compose by override, a higher track's write
/// landing after a lower track's; a bone no track poses keeps `base`.
pub open spec fn applied_local(
    tracks: Seq<Option<TrackEntry>>,
    anims: Seq<AnimationDef>,
    base: BonePose,
    bone: int,
    upto: int,
) -> BonePose
    decreases upto,
{
    if upto <= 0 {
        base
    } else {
        let prior = applied_local(tracks, anims, base, bone, upto - 1);
        match tracks[upto - 1] {
            Option::None => prior,
            Option::Some(e) => match track_pose(e, anims, bone) {
                Option::None => prior,
                Option::Some(p) => p,
            },
        }
    }
}

/// Some track is live.
pub open spec fn any_active(tracks: Seq<Option<TrackEntry>>) -> bool {
    exists|t: int| 0 <= t < tracks.len() && (#[trigger] tracks[t]) is Some
}

/// A copy of a mixing table, element by element.
fn copy_mixes(v: &Vec<MixEntry>) -> (r: Vec<MixEntry>)
    ensures
        r@ == v@,
{
    let mut r: Vec<MixEntry> = Vec::new();
    let mut j: usize = 0;
    while j < v.len()
        invariant
            j <= v@.len(),
            r@ == v@.take(j as int),
        decreases v@.len() - j,
    {
        r.push(v[j]);
        proof {
            assert(r@ =~= v@.take(j as int + 1));
        }
        j += 1;
    }
    proof {
        assert(v@.take(v@.len() as int) =~= v@);
    }
    r
}

/// The live per-track playback state derived from one mixing table:
/// one store resource, copies of the animations and the table, and the
/// playback cursors. It retains the mixing table.
pub struct AnimationState {
    pub(crate) handle: SharedHandle,
    pub(crate) animations: Vec<AnimationDef>,
    pub(crate) mixes: Vec<MixEntry>,
    pub(crate) tracks: Vec<Option<TrackEntry>>,
}

impl AnimationState {
    /// The store resource this state owns.
    pub closed spec fn id(self) -> int {
        self.handle.id_spec()
    }

    /// The animations of the owning definition.
    pub closed spec fn animations_view(self) -> Seq<AnimationDef> {
        self.animations@
    }

    /// The mixing-duration table, as copied at creation.
    pub closed spec fn mixes_view(self) -> Seq<MixEntry> {
        self.mixes@
    }

    /// The playback cursors, by track index.
    pub closed spec fn tracks_view(self) -> Seq<Option<TrackEntry>> {
        self.tracks@
    }

    /// Every live track entry is in range.
    pub open spec fn wf(self) -> bool {
        tracks_wf(self.tracks_view(), self.animations_view())
    }

    /// The state holds a counted reference to a live resource.
    pub open spec fn valid(self, store: HandleStore) -> bool {
        &&& 0 <= self.id() < store.n()
        &&& store.live(self.id())
        &&& store.externals_view()[self.id()] >= 1
        &&& store.kinds_view()[self.id()] == ResourceKind::AnimationState
    }

    /// Creates a playback state over `data`'s animations and mixing
    /// table, retaining the table: it cannot be disposed while the
    /// state lives.
    pub fn new(data: &AnimationStateData, store: &mut HandleStore) -> (r: AnimationState)
        requires
            old(store).wf(),
            data.valid(*old(store)),
            old(store).counts_view()[data.id()] as int + 1 <= u32::MAX,
        ensures
            final(store).wf(),
            final(store).n() == old(store).n() + 1,
            final(store).kinds_view() == old(store).kinds_view().push(
                ResourceKind::AnimationState,
            ),
            final(store).log_view() == old(store).log_view(),
            final(store).counts_view()[data.id()] as int == old(store).counts_view()[data.id()]
                + 1,
            r.id() == old(store).n(),
            r.valid(*final(store)),
            r.wf(),
            anims_eq(r.animations_view(), data.animations_view()),
            r.mixes_view() == data.mixes_view(),
            r.tracks_view() == Seq::<Option<TrackEntry>>::empty(),
    {
        let animations = copy_anims(&data.animations);
        let mixes = copy_mixes(&data.mixes);
        let mut parents: Vec<usize> = Vec::new();
        parents.push(data.handle.id());
        let ghost ps = parents@;
        proof {
            assert(ps.drop_last() =~= Seq::<usize>::empty());
            assert(occ(ps, data.id()) == 1);
        }
        let handle = store.allocate_retaining(ResourceKind::AnimationState, parents);
        AnimationState { handle, animations, mixes, tracks: Vec::new() }
    }

    /// The entry that `set` leaves on a track: the named animation from
    /// its start, blending away from whatever was playing when the
    /// table configures a positive mixing duration for the transition.
    pub open spec fn entry_after_set(
        self,
        ai: int,
        was: Option<TrackEntry>,
        do_loop: bool,
    ) -> TrackEntry {
        let prev: Option<PrevEntry> = match was {
            Option::None => Option::None,
            Option::Some(e) => {
                let m = mix_duration_of(self.mixes_view(), e.animation as int, ai);
                if m > 0 {
                    Option::Some(
                        PrevEntry {
                            animation: e.animation,
                            time: e.time,
                            mix_elapsed: 0,
                            mix_duration: m as u32,
                        },
                    )
                } else {
                    Option::None
                }
            },
        };
        TrackEntry { animation: ai as usize, time: 0, looping: do_loop, previous: prev }
    }

    /// The store resource this state owns.
    pub fn handle_id(&self) -> (r: usize)
        ensures
            r == self.id(),
    {
        self.handle.id()
    }

    /// Assigns the animation named `animation_name` to the given track,
    /// replacing whatever was playing; a configured mixing duration
    /// starts a blend from the replaced animation. The name must exist
    /// in the owning definition — an unknown name is a programmer
    /// error, not a runtime condition.
    pub fn set_by_name(&mut self, animation_name: &String, track_index: TrackIndex, do_loop: bool)
        requires
            old(self).wf(),
            find_anim_from(old(self).animations_view(), animation_name@, 0) >= 0,
            track_index.0 < 0x7fffffff,
        ensures
            final(self).wf(),
            final(self).animations_view() == old(self).animations_view(),
            final(self).mixes_view() == old(self).mixes_view(),
            final(self).id() == old(self).id(),
            final(self).tracks_view().len() == (if old(self).tracks_view().len()
                > track_index.0 + 1 {
                old(self).tracks_view().len() as int
            } else {
                track_index.0 + 1
            }),
            forall|t: int|
                0 <= t < final(self).tracks_view().len() && t != track_index.0
                    ==> #[trigger] final(self).tracks_view()[t] == (if t < old(
                    self,
                ).tracks_view().len() {
                    old(self).tracks_view()[t]
                } else {
                    Option::<TrackEntry>::None
                }),
            final(self).tracks_view()[track_index.0 as int] == Option::Some(
                old(self).entry_after_set(
                    find_anim_from(old(self).animations_view(), animation_name@, 0),
                    if track_index.0 < old(self).tracks_view().len() {
                        old(self).tracks_view()[track_index.0 as int]
                    } else {
                        Option::<TrackEntry>::None
                    },
                    do_loop,
                ),
            ),
    {
        let ai = match find_animation(&self.animations, animation_name) {
            Option::Some(j) => j,
            Option::None => {
                proof {
                    assert(false);
                }
                0
            },
        };
        let idx = track_index.0 as usize;
        while self.tracks.len() <= idx
            invariant
                idx < 0x7fffffff,
                self.animations@ == old(self).animations@,
                self.mixes@ == old(self).mixes@,
                self.handle == old(self).handle,
                self.tracks@.len() >= old(self).tracks@.len(),
                self.tracks@.len() <= (if old(self).tracks@.len() > idx {
                    old(self).tracks@.len() as int
                } else {
                    idx + 1
                }),
                forall|t: int|
                    0 <= t < self.tracks@.len() ==> #[trigger] self.tracks@[t] == (if t < old(
                        self,
                    ).tracks@.len() {
                        old(self).tracks@[t]
                    } else {
                        Option::<TrackEntry>::None
                    }),
            decreases idx + 1 - self.tracks@.len(),
        {
            self.tracks.push(Option::None);
        }
        let was = self.tracks[idx];
        let previous: Option<PrevEntry> = match was {
            Option::None => Option::None,
            Option::Some(e) => {
                let m = mix_lookup(&self.mixes, e.animation, ai);
                if m > 0 {
                    Option::Some(
                        PrevEntry {
                            animation: e.animation,
                            time: e.time,
                            mix_elapsed: 0,
                            mix_duration: m,
                        },
                    )
                } else {
                    Option::None
                }
            },
        };
        self.tracks[idx] = Option::Some(
            TrackEntry { animation: ai, time: 0, looping: do_loop, previous },
        );
    }

    /// Assigns `animation` (a view from the owning definition) to the
    /// given track; as `set_by_name`, by the animation's name.
    pub fn set(&mut self, animation: &Animation, track_index: TrackIndex, do_loop: bool)
        requires
            old(self).wf(),
            find_anim_from(old(self).animations_view(), animation.name@, 0) >= 0,
            track_index.0 < 0x7fffffff,
        ensures
            final(self).wf(),
            final(self).animations_view() == old(self).animations_view(),
            final(self).mixes_view() == old(self).mixes_view(),
            final(self).id() == old(self).id(),
            final(self).tracks_view()[track_index.0 as int] == Option::Some(
                old(self).entry_after_set(
                    find_anim_from(old(self).animations_view(), animation.name@, 0),
                    if track_index.0 < old(self).tracks_view().len() {
                        old(self).tracks_view()[track_index.0 as int]
                    } else {
                        Option::<TrackEntry>::None
                    },
                    do_loop,
                ),
            ),
    {
        self.set_by_name(&animation.name, track_index, do_loop);
    }

    /// The live entry of the given track, if any; out-of-range tracks
    /// are empty.
    pub fn track(&self, track: TrackIndex) -> (r: Option<TrackEntry>)
        ensures
            r == (if track.0 < self.tracks_view().len() {
                self.tracks_view()[track.0 as int]
            } else {
                Option::<TrackEntry>::None
            }),
    {
        let idx = track.0 as usize;
        if idx < self.tracks.len() {
            self.tracks[idx]
        } else {
            Option::None
        }
    }

    /// Empties the given track; out-of-range tracks are already empty.
    pub fn clear_track(&mut self, track: TrackIndex)
        ensures
            final(self).animations_view() == old(self).animations_view(),
            final(self).mixes_view() == old(self).mixes_view(),
            final(self).id() == old(self).id(),
            final(self).tracks_view() == (if track.0 < old(self).tracks_view().len() {
                old(self).tracks_view().update(track.0 as int, Option::<TrackEntry>::None)
            } else {
                old(self).tracks_view()
            }),
            old(self).wf() ==> final(self).wf(),
    {
        let idx = track.0 as usize;
        if idx < self.tracks.len() {
            self.tracks[idx] = Option::None;
        }
    }

    /// Empties every track.
    pub fn clear(&mut self)
        ensures
            final(self).animations_view() == old(self).animations_view(),
            final(self).mixes_view() == old(self).mixes_view(),
            final(self).id() == old(self).id(),
            final(self).tracks_view().len() == old(self).tracks_view().len(),
            forall|t: int|
                0 <= t < final(self).tracks_view().len() ==> #[trigger] final(self).tracks_view()[t] is None,
            final(self).wf(),
    {
        let n = self.tracks.len();
        let mut i: usize = 0;
        while i < n
            invariant
                n == self.tracks@.len(),
                i <= n,
                self.animations@ == old(self).animations@,
                self.mixes@ == old(self).mixes@,
                self.handle == old(self).handle,
                forall|t: int| 0 <= t < i ==> #[trigger] self.tracks@[t] is None,
            decreases n - i,
        {
            self.tracks[i] = Option::None;
            i += 1;
        }
    }

    /// Advances every live track's clock by `delta` ticks: looping
    /// tracks wrap modulo their animation's duration, non-looping
    /// tracks clamp at it and remain finished, still contributing their
    /// final pose; transitions progress and complete.
    pub fn update(&mut self, delta: u32)
        requires
            old(self).wf(),
        ensures
            final(self).wf(),
            final(self).animations_view() == old(self).animations_view(),
            final(self).mixes_view() == old(self).mixes_view(),
            final(self).id() == old(self).id(),
            final(self).tracks_view().len() == old(self).tracks_view().len(),
            forall|t: int|
                0 <= t < final(self).tracks_view().len() ==> #[trigger] final(self).tracks_view()[t] == (match old(self).tracks_view()[t] {
                    Option::None => Option::<TrackEntry>::None,
                    Option::Some(e) => Option::Some(
                        advanced_entry(e, old(self).animations_view(), delta as int),
                    ),
                }),
    {
        let n = self.tracks.len();
        let mut t: usize = 0;
        while t < n
            invariant
                old(self).wf(),
                n == self.tracks@.len(),
                t <= n,
                self.animations@ == old(self).animations@,
                self.mixes@ == old(self).mixes@,
                self.handle == old(self).handle,
                self.tracks@.len() == old(self).tracks@.len(),
                forall|k: int|
                    t <= k < n ==> #[trigger] self.tracks@[k] == old(self).tracks@[k],
                forall|k: int|
                    0 <= k < t ==> #[trigger] self.tracks@[k] == (match old(self).tracks@[k] {
                        Option::None => Option::<TrackEntry>::None,
                        Option::Some(e) => Option::Some(
                            advanced_entry(e, old(self).animations@, delta as int),
                        ),
                    }),
            decreases n - t,
        {
            match self.tracks[t] {
                Option::None => {},
                Option::Some(e) => {
                    let dur = self.animations[e.animation].duration;
                    let raw: u64 = e.time + (delta as u64);
                    let time2: u64 = if e.looping {
                        if dur > 0 {
                            raw % (dur as u64)
                        } else {
                            0
                        }
                    } else {
                        if raw <= dur as u64 {
                            raw
                        } else {
                            dur as u64
                        }
                    };
                    let previous: Option<PrevEntry> = match e.previous {
                        Option::None => Option::None,
                        Option::Some(p) => {
                            let el: u64 = (p.mix_elapsed as u64) + (delta as u64);
                            if el >= p.mix_duration as u64 {
                                Option::None
                            } else {
                                Option::Some(
                                    PrevEntry {
                                        animation: p.animation,
                                        time: p.time,
                                        mix_elapsed: el as u32,
                                        mix_duration: p.mix_duration,
                                    },
                                )
                            }
                        },
                    };
                    self.tracks[t] = Option::Some(
                        TrackEntry {
                            animation: e.animation,
                            time: time2,
                            looping: e.looping,
                            previous,
                        },
                    );
                },
            }
            t += 1;
        }
    }

    /// What one live track writes to `bone`, as executable code.
    fn track_pose_exec(&self, e: &TrackEntry, bone: usize) -> (r: Option<BonePose>)
        requires
            entry_wf(*e, self.animations_view()),
        ensures
            r == track_pose(*e, self.animations_view(), bone as int),
    {
        let a = &self.animations[e.animation];
        let ti = match find_timeline(&a.timelines, bone) {
            Option::None => {
                return Option::None;
            },
            Option::Some(ti) => ti,
        };
        let cur = sample_keys_at(&a.timelines[ti].keys, (e.time as u32));
        match e.previous {
            Option::None => Option::Some(cur),
            Option::Some(p) => {
                let pa = &self.animations[p.animation];
                let prev = match find_timeline(&pa.timelines, bone) {
                    Option::Some(pti) => sample_keys_at(&pa.timelines[pti].keys, (p.time as u32)),
                    Option::None => cur,
                };
                Option::Some(blend_pose_exec(&prev, &cur, p.mix_elapsed, p.mix_duration))
            },
        }
    }

    /// Samples every live track at its current clock and writes the
    /// resulting local transforms into the skeleton's bones, lower
    /// tracks first so that a higher track's writes win; during a
    /// transition the written pose blends from the previous animation's
    /// sample. Returns whether any track was live.
    pub fn apply(&self, skeleton: &mut Skeleton) -> (r: bool)
        requires
            self.wf(),
            old(skeleton).wf(),
        ensures
            final(skeleton).wf(),
            final(skeleton).bone_defs_view() == old(skeleton).bone_defs_view(),
            final(skeleton).slot_defs_view() == old(skeleton).slot_defs_view(),
            final(skeleton).worlds_view() == old(skeleton).worlds_view(),
            final(skeleton).slot_colors_view() == old(skeleton).slot_colors_view(),
            final(skeleton).draw_order_view() == old(skeleton).draw_order_view(),
            final(skeleton).color_spec() == old(skeleton).color_spec(),
            final(skeleton).position_spec() == old(skeleton).position_spec(),
            final(skeleton).scale_spec() == old(skeleton).scale_spec(),
            final(skeleton).time_spec() == old(skeleton).time_spec(),
            final(skeleton).id() == old(skeleton).id(),
            final(skeleton).locals_view().len() == old(skeleton).locals_view().len(),
            forall|i: int|
                0 <= i < final(skeleton).locals_view().len() ==> #[trigger] final(skeleton).locals_view()[i] == applied_local(
                    self.tracks_view(),
                    self.animations_view(),
                    old(skeleton).locals_view()[i],
                    i,
                    self.tracks_view().len() as int,
                ),
            r == any_active(self.tracks_view()),
    {
        let mut active = false;
        let mut t: usize = 0;
        while t < self.tracks.len()
            invariant
                t <= self.tracks@.len(),
                active == exists|k: int| 0 <= k < t && (#[trigger] self.tracks@[k]) is Some,
            decreases self.tracks@.len() - t,
        {
            if self.tracks[t].is_some() {
                active = true;
            }
            t += 1;
        }
        let nbones = skeleton.locals.len();
        let mut i: usize = 0;
        while i < nbones
            invariant
                self.wf(),
                nbones == skeleton.locals@.len(),
                i <= nbones,
                skeleton.bone_defs@ == old(skeleton).bone_defs@,
                skeleton.slot_defs@ == old(skeleton).slot_defs@,
                skeleton.worlds@ == old(skeleton).worlds@,
                skeleton.slot_colors@ == old(skeleton).slot_colors@,
                skeleton.draw_order@ == old(skeleton).draw_order@,
                skeleton.color == old(skeleton).color,
                skeleton.position == old(skeleton).position,
                skeleton.scale == old(skeleton).scale,
                skeleton.time == old(skeleton).time,
                skeleton.handle == old(skeleton).handle,
                skeleton.locals@.len() == old(skeleton).locals@.len(),
                old(skeleton).wf(),
                forall|k: int|
                    i <= k < nbones ==> #[trigger] skeleton.locals@[k] == old(
                        skeleton,
                    ).locals@[k],
                forall|k: int|
                    0 <= k < i ==> #[trigger] skeleton.locals@[k] == applied_local(
                        self.tracks@,
                        self.animations@,
                        old(skeleton).locals@[k],
                        k,
                        self.tracks@.len() as int,
                    ),
            decreases nbones - i,
        {
            let mut v: BonePose = skeleton.locals[i];
            let mut t: usize = 0;
            while t < self.tracks.len()
                invariant
                    self.wf(),
                    i < nbones,
                    nbones == skeleton.locals@.len(),
                    t <= self.tracks@.len(),
                    skeleton.locals@[i as int] == old(skeleton).locals@[i as int],
                    v == applied_local(
                        self.tracks@,
                        self.animations@,
                        old(skeleton).locals@[i as int],
                        i as int,
                        t as int,
                    ),
                    forall|k: int|
                        i <= k < nbones ==> #[trigger] skeleton.locals@[k] == old(
                            skeleton,
                        ).locals@[k],
                decreases self.tracks@.len() - t,
            {
                match &self.tracks[t] {
                    Option::None => {},
                    Option::Some(e) => {
                        match self.track_pose_exec(e, i) {
                            Option::None => {},
                            Option::Some(p) => {
                                v = p;
                            },
                        }
                    },
                }
                t += 1;
            }
            skeleton.locals[i] = v;
            i += 1;
        }
        proof {
            skeleton_views_are_fields(*skeleton);
            skeleton_views_are_fields(*old(skeleton));
        }
        active
    }

    /// Consumes the state, releasing its reference. If it was the last,
    /// the state resource is disposed and its reference to the mixing
    /// table is given back.
    pub fn release(self, store: &mut HandleStore)
        requires
            old(store).wf(),
            self.valid(*old(store)),
        ensures
            final(store).wf(),
            final(store).n() == old(store).n(),
            final(store).kinds_view() == old(store).kinds_view(),
            final(store).counts_view()[self.id()] as int == old(store).counts_view()[self.id()]
                - 1,
            old(store).log_view().is_prefix_of(final(store).log_view()),
            old(store).counts_view()[self.id()] == 1 ==> final(store).disposed(self.id())
                && final(store).log_view()[old(store).log_view().len() as int] == self.id(),
    {
        store.release(self.handle);
    }
}

/// The configured mixing duration for a transition, by table scan.
fn mix_lookup(mixes: &Vec<MixEntry>, from: usize, to: usize) -> (r: u32)
    ensures
        r as int == mix_duration_of(mixes@, from as int, to as int),
{
    proof {
        assert(mixes@.take(mixes@.len() as int) =~= mixes@);
    }
    let mut j: usize = mixes.len();
    while j > 0
        invariant
            j <= mixes@.len(),
            mix_duration_of(mixes@.take(j as int), from as int, to as int) == mix_duration_of(
                mixes@,
                from as int,
                to as int,
            ),
        decreases j,
    {
        proof {
            assert(mixes@.take(j as int).last() == mixes@[j - 1]);
            assert(mixes@.take(j as int).drop_last() =~= mixes@.take(j as int - 1));
        }
        let e = mixes[j - 1];
        if e.from == from && e.to == to {
            return e.duration;
        }
        j -= 1;
    }
    proof {
        assert(mixes@.take(0) =~= Seq::<MixEntry>::empty());
    }
    0
}

} // verus!
