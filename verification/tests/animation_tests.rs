//! Track playback: clock advancement with clamping and looping,
//! sampling, mixing between animations, and pose application.

use std::cell::Cell;

use spine::animation::{
    AnimationDef, AnimationState, AnimationStateData, BoneTimeline, TimelineKey, TrackIndex,
};
use spine::atlas::{Atlas, AtlasPage};
use spine::enums::{AtlasFilter, AtlasFormat, AtlasWrap};
use spine::handles::HandleStore;
use spine::pose::{BonePose, FX_ONE};
use spine::skeleton::{BoneDef, Skeleton, SkeletonAsset, SkeletonData};

fn translation(x: i32, y: i32) -> BonePose {
    BonePose {
        a: FX_ONE,
        b: 0,
        c: 0,
        d: FX_ONE,
        x,
        y,
    }
}

fn one_page_atlas(store: &mut HandleStore) -> Atlas {
    let pages = vec![AtlasPage::new(
        "page.png".to_owned(),
        AtlasFormat::RGBA8888,
        AtlasFilter::Linear,
        AtlasFilter::Linear,
        AtlasWrap::ClampToEdge,
        AtlasWrap::ClampToEdge,
        64,
        64,
    )];
    let calls = Cell::new(0u32);
    Atlas::from_file(
        pages,
        |_p: &AtlasPage, _n: &String| {
            calls.set(calls.get() + 1);
            1
        },
        store,
    )
}

/// One root bone; "walk" keys the bone at x=0 (t=0) and x=100 (t=1000),
/// duration 1200; "idle" keys it at x=400, duration 800.
fn animated_asset() -> SkeletonAsset {
    let walk = AnimationDef {
        name: "walk".to_owned(),
        duration: 1200,
        timelines: vec![BoneTimeline {
            bone: 0,
            keys: vec![
                TimelineKey {
                    time: 0,
                    pose: translation(0, 0),
                },
                TimelineKey {
                    time: 1000,
                    pose: translation(100, 0),
                },
            ],
        }],
    };
    let idle = AnimationDef {
        name: "idle".to_owned(),
        duration: 800,
        timelines: vec![BoneTimeline {
            bone: 0,
            keys: vec![TimelineKey {
                time: 0,
                pose: translation(400, 0),
            }],
        }],
    };
    SkeletonAsset {
        bones: vec![BoneDef {
            name: "root".to_owned(),
            parent: None,
            pose: translation(-7, 3),
        }],
        slots: Vec::new(),
        animations: vec![walk, idle],
        strings: Vec::new(),
        position: (0, 0),
        dimensions: (0, 0),
    }
}

struct Scene {
    store: HandleStore,
    skeleton: Skeleton,
    state: AnimationState,
}

fn build_scene() -> Scene {
    let mut store = HandleStore::new();
    let atlas = one_page_atlas(&mut store);
    let data = SkeletonData::from_binary_file(&animated_asset(), atlas, &mut store)
        .unwrap_or_else(|_| panic!("load failed"));
    let skeleton = Skeleton::new(&data, &mut store);
    let template = AnimationStateData::new(&data, &mut store);
    let state = AnimationState::new(&template, &mut store);
    Scene {
        store,
        skeleton,
        state,
    }
}

fn root_x(skeleton: &Skeleton) -> i32 {
    skeleton.bone()[0].local.x
}

#[test]
fn track_index_defaults_to_zero() {
    assert_eq!(0, TrackIndex::zero().0);
    assert_eq!(0, TrackIndex::default().0);
}

#[test]
fn animations_are_listed_with_durations() {
    let mut store = HandleStore::new();
    let atlas = one_page_atlas(&mut store);
    let data = SkeletonData::from_binary_file(&animated_asset(), atlas, &mut store)
        .unwrap_or_else(|_| panic!("load failed"));
    let animations = data.animations();
    assert_eq!(2, animations.len());
    assert_eq!("walk", animations[0].name().as_str());
    assert_eq!(1200, animations[0].duration());
    assert_eq!("idle", animations[1].name().as_str());
    assert_eq!(800, animations[1].duration());
}

#[test]
fn sampling_steps_between_keys() {
    let mut scene = build_scene();
    scene
        .state
        .set_by_name(&"walk".to_owned(), TrackIndex::zero(), false);

    // before the second key: the first key's pose
    scene.state.update(500);
    assert!(scene.state.apply(&mut scene.skeleton));
    assert_eq!(0, root_x(&scene.skeleton));

    // past the second key: its pose
    scene.state.update(600); // clock now 1100
    scene.state.apply(&mut scene.skeleton);
    assert_eq!(100, root_x(&scene.skeleton));
}

#[test]
fn nonlooping_track_clamps_at_duration() {
    let mut scene = build_scene();
    scene
        .state
        .set_by_name(&"walk".to_owned(), TrackIndex::zero(), false);

    scene.state.update(5000); // far past the 1200-tick duration
    let entry = scene.state.track(TrackIndex::zero()).unwrap();
    assert_eq!(1200, entry.time);

    scene.state.apply(&mut scene.skeleton);
    let clamped_x = root_x(&scene.skeleton);

    // a second state advanced exactly to the duration samples the same pose
    let mut exact = build_scene();
    exact
        .state
        .set_by_name(&"walk".to_owned(), TrackIndex::zero(), false);
    exact.state.update(1200);
    exact.state.apply(&mut exact.skeleton);
    assert_eq!(root_x(&exact.skeleton), clamped_x);
    assert_eq!(100, clamped_x);

    // and the finished track keeps contributing its final pose
    scene.state.update(1);
    scene.state.apply(&mut scene.skeleton);
    assert_eq!(100, root_x(&scene.skeleton));
    assert_eq!(
        1200,
        scene.state.track(TrackIndex::zero()).unwrap().time
    );
}

#[test]
fn looping_track_wraps_at_duration() {
    let mut scene = build_scene();
    scene
        .state
        .set_by_name(&"walk".to_owned(), TrackIndex::zero(), true);
    scene.state.update(1700); // wraps: 1700 % 1200 == 500
    assert_eq!(500, scene.state.track(TrackIndex::zero()).unwrap().time);
    scene.state.apply(&mut scene.skeleton);
    assert_eq!(0, root_x(&scene.skeleton)); // still before the 1000 key
}

#[test]
fn mixing_blends_linearly_over_the_configured_duration() {
    let mut store = HandleStore::new();
    let atlas = one_page_atlas(&mut store);
    let data = SkeletonData::from_binary_file(&animated_asset(), atlas, &mut store)
        .unwrap_or_else(|_| panic!("load failed"));
    let mut skeleton = Skeleton::new(&data, &mut store);
    let mut template = AnimationStateData::new(&data, &mut store);
    assert!(template.set_mix_by_name(&"walk".to_owned(), &"idle".to_owned(), 200));
    assert_eq!(200, template.get_mix(0, 1));
    assert!(!template.set_mix_by_name(&"walk".to_owned(), &"nope".to_owned(), 99));
    let mut state = AnimationState::new(&template, &mut store);

    // play walk to its 100-x key, then switch to idle (x=400)
    state.set_by_name(&"walk".to_owned(), TrackIndex::zero(), false);
    state.update(1100);
    state.set_by_name(&"idle".to_owned(), TrackIndex::zero(), false);

    // half way through the 200-tick mix: halfway from 100 to 400
    state.update(100);
    state.apply(&mut skeleton);
    assert_eq!(250, root_x(&skeleton));

    // mix complete: idle alone
    state.update(100);
    state.apply(&mut skeleton);
    assert_eq!(400, root_x(&skeleton));
}

#[test]
fn higher_tracks_override_lower_tracks() {
    let mut scene = build_scene();
    scene
        .state
        .set_by_name(&"walk".to_owned(), TrackIndex::zero(), false);
    scene
        .state
        .set_by_name(&"idle".to_owned(), TrackIndex(1), false);
    scene.state.update(1100);
    scene.state.apply(&mut scene.skeleton);
    // both tracks pose the root bone; track 1 wins
    assert_eq!(400, root_x(&scene.skeleton));

    scene.state.clear_track(TrackIndex(1));
    scene.state.apply(&mut scene.skeleton);
    assert_eq!(100, root_x(&scene.skeleton));

    scene.state.clear();
    assert!(!scene.state.apply(&mut scene.skeleton));
    assert!(scene.state.track(TrackIndex::zero()).is_none());
}

#[test]
fn reset_undoes_an_applied_pose() {
    let mut scene = build_scene();
    scene
        .state
        .set_by_name(&"walk".to_owned(), TrackIndex::zero(), false);
    scene.state.update(1100);
    scene.state.apply(&mut scene.skeleton);
    assert_eq!(100, root_x(&scene.skeleton));

    scene.skeleton.reset();
    assert_eq!(-7, root_x(&scene.skeleton)); // the authored setup pose
    assert_eq!(3, scene.skeleton.bone()[0].local.y);
}

#[test]
fn skeleton_clock_accumulates_deltas() {
    let mut scene = build_scene();
    scene.skeleton.update(16);
    scene.skeleton.update(17);
    // the clock is internal; updating must not disturb the pose
    assert_eq!(-7, root_x(&scene.skeleton));
    let _ = &scene.store;
}
