//! Shared-ownership bookkeeping: one disposal per resource, after all
//! claims are gone, and teardown in dependency order however the
//! handles are released.

use std::cell::Cell;

use spine::animation::{AnimationState, AnimationStateData};
use spine::atlas::{Atlas, AtlasPage};
use spine::enums::{AtlasFilter, AtlasFormat, AtlasWrap};
use spine::handles::{HandleStore, ResourceKind};
use spine::pose::BonePose;
use spine::skeleton::{BoneDef, Skeleton, SkeletonAsset, SkeletonData};

fn page(name: &str) -> AtlasPage {
    AtlasPage::new(
        name.to_owned(),
        AtlasFormat::RGBA8888,
        AtlasFilter::Nearest,
        AtlasFilter::Nearest,
        AtlasWrap::Repeat,
        AtlasWrap::Repeat,
        64,
        64,
    )
}

fn asset_with_walk() -> SkeletonAsset {
    SkeletonAsset {
        bones: vec![BoneDef {
            name: "root".to_owned(),
            parent: None,
            pose: BonePose::identity(),
        }],
        slots: Vec::new(),
        animations: vec![spine::animation::AnimationDef {
            name: "walk".to_owned(),
            duration: 1200,
            timelines: Vec::new(),
        }],
        strings: Vec::new(),
        position: (0, 0),
        dimensions: (0, 0),
    }
}

#[test]
fn dispose_happens_exactly_once() {
    let mut store = HandleStore::new();
    let h = store.allocate(ResourceKind::Atlas);
    let id = h.id();
    let c1 = store.retain(id);
    let c2 = store.retain(id);
    assert_eq!(3, store.ref_count(id));

    store.release(c2);
    assert_eq!(2, store.ref_count(id));
    assert!(!store.is_disposed(id));
    assert!(store.dispose_log().is_empty());

    store.release(h);
    assert_eq!(1, store.ref_count(id));
    assert!(!store.is_disposed(id));

    store.release(c1);
    assert!(store.is_disposed(id));
    assert_eq!(vec![id], store.dispose_log().clone());
    assert_eq!(ResourceKind::Atlas, store.kind_of(id));

    // one disposal total, no matter how many claims there were
    let once = store.dispose_log().iter().filter(|&&q| q == id).count();
    assert_eq!(1, once);
}

#[test]
fn reference_graph_teardown_in_arbitrary_order() {
    let mut store = HandleStore::new();
    let load = Cell::new(0u32);
    let atlas = Atlas::from_file(
        vec![page("a.png"), page("b.png")],
        |_p: &AtlasPage, _n: &String| {
            load.set(load.get() + 1);
            load.get()
        },
        &mut store,
    );
    let atlas_id = atlas.handle_id();
    let data = SkeletonData::from_binary_file(&asset_with_walk(), atlas, &mut store)
        .unwrap_or_else(|_| panic!("load failed"));
    let data_id = data.handle_id();
    let track_template = AnimationStateData::new(&data, &mut store);
    let track_template_id = track_template.handle_id();
    let skeleton = Skeleton::new(&data, &mut store);
    let skeleton_id = skeleton.handle_id();
    let state = AnimationState::new(&track_template, &mut store);
    let state_id = state.handle_id();

    // release in an order unrelated to the dependency graph
    data.release(&mut store);
    assert!(!store.is_disposed(atlas_id), "atlas still retained");
    assert!(!store.is_disposed(data_id), "definition still retained");
    skeleton.release(&mut store);
    assert!(store.is_disposed(skeleton_id));
    track_template.release(&mut store);
    assert!(
        !store.is_disposed(track_template_id),
        "table still retained by the live state"
    );
    state.release(&mut store);

    // now everything is gone, each disposed exactly once
    for id in [atlas_id, data_id, track_template_id, skeleton_id, state_id] {
        assert!(store.is_disposed(id));
        let once = store.dispose_log().iter().filter(|&&q| q == id).count();
        assert_eq!(1, once);
    }

    // and in dependency order: dependents before what they retained
    let log = store.dispose_log().clone();
    let pos = |id: usize| log.iter().position(|&q| q == id).unwrap();
    assert!(pos(data_id) < pos(atlas_id));
    assert!(pos(track_template_id) < pos(data_id));
    assert!(pos(state_id) < pos(track_template_id));
}

#[test]
fn retain_keeps_a_resource_alive() {
    let mut store = HandleStore::new();
    let h = store.allocate(ResourceKind::Skeleton);
    let id = h.id();
    let extra = store.retain(id);
    store.release(h);
    assert!(!store.is_disposed(id));
    store.release(extra);
    assert!(store.is_disposed(id));
}
