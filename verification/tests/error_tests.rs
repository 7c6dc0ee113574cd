//! Load failures: inconsistent skeleton assets are rejected with a
//! diagnostic, and the atlas handed in is consumed either way.

use std::cell::Cell;

use spine::atlas::{Atlas, AtlasPage};
use spine::enums::{AtlasFilter, AtlasFormat, AtlasWrap, BlendMode};
use spine::handles::HandleStore;
use spine::pose::{BonePose, Color};
use spine::skeleton::{BoneDef, SkeletonAsset, SkeletonData, SlotDef};
use spine::SpineError;

fn one_page_atlas(store: &mut HandleStore) -> Atlas {
    let pages = vec![AtlasPage::new(
        "page.png".to_owned(),
        AtlasFormat::RGBA8888,
        AtlasFilter::Linear,
        AtlasFilter::Linear,
        AtlasWrap::ClampToEdge,
        AtlasWrap::ClampToEdge,
        64,
        64,
    )];
    let calls = Cell::new(0u32);
    Atlas::from_file(
        pages,
        |_p: &AtlasPage, _n: &String| {
            calls.set(calls.get() + 1);
            1
        },
        store,
    )
}

fn root_bone() -> BoneDef {
    BoneDef {
        name: "root".to_owned(),
        parent: None,
        pose: BonePose::identity(),
    }
}

#[test]
fn child_before_parent_is_rejected() {
    let mut store = HandleStore::new();
    let atlas = one_page_atlas(&mut store);
    let atlas_id = atlas.handle_id();
    let asset = SkeletonAsset {
        bones: vec![
            BoneDef {
                name: "head".to_owned(),
                parent: Some(1), // refers forward: inconsistent
                pose: BonePose::identity(),
            },
            root_bone(),
        ],
        slots: Vec::new(),
        animations: Vec::new(),
        strings: Vec::new(),
        position: (0, 0),
        dimensions: (0, 0),
    };
    let r = SkeletonData::from_binary_file(&asset, atlas, &mut store);
    match r {
        Err(SpineError::FailLoadSkeleton(text)) => {
            assert!(!text.is_empty());
        }
        _ => panic!("expected a skeleton-load failure"),
    }
    // ownership transfer completed regardless: the atlas reference was
    // consumed, and with it gone the atlas is disposed
    assert!(store.is_disposed(atlas_id));
}

#[test]
fn slot_with_unknown_bone_is_rejected() {
    let mut store = HandleStore::new();
    let atlas = one_page_atlas(&mut store);
    let asset = SkeletonAsset {
        bones: vec![root_bone()],
        slots: vec![SlotDef {
            name: "body".to_owned(),
            bone: 5, // no such bone
            color: Color::white(),
            blend_mode: BlendMode::Normal,
            attachment: None,
        }],
        animations: Vec::new(),
        strings: Vec::new(),
        position: (0, 0),
        dimensions: (0, 0),
    };
    let r = SkeletonData::from_binary_file(&asset, atlas, &mut store);
    assert!(matches!(r, Err(SpineError::FailLoadSkeleton(_))));
}

#[test]
fn timeline_with_unknown_bone_is_rejected() {
    let mut store = HandleStore::new();
    let atlas = one_page_atlas(&mut store);
    let asset = SkeletonAsset {
        bones: vec![root_bone()],
        slots: Vec::new(),
        animations: vec![spine::animation::AnimationDef {
            name: "walk".to_owned(),
            duration: 100,
            timelines: vec![spine::animation::BoneTimeline {
                bone: 3, // no such bone
                keys: Vec::new(),
            }],
        }],
        strings: Vec::new(),
        position: (0, 0),
        dimensions: (0, 0),
    };
    let r = SkeletonData::from_binary_file(&asset, atlas, &mut store);
    assert!(matches!(r, Err(SpineError::FailLoadSkeleton(_))));
}

#[test]
fn error_message_is_exposed() {
    let e = SpineError::FailLoadAtlas("bad descriptor".to_owned());
    assert_eq!("bad descriptor", e.message().as_str());
    let e = SpineError::FailLoadSkeleton("bad asset".to_owned());
    assert_eq!("bad asset", e.message().as_str());
}

#[test]
fn good_asset_loads_and_resolves_textures() {
    let mut store = HandleStore::new();
    let atlas = one_page_atlas(&mut store);
    let asset = SkeletonAsset {
        bones: vec![root_bone()],
        slots: vec![SlotDef {
            name: "body".to_owned(),
            bone: 0,
            color: Color::white(),
            blend_mode: BlendMode::Multiply,
            attachment: Some(spine::skeleton::RegionAttachment {
                name: "patch".to_owned(),
                offset: [0, 0, 1, 0, 1, 1, 0, 1],
                uvs: [0, 0, 0, 0, 0, 0, 0, 0],
                color: Color::white(),
                position: (0, 0),
                scale: (4096, 4096),
                size: (1, 1),
                page_index: 0,
                texture_id: 999, // overwritten by resolution
            }),
        }],
        animations: Vec::new(),
        strings: Vec::new(),
        position: (0, 0),
        dimensions: (0, 0),
    };
    let data = SkeletonData::from_binary_file(&asset, atlas, &mut store)
        .unwrap_or_else(|_| panic!("load failed"));
    let skeleton = spine::skeleton::Skeleton::new(&data, &mut store);
    let slots = skeleton.slots();
    let attachment = slots[0].active_attachment().unwrap();
    // resolved through the atlas page, not taken from the asset
    assert_eq!(1, attachment.as_region_attachment().texture_id());
}
