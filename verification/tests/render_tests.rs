//! Render extraction and the end-to-end frame loop: load, animate,
//! apply, propagate, extract.

use std::cell::Cell;

use spine::animation::{
    AnimationDef, AnimationState, AnimationStateData, BoneTimeline, TimelineKey, TrackIndex,
};
use spine::atlas::{Atlas, AtlasPage};
use spine::enums::{AtlasFilter, AtlasFormat, AtlasWrap, BlendMode};
use spine::handles::HandleStore;
use spine::pose::{BonePose, Color, FX_ONE};
use spine::render::extract;
use spine::skeleton::{BoneDef, RegionAttachment, Skeleton, SkeletonAsset, SkeletonData, SlotDef};

fn translation(x: i32, y: i32) -> BonePose {
    BonePose {
        a: FX_ONE,
        b: 0,
        c: 0,
        d: FX_ONE,
        x,
        y,
    }
}

fn page(name: &str) -> AtlasPage {
    AtlasPage::new(
        name.to_owned(),
        AtlasFormat::RGBA8888,
        AtlasFilter::Linear,
        AtlasFilter::Linear,
        AtlasWrap::ClampToEdge,
        AtlasWrap::ClampToEdge,
        128,
        128,
    )
}

fn region(name: &str, page_index: usize) -> RegionAttachment {
    RegionAttachment {
        name: name.to_owned(),
        // a unit quad around the bone origin
        offset: [-1, -1, 1, -1, 1, 1, -1, 1],
        uvs: [0, 0, FX_ONE, 0, FX_ONE, FX_ONE, 0, FX_ONE],
        color: Color::white(),
        position: (0, 0),
        scale: (FX_ONE, FX_ONE),
        size: (2, 2),
        page_index,
        texture_id: 0,
    }
}

/// Two pages; one root bone; "walk" (1.2 s at 1000 ticks per second)
/// moving the root; three slots, two with region attachments on
/// different pages, one empty.
fn scene_asset() -> SkeletonAsset {
    let walk = AnimationDef {
        name: "walk".to_owned(),
        duration: 1200,
        timelines: vec![BoneTimeline {
            bone: 0,
            keys: vec![
                TimelineKey {
                    time: 0,
                    pose: translation(0, 0),
                },
                TimelineKey {
                    time: 400,
                    pose: translation(30, 40),
                },
            ],
        }],
    };
    let slot = |name: &str, attachment: Option<RegionAttachment>| SlotDef {
        name: name.to_owned(),
        bone: 0,
        color: Color::white(),
        blend_mode: BlendMode::Normal,
        attachment,
    };
    SkeletonAsset {
        bones: vec![BoneDef {
            name: "root".to_owned(),
            parent: None,
            pose: translation(0, 0),
        }],
        slots: vec![
            slot("back", Some(region("back", 0))),
            slot("front", Some(region("front", 1))),
            slot("bare", None),
        ],
        animations: vec![walk],
        strings: Vec::new(),
        position: (0, 0),
        dimensions: (0, 0),
    }
}

#[test]
fn end_to_end_walk_frame() {
    let mut store = HandleStore::new();
    let calls = Cell::new(0u32);
    let atlas = Atlas::from_file(
        vec![page("page1.png"), page("page2.png")],
        |_p: &AtlasPage, _n: &String| {
            calls.set(calls.get() + 1);
            calls.get() * 100
        },
        &mut store,
    );
    assert_eq!(2, calls.get());
    let texture_ids = [atlas.page(0).texture_id(), atlas.page(1).texture_id()];
    assert_eq!([100, 200], texture_ids);

    let data = SkeletonData::from_binary_file(&scene_asset(), atlas, &mut store)
        .unwrap_or_else(|_| panic!("load failed"));
    let mut skeleton = Skeleton::new(&data, &mut store);
    let template = AnimationStateData::new(&data, &mut store);
    let mut state = AnimationState::new(&template, &mut store);

    state.set_by_name(&"walk".to_owned(), TrackIndex::zero(), true);
    state.update(500); // 0.5 s
    assert!(state.apply(&mut skeleton));
    skeleton.update_world_transform();

    let runs = extract(&skeleton);
    // two of the three slots have an attachment
    assert_eq!(2, runs.len());
    for run in &runs {
        assert_eq!(6, run.vertices.len());
        assert!(texture_ids.contains(&run.texture_id));
        assert_eq!(BlendMode::Normal, run.blend_mode);
    }
    // draw order: "back" first, on page 1
    assert_eq!(0, runs[0].slot);
    assert_eq!(100, runs[0].texture_id);
    assert_eq!(1, runs[1].slot);
    assert_eq!(200, runs[1].texture_id);

    // at 0.5 s the walk key at 0.4 s holds: the root sits at (30, 40),
    // so the unit quad's corners are offset by it
    let v = &runs[0].vertices;
    assert_eq!((29, 39), (v[0].x, v[0].y));
    assert_eq!((31, 39), (v[1].x, v[1].y));
    assert_eq!((31, 41), (v[2].x, v[2].y));
    // winding 0-1-2, 2-3-0
    assert_eq!((v[2].x, v[2].y), (v[3].x, v[3].y));
    assert_eq!((29, 41), (v[4].x, v[4].y));
    assert_eq!((v[0].x, v[0].y), (v[5].x, v[5].y));
    // texture coordinates carried through per corner
    assert_eq!((0, 0), (v[0].u, v[0].v));
    assert_eq!((FX_ONE, FX_ONE), (v[2].u, v[2].v));
    // neutral tints compose to neutral
    assert_eq!(Color::white(), v[0].color);
}

#[test]
fn extraction_skips_empty_slots_and_respects_tints() {
    let mut store = HandleStore::new();
    let calls = Cell::new(0u32);
    let atlas = Atlas::from_file(
        vec![page("page1.png")],
        |_p: &AtlasPage, _n: &String| {
            calls.set(calls.get() + 1);
            7
        },
        &mut store,
    );
    let mut asset = scene_asset();
    // retarget the second slot to the only page and tint it half red
    asset.slots[1].attachment = Some(region("front", 0));
    asset.slots[1].color = Color {
        r: 128,
        g: 255,
        b: 255,
        a: 255,
    };
    let data = SkeletonData::from_binary_file(&asset, atlas, &mut store)
        .unwrap_or_else(|_| panic!("load failed"));
    let mut skeleton = Skeleton::new(&data, &mut store);
    skeleton.update_world_transform();

    let runs = extract(&skeleton);
    assert_eq!(2, runs.len());
    assert_eq!(7, runs[0].texture_id);
    assert_eq!(7, runs[1].texture_id);
    // white x half-red x white = half-red
    assert_eq!(
        Color {
            r: 128,
            g: 255,
            b: 255,
            a: 255
        },
        runs[1].vertices[0].color
    );
}

#[test]
fn attachment_views_expose_geometry_sources() {
    let mut store = HandleStore::new();
    let calls = Cell::new(0u32);
    let atlas = Atlas::from_file(
        vec![page("page1.png"), page("page2.png")],
        |_p: &AtlasPage, _n: &String| {
            calls.set(calls.get() + 1);
            calls.get() * 100
        },
        &mut store,
    );
    let data = SkeletonData::from_binary_file(&scene_asset(), atlas, &mut store)
        .unwrap_or_else(|_| panic!("load failed"));
    let mut skeleton = Skeleton::new(&data, &mut store);
    skeleton.update_world_transform();

    let slots = skeleton.draw_slots();
    assert_eq!(3, slots.len());
    let attachment = slots[1].active_attachment().unwrap();
    assert_eq!("front", attachment.name().as_str());
    assert_eq!(
        spine::enums::AttachmentType::Region,
        attachment.kind()
    );
    let region_view = attachment.as_region_attachment();
    assert_eq!(200, region_view.texture_id());
    assert_eq!([-1, -1, 1, -1, 1, 1, -1, 1], region_view.offset());
    assert_eq!((2, 2), region_view.dimensions());
    let bone = slots[1].bone().unwrap();
    let corners = region_view.get_vertices(&bone);
    assert_eq!([-1, -1, 1, -1, 1, 1, -1, 1], corners);
    assert!(slots[2].active_attachment().is_none());
}
