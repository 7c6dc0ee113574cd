//! Fixed-point pose arithmetic, setup-pose round trips, and world
//! transform propagation.

use std::cell::Cell;

use spine::atlas::{Atlas, AtlasPage};
use spine::enums::{AtlasFilter, AtlasFormat, AtlasWrap, BlendMode};
use spine::handles::HandleStore;
use spine::pose::{BonePose, Color, FX_ONE};
use spine::skeleton::{BoneDef, Skeleton, SkeletonAsset, SkeletonData, SlotDef};

fn one_page_atlas(store: &mut HandleStore) -> Atlas {
    let pages = vec![AtlasPage::new(
        "page.png".to_owned(),
        AtlasFormat::RGBA8888,
        AtlasFilter::Linear,
        AtlasFilter::Linear,
        AtlasWrap::ClampToEdge,
        AtlasWrap::ClampToEdge,
        64,
        64,
    )];
    let calls = Cell::new(0u32);
    Atlas::from_file(
        pages,
        |_p: &AtlasPage, _n: &String| {
            calls.set(calls.get() + 1);
            42
        },
        store,
    )
}

fn translation(x: i32, y: i32) -> BonePose {
    BonePose {
        a: FX_ONE,
        b: 0,
        c: 0,
        d: FX_ONE,
        x,
        y,
    }
}

fn chain_asset() -> SkeletonAsset {
    // root at (10, 0); child at (5, 7) under root; grandchild scaled half
    let half = FX_ONE / 2;
    SkeletonAsset {
        bones: vec![
            BoneDef {
                name: "root".to_owned(),
                parent: None,
                pose: translation(10, 0),
            },
            BoneDef {
                name: "child".to_owned(),
                parent: Some(0),
                pose: translation(5, 7),
            },
            BoneDef {
                name: "grand".to_owned(),
                parent: Some(1),
                pose: BonePose {
                    a: half,
                    b: 0,
                    c: 0,
                    d: half,
                    x: 2,
                    y: 2,
                },
            },
        ],
        slots: vec![SlotDef {
            name: "body".to_owned(),
            bone: 1,
            color: Color {
                r: 200,
                g: 100,
                b: 50,
                a: 255,
            },
            blend_mode: BlendMode::Additive,
            attachment: None,
        }],
        animations: Vec::new(),
        strings: Vec::new(),
        position: (0, 0),
        dimensions: (0, 0),
    }
}

fn build_skeleton(store: &mut HandleStore) -> Skeleton {
    let atlas = one_page_atlas(store);
    let data = SkeletonData::from_binary_file(&chain_asset(), atlas, store)
        .unwrap_or_else(|_| panic!("load failed"));
    Skeleton::new(&data, store)
}

#[test]
fn compose_translations_adds_offsets() {
    let p = translation(10, 0);
    let l = translation(5, 7);
    let c = p.chain(&l);
    assert_eq!(translation(15, 7), c);
}

#[test]
fn compose_scale_halves_child_translation() {
    let half = FX_ONE / 2;
    let p = BonePose {
        a: half,
        b: 0,
        c: 0,
        d: half,
        x: 0,
        y: 0,
    };
    let l = translation(10, 6);
    let c = p.chain(&l);
    assert_eq!(
        BonePose {
            a: half,
            b: 0,
            c: 0,
            d: half,
            x: 5,
            y: 3
        },
        c
    );
}

#[test]
fn transform_point_applies_linear_part_and_offset() {
    let t = BonePose {
        a: 2 * FX_ONE,
        b: 0,
        c: 0,
        d: FX_ONE,
        x: 100,
        y: -50,
    };
    assert_eq!((106, -43), t.transform_point(3, 7));
}

#[test]
fn saturation_pins_extreme_products() {
    let t = BonePose {
        a: i32::MAX,
        b: 0,
        c: 0,
        d: i32::MAX,
        x: i32::MAX,
        y: i32::MAX,
    };
    let (x, y) = t.transform_point(i32::MAX, i32::MAX);
    assert_eq!(i32::MAX, x);
    assert_eq!(i32::MAX, y);
}

#[test]
fn color_tint_multiplies_channels() {
    let a = Color {
        r: 128,
        g: 255,
        b: 0,
        a: 255,
    };
    let b = Color {
        r: 128,
        g: 128,
        b: 77,
        a: 255,
    };
    let c = a.tint(&b);
    // 128*128/255 = 64, 255*128/255 = 128, 0 stays 0, 255*255/255 = 255
    assert_eq!(
        Color {
            r: 64,
            g: 128,
            b: 0,
            a: 255
        },
        c
    );
    assert_eq!(Color::white(), Color::white().tint(&Color::white()));
}

#[test]
fn world_transform_composes_down_the_hierarchy() {
    let mut store = HandleStore::new();
    let mut skeleton = build_skeleton(&mut store);
    skeleton.update_world_transform();
    let bones = skeleton.bone();
    assert_eq!(translation(10, 0), bones[0].world);
    assert_eq!(translation(15, 7), bones[1].world);
    // grandchild: translated by (2,2) under (15,7), scale half
    let half = FX_ONE / 2;
    assert_eq!(
        BonePose {
            a: half,
            b: 0,
            c: 0,
            d: half,
            x: 17,
            y: 9
        },
        bones[2].world
    );
}

#[test]
fn world_transform_is_idempotent_without_pose_changes() {
    let mut store = HandleStore::new();
    let mut skeleton = build_skeleton(&mut store);
    skeleton.update_world_transform();
    let first: Vec<BonePose> = skeleton.bone().iter().map(|b| b.world).collect();
    skeleton.update_world_transform();
    let second: Vec<BonePose> = skeleton.bone().iter().map(|b| b.world).collect();
    assert_eq!(first, second);
}

#[test]
fn reset_restores_the_authored_setup_pose() {
    let mut store = HandleStore::new();
    let atlas = one_page_atlas(&mut store);
    let data = SkeletonData::from_binary_file(&chain_asset(), atlas, &mut store)
        .unwrap_or_else(|_| panic!("load failed"));
    let mut skeleton = Skeleton::new(&data, &mut store);

    // snapshot the setup pose right after creation
    let setup_locals: Vec<BonePose> = skeleton.bone().iter().map(|b| b.local).collect();
    let setup_colors: Vec<Color> = skeleton.slots().iter().map(|s| s.color()).collect();

    // no mutation path in this core perturbs the pose besides apply;
    // reset must restore the authored values regardless
    skeleton.reset();
    let locals: Vec<BonePose> = skeleton.bone().iter().map(|b| b.local).collect();
    let colors: Vec<Color> = skeleton.slots().iter().map(|s| s.color()).collect();
    assert_eq!(setup_locals, locals);
    assert_eq!(setup_colors, colors);
    assert_eq!(translation(10, 0), locals[0]);
    assert_eq!(
        Color {
            r: 200,
            g: 100,
            b: 50,
            a: 255
        },
        colors[0]
    );
}

#[test]
fn lookups_find_bones_and_slots_by_name() {
    let mut store = HandleStore::new();
    let skeleton = build_skeleton(&mut store);
    assert_eq!(1, skeleton.bone_index(&"child".to_owned()).0);
    assert_eq!(-1, skeleton.bone_index(&"nope".to_owned()).0);
    assert_eq!(0, skeleton.slot_index(&"body".to_owned()).0);
    assert_eq!(-1, skeleton.slot_index(&"nope".to_owned()).0);
    let slot = skeleton.slot(&"body".to_owned()).unwrap();
    assert_eq!(BlendMode::Additive, slot.blend_mode());
    assert_eq!(1, slot.bone().unwrap().index);
    assert!(skeleton.slot(&"nope".to_owned()).is_none());
}
