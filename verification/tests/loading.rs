//! Loading pipelines: atlas pages with the texture-creation callback,
//! and skeleton definitions built against an atlas.

use std::cell::Cell;

use spine::atlas::{Atlas, AtlasPage};
use spine::enums::{AtlasFilter, AtlasFormat, AtlasWrap, BlendMode};
use spine::handles::HandleStore;
use spine::pose::{BonePose, Color};
use spine::skeleton::{BoneDef, Skeleton, SkeletonAsset, SkeletonData, SlotDef};

fn page(name: &str) -> AtlasPage {
    AtlasPage::new(
        name.to_owned(),
        AtlasFormat::RGBA8888,
        AtlasFilter::Linear,
        AtlasFilter::Linear,
        AtlasWrap::ClampToEdge,
        AtlasWrap::ClampToEdge,
        256,
        128,
    )
}

fn two_page_atlas(store: &mut HandleStore, counter: &Cell<u32>) -> Atlas {
    let pages = vec![page("dragon1.png"), page("dragon2.png")];
    Atlas::from_file(
        pages,
        |_page: &AtlasPage, _name: &String| {
            counter.set(counter.get() + 1);
            counter.get()
        },
        store,
    )
}

fn simple_asset() -> SkeletonAsset {
    let bones = vec![
        BoneDef {
            name: "root".to_owned(),
            parent: None,
            pose: BonePose::identity(),
        },
        BoneDef {
            name: "head".to_owned(),
            parent: Some(0),
            pose: BonePose::identity(),
        },
    ];
    let slots = vec![SlotDef {
        name: "body".to_owned(),
        bone: 0,
        color: Color::white(),
        blend_mode: BlendMode::Normal,
        attachment: None,
    }];
    SkeletonAsset {
        bones,
        slots,
        animations: Vec::new(),
        strings: vec!["body".to_owned()],
        position: (0, 0),
        dimensions: (512, 512),
    }
}

#[test]
fn atlas_load_atlas() {
    let mut store = HandleStore::new();
    let load = Cell::new(0u32);
    let _atlas = Atlas::from_file(
        vec![page("dragon1.png"), page("dragon2.png")],
        |_page: &AtlasPage, _name: &String| {
            load.set(load.get() + 1);
            0
        },
        &mut store,
    );
    assert_eq!(2, load.get());
}

#[test]
fn lib_load_atlas() {
    let mut store = HandleStore::new();
    let load = Cell::new(0u32);
    let _atlas = Atlas::from_file(
        vec![page("dragon1.png"), page("dragon2.png")],
        |_page: &AtlasPage, _name: &String| {
            load.set(load.get() + 1);
            0
        },
        &mut store,
    );
    assert_eq!(2, load.get());
}

#[test]
fn load_skeleton() {
    let mut store = HandleStore::new();
    let load = Cell::new(0u32);
    let atlas = two_page_atlas(&mut store, &load);
    assert_eq!(2, load.get());

    let skeleton_data = SkeletonData::from_binary_file(&simple_asset(), atlas, &mut store)
        .unwrap_or_else(|_| panic!("load failed"));
    let _skeleton = Skeleton::new(&skeleton_data, &mut store);
    let bones = skeleton_data.bones();
    assert_eq!(2, bones.len());
    assert_eq!("root", bones[0].name().as_str());
    assert_eq!("head", bones[1].name().as_str());
}

#[test]
fn load_skeleton_drop_order() {
    let mut store = HandleStore::new();
    let load = Cell::new(0u32);

    let skeleton_data = {
        let atlas = two_page_atlas(&mut store, &load);
        assert_eq!(2, load.get());
        SkeletonData::from_binary_file(&simple_asset(), atlas, &mut store)
            .unwrap_or_else(|_| panic!("load failed"))
    };
    let skeleton = Skeleton::new(&skeleton_data, &mut store);
    let bones = skeleton_data.bones();
    assert_eq!(2, bones.len());

    // tear down: instance, then definition (which gives the atlas back)
    let data_id = skeleton_data.handle_id();
    let skeleton_id = skeleton.handle_id();
    skeleton.release(&mut store);
    skeleton_data.release(&mut store);
    let log = store.dispose_log().clone();
    assert!(log.contains(&data_id));
    assert!(log.contains(&skeleton_id));
    // the definition precedes the atlas it retained
    let atlas_id = 0usize;
    let di = log.iter().position(|&q| q == data_id).unwrap();
    let ai = log.iter().position(|&q| q == atlas_id).unwrap();
    assert!(di < ai);
}

#[test]
fn texture_callback_sees_pages_in_file_order() {
    let mut store = HandleStore::new();
    let seen = std::cell::RefCell::new(Vec::new());
    let atlas = Atlas::from_file(
        vec![page("a.png"), page("b.png"), page("c.png")],
        |page: &AtlasPage, name: &String| {
            seen.borrow_mut().push(name.clone());
            assert_eq!(page.name(), name);
            seen.borrow().len() as u32 * 10
        },
        &mut store,
    );
    assert_eq!(
        vec!["a.png".to_owned(), "b.png".to_owned(), "c.png".to_owned()],
        seen.into_inner()
    );
    // the returned identifiers land on the pages' renderer slots, in order
    assert_eq!(3, atlas.page_count());
    assert_eq!(10, atlas.page(0).texture_id());
    assert_eq!(20, atlas.page(1).texture_id());
    assert_eq!(30, atlas.page(2).texture_id());
    assert_eq!((256, 128), atlas.page(0).dimensions());
    assert_eq!(AtlasFormat::RGBA8888, atlas.page(1).format());
    assert_eq!(
        (AtlasWrap::ClampToEdge, AtlasWrap::ClampToEdge),
        atlas.page(2).wrap()
    );
}

#[test]
fn page_renderer_slot_is_writable() {
    let mut p = page("solo.png");
    assert_eq!(0, p.texture_id());
    p.set_texture_id(17);
    assert_eq!(17, p.texture_id());
    assert_eq!("solo.png", p.name().as_str());
    assert_eq!(AtlasFilter::Linear, p.min_filter());
    assert_eq!(AtlasFilter::Linear, p.mag_filter());
}

#[test]
fn skeleton_layout_fields_are_mutable() {
    let mut store = HandleStore::new();
    let load = Cell::new(0u32);
    let atlas = two_page_atlas(&mut store, &load);
    let mut data = SkeletonData::from_binary_file(&simple_asset(), atlas, &mut store)
        .unwrap_or_else(|_| panic!("load failed"));
    assert_eq!((0, 0), data.position());
    assert_eq!((512, 512), data.dimensions());
    data.set_position((10, -20));
    data.set_dimensions((640, 480));
    assert_eq!((10, -20), data.position());
    assert_eq!((640, 480), data.dimensions());
    assert_eq!(vec!["body".to_owned()], data.strings().clone());
}
