use ui_render::cache::AssocVec;
use ui_render::extract::{
    extract_default_ui_camera_view, extract_text_uinodes, extract_uinodes, reset_extracted_ui_nodes,
    AtlasSnapshot, CameraSnapshot, CameraViewport, ExtractedUiNodes, GlyphSnapshot,
    TextNodeSnapshot, UiImageSnapshot, UiNodeSnapshot, DEFAULT_IMAGE_HANDLE, UI_CAMERA_FAR,
};
use ui_render::geometry::{Affine, ColorRgba, RectI, Vec2i};
use ui_render::material::{MaterialRef, PreparedUiMaterial, RenderUiMaterials};
use ui_render::pass::{DrawCommand, LoadOp, UiCameraConfig, UiPassNode, UiViewEntry};
use ui_render::queue::{RenderPhase, TransparentUi, UiBatchEntity, UiImageBindGroups, sort_phase};
use ui_render::batch::{UiBatch, UiMeta};

fn identity() -> Affine {
    Affine { m00: 1, m01: 0, m10: 0, m11: 1, tx: 0, ty: 0, tz: 0 }
}

fn snapshot(visible: bool, alpha: i64, image: Option<UiImageSnapshot>) -> UiNodeSnapshot {
    UiNodeSnapshot {
        transform: identity(),
        color: ColorRgba { r: 255, g: 255, b: 255, a: alpha },
        calculated_size: Vec2i { x: 4, y: 4 },
        image,
        material: MaterialRef { type_id: 1, instance: 1 },
        visible,
        clip: None,
    }
}

#[test]
fn extraction_skips_invisible_transparent_and_loading_nodes() {
    let mut extracted = ExtractedUiNodes::default();
    let images = vec![50];
    let stack = vec![
        Some(snapshot(true, 255, None)),
        Some(snapshot(false, 255, None)),
        Some(snapshot(true, 0, None)),
        Some(snapshot(true, 255, Some(UiImageSnapshot { texture: 50, flip_x: true, flip_y: false }))),
        Some(snapshot(true, 255, Some(UiImageSnapshot { texture: 60, flip_x: false, flip_y: false }))),
        None,
    ];
    extract_uinodes(&mut extracted, &images, &stack);
    assert_eq!(extracted.uinodes.len(), 2);
    assert_eq!(extracted.uinodes[0].stack_index, 0);
    assert_eq!(extracted.uinodes[0].image, DEFAULT_IMAGE_HANDLE);
    assert!(!extracted.uinodes[0].flip_x);
    assert_eq!(extracted.uinodes[1].stack_index, 3);
    assert_eq!(extracted.uinodes[1].image, 50);
    assert!(extracted.uinodes[1].flip_x);
    // node-local rectangle spans the calculated size from the origin
    assert_eq!(extracted.uinodes[1].rect, RectI {
        min: Vec2i { x: 0, y: 0 },
        max: Vec2i { x: 4, y: 4 },
    });

    reset_extracted_ui_nodes(&mut extracted);
    assert!(extracted.uinodes.is_empty());
}

#[test]
fn text_nodes_expand_into_one_record_per_glyph() {
    let mut atlases: AssocVec<AtlasSnapshot> = AssocVec::new();
    atlases.insert(
        3,
        AtlasSnapshot {
            texture: 33,
            size: Vec2i { x: 256, y: 128 },
            textures: vec![
                RectI { min: Vec2i { x: 0, y: 0 }, max: Vec2i { x: 8, y: 8 } },
                RectI { min: Vec2i { x: 8, y: 0 }, max: Vec2i { x: 20, y: 8 } },
            ],
        },
    );
    let node = TextNodeSnapshot {
        transform: Affine { m00: 1, m01: 0, m10: 0, m11: 1, tx: 100, ty: 200, tz: 5 },
        size: Vec2i { x: 20, y: 10 },
        material: MaterialRef { type_id: 1, instance: 2 },
        visible: true,
        clip: None,
        section_colors: vec![
            ColorRgba { r: 255, g: 0, b: 0, a: 255 },
            ColorRgba { r: 0, g: 0, b: 255, a: 255 },
        ],
        glyphs: vec![
            GlyphSnapshot { section_index: 0, position: Vec2i { x: 2, y: 3 }, atlas: 3, glyph_index: 0 },
            GlyphSnapshot { section_index: 1, position: Vec2i { x: 10, y: 3 }, atlas: 3, glyph_index: 1 },
        ],
    };
    let mut extracted = ExtractedUiNodes::default();
    // display scale factor of exactly one: no compensation
    extract_text_uinodes(&mut extracted, &atlases, &vec![Some(node)], 1, 1);
    assert_eq!(extracted.uinodes.len(), 2);
    let g0 = &extracted.uinodes[0];
    assert_eq!(g0.stack_index, 0);
    assert_eq!(g0.image, 33);
    assert_eq!(g0.atlas_size, Some(Vec2i { x: 256, y: 128 }));
    assert_eq!(g0.color, ColorRgba { r: 255, g: 0, b: 0, a: 255 });
    assert_eq!(g0.rect, RectI { min: Vec2i { x: 0, y: 0 }, max: Vec2i { x: 8, y: 8 } });
    // the transform carries the world translation plus the aligned glyph
    // offset: alignment (-10, -5) plus the glyph position (2, 3)
    assert_eq!(g0.transform.tx, 92);
    assert_eq!(g0.transform.ty, 198);
    assert_eq!(g0.transform.tz, 5);
    let g1 = &extracted.uinodes[1];
    assert_eq!(g1.color, ColorRgba { r: 0, g: 0, b: 255, a: 255 });
    assert_eq!(g1.rect, RectI { min: Vec2i { x: 8, y: 0 }, max: Vec2i { x: 20, y: 8 } });
    assert_eq!(g1.transform.tx, 100);
}

#[test]
fn text_scale_compensation_is_exact_for_rational_factors() {
    let mut atlases: AssocVec<AtlasSnapshot> = AssocVec::new();
    atlases.insert(
        3,
        AtlasSnapshot {
            texture: 33,
            size: Vec2i { x: 64, y: 64 },
            textures: vec![RectI { min: Vec2i { x: 0, y: 0 }, max: Vec2i { x: 8, y: 8 } }],
        },
    );
    let node = TextNodeSnapshot {
        transform: Affine { m00: 2, m01: 0, m10: 0, m11: 2, tx: 0, ty: 0, tz: 0 },
        size: Vec2i { x: 8, y: 8 },
        material: MaterialRef { type_id: 1, instance: 2 },
        visible: true,
        clip: None,
        section_colors: vec![ColorRgba { r: 1, g: 2, b: 3, a: 4 }],
        glyphs: vec![GlyphSnapshot {
            section_index: 0,
            position: Vec2i { x: 6, y: 0 },
            atlas: 3,
            glyph_index: 0,
        }],
    };
    let mut extracted = ExtractedUiNodes::default();
    // display scale factor two: the linear part is halved and the glyph
    // shift is divided by the factor before the world transform applies
    extract_text_uinodes(&mut extracted, &atlases, &vec![Some(node)], 2, 1);
    let g = &extracted.uinodes[0];
    assert_eq!(g.transform.m00, 1);
    assert_eq!(g.transform.m11, 1);
    // alignment -4 scaled by 2 is -8; plus glyph offset 6 is -2; divided
    // by the factor is -1; through the world transform's linear part is -2
    assert_eq!(g.transform.tx, -2);
}

#[test]
fn collapsed_or_invisible_text_nodes_are_skipped() {
    let atlases: AssocVec<AtlasSnapshot> = AssocVec::new();
    let text_node = |visible: bool, w: i64, h: i64| TextNodeSnapshot {
        transform: identity(),
        size: Vec2i { x: w, y: h },
        material: MaterialRef { type_id: 1, instance: 2 },
        visible,
        clip: None,
        section_colors: Vec::new(),
        glyphs: Vec::new(),
    };
    let mut extracted = ExtractedUiNodes::default();
    extract_text_uinodes(&mut extracted, &atlases, &vec![Some(text_node(true, 0, 0)), None], 1, 1);
    assert!(extracted.uinodes.is_empty());
    extract_text_uinodes(&mut extracted, &atlases, &vec![Some(text_node(false, 4, 4))], 1, 1);
    assert!(extracted.uinodes.is_empty());
}

#[test]
fn camera_views_are_extracted_with_fresh_entities() {
    let cameras = vec![
        CameraSnapshot {
            entity: 1,
            camera_ui: Some(UiCameraConfig { show_ui: false }),
            viewport: Some(CameraViewport {
                logical_size: Vec2i { x: 800, y: 600 },
                physical_origin: Vec2i { x: 0, y: 0 },
                physical_size: Vec2i { x: 1600, y: 1200 },
            }),
            hdr: false,
        },
        CameraSnapshot {
            entity: 2,
            camera_ui: None,
            viewport: Some(CameraViewport {
                logical_size: Vec2i { x: 640, y: 480 },
                physical_origin: Vec2i { x: 10, y: 20 },
                physical_size: Vec2i { x: 640, y: 480 },
            }),
            hdr: true,
        },
        CameraSnapshot { entity: 3, camera_ui: None, viewport: None, hdr: false },
    ];
    let mut alloc: u64 = 100;
    let views = extract_default_ui_camera_view(&cameras, &mut alloc);
    // the disabled camera and the viewportless camera are skipped
    assert_eq!(views.len(), 1);
    assert_eq!(views[0].camera, 2);
    assert_eq!(views[0].view, 100);
    assert_eq!(alloc, 101);
    assert!(views[0].hdr);
    assert_eq!(views[0].projection.right, 640);
    assert_eq!(views[0].projection.bottom, 480);
    assert_eq!(views[0].projection.top, 0);
    assert_eq!(views[0].projection.far, UI_CAMERA_FAR);
    assert_eq!(views[0].translation_z, UI_CAMERA_FAR);
    assert_eq!(views[0].viewport_origin, Vec2i { x: 10, y: 20 });
}

#[test]
fn phase_sort_orders_by_depth_and_keeps_ties_stable() {
    let mut phase = RenderPhase {
        items: vec![
            TransparentUi { sort_key: 5, entity: 1, pipeline: 0, draw_function: 0 },
            TransparentUi { sort_key: 1, entity: 2, pipeline: 0, draw_function: 0 },
            TransparentUi { sort_key: 5, entity: 3, pipeline: 0, draw_function: 0 },
            TransparentUi { sort_key: 0, entity: 4, pipeline: 0, draw_function: 0 },
        ],
    };
    sort_phase(&mut phase);
    let order: Vec<(i64, u64)> = phase.items.iter().map(|i| (i.sort_key, i.entity)).collect();
    assert_eq!(order, vec![(0, 4), (1, 2), (5, 1), (5, 3)]);
}

#[test]
fn draw_item_getters_expose_their_fields() {
    let item = TransparentUi { sort_key: 9, entity: 8, pipeline: 7, draw_function: 6 };
    assert_eq!(item.sort_key(), 9);
    assert_eq!(item.entity(), 8);
    assert_eq!(item.cached_pipeline(), 7);
    assert_eq!(item.draw_function(), 6);
}

fn pass_fixture() -> (Vec<UiViewEntry>, Vec<UiBatchEntity>, UiImageBindGroups, RenderUiMaterials, UiMeta) {
    let phase = RenderPhase {
        items: vec![TransparentUi { sort_key: 3, entity: 40, pipeline: 12, draw_function: 2 }],
    };
    let views = vec![UiViewEntry { entity: 7, target: 42, camera_config: None, phase }];
    let batches = vec![UiBatchEntity {
        entity: 40,
        batch: UiBatch {
            range_start: 6,
            range_end: 12,
            image: 50,
            material: MaterialRef { type_id: 1, instance: 4 },
            z: 3,
        },
    }];
    let mut bind_groups = UiImageBindGroups::default();
    bind_groups.values.insert(50, 500);
    let mut materials = RenderUiMaterials::new(1);
    materials.materials.insert(4, PreparedUiMaterial { bind_group: 600, key: 0 });
    let meta = UiMeta { vertices: Vec::new(), view_bind_group: Some(700) };
    (views, batches, bind_groups, materials, meta)
}

#[test]
fn pass_renders_sorted_items_in_order() {
    let (views, batches, bind_groups, materials, meta) = pass_fixture();
    let node = UiPassNode::new();
    let offsets = vec![(7u64, 64u32)];
    let rec = node
        .run(7, &views, &Vec::new(), &meta, 900, &offsets, &bind_groups, &materials, &batches)
        .unwrap();
    assert_eq!(rec.target, 42);
    assert_eq!(rec.load, LoadOp::Load);
    assert_eq!(rec.commands, vec![
        DrawCommand::SetVertexBuffer { slot: 0, buffer: 900 },
        DrawCommand::SetPipeline { pipeline: 12 },
        DrawCommand::SetBindGroup { index: 0, bind_group: 700, dynamic_offset: Some(64) },
        DrawCommand::SetBindGroup { index: 1, bind_group: 500, dynamic_offset: None },
        DrawCommand::SetBindGroup { index: 2, bind_group: 600, dynamic_offset: None },
        DrawCommand::Draw { start: 6, end: 12 },
    ]);
}

#[test]
fn pass_prefers_the_dedicated_ui_camera_view() {
    let (views, batches, bind_groups, materials, meta) = pass_fixture();
    let node = UiPassNode::new();
    // the offset table only knows the dedicated view entity
    let offsets = vec![(99u64, 32u32)];
    let defaults = vec![(7u64, 99u64)];
    let rec = node
        .run(7, &views, &defaults, &meta, 900, &offsets, &bind_groups, &materials, &batches)
        .unwrap();
    assert_eq!(rec.commands[2], DrawCommand::SetBindGroup {
        index: 0,
        bind_group: 700,
        dynamic_offset: Some(32),
    });
}

#[test]
fn pass_no_ops_for_missing_empty_or_disabled_views() {
    let (mut views, batches, bind_groups, materials, meta) = pass_fixture();
    let node = UiPassNode::new();
    let offsets = vec![(7u64, 64u32)];
    // unknown view entity
    assert!(node
        .run(8, &views, &Vec::new(), &meta, 900, &offsets, &bind_groups, &materials, &batches)
        .is_none());
    // UI disabled for the camera
    views[0].camera_config = Some(UiCameraConfig { show_ui: false });
    assert!(node
        .run(7, &views, &Vec::new(), &meta, 900, &offsets, &bind_groups, &materials, &batches)
        .is_none());
    // empty phase
    views[0].camera_config = None;
    views[0].phase.items.clear();
    assert!(node
        .run(7, &views, &Vec::new(), &meta, 900, &offsets, &bind_groups, &materials, &batches)
        .is_none());
}
