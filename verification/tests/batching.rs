use ui_render::batch::{prepare_uinodes, sort_uinodes_by_stack_index, UiMeta, UiVertex};
use ui_render::extract::{extract_uinodes, ExtractedUiNode, ExtractedUiNodes, UiNodeSnapshot};
use ui_render::geometry::{Affine, ColorRgba, RectI, Vec2i, Vec3i, COORD_LIMIT};
use ui_render::material::MaterialRef;

fn identity_at_z(tz: i64) -> Affine {
    Affine { m00: 1, m01: 0, m10: 0, m11: 1, tx: 0, ty: 0, tz }
}

fn white() -> ColorRgba {
    ColorRgba { r: 255, g: 255, b: 255, a: 255 }
}

fn node(stack_index: usize, image: u64, instance: u64, w: i64, h: i64, tz: i64) -> ExtractedUiNode {
    ExtractedUiNode {
        stack_index,
        transform: identity_at_z(tz),
        color: white(),
        rect: RectI { min: Vec2i { x: 0, y: 0 }, max: Vec2i { x: w, y: h } },
        image,
        material: MaterialRef { type_id: 1, instance },
        atlas_size: None,
        clip: None,
        flip_x: false,
        flip_y: false,
    }
}

#[test]
fn empty_stack_yields_no_batches_and_clears_buffer() {
    let mut meta = UiMeta {
        vertices: vec![UiVertex {
            position: Vec3i { x: 1, y: 2, z: 3 },
            uv: Vec2i { x: 0, y: 0 },
            uv_extent: Vec2i { x: 1, y: 1 },
            color: white(),
        }],
        view_bind_group: None,
    };
    let mut extracted = ExtractedUiNodes { uinodes: Vec::new() };
    let batches = prepare_uinodes(&mut meta, &mut extracted);
    assert!(batches.is_empty());
    assert!(meta.vertices.is_empty());
}

#[test]
fn single_quad_has_exact_corners_and_uvs() {
    let mut meta = UiMeta { vertices: Vec::new(), view_bind_group: None };
    let mut extracted = ExtractedUiNodes { uinodes: vec![node(0, 7, 3, 4, 2, 9)] };
    let batches = prepare_uinodes(&mut meta, &mut extracted);
    assert_eq!(batches.len(), 1);
    assert_eq!(batches[0].range_start, 0);
    assert_eq!(batches[0].range_end, 6);
    assert_eq!(batches[0].image, 7);
    assert_eq!(batches[0].material, MaterialRef { type_id: 1, instance: 3 });
    assert_eq!(batches[0].z, 9);
    assert_eq!(meta.vertices.len(), 6);
    // corners: quad of size 4x2 centred on the origin, at depth 9
    let c0 = Vec3i { x: -2, y: -1, z: 9 };
    let c1 = Vec3i { x: 2, y: -1, z: 9 };
    let c2 = Vec3i { x: 2, y: 1, z: 9 };
    let c3 = Vec3i { x: -2, y: 1, z: 9 };
    // triangle-list pattern over the four corners
    assert_eq!(meta.vertices[0].position, c0);
    assert_eq!(meta.vertices[1].position, c2);
    assert_eq!(meta.vertices[2].position, c3);
    assert_eq!(meta.vertices[3].position, c0);
    assert_eq!(meta.vertices[4].position, c1);
    assert_eq!(meta.vertices[5].position, c2);
    // UV numerators are the node rectangle's corners, extent its far corner
    assert_eq!(meta.vertices[0].uv, Vec2i { x: 0, y: 0 });
    assert_eq!(meta.vertices[4].uv, Vec2i { x: 4, y: 0 });
    assert_eq!(meta.vertices[1].uv, Vec2i { x: 4, y: 2 });
    assert_eq!(meta.vertices[2].uv, Vec2i { x: 0, y: 2 });
    assert_eq!(meta.vertices[0].uv_extent, Vec2i { x: 4, y: 2 });
    assert_eq!(meta.vertices[0].color, white());
}

#[test]
fn clip_pushes_corners_inward_never_outward() {
    let mut n = node(0, 1, 1, 4, 4, 0);
    // clip covers the right half of the quad (corners at +-2)
    n.clip = Some(RectI { min: Vec2i { x: 0, y: -2 }, max: Vec2i { x: 2, y: 2 } });
    let mut meta = UiMeta { vertices: Vec::new(), view_bind_group: None };
    let mut extracted = ExtractedUiNodes { uinodes: vec![n] };
    let batches = prepare_uinodes(&mut meta, &mut extracted);
    assert_eq!(batches.len(), 1);
    // left corners pushed right to the clip bound, right corners untouched
    assert_eq!(meta.vertices[0].position, Vec3i { x: 0, y: -2, z: 0 });
    assert_eq!(meta.vertices[4].position, Vec3i { x: 2, y: -2, z: 0 });
    assert_eq!(meta.vertices[1].position, Vec3i { x: 2, y: 2, z: 0 });
    assert_eq!(meta.vertices[2].position, Vec3i { x: 0, y: 2, z: 0 });
    // the clip delta is applied symmetrically to the UV numerators
    assert_eq!(meta.vertices[0].uv, Vec2i { x: 2, y: 0 });
    assert_eq!(meta.vertices[4].uv, Vec2i { x: 4, y: 0 });
}

#[test]
fn clip_containing_quad_adjusts_nothing() {
    let mut n = node(0, 1, 1, 4, 4, 0);
    n.clip = Some(RectI { min: Vec2i { x: -100, y: -100 }, max: Vec2i { x: 100, y: 100 } });
    let mut meta = UiMeta { vertices: Vec::new(), view_bind_group: None };
    let mut extracted = ExtractedUiNodes { uinodes: vec![n] };
    prepare_uinodes(&mut meta, &mut extracted);
    assert_eq!(meta.vertices[0].position, Vec3i { x: -2, y: -2, z: 0 });
    assert_eq!(meta.vertices[1].position, Vec3i { x: 2, y: 2, z: 0 });
}

#[test]
fn fully_clipped_node_is_culled_but_batching_continues() {
    // scenario: an opaque node and a clipped-to-nothing node share a key;
    // one batch comes out, holding only the opaque node's six vertices
    let good = node(0, 1, 1, 4, 4, 5);
    let mut gone = node(1, 1, 1, 4, 4, 8);
    gone.clip = Some(RectI { min: Vec2i { x: 10, y: 10 }, max: Vec2i { x: 12, y: 12 } });
    let mut meta = UiMeta { vertices: Vec::new(), view_bind_group: None };
    let mut extracted = ExtractedUiNodes { uinodes: vec![good, gone] };
    let batches = prepare_uinodes(&mut meta, &mut extracted);
    assert_eq!(batches.len(), 1);
    assert_eq!(meta.vertices.len(), 6);
    assert_eq!(batches[0].range_start, 0);
    assert_eq!(batches[0].range_end, 6);
    // the culled node contributed no vertices, so the batch depth is the
    // surviving node's
    assert_eq!(batches[0].z, 5);
}

#[test]
fn rotated_node_skips_the_cull_test() {
    // a degenerate zero-width quad normally culls, but a transform with
    // shear about the depth axis bypasses the test
    let mut n = node(0, 1, 1, 0, 4, 0);
    n.transform.m10 = 1;
    let mut meta = UiMeta { vertices: Vec::new(), view_bind_group: None };
    let mut extracted = ExtractedUiNodes { uinodes: vec![n] };
    let batches = prepare_uinodes(&mut meta, &mut extracted);
    assert_eq!(batches.len(), 1);
    assert_eq!(meta.vertices.len(), 6);
}

#[test]
fn zero_width_unrotated_node_is_culled() {
    let n = node(0, 1, 1, 0, 4, 0);
    let mut meta = UiMeta { vertices: Vec::new(), view_bind_group: None };
    let mut extracted = ExtractedUiNodes { uinodes: vec![n] };
    let batches = prepare_uinodes(&mut meta, &mut extracted);
    assert!(batches.is_empty());
    assert!(meta.vertices.is_empty());
}

#[test]
fn opaque_transparent_and_clipped_nodes_make_one_batch() {
    // scenario over the whole front half of the pipeline: one opaque, one
    // fully transparent, one clipped-to-nothing node under the same batch
    // key leave exactly one batch with the opaque node's six vertices
    let snap = |visible: bool, alpha: i64, clip: Option<RectI>| UiNodeSnapshot {
        transform: identity_at_z(0),
        color: ColorRgba { r: 255, g: 255, b: 255, a: alpha },
        calculated_size: Vec2i { x: 4, y: 4 },
        image: None,
        material: MaterialRef { type_id: 1, instance: 1 },
        visible,
        clip,
    };
    let far_clip = RectI { min: Vec2i { x: 50, y: 50 }, max: Vec2i { x: 60, y: 60 } };
    let stack = vec![
        Some(snap(true, 255, None)),
        Some(snap(true, 0, None)),
        Some(snap(true, 255, Some(far_clip))),
    ];
    let mut extracted = ExtractedUiNodes { uinodes: Vec::new() };
    extract_uinodes(&mut extracted, &Vec::new(), &stack);
    assert_eq!(extracted.uinodes.len(), 2);
    let mut meta = UiMeta { vertices: Vec::new(), view_bind_group: None };
    let batches = prepare_uinodes(&mut meta, &mut extracted);
    assert_eq!(batches.len(), 1);
    assert_eq!(meta.vertices.len(), 6);
    assert_eq!((batches[0].range_start, batches[0].range_end), (0, 6));
}

#[test]
fn alternating_textures_make_three_batches() {
    // scenario: textures A, B, A at consecutive paint indices yield three
    // batches, not two
    let a0 = node(0, 10, 1, 2, 2, 1);
    let b1 = node(1, 20, 1, 2, 2, 2);
    let a2 = node(2, 10, 1, 2, 2, 3);
    let mut meta = UiMeta { vertices: Vec::new(), view_bind_group: None };
    let mut extracted = ExtractedUiNodes { uinodes: vec![a0, b1, a2] };
    let batches = prepare_uinodes(&mut meta, &mut extracted);
    assert_eq!(batches.len(), 3);
    assert_eq!((batches[0].image, batches[0].range_start, batches[0].range_end), (10, 0, 6));
    assert_eq!((batches[1].image, batches[1].range_start, batches[1].range_end), (20, 6, 12));
    assert_eq!((batches[2].image, batches[2].range_start, batches[2].range_end), (10, 12, 18));
    assert_eq!(batches[0].z, 1);
    assert_eq!(batches[1].z, 2);
    assert_eq!(batches[2].z, 3);
}

#[test]
fn batcher_sorts_by_stack_index_before_batching() {
    // the two nodes with texture 10 are adjacent in paint order even
    // though they were extracted apart, so only two batches come out
    let n2 = node(2, 10, 1, 2, 2, 3);
    let n0 = node(0, 10, 1, 2, 2, 1);
    let n1 = node(1, 10, 1, 2, 2, 2);
    let n3 = node(3, 20, 1, 2, 2, 4);
    let mut meta = UiMeta { vertices: Vec::new(), view_bind_group: None };
    let mut extracted = ExtractedUiNodes { uinodes: vec![n2, n3, n0, n1] };
    let batches = prepare_uinodes(&mut meta, &mut extracted);
    assert_eq!(batches.len(), 2);
    assert_eq!(batches[0].image, 10);
    assert_eq!(batches[0].range_end, 18);
    assert_eq!(batches[1].image, 20);
    // the in-place sort left the collection in paint order
    let indices: Vec<usize> = extracted.uinodes.iter().map(|n| n.stack_index).collect();
    assert_eq!(indices, vec![0, 1, 2, 3]);
}

#[test]
fn sort_is_stable_for_equal_indices() {
    let mut a = node(5, 1, 1, 2, 2, 0);
    a.image = 111;
    let mut b = node(5, 1, 1, 2, 2, 0);
    b.image = 222;
    let mut v = vec![a, b];
    sort_uinodes_by_stack_index(&mut v);
    assert_eq!(v[0].image, 111);
    assert_eq!(v[1].image, 222);
}

#[test]
fn flips_permute_corner_uvs() {
    let mut n = node(0, 1, 1, 4, 2, 0);
    n.flip_x = true;
    let mut meta = UiMeta { vertices: Vec::new(), view_bind_group: None };
    let mut extracted = ExtractedUiNodes { uinodes: vec![n] };
    prepare_uinodes(&mut meta, &mut extracted);
    // with a horizontal flip, corner 0 samples what corner 1 would
    assert_eq!(meta.vertices[0].uv, Vec2i { x: 4, y: 0 });
    assert_eq!(meta.vertices[4].uv, Vec2i { x: 0, y: 0 });
    assert_eq!(meta.vertices[1].uv, Vec2i { x: 0, y: 2 });
    assert_eq!(meta.vertices[2].uv, Vec2i { x: 4, y: 2 });

    let mut m = node(0, 1, 1, 4, 2, 0);
    m.flip_y = true;
    let mut meta2 = UiMeta { vertices: Vec::new(), view_bind_group: None };
    let mut extracted2 = ExtractedUiNodes { uinodes: vec![m] };
    prepare_uinodes(&mut meta2, &mut extracted2);
    assert_eq!(meta2.vertices[0].uv, Vec2i { x: 0, y: 2 });
    assert_eq!(meta2.vertices[4].uv, Vec2i { x: 4, y: 2 });
    assert_eq!(meta2.vertices[1].uv, Vec2i { x: 4, y: 0 });
    assert_eq!(meta2.vertices[2].uv, Vec2i { x: 0, y: 0 });
}

#[test]
fn atlas_extent_overrides_rect_extent() {
    let mut n = node(0, 1, 1, 4, 2, 0);
    n.atlas_size = Some(Vec2i { x: 512, y: 256 });
    let mut meta = UiMeta { vertices: Vec::new(), view_bind_group: None };
    let mut extracted = ExtractedUiNodes { uinodes: vec![n] };
    prepare_uinodes(&mut meta, &mut extracted);
    assert_eq!(meta.vertices[0].uv_extent, Vec2i { x: 512, y: 256 });
}

#[test]
fn largest_representable_node_still_batches_exactly() {
    let n = node(0, 1, 1, COORD_LIMIT, COORD_LIMIT, COORD_LIMIT);
    let mut meta = UiMeta { vertices: Vec::new(), view_bind_group: None };
    let mut extracted = ExtractedUiNodes { uinodes: vec![n] };
    let batches = prepare_uinodes(&mut meta, &mut extracted);
    assert_eq!(batches.len(), 1);
    let half = COORD_LIMIT / 2;
    assert_eq!(meta.vertices[0].position, Vec3i { x: -half, y: -half, z: COORD_LIMIT });
    assert_eq!(meta.vertices[1].position, Vec3i {
        x: COORD_LIMIT - half,
        y: COORD_LIMIT - half,
        z: COORD_LIMIT,
    });
}

#[test]
fn translated_node_quad_follows_the_transform() {
    let mut n = node(0, 1, 1, 2, 2, 0);
    n.transform.tx = 100;
    n.transform.ty = 50;
    let mut meta = UiMeta { vertices: Vec::new(), view_bind_group: None };
    let mut extracted = ExtractedUiNodes { uinodes: vec![n] };
    prepare_uinodes(&mut meta, &mut extracted);
    assert_eq!(meta.vertices[0].position, Vec3i { x: 99, y: 49, z: 0 });
    assert_eq!(meta.vertices[1].position, Vec3i { x: 101, y: 51, z: 0 });
}
