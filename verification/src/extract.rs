//! Frame-local extracted representation of UI nodes, and the extraction
//! passes that fill it from a committed scene snapshot.

use vstd::prelude::*;
use crate::cache::AssocVec;
use crate::geometry::{
    in_coord, in_corner, lemma_mul_bound, Affine, ColorRgba, RectI, Vec2i, COORD_LIMIT,
};
use crate::material::MaterialRef;
use crate::pass::UiCameraConfig;

verus! {

/// Labels for the extraction stage, used by the embedding to order its
/// per-frame schedule.
#[derive(Clone, Copy, PartialEq, Eq, Structural, Hash, Debug)]
pub enum RenderUiSystem {
    ExtractNode,
}

/// Texture identity a node without an image of its own is drawn with.
pub const DEFAULT_IMAGE_HANDLE: u64 = 0;

/// One UI node's visual state, extracted for the current frame.
///
/// `stack_index` is the paint-order index (lowest drawn first, furthest
/// back); the batcher re-sorts by it. The rectangle is node-local; the clip
/// rectangle is in world space.
#[derive(Clone, Copy, Debug)]
pub struct ExtractedUiNode {
    pub stack_index: usize,
    pub transform: Affine,
    pub color: ColorRgba,
    pub rect: RectI,
    pub image: u64,
    pub material: MaterialRef,
    pub atlas_size: Option<Vec2i>,
    pub clip: Option<RectI>,
    pub flip_x: bool,
    pub flip_y: bool,
}

impl ExtractedUiNode {
    /// Coordinates are within the fixed-point range the quad arithmetic
    /// needs.
    pub open spec fn wf(self) -> bool {
        &&& self.transform.wf()
        &&& self.rect.wf()
        &&& match self.clip {
            Some(c) => c.wf(),
            None => true,
        }
    }
}

/// The frame-scoped collection of extracted nodes. Cleared before each
/// extraction pass; insertion order need not match `stack_index`.
pub struct ExtractedUiNodes {
    pub uinodes: Vec<ExtractedUiNode>,
}

impl Default for ExtractedUiNodes {
    /// An empty collection.
    fn default() -> (r: Self)
        ensures
            r.uinodes@.len() == 0,
    {
        ExtractedUiNodes { uinodes: Vec::new() }
    }
}

/// Clears the shared collection at the start of a frame.
pub fn reset_extracted_ui_nodes(extracted_uinodes: &mut ExtractedUiNodes)
    ensures
        final(extracted_uinodes).uinodes@.len() == 0,
{
    extracted_uinodes.uinodes.clear();
}

/// An image-backed node's texture reference and flips.
#[derive(Clone, Copy, PartialEq, Eq, Structural, Debug)]
pub struct UiImageSnapshot {
    pub texture: u64,
    pub flip_x: bool,
    pub flip_y: bool,
}

/// One UI node's visual attributes in the committed scene snapshot, in
/// paint order within the stack handed to extraction.
#[derive(Clone, Copy, PartialEq, Eq, Structural, Debug)]
pub struct UiNodeSnapshot {
    pub transform: Affine,
    pub color: ColorRgba,
    pub calculated_size: Vec2i,
    pub image: Option<UiImageSnapshot>,
    pub material: MaterialRef,
    pub visible: bool,
    pub clip: Option<RectI>,
}

/// Whether a snapshot node contributes this frame: it must be visible, not
/// fully transparent, and its texture (if image-backed) must be resident.
pub open spec fn node_included(n: UiNodeSnapshot, images: Seq<u64>) -> bool {
    &&& n.visible
    &&& n.color.a != 0
    &&& match n.image {
        Some(img) => images.contains(img.texture),
        None => true,
    }
}

/// The record extracted for the node at paint index `i`.
pub open spec fn spec_node_record(i: int, n: UiNodeSnapshot) -> ExtractedUiNode {
    ExtractedUiNode {
        stack_index: i as usize,
        transform: n.transform,
        color: n.color,
        rect: RectI { min: Vec2i { x: 0, y: 0 }, max: n.calculated_size },
        image: match n.image {
            Some(img) => img.texture,
            None => DEFAULT_IMAGE_HANDLE,
        },
        material: n.material,
        atlas_size: None,
        clip: n.clip,
        flip_x: match n.image {
            Some(img) => img.flip_x,
            None => false,
        },
        flip_y: match n.image {
            Some(img) => img.flip_y,
            None => false,
        },
    }
}

/// The records extracted from a stack prefix: one per included node, in
/// paint order; an entry is `None` where the stack's node does not carry
/// this pass's material.
pub open spec fn spec_extract_uinodes(
    stack: Seq<Option<UiNodeSnapshot>>,
    images: Seq<u64>,
) -> Seq<ExtractedUiNode>
    decreases stack.len(),
{
    if stack.len() == 0 {
        Seq::empty()
    } else {
        spec_extract_uinodes(stack.drop_last(), images) + match stack.last() {
            Some(n) => if node_included(n, images) {
                seq![spec_node_record(stack.len() - 1, n)]
            } else {
                Seq::empty()
            },
            None => Seq::empty(),
        }
    }
}

/// The node extractor: walks the paint-order stack and appends one record
/// per visible, non-transparent node whose texture is resident; a node
/// whose image is still loading contributes nothing this frame (not an
/// error). Nodes without an image use the default texture without flips.
pub fn extract_uinodes(
    extracted_uinodes: &mut ExtractedUiNodes,
    images: &Vec<u64>,
    ui_stack: &Vec<Option<UiNodeSnapshot>>,
)
    ensures
        final(extracted_uinodes).uinodes@ == old(extracted_uinodes).uinodes@
            + spec_extract_uinodes(ui_stack@, images@),
{
    let mut i: usize = 0;
    while i < ui_stack.len()
        invariant
            i <= ui_stack@.len(),
            extracted_uinodes.uinodes@ == old(extracted_uinodes).uinodes@ + spec_extract_uinodes(
                ui_stack@.subrange(0, i as int),
                images@,
            ),
        decreases ui_stack@.len() - i,
    {
        proof {
            assert(ui_stack@.subrange(0, i + 1).drop_last() =~= ui_stack@.subrange(0, i as int));
            assert(ui_stack@.subrange(0, i + 1).last() == ui_stack@[i as int]);
        }
        match ui_stack[i] {
            Some(n) => {
                let included = if !n.visible {
                    false
                } else if n.color.a == 0 {
                    false
                } else {
                    match n.image {
                        Some(img) => crate::material::vec_contains_u64(images, img.texture),
                        None => true,
                    }
                };
                if included {
                    let (image, flip_x, flip_y) = match n.image {
                        Some(img) => (img.texture, img.flip_x, img.flip_y),
                        None => (DEFAULT_IMAGE_HANDLE, false, false),
                    };
                    extracted_uinodes.uinodes.push(
                        ExtractedUiNode {
                            stack_index: i,
                            transform: n.transform,
                            color: n.color,
                            rect: RectI { min: (Vec2i { x: 0, y: 0 }), max: n.calculated_size },
                            image,
                            material: n.material,
                            atlas_size: None,
                            clip: n.clip,
                            flip_x,
                            flip_y,
                        },
                    );
                    proof {
                        assert(extracted_uinodes.uinodes@ =~= old(extracted_uinodes).uinodes@
                            + spec_extract_uinodes(ui_stack@.subrange(0, i + 1), images@));
                    }
                } else {
                    proof {
                        assert(extracted_uinodes.uinodes@ =~= old(extracted_uinodes).uinodes@
                            + spec_extract_uinodes(ui_stack@.subrange(0, i + 1), images@));
                    }
                }
            },
            None => {
                proof {
                    assert(extracted_uinodes.uinodes@ =~= old(extracted_uinodes).uinodes@
                        + spec_extract_uinodes(ui_stack@.subrange(0, i + 1), images@));
                }
            },
        }
        i += 1;
    }
    proof {
        assert(ui_stack@.subrange(0, ui_stack@.len() as int) =~= ui_stack@);
    }
}

/// Quotient of `a / b` truncated toward zero, for positive `b`.
pub open spec fn sdiv(a: int, b: int) -> int {
    if a >= 0 {
        a / b
    } else {
        -((-a) / b)
    }
}

/// Computes `a * p / q` truncated toward zero.
fn rational_scale(a: i64, p: i64, q: i64) -> (r: i64)
    requires
        0 < p <= COORD_LIMIT,
        0 < q <= COORD_LIMIT,
        -2 * (COORD_LIMIT as int) <= a as int <= 2 * (COORD_LIMIT as int),
    ensures
        r as int == sdiv(a as int * p as int, q as int),
        -2 * (COORD_LIMIT as int) * (COORD_LIMIT as int) <= r as int,
        r as int <= 2 * (COORD_LIMIT as int) * (COORD_LIMIT as int),
{
    proof {
        lemma_mul_bound(a as int, p as int, 2 * (COORD_LIMIT as int), COORD_LIMIT as int);
        if a >= 0 {
            assert(a as int * p as int >= 0) by (nonlinear_arith)
                requires
                    a >= 0,
                    p >= 0,
            ;
            vstd::arithmetic::div_mod::lemma_div_nonincreasing(a as int * p as int, q as int);
        } else {
            assert(a as int * p as int <= 0 && (-a) as int * p as int == -(a as int * p as int))
                by (nonlinear_arith)
                requires
                    a < 0,
                    p >= 0,
            ;
            vstd::arithmetic::div_mod::lemma_div_nonincreasing(-(a as int * p as int), q as int);
        }
    }
    if a >= 0 {
        (((a as u64) * (p as u64)) / (q as u64)) as i64
    } else {
        -(((((-a) as u64) * (p as u64)) / (q as u64)) as i64)
    }
}

/// One glyph produced by text shaping: the section it belongs to, its
/// offset within the node, and its atlas cell.
#[derive(Clone, Copy, PartialEq, Eq, Structural, Debug)]
pub struct GlyphSnapshot {
    pub section_index: usize,
    pub position: Vec2i,
    pub atlas: u64,
    pub glyph_index: usize,
}

/// A glyph atlas: its texture, its extent, and the cell rectangle of each
/// glyph it holds.
pub struct AtlasSnapshot {
    pub texture: u64,
    pub size: Vec2i,
    pub textures: Vec<RectI>,
}

/// One text-bearing node in the committed scene snapshot.
pub struct TextNodeSnapshot {
    pub transform: Affine,
    pub size: Vec2i,
    pub material: MaterialRef,
    pub visible: bool,
    pub clip: Option<RectI>,
    pub section_colors: Vec<ColorRgba>,
    pub glyphs: Vec<GlyphSnapshot>,
}

/// Whether a text node contributes: it must be visible and of non-zero
/// size (a collapsed node is laid out but not drawn).
pub open spec fn text_included(n: TextNodeSnapshot) -> bool {
    n.visible && !(n.size.x == 0 && n.size.y == 0)
}

/// The alignment offset's component for one extent: half the extent,
/// negated (text layout is centred on the transform origin).
pub open spec fn spec_align(extent: int) -> int {
    -(extent / 2)
}

/// The pre-compensation translation of a glyph: the alignment offset
/// scaled up by the display factor `num / den`, plus the glyph's offset.
pub open spec fn spec_glyph_shift_x(n: TextNodeSnapshot, g: GlyphSnapshot, num: int, den: int) -> int {
    sdiv(spec_align(n.size.x as int) * num, den) + g.position.x
}

pub open spec fn spec_glyph_shift_y(n: TextNodeSnapshot, g: GlyphSnapshot, num: int, den: int) -> int {
    sdiv(spec_align(n.size.y as int) * num, den) + g.position.y
}

/// The transform of one glyph's quad: the node's world transform, composed
/// with the display-scale compensation `den / num` and the translation to
/// the glyph, every quotient truncated toward zero.
pub open spec fn spec_text_transform(
    n: TextNodeSnapshot,
    g: GlyphSnapshot,
    num: int,
    den: int,
) -> Affine {
    let w = n.transform;
    let svx = sdiv(spec_glyph_shift_x(n, g, num, den) * den, num);
    let svy = sdiv(spec_glyph_shift_y(n, g, num, den) * den, num);
    Affine {
        m00: sdiv(w.m00 * den, num) as i64,
        m01: sdiv(w.m01 * den, num) as i64,
        m10: sdiv(w.m10 * den, num) as i64,
        m11: sdiv(w.m11 * den, num) as i64,
        tx: (w.m00 * svx + w.m01 * svy + w.tx) as i64,
        ty: (w.m10 * svx + w.m11 * svy + w.ty) as i64,
        tz: w.tz,
    }
}

/// The ranges under which a glyph's arithmetic stays exact and its record
/// well-formed: indices in bounds, its atlas known, and every derived
/// coordinate within the fixed-point range.
pub open spec fn text_glyph_ok(
    n: TextNodeSnapshot,
    g: GlyphSnapshot,
    atlases: Map<u64, AtlasSnapshot>,
    num: int,
    den: int,
) -> bool {
    let vx = spec_glyph_shift_x(n, g, num, den);
    let vy = spec_glyph_shift_y(n, g, num, den);
    let t = spec_text_transform(n, g, num, den);
    &&& (g.section_index as int) < n.section_colors@.len()
    &&& atlases.contains_key(g.atlas)
    &&& (g.glyph_index as int) < atlases[g.atlas].textures@.len()
    &&& in_coord(g.position.x as int)
    &&& in_coord(g.position.y as int)
    &&& -2 * (COORD_LIMIT as int) <= vx <= 2 * (COORD_LIMIT as int)
    &&& -2 * (COORD_LIMIT as int) <= vy <= 2 * (COORD_LIMIT as int)
    &&& in_corner(sdiv(vx * den, num))
    &&& in_corner(sdiv(vy * den, num))
    &&& in_coord(sdiv(n.transform.m00 * den, num))
    &&& in_coord(sdiv(n.transform.m01 * den, num))
    &&& in_coord(sdiv(n.transform.m10 * den, num))
    &&& in_coord(sdiv(n.transform.m11 * den, num))
    &&& in_coord(t.tx as int)
    &&& in_coord(t.ty as int)
}

/// Ranges and bounds a whole text node needs.
pub open spec fn text_node_ok(
    n: TextNodeSnapshot,
    atlases: Map<u64, AtlasSnapshot>,
    num: int,
    den: int,
) -> bool {
    &&& n.transform.wf()
    &&& match n.clip {
        Some(c) => c.wf(),
        None => true,
    }
    &&& 0 <= n.size.x <= COORD_LIMIT
    &&& 0 <= n.size.y <= COORD_LIMIT
    &&& forall|j: int|
        0 <= j < n.glyphs@.len() ==> text_glyph_ok(n, #[trigger] n.glyphs@[j], atlases, num, den)
}

/// The record extracted for one glyph of the node at paint index `i`: the
/// atlas cell as the rectangle, the atlas texture and extent, the glyph's
/// section color, and the composed transform.
pub open spec fn spec_text_record(
    i: int,
    n: TextNodeSnapshot,
    g: GlyphSnapshot,
    atlases: Map<u64, AtlasSnapshot>,
    num: int,
    den: int,
) -> ExtractedUiNode {
    ExtractedUiNode {
        stack_index: i as usize,
        transform: spec_text_transform(n, g, num, den),
        color: n.section_colors@[g.section_index as int],
        rect: atlases[g.atlas].textures@[g.glyph_index as int],
        image: atlases[g.atlas].texture,
        material: n.material,
        atlas_size: Some(atlases[g.atlas].size),
        clip: n.clip,
        flip_x: false,
        flip_y: false,
    }
}

/// The records of one node's first `k` glyphs, in glyph order.
pub open spec fn spec_text_node_records(
    i: int,
    n: TextNodeSnapshot,
    atlases: Map<u64, AtlasSnapshot>,
    num: int,
    den: int,
    k: int,
) -> Seq<ExtractedUiNode>
    decreases k,
{
    if k <= 0 {
        Seq::empty()
    } else {
        spec_text_node_records(i, n, atlases, num, den, k - 1).push(
            spec_text_record(i, n, n.glyphs@[k - 1], atlases, num, den),
        )
    }
}

/// The records extracted from a text stack prefix: every included node
/// expands into one record per glyph.
pub open spec fn spec_extract_text(
    stack: Seq<Option<TextNodeSnapshot>>,
    atlases: Map<u64, AtlasSnapshot>,
    num: int,
    den: int,
) -> Seq<ExtractedUiNode>
    decreases stack.len(),
{
    if stack.len() == 0 {
        Seq::empty()
    } else {
        spec_extract_text(stack.drop_last(), atlases, num, den) + match stack.last() {
            Some(n) => if text_included(n) {
                spec_text_node_records(
                    stack.len() - 1,
                    n,
                    atlases,
                    num,
                    den,
                    n.glyphs@.len() as int,
                )
            } else {
                Seq::empty()
            },
            None => Seq::empty(),
        }
    }
}

/// The text extractor: expands every visible, non-collapsed text node into
/// one record per glyph, inheriting the glyph's section color and atlas
/// geometry, with a transform composed from the node's world transform, the
/// centring alignment offset and the display-scale compensation, given as
/// the exact rational `num / den`.
#[verifier::rlimit(100)]
#[verifier::loop_isolation(false)]
pub fn extract_text_uinodes(
    extracted_uinodes: &mut ExtractedUiNodes,
    atlases: &AssocVec<AtlasSnapshot>,
    ui_stack: &Vec<Option<TextNodeSnapshot>>,
    scale_num: i64,
    scale_den: i64,
)
    requires
        atlases.wf(),
        0 < scale_num <= COORD_LIMIT,
        0 < scale_den <= COORD_LIMIT,
        forall|i: int|
            0 <= i < ui_stack@.len() ==> match #[trigger] ui_stack@[i] {
                Some(n) => text_included(n) ==> text_node_ok(
                    n,
                    atlases@,
                    scale_num as int,
                    scale_den as int,
                ),
                None => true,
            },
    ensures
        final(extracted_uinodes).uinodes@ == old(extracted_uinodes).uinodes@ + spec_extract_text(
            ui_stack@,
            atlases@,
            scale_num as int,
            scale_den as int,
        ),
{
    let ghost num = scale_num as int;
    let ghost den = scale_den as int;
    let ghost base = old(extracted_uinodes).uinodes@;
    let mut i: usize = 0;
    while i < ui_stack.len()
        invariant
            i <= ui_stack@.len(),
            extracted_uinodes.uinodes@ == base + spec_extract_text(
                ui_stack@.subrange(0, i as int),
                atlases@,
                num,
                den,
            ),
        decreases ui_stack@.len() - i,
    {
        proof {
            assert(ui_stack@.subrange(0, i + 1).drop_last() =~= ui_stack@.subrange(0, i as int));
            assert(ui_stack@.subrange(0, i + 1).last() == ui_stack@[i as int]);
        }
        match &ui_stack[i] {
            Some(n) => {
                if n.visible && !(n.size.x == 0 && n.size.y == 0) {
                    assert(text_node_ok(*n, atlases@, num, den));
                    let hx = n.size.x / 2;
                    let hy = n.size.y / 2;
                    assert(hx as int == n.size.x as int / 2 && hy as int == n.size.y as int / 2);
                    let align_sx = rational_scale(-hx, scale_num, scale_den);
                    let align_sy = rational_scale(-hy, scale_num, scale_den);
                    let ghost pre = spec_extract_text(
                        ui_stack@.subrange(0, i as int),
                        atlases@,
                        num,
                        den,
                    );
                    let mut k: usize = 0;
                    while k < n.glyphs.len()
                        invariant
                            k <= n.glyphs@.len(),
                            extracted_uinodes.uinodes@ == base + pre + spec_text_node_records(
                                i as int,
                                *n,
                                atlases@,
                                num,
                                den,
                                k as int,
                            ),
                        decreases n.glyphs@.len() - k,
                    {
                        let g = n.glyphs[k];
                        assert(text_glyph_ok(*n, g, atlases@, num, den));
                        let vx = align_sx + g.position.x;
                        let vy = align_sy + g.position.y;
                        assert(vx as int == spec_glyph_shift_x(*n, g, num, den));
                        assert(vy as int == spec_glyph_shift_y(*n, g, num, den));
                        let svx = rational_scale(vx, scale_den, scale_num);
                        let svy = rational_scale(vy, scale_den, scale_num);
                        let m00 = rational_scale(n.transform.m00, scale_den, scale_num);
                        let m01 = rational_scale(n.transform.m01, scale_den, scale_num);
                        let m10 = rational_scale(n.transform.m10, scale_den, scale_num);
                        let m11 = rational_scale(n.transform.m11, scale_den, scale_num);
                        let t = n.transform.apply(svx, svy);
                        let composed = Affine {
                            m00,
                            m01,
                            m10,
                            m11,
                            tx: t.x,
                            ty: t.y,
                            tz: n.transform.tz,
                        };
                        assert(composed == spec_text_transform(*n, g, num, den));
                        let atlas = match atlases.get(g.atlas) {
                            Some(a) => a,
                            None => {
                                proof {
                                    assert(false);
                                }
                                vstd::pervasive::unreached()
                            },
                        };
                        let color = n.section_colors[g.section_index];
                        let rect = atlas.textures[g.glyph_index];
                        extracted_uinodes.uinodes.push(
                            ExtractedUiNode {
                                stack_index: i,
                                transform: composed,
                                color,
                                rect,
                                image: atlas.texture,
                                material: n.material,
                                atlas_size: Some(atlas.size),
                                clip: n.clip,
                                flip_x: false,
                                flip_y: false,
                            },
                        );
                        proof {
                            assert(extracted_uinodes.uinodes@ =~= base + pre
                                + spec_text_node_records(
                                i as int,
                                *n,
                                atlases@,
                                num,
                                den,
                                k as int + 1,
                            ));
                        }
                        k += 1;
                    }
                    proof {
                        assert(extracted_uinodes.uinodes@ =~= base + spec_extract_text(
                            ui_stack@.subrange(0, i + 1),
                            atlases@,
                            num,
                            den,
                        ));
                    }
                } else {
                    proof {
                        assert(extracted_uinodes.uinodes@ =~= base + spec_extract_text(
                            ui_stack@.subrange(0, i + 1),
                            atlases@,
                            num,
                            den,
                        ));
                    }
                }
            },
            None => {
                proof {
                    assert(extracted_uinodes.uinodes@ =~= base + spec_extract_text(
                        ui_stack@.subrange(0, i + 1),
                        atlases@,
                        num,
                        den,
                    ));
                }
            },
        }
        i += 1;
    }
    proof {
        assert(ui_stack@.subrange(0, ui_stack@.len() as int) =~= ui_stack@);
    }
}

/// The UI camera is "moved back" by this many depth units and given this
/// far distance, so that stacked UI elements stay within view with room to
/// grow.
pub const UI_CAMERA_FAR: i64 = 1000;

/// Marks a camera entity's dedicated UI view entity.
#[derive(Clone, Copy, PartialEq, Eq, Structural, Debug)]
pub struct DefaultCameraView(pub u64);

/// A camera's viewport, when it has one: its logical size, and the
/// physical origin and size of the rectangle it covers.
#[derive(Clone, Copy, PartialEq, Eq, Structural, Debug)]
pub struct CameraViewport {
    pub logical_size: Vec2i,
    pub physical_origin: Vec2i,
    pub physical_size: Vec2i,
}

/// One camera in the committed scene snapshot.
#[derive(Clone, Copy, PartialEq, Eq, Structural, Debug)]
pub struct CameraSnapshot {
    pub entity: u64,
    pub camera_ui: Option<UiCameraConfig>,
    pub viewport: Option<CameraViewport>,
    pub hdr: bool,
}

/// An orthographic projection with the origin in the top left: `top` and
/// `near` are zero, `right` and `bottom` span the logical viewport.
#[derive(Clone, Copy, PartialEq, Eq, Structural, Debug)]
pub struct OrthoProjection {
    pub left: i64,
    pub right: i64,
    pub bottom: i64,
    pub top: i64,
    pub near: i64,
    pub far: i64,
}

/// The dedicated UI view extracted for one camera: the freshly allocated
/// view entity, its top-left orthographic projection over the camera's
/// logical viewport, the backed-off camera depth, the HDR flag and the
/// physical viewport.
#[derive(Clone, Copy, PartialEq, Eq, Structural, Debug)]
pub struct ExtractedCameraView {
    pub camera: u64,
    pub view: u64,
    pub projection: OrthoProjection,
    pub translation_z: i64,
    pub hdr: bool,
    pub viewport_origin: Vec2i,
    pub viewport_size: Vec2i,
}

/// A camera gets a UI view unless its UI layer is disabled, and only once
/// its viewport is known.
pub open spec fn camera_included(c: CameraSnapshot) -> bool {
    &&& match c.camera_ui {
        Some(cfg) => cfg.show_ui,
        None => true,
    }
    &&& c.viewport is Some
}

/// The view record extracted for a camera, under a given view entity.
pub open spec fn spec_camera_view(c: CameraSnapshot, view: u64) -> ExtractedCameraView {
    let vp = c.viewport.unwrap();
    ExtractedCameraView {
        camera: c.entity,
        view,
        projection: OrthoProjection {
            left: 0,
            right: vp.logical_size.x,
            bottom: vp.logical_size.y,
            top: 0,
            near: 0,
            far: UI_CAMERA_FAR,
        },
        translation_z: UI_CAMERA_FAR,
        hdr: c.hdr,
        viewport_origin: vp.physical_origin,
        viewport_size: vp.physical_size,
    }
}

/// The views extracted for a camera-list prefix, allocating view entities
/// from `next` upward in order.
pub open spec fn spec_extract_camera_views(
    cameras: Seq<CameraSnapshot>,
    next: int,
) -> Seq<ExtractedCameraView>
    decreases cameras.len(),
{
    if cameras.len() == 0 {
        Seq::empty()
    } else {
        let pre = spec_extract_camera_views(cameras.drop_last(), next);
        if camera_included(cameras.last()) {
            pre.push(spec_camera_view(cameras.last(), (next + pre.len()) as u64))
        } else {
            pre
        }
    }
}

/// Extracts one dedicated orthographic UI view per camera: cameras whose
/// UI layer is disabled are ignored, as are cameras whose viewport is not
/// yet known; each extracted view gets a fresh view entity.
pub fn extract_default_ui_camera_view(cameras: &Vec<CameraSnapshot>, entity_alloc: &mut u64) -> (r:
    Vec<ExtractedCameraView>)
    requires
        (*old(entity_alloc)) as int + cameras@.len() <= u64::MAX as int,
    ensures
        r@ == spec_extract_camera_views(cameras@, (*old(entity_alloc)) as int),
        (*final(entity_alloc)) as int == (*old(entity_alloc)) as int + r@.len(),
{
    let mut out: Vec<ExtractedCameraView> = Vec::new();
    let mut i: usize = 0;
    while i < cameras.len()
        invariant
            i <= cameras@.len(),
            out@ == spec_extract_camera_views(
                cameras@.subrange(0, i as int),
                (*old(entity_alloc)) as int,
            ),
            (*entity_alloc) as int == (*old(entity_alloc)) as int + out@.len(),
            (*entity_alloc) as int + (cameras@.len() - i) <= u64::MAX as int,
        decreases cameras@.len() - i,
    {
        proof {
            assert(cameras@.subrange(0, i + 1).drop_last() =~= cameras@.subrange(0, i as int));
            assert(cameras@.subrange(0, i + 1).last() == cameras@[i as int]);
        }
        let c = cameras[i];
        let enabled = match c.camera_ui {
            Some(cfg) => cfg.show_ui,
            None => true,
        };
        if enabled {
            match c.viewport {
                Some(vp) => {
                    let view = *entity_alloc;
                    *entity_alloc = *entity_alloc + 1;
                    out.push(
                        ExtractedCameraView {
                            camera: c.entity,
                            view,
                            projection: OrthoProjection {
                                left: 0,
                                right: vp.logical_size.x,
                                bottom: vp.logical_size.y,
                                top: 0,
                                near: 0,
                                far: UI_CAMERA_FAR,
                            },
                            translation_z: UI_CAMERA_FAR,
                            hdr: c.hdr,
                            viewport_origin: vp.physical_origin,
                            viewport_size: vp.physical_size,
                        },
                    );
                },
                None => {},
            }
        }
        i += 1;
    }
    proof {
        assert(cameras@.subrange(0, cameras@.len() as int) =~= cameras@);
    }
    out
}

} // verus!
