//! The geometry batcher: sorts extracted nodes by paint order, generates
//! clipped quad vertices and UVs, culls collapsed quads, and groups
//! contiguous same-(texture, material) runs into batches over a shared
//! vertex buffer.

use vstd::prelude::*;
use crate::geometry::{ColorRgba, RectI, Vec2i, Vec3i, lemma_mul_distrib_sub, lemma_mul_mono};
use crate::extract::{ExtractedUiNode, ExtractedUiNodes};
use crate::material::MaterialRef;

verus! {

/// One vertex of the shared per-frame vertex buffer. The UV is stored as an
/// exact numerator together with the atlas extent it is normalized by; the
/// embedding performs the division when it packs the buffer.
#[derive(Clone, Copy, PartialEq, Eq, Structural, Debug)]
pub struct UiVertex {
    pub position: Vec3i,
    pub uv: Vec2i,
    pub uv_extent: Vec2i,
    pub color: ColorRgba,
}

/// Per-frame renderer metadata: the shared vertex buffer, rewritten in place
/// every frame, and the per-frame view bind group.
pub struct UiMeta {
    pub vertices: Vec<UiVertex>,
    pub view_bind_group: Option<u64>,
}

impl Default for UiMeta {
    /// An empty vertex buffer and no view bind group.
    fn default() -> (r: Self)
        ensures
            r.vertices@.len() == 0,
            r.view_bind_group is None,
    {
        UiMeta { vertices: Vec::new(), view_bind_group: None }
    }
}

/// One draw batch: a non-empty half-open vertex range sharing one
/// (texture, material) pair, with the depth of its last surviving node.
#[derive(Clone, Copy, PartialEq, Eq, Structural, Debug)]
pub struct UiBatch {
    pub range_start: u32,
    pub range_end: u32,
    pub image: u64,
    pub material: MaterialRef,
    pub z: i64,
}

pub open spec fn smax(a: int, b: int) -> int {
    if a >= b { a } else { b }
}

pub open spec fn smin(a: int, b: int) -> int {
    if a <= b { a } else { b }
}

/// Quad corner offsets in node-local space, corner `j` counter-clockwise
/// from the bottom-left; the quad is the node rectangle's size, centred on
/// the transform origin (odd extents round the centre down).
pub open spec fn corner_local_x(n: ExtractedUiNode, j: int) -> int {
    let w = n.rect.spec_width();
    let hw = w / 2;
    if j == 1 || j == 2 { w - hw } else { -hw }
}

pub open spec fn corner_local_y(n: ExtractedUiNode, j: int) -> int {
    let h = n.rect.spec_height();
    let hh = h / 2;
    if j == 2 || j == 3 { h - hh } else { -hh }
}

/// World-space quad corner positions.
pub open spec fn pos_x(n: ExtractedUiNode, j: int) -> int {
    n.transform.spec_apply_x(corner_local_x(n, j), corner_local_y(n, j))
}

pub open spec fn pos_y(n: ExtractedUiNode, j: int) -> int {
    n.transform.spec_apply_y(corner_local_x(n, j), corner_local_y(n, j))
}

/// Per-corner clip delta along x: each corner is pushed inward by the amount
/// it protrudes past the clip bound on its side, never outward.
pub open spec fn delta_x(n: ExtractedUiNode, j: int) -> int {
    match n.clip {
        Some(c) => {
            if j == 1 || j == 2 {
                smin(c.max.x - pos_x(n, j), 0)
            } else {
                smax(c.min.x - pos_x(n, j), 0)
            }
        },
        None => 0,
    }
}

pub open spec fn delta_y(n: ExtractedUiNode, j: int) -> int {
    match n.clip {
        Some(c) => {
            if j == 2 || j == 3 {
                smin(c.max.y - pos_y(n, j), 0)
            } else {
                smax(c.min.y - pos_y(n, j), 0)
            }
        },
        None => 0,
    }
}

pub open spec fn clipped_x(n: ExtractedUiNode, j: int) -> int {
    pos_x(n, j) + delta_x(n, j)
}

pub open spec fn clipped_y(n: ExtractedUiNode, j: int) -> int {
    pos_y(n, j) + delta_y(n, j)
}

/// The node rectangle's extent carried through the linear part of the
/// transform.
pub open spec fn transformed_w(n: ExtractedUiNode) -> int {
    n.transform.spec_lin_x(n.rect.spec_width(), n.rect.spec_height())
}

pub open spec fn transformed_h(n: ExtractedUiNode) -> int {
    n.transform.spec_lin_y(n.rect.spec_width(), n.rect.spec_height())
}

/// Whether the node contributes a quad. A node whose clip-adjusted width or
/// height collapses to zero or less is culled; the cull test is skipped when
/// the transform has shear or rotation about the depth axis (a non-zero
/// `m10`), where corner alignment makes the test unreliable.
pub open spec fn spec_survives(n: ExtractedUiNode) -> bool {
    !(n.transform.m10 == 0 && (delta_x(n, 0) - delta_x(n, 1) >= transformed_w(n)
        || delta_y(n, 1) - delta_y(n, 2) >= transformed_h(n)))
}

/// UV numerators before flips: the node rectangle's corners with the clip
/// deltas applied symmetrically in UV space.
pub open spec fn uv_pre_x(n: ExtractedUiNode, j: int) -> int {
    if j == 1 || j == 2 {
        n.rect.max.x + delta_x(n, j)
    } else {
        n.rect.min.x + delta_x(n, j)
    }
}

pub open spec fn uv_pre_y(n: ExtractedUiNode, j: int) -> int {
    if j == 2 || j == 3 {
        n.rect.max.y + delta_y(n, j)
    } else {
        n.rect.min.y + delta_y(n, j)
    }
}

/// Source corner of the UV at corner `j` after the horizontal and vertical
/// flips have permuted the four corner UVs.
pub open spec fn uv_src(n: ExtractedUiNode, j: int) -> int {
    let k = if n.flip_y {
        if j == 0 { 3 } else if j == 1 { 2 } else if j == 2 { 1 } else { 0 }
    } else {
        j
    };
    if n.flip_x {
        if k == 0 { 1 } else if k == 1 { 0 } else if k == 2 { 3 } else { 2 }
    } else {
        k
    }
}

pub open spec fn uv_x(n: ExtractedUiNode, j: int) -> int {
    uv_pre_x(n, uv_src(n, j))
}

pub open spec fn uv_y(n: ExtractedUiNode, j: int) -> int {
    uv_pre_y(n, uv_src(n, j))
}

/// The extent UV numerators are normalized by: the atlas extent when the
/// node samples an atlas, the rectangle's far corner otherwise.
pub open spec fn uv_extent(n: ExtractedUiNode) -> Vec2i {
    match n.atlas_size {
        Some(s) => s,
        None => n.rect.max,
    }
}

/// The vertex emitted for corner `j` of a surviving node.
pub open spec fn spec_vertex(n: ExtractedUiNode, j: int) -> UiVertex {
    UiVertex {
        position: Vec3i {
            x: clipped_x(n, j) as i64,
            y: clipped_y(n, j) as i64,
            z: n.transform.tz,
        },
        uv: Vec2i { x: uv_x(n, j) as i64, y: uv_y(n, j) as i64 },
        uv_extent: uv_extent(n),
        color: n.color,
    }
}

/// The six vertices of a surviving node's quad: two triangles over the four
/// corners, in the shared index pattern.
pub open spec fn spec_node_verts(n: ExtractedUiNode) -> Seq<UiVertex> {
    seq![
        spec_vertex(n, 0),
        spec_vertex(n, 2),
        spec_vertex(n, 3),
        spec_vertex(n, 0),
        spec_vertex(n, 1),
        spec_vertex(n, 2),
    ]
}

/// Halve a non-negative extent, rounding down.
fn half_extent(v: i64) -> (r: i64)
    requires
        0 <= v,
    ensures
        r as int == (v as int) / 2,
{
    v / 2
}

/// Stable insertion of a node into a sequence ordered by `stack_index`: the
/// node goes after every element whose index is at most its own.
pub open spec fn sorted_insert(s: Seq<ExtractedUiNode>, n: ExtractedUiNode) -> Seq<ExtractedUiNode>
    decreases s.len(),
{
    if s.len() == 0 {
        seq![n]
    } else if n.stack_index < s.last().stack_index {
        sorted_insert(s.drop_last(), n).push(s.last())
    } else {
        s.push(n)
    }
}

/// Stable sort of the extracted nodes by `stack_index`, lowest first.
pub open spec fn spec_sort_nodes(s: Seq<ExtractedUiNode>) -> Seq<ExtractedUiNode>
    decreases s.len(),
{
    if s.len() == 0 {
        Seq::empty()
    } else {
        sorted_insert(spec_sort_nodes(s.drop_last()), s.last())
    }
}

/// Inserting at the position found by scanning from the right matches the
/// recursive definition of `sorted_insert`.
proof fn lemma_sorted_insert_at(s: Seq<ExtractedUiNode>, n: ExtractedUiNode, j: int)
    requires
        0 <= j <= s.len(),
        forall|k: int| j <= k < s.len() ==> s[k].stack_index > n.stack_index,
        j > 0 ==> s[j - 1].stack_index <= n.stack_index,
    ensures
        sorted_insert(s, n) == s.subrange(0, j).push(n) + s.subrange(j, s.len() as int),
    decreases s.len(),
{
    if s.len() == 0 {
        assert(sorted_insert(s, n) =~= s.subrange(0, 0).push(n) + s.subrange(0, 0));
    } else if j == s.len() {
        assert(sorted_insert(s, n) == s.push(n));
        assert(s.push(n) =~= s.subrange(0, j).push(n) + s.subrange(j, s.len() as int));
    } else {
        assert(s[s.len() - 1].stack_index > n.stack_index);
        lemma_sorted_insert_at(s.drop_last(), n, j);
        assert(s.drop_last().subrange(0, j) =~= s.subrange(0, j));
        assert(sorted_insert(s, n) == sorted_insert(s.drop_last(), n).push(s.last()));
        assert((s.drop_last().subrange(0, j).push(n) + s.drop_last().subrange(
            j,
            s.len() - 1,
        )).push(s.last()) =~= s.subrange(0, j).push(n) + s.subrange(j, s.len() as int));
    }
}

/// Stable-sorts the extracted nodes in place by `stack_index` ascending,
/// lowest (furthest back) first.
pub fn sort_uinodes_by_stack_index(nodes: &mut Vec<ExtractedUiNode>)
    ensures
        final(nodes)@ == spec_sort_nodes(old(nodes)@),
{
    let mut out: Vec<ExtractedUiNode> = Vec::new();
    let mut i: usize = 0;
    while i < nodes.len()
        invariant
            i <= nodes@.len(),
            nodes@ == old(nodes)@,
            out@ == spec_sort_nodes(nodes@.subrange(0, i as int)),
        decreases nodes@.len() - i,
    {
        let n = nodes[i];
        let mut j: usize = out.len();
        while j > 0 && out[j - 1].stack_index > n.stack_index
            invariant
                j <= out@.len(),
                forall|k: int| j <= k < out@.len() ==> out@[k].stack_index > n.stack_index,
            decreases j,
        {
            j -= 1;
        }
        proof {
            lemma_sorted_insert_at(out@, n, j as int);
        }
        out.insert(j, n);
        proof {
            assert(out@ =~= spec_sort_nodes(nodes@.subrange(0, i as int)).subrange(
                0,
                j as int,
            ).push(n) + spec_sort_nodes(nodes@.subrange(0, i as int)).subrange(
                j as int,
                spec_sort_nodes(nodes@.subrange(0, i as int)).len() as int,
            ));
            assert(nodes@.subrange(0, (i + 1) as int).drop_last() =~= nodes@.subrange(0, i as int));
            assert(nodes@.subrange(0, (i + 1) as int).last() == n);
        }
        i += 1;
    }
    proof {
        assert(nodes@.subrange(0, nodes@.len() as int) =~= nodes@);
    }
    *nodes = out;
}

/// The nodes of `s` are in paint order: `stack_index` never decreases.
pub open spec fn nodes_sorted(s: Seq<ExtractedUiNode>) -> bool {
    forall|i: int, j: int| 0 <= i <= j < s.len() ==> #[trigger] s[i].stack_index <= #[trigger] s[j].stack_index
}

proof fn lemma_sorted_insert_multiset(s: Seq<ExtractedUiNode>, n: ExtractedUiNode)
    ensures
        sorted_insert(s, n).to_multiset() =~= s.to_multiset().insert(n),
    decreases s.len(),
{
    broadcast use vstd::seq_lib::group_to_multiset_ensures;

    if s.len() == 0 {
        assert(sorted_insert(s, n) =~= Seq::<ExtractedUiNode>::empty().push(n));
    } else if n.stack_index < s.last().stack_index {
        lemma_sorted_insert_multiset(s.drop_last(), n);
        assert(s =~= s.drop_last().push(s.last()));
        assert(sorted_insert(s, n).to_multiset() =~= s.drop_last().to_multiset().insert(n).insert(
            s.last(),
        ));
        assert(s.to_multiset().insert(n) =~= s.drop_last().to_multiset().insert(s.last()).insert(
            n,
        ));
    }
}

/// Law: sorting is a permutation: no node is lost or duplicated.
pub proof fn lemma_spec_sort_multiset(s: Seq<ExtractedUiNode>)
    ensures
        spec_sort_nodes(s).to_multiset() =~= s.to_multiset(),
    decreases s.len(),
{
    broadcast use vstd::seq_lib::group_to_multiset_ensures;

    if s.len() > 0 {
        lemma_spec_sort_multiset(s.drop_last());
        lemma_sorted_insert_multiset(spec_sort_nodes(s.drop_last()), s.last());
        assert(s =~= s.drop_last().push(s.last()));
    }
}

proof fn lemma_sorted_insert_sorted(s: Seq<ExtractedUiNode>, n: ExtractedUiNode)
    requires
        nodes_sorted(s),
    ensures
        nodes_sorted(sorted_insert(s, n)),
    decreases s.len(),
{
    broadcast use vstd::seq_lib::group_to_multiset_ensures;

    if s.len() == 0 {
    } else if n.stack_index < s.last().stack_index {
        assert(forall|i: int, j: int|
            0 <= i <= j < s.drop_last().len() ==> #[trigger] s.drop_last()[i].stack_index
                <= #[trigger] s.drop_last()[j].stack_index);
        lemma_sorted_insert_sorted(s.drop_last(), n);
        lemma_sorted_insert_multiset(s.drop_last(), n);
        let inner = sorted_insert(s.drop_last(), n);
        // every element of the inserted prefix is at most the last element
        assert forall|i: int| 0 <= i < inner.len() implies inner[i].stack_index
            <= s.last().stack_index by {
            assert(inner.contains(inner[i]));
            assert(inner.to_multiset().count(inner[i]) > 0);
            assert(s.drop_last().to_multiset().insert(n).count(inner[i]) > 0);
            if inner[i] != n {
                assert(s.drop_last().to_multiset().count(inner[i]) > 0);
                assert(s.drop_last().contains(inner[i]));
                let k = choose|k: int|
                    0 <= k < s.drop_last().len() && s.drop_last()[k] == inner[i];
                assert(s[k].stack_index <= s[s.len() - 1].stack_index);
            }
        }
        let r = inner.push(s.last());
        assert forall|i: int, j: int| 0 <= i <= j < r.len() implies #[trigger] r[i].stack_index
            <= #[trigger] r[j].stack_index by {
            if j < inner.len() {
                assert(r[i] == inner[i] && r[j] == inner[j]);
            } else {
                assert(r[j] == s.last());
                if i < inner.len() {
                    assert(r[i] == inner[i]);
                }
            }
        }
    } else {
        let r = s.push(n);
        assert forall|i: int, j: int| 0 <= i <= j < r.len() implies #[trigger] r[i].stack_index
            <= #[trigger] r[j].stack_index by {
            if j < s.len() {
                assert(r[i] == s[i] && r[j] == s[j]);
            } else {
                assert(r[j] == n);
                if i < s.len() {
                    assert(r[i] == s[i]);
                    assert(s[i].stack_index <= s[s.len() - 1].stack_index);
                }
            }
        }
    }
}

/// Law: sorting orders the nodes by paint index, ascending.
pub proof fn lemma_spec_sort_sorted(s: Seq<ExtractedUiNode>)
    ensures
        nodes_sorted(spec_sort_nodes(s)),
    decreases s.len(),
{
    if s.len() > 0 {
        lemma_spec_sort_sorted(s.drop_last());
        lemma_sorted_insert_sorted(spec_sort_nodes(s.drop_last()), s.last());
    }
}

/// Generates the quad for one node and appends its six vertices to the
/// shared buffer; returns whether the node survived culling (a culled node
/// appends nothing).
#[verifier::rlimit(100)]
fn push_node_vertices(verts: &mut Vec<UiVertex>, n: &ExtractedUiNode) -> (survived: bool)
    requires
        n.wf(),
    ensures
        survived == spec_survives(*n),
        final(verts)@ == if survived {
            old(verts)@ + spec_node_verts(*n)
        } else {
            old(verts)@
        },
{
    let w = n.rect.width();
    let h = n.rect.height();
    let hw = half_extent(w);
    let hh = half_extent(h);

    let p0 = n.transform.apply(-hw, -hh);
    let p1 = n.transform.apply(w - hw, -hh);
    let p2 = n.transform.apply(w - hw, h - hh);
    let p3 = n.transform.apply(-hw, h - hh);

    let (d0x, d0y, d1x, d1y, d2x, d2y, d3x, d3y) = match n.clip {
        Some(c) => {
            let d0x = if c.min.x - p0.x >= 0 { c.min.x - p0.x } else { 0 };
            let d0y = if c.min.y - p0.y >= 0 { c.min.y - p0.y } else { 0 };
            let d1x = if c.max.x - p1.x <= 0 { c.max.x - p1.x } else { 0 };
            let d1y = if c.min.y - p1.y >= 0 { c.min.y - p1.y } else { 0 };
            let d2x = if c.max.x - p2.x <= 0 { c.max.x - p2.x } else { 0 };
            let d2y = if c.max.y - p2.y <= 0 { c.max.y - p2.y } else { 0 };
            let d3x = if c.min.x - p3.x >= 0 { c.min.x - p3.x } else { 0 };
            let d3y = if c.max.y - p3.y <= 0 { c.max.y - p3.y } else { 0 };
            (d0x, d0y, d1x, d1y, d2x, d2y, d3x, d3y)
        },
        None => (0i64, 0i64, 0i64, 0i64, 0i64, 0i64, 0i64, 0i64),
    };

    let ts = n.transform.lin_apply(w, h);
    if n.transform.m10 == 0 && (d0x - d1x >= ts.x || d1y - d2y >= ts.y) {
        assert(!spec_survives(*n));
        return false;
    }
    assert(spec_survives(*n));

    let u0 = (n.rect.min.x + d0x, n.rect.min.y + d0y);
    let u1 = (n.rect.max.x + d1x, n.rect.min.y + d1y);
    let u2 = (n.rect.max.x + d2x, n.rect.max.y + d2y);
    let u3 = (n.rect.min.x + d3x, n.rect.max.y + d3y);

    let (v0, v1, v2, v3) = if n.flip_x { (u1, u0, u3, u2) } else { (u0, u1, u2, u3) };
    let (t0, t1, t2, t3) = if n.flip_y { (v3, v2, v1, v0) } else { (v0, v1, v2, v3) };

    let extent = match n.atlas_size {
        Some(s) => s,
        None => n.rect.max,
    };

    let c0 = UiVertex {
        position: Vec3i { x: p0.x + d0x, y: p0.y + d0y, z: n.transform.tz },
        uv: Vec2i { x: t0.0, y: t0.1 },
        uv_extent: extent,
        color: n.color,
    };
    let c1 = UiVertex {
        position: Vec3i { x: p1.x + d1x, y: p1.y + d1y, z: n.transform.tz },
        uv: Vec2i { x: t1.0, y: t1.1 },
        uv_extent: extent,
        color: n.color,
    };
    let c2 = UiVertex {
        position: Vec3i { x: p2.x + d2x, y: p2.y + d2y, z: n.transform.tz },
        uv: Vec2i { x: t2.0, y: t2.1 },
        uv_extent: extent,
        color: n.color,
    };
    let c3 = UiVertex {
        position: Vec3i { x: p3.x + d3x, y: p3.y + d3y, z: n.transform.tz },
        uv: Vec2i { x: t3.0, y: t3.1 },
        uv_extent: extent,
        color: n.color,
    };

    assert(c0 == spec_vertex(*n, 0));
    assert(c1 == spec_vertex(*n, 1));
    assert(c2 == spec_vertex(*n, 2));
    assert(c3 == spec_vertex(*n, 3));

    verts.push(c0);
    verts.push(c2);
    verts.push(c3);
    verts.push(c0);
    verts.push(c1);
    verts.push(c2);
    assert(verts@ =~= old(verts)@ + spec_node_verts(*n));
    true
}

/// Law: a clip rectangle that fully contains the quad produces zero
/// adjustment, so the clipped corners are the unclipped corners.
pub proof fn lemma_clip_contained_zero(n: ExtractedUiNode, c: RectI)
    requires
        n.clip == Some(c),
        forall|j: int|
            0 <= j < 4 ==> c.min.x <= #[trigger] pos_x(n, j) && pos_x(n, j) <= c.max.x,
        forall|j: int|
            0 <= j < 4 ==> c.min.y <= #[trigger] pos_y(n, j) && pos_y(n, j) <= c.max.y,
    ensures
        forall|j: int| 0 <= j < 4 ==> #[trigger] delta_x(n, j) == 0 && delta_y(n, j) == 0,
        forall|j: int|
            0 <= j < 4 ==> #[trigger] clipped_x(n, j) == pos_x(n, j) && clipped_y(n, j) == pos_y(
                n,
                j,
            ),
{
    assert forall|j: int| 0 <= j < 4 implies #[trigger] delta_x(n, j) == 0 && delta_y(n, j)
        == 0 by {
        assert(c.min.x <= pos_x(n, j) && pos_x(n, j) <= c.max.x);
        assert(c.min.y <= pos_y(n, j) && pos_y(n, j) <= c.max.y);
    }
}

/// Law: clip adjustment is idempotent. Each clipped corner no longer
/// protrudes past the clip bound on its side, so recomputing its delta
/// against the same clip rectangle yields zero.
pub proof fn lemma_clip_idempotent(n: ExtractedUiNode, c: RectI)
    requires
        n.clip == Some(c),
    ensures
        smax(c.min.x - clipped_x(n, 0), 0) == 0,
        smax(c.min.y - clipped_y(n, 0), 0) == 0,
        smin(c.max.x - clipped_x(n, 1), 0) == 0,
        smax(c.min.y - clipped_y(n, 1), 0) == 0,
        smin(c.max.x - clipped_x(n, 2), 0) == 0,
        smin(c.max.y - clipped_y(n, 2), 0) == 0,
        smax(c.min.x - clipped_x(n, 3), 0) == 0,
        smin(c.max.y - clipped_y(n, 3), 0) == 0,
{
}

/// Law: for an axis-aligned, non-mirrored node that survives culling,
/// clip adjustment is non-expansive: every clipped corner lies within the
/// bounding box of the unclipped quad.
pub proof fn lemma_clip_nonexpansive(n: ExtractedUiNode)
    requires
        n.wf(),
        n.transform.m01 == 0,
        n.transform.m10 == 0,
        n.transform.m00 >= 0,
        n.transform.m11 >= 0,
        spec_survives(n),
    ensures
        forall|j: int|
            0 <= j < 4 ==> pos_x(n, 0) <= #[trigger] clipped_x(n, j) && clipped_x(n, j) <= pos_x(
                n,
                1,
            ),
        forall|j: int|
            0 <= j < 4 ==> pos_y(n, 0) <= #[trigger] clipped_y(n, j) && clipped_y(n, j) <= pos_y(
                n,
                2,
            ),
{
    let w = n.rect.spec_width();
    let h = n.rect.spec_height();
    let hw = w / 2;
    let hh = h / 2;
    let m00 = n.transform.m00 as int;
    let m01 = n.transform.m01 as int;
    let m10 = n.transform.m10 as int;
    let m11 = n.transform.m11 as int;

    lemma_mul_distrib_sub(m00, w - hw, -hw);
    lemma_mul_distrib_sub(m11, h - hh, -hh);
    lemma_mul_mono(m00, 0, w);
    lemma_mul_mono(m11, 0, h);
    assert(m00 * 0 == 0) by (nonlinear_arith);
    assert(m11 * 0 == 0) by (nonlinear_arith);
    assert(0 * (h - hh) == 0 && 0 * (-hh) == 0 && 0 * (w - hw) == 0 && 0 * (-hw) == 0 && 0 * h == 0)
        by (nonlinear_arith);

    assert(pos_x(n, 1) - pos_x(n, 0) == m00 * w);
    assert(pos_x(n, 3) == pos_x(n, 0));
    assert(pos_x(n, 2) == pos_x(n, 1));
    assert(pos_y(n, 1) == pos_y(n, 0));
    assert(pos_y(n, 3) == pos_y(n, 2));
    assert(pos_y(n, 2) - pos_y(n, 0) == m11 * h);
    assert(transformed_w(n) == m00 * w);
    assert(transformed_h(n) == m11 * h);

    match n.clip {
        Some(c) => {
            assert(delta_x(n, 2) == delta_x(n, 1));
            assert(delta_x(n, 3) == delta_x(n, 0));
            assert(delta_y(n, 1) == delta_y(n, 0));
            assert(delta_y(n, 3) == delta_y(n, 2));
            assert(delta_x(n, 0) - delta_x(n, 1) < m00 * w);
            assert(delta_y(n, 1) - delta_y(n, 2) < m11 * h);
            assert(delta_x(n, 0) >= 0 && delta_x(n, 1) <= 0);
            assert(delta_y(n, 0) >= 0 && delta_y(n, 2) <= 0);
        },
        None => {
            assert(forall|j: int| 0 <= j < 4 ==> #[trigger] delta_x(n, j) == 0);
            assert(forall|j: int| 0 <= j < 4 ==> #[trigger] delta_y(n, j) == 0);
        },
    }

    assert forall|j: int|
        0 <= j < 4 implies pos_x(n, 0) <= #[trigger] clipped_x(n, j) && clipped_x(n, j) <= pos_x(
        n,
        1,
    ) by {
        assert(j == 0 || j == 1 || j == 2 || j == 3);
    }
    assert forall|j: int|
        0 <= j < 4 implies pos_y(n, 0) <= #[trigger] clipped_y(n, j) && clipped_y(n, j) <= pos_y(
        n,
        2,
    ) by {
        assert(j == 0 || j == 1 || j == 2 || j == 3);
    }
}

/// State of the batching walk over a prefix of the sorted nodes: the
/// vertices and batches emitted so far, the start of the open batch, the
/// open batch's key, and the depth of the last surviving node.
pub struct BatchFold {
    pub verts: Seq<UiVertex>,
    pub batches: Seq<UiBatch>,
    pub bstart: int,
    pub cur_image: u64,
    pub cur_material: MaterialRef,
    pub last_z: i64,
}

pub open spec fn fold_init(s: Seq<ExtractedUiNode>) -> BatchFold {
    BatchFold {
        verts: Seq::empty(),
        batches: Seq::empty(),
        bstart: 0,
        cur_image: s[0].image,
        cur_material: s[0].material,
        last_z: 0,
    }
}

/// Emits the open batch if it is non-empty; a batch with no vertices is
/// never emitted.
pub open spec fn fold_emit(st: BatchFold) -> BatchFold {
    if st.bstart < st.verts.len() {
        BatchFold {
            verts: st.verts,
            batches: st.batches.push(UiBatch {
                range_start: st.bstart as u32,
                range_end: st.verts.len() as u32,
                image: st.cur_image,
                material: st.cur_material,
                z: st.last_z,
            }),
            bstart: st.verts.len() as int,
            cur_image: st.cur_image,
            cur_material: st.cur_material,
            last_z: st.last_z,
        }
    } else {
        st
    }
}

/// One step of the batching walk: on a key change the open batch is emitted
/// (if non-empty) and a new one keyed by this node opens; a surviving node
/// then appends its six vertices and records its depth. A culled node still
/// advances the batch bookkeeping.
pub open spec fn fold_step(st: BatchFold, n: ExtractedUiNode) -> BatchFold {
    let st1 = if n.image != st.cur_image || n.material != st.cur_material {
        let st2 = fold_emit(st);
        BatchFold {
            verts: st2.verts,
            batches: st2.batches,
            bstart: st2.bstart,
            cur_image: n.image,
            cur_material: n.material,
            last_z: st2.last_z,
        }
    } else {
        st
    };
    if spec_survives(n) {
        BatchFold {
            verts: st1.verts + spec_node_verts(n),
            batches: st1.batches,
            bstart: st1.bstart,
            cur_image: st1.cur_image,
            cur_material: st1.cur_material,
            last_z: n.transform.tz,
        }
    } else {
        st1
    }
}

/// The batching walk after the first `i` nodes of `s`.
pub open spec fn fold_upto(s: Seq<ExtractedUiNode>, i: int) -> BatchFold
    decreases i,
{
    if i <= 0 {
        fold_init(s)
    } else {
        fold_step(fold_upto(s, i - 1), s[i - 1])
    }
}

/// The vertex buffer the batcher produces for a sorted node sequence.
pub open spec fn prepare_model_verts(s: Seq<ExtractedUiNode>) -> Seq<UiVertex> {
    if s.len() == 0 {
        Seq::empty()
    } else {
        fold_upto(s, s.len() as int).verts
    }
}

/// The batch list the batcher produces for a sorted node sequence,
/// including the final emission of a non-empty open batch.
pub open spec fn prepare_model_batches(s: Seq<ExtractedUiNode>) -> Seq<UiBatch> {
    if s.len() == 0 {
        Seq::empty()
    } else {
        fold_emit(fold_upto(s, s.len() as int)).batches
    }
}

proof fn lemma_sorted_insert_len(s: Seq<ExtractedUiNode>, n: ExtractedUiNode)
    ensures
        sorted_insert(s, n).len() == s.len() + 1,
    decreases s.len(),
{
    if s.len() > 0 && n.stack_index < s.last().stack_index {
        lemma_sorted_insert_len(s.drop_last(), n);
    }
}

pub proof fn lemma_spec_sort_len(s: Seq<ExtractedUiNode>)
    ensures
        spec_sort_nodes(s).len() == s.len(),
    decreases s.len(),
{
    if s.len() > 0 {
        lemma_spec_sort_len(s.drop_last());
        lemma_sorted_insert_len(spec_sort_nodes(s.drop_last()), s.last());
    }
}

proof fn lemma_sorted_insert_wf(s: Seq<ExtractedUiNode>, n: ExtractedUiNode)
    requires
        forall|i: int| 0 <= i < s.len() ==> (#[trigger] s[i]).wf(),
        n.wf(),
    ensures
        forall|i: int|
            0 <= i < sorted_insert(s, n).len() ==> (#[trigger] sorted_insert(s, n)[i]).wf(),
    decreases s.len(),
{
    if s.len() == 0 {
        assert(sorted_insert(s, n) =~= seq![n]);
    } else if n.stack_index < s.last().stack_index {
        assert(forall|i: int| 0 <= i < s.drop_last().len() ==> (#[trigger] s.drop_last()[i]).wf());
        lemma_sorted_insert_wf(s.drop_last(), n);
        let inner = sorted_insert(s.drop_last(), n);
        assert(sorted_insert(s, n) == inner.push(s.last()));
        assert forall|i: int|
            0 <= i < sorted_insert(s, n).len() implies (#[trigger] sorted_insert(s, n)[i]).wf() by {
            if i < inner.len() {
                assert(sorted_insert(s, n)[i] == inner[i]);
            } else {
                assert(sorted_insert(s, n)[i] == s.last());
                assert(s[s.len() - 1].wf());
            }
        }
    } else {
        assert(sorted_insert(s, n) == s.push(n));
        assert forall|i: int|
            0 <= i < sorted_insert(s, n).len() implies (#[trigger] sorted_insert(s, n)[i]).wf() by {
            if i < s.len() {
                assert(sorted_insert(s, n)[i] == s[i]);
            } else {
                assert(sorted_insert(s, n)[i] == n);
            }
        }
    }
}

/// Sorting preserves well-formedness of every node.
pub proof fn lemma_spec_sort_wf(s: Seq<ExtractedUiNode>)
    requires
        forall|i: int| 0 <= i < s.len() ==> (#[trigger] s[i]).wf(),
    ensures
        forall|i: int|
            0 <= i < spec_sort_nodes(s).len() ==> (#[trigger] spec_sort_nodes(s)[i]).wf(),
    decreases s.len(),
{
    if s.len() > 0 {
        assert(forall|i: int| 0 <= i < s.drop_last().len() ==> (#[trigger] s.drop_last()[i]).wf());
        lemma_spec_sort_wf(s.drop_last());
        lemma_sorted_insert_wf(spec_sort_nodes(s.drop_last()), s.last());
    }
}

/// The vertices of the surviving nodes of `s`, in order.
pub open spec fn flat_verts(s: Seq<ExtractedUiNode>) -> Seq<UiVertex>
    decreases s.len(),
{
    if s.len() == 0 {
        Seq::empty()
    } else {
        flat_verts(s.drop_last()) + if spec_survives(s.last()) {
            spec_node_verts(s.last())
        } else {
            Seq::empty()
        }
    }
}

/// For each vertex of `flat_verts(s)`, the (texture, material) key of the
/// node that produced it.
pub open spec fn flat_keys(s: Seq<ExtractedUiNode>) -> Seq<(u64, MaterialRef)>
    decreases s.len(),
{
    if s.len() == 0 {
        Seq::empty()
    } else {
        flat_keys(s.drop_last()) + if spec_survives(s.last()) {
            Seq::new(6, |k: int| (s.last().image, s.last().material))
        } else {
            Seq::empty()
        }
    }
}

proof fn lemma_flat_len(s: Seq<ExtractedUiNode>)
    ensures
        flat_verts(s).len() == flat_keys(s).len(),
        flat_verts(s).len() <= 6 * s.len(),
    decreases s.len(),
{
    if s.len() > 0 {
        lemma_flat_len(s.drop_last());
    }
}

/// Structural invariant of the batching walk after `i` nodes: the vertex
/// buffer holds exactly the surviving prefix's vertices; emitted batches are
/// non-empty, chain gaplessly from zero, and are homogeneous in key; the
/// open region is homogeneous in the current key; and the current key is the
/// key of the last node processed.
pub open spec fn fold_ok(s: Seq<ExtractedUiNode>, i: int, st: BatchFold) -> bool {
    let ks = flat_keys(s.subrange(0, i));
    &&& st.verts == flat_verts(s.subrange(0, i))
    &&& st.verts.len() == ks.len()
    &&& st.verts.len() <= 6 * i
    &&& 0 <= st.bstart <= st.verts.len()
    &&& (st.batches.len() == 0 ==> st.bstart == 0)
    &&& (st.batches.len() > 0 ==> st.batches[0].range_start == 0)
    &&& (st.batches.len() > 0 ==> st.batches[st.batches.len() - 1].range_end as int == st.bstart)
    &&& (forall|k: int|
        0 <= k < st.batches.len() ==> (#[trigger] st.batches[k]).range_start < st.batches[
            k
        ].range_end)
    &&& (forall|k: int|
        0 <= k < st.batches.len() ==> (#[trigger] st.batches[k]).range_end as int <= st.bstart)
    &&& (forall|k: int|
        0 <= k < st.batches.len() - 1 ==> (#[trigger] st.batches[k]).range_end == st.batches[
            k + 1
        ].range_start)
    &&& (forall|k: int, v: int|
        #![trigger st.batches[k], ks[v]]
        0 <= k < st.batches.len() && st.batches[k].range_start as int <= v
            && v < st.batches[k].range_end as int ==> ks[v] == (
            st.batches[k].image,
            st.batches[k].material,
        ))
    &&& (forall|v: int|
        st.bstart <= v < st.verts.len() ==> #[trigger] ks[v] == (st.cur_image, st.cur_material))
    &&& (i > 0 ==> st.cur_image == s[i - 1].image && st.cur_material == s[i - 1].material)
    &&& (i == 0 && s.len() > 0 ==> st.cur_image == s[0].image && st.cur_material == s[0].material)
}

/// One step of the batching walk preserves `fold_ok`.
#[verifier::rlimit(100)]
#[verifier::spinoff_prover]
proof fn lemma_fold_step_ok(s: Seq<ExtractedUiNode>, i: int, st: BatchFold)
    requires
        0 < i <= s.len(),
        s.len() * 6 <= u32::MAX as int,
        fold_ok(s, i - 1, st),
    ensures
        fold_ok(s, i, fold_step(st, s[i - 1])),
{
    let n = s[i - 1];
    let pre = s.subrange(0, i - 1);
    let cur = s.subrange(0, i);
    assert(cur.drop_last() =~= pre);
    assert(cur.last() == n);
    let ks0 = flat_keys(pre);
    let ks1 = flat_keys(cur);
    lemma_flat_len(pre);
    lemma_flat_len(cur);
    assert(flat_verts(cur) == flat_verts(pre) + if spec_survives(n) {
        spec_node_verts(n)
    } else {
        Seq::<UiVertex>::empty()
    });
    assert(ks1 == ks0 + if spec_survives(n) {
        Seq::new(6, |k: int| (n.image, n.material))
    } else {
        Seq::<(u64, MaterialRef)>::empty()
    });
    if !spec_survives(n) {
        assert(flat_verts(cur) =~= flat_verts(pre));
        assert(ks1 =~= ks0);
    }
    assert(forall|v: int| 0 <= v < ks0.len() ==> #[trigger] ks1[v] == ks0[v]);
    assert(spec_survives(n) ==> forall|v: int|
        ks0.len() <= v < ks1.len() ==> #[trigger] ks1[v] == (n.image, n.material));
    let st2 = fold_step(st, n);
    if n.image != st.cur_image || n.material != st.cur_material {
        let ste = fold_emit(st);
        // the emitted batch (if any) covers exactly the open region, which
        // is homogeneous in the old current key
        assert forall|k: int, v: int|
            #![trigger ste.batches[k], ks1[v]]
            0 <= k < ste.batches.len() && ste.batches[k].range_start as int <= v && v
                < ste.batches[k].range_end as int implies ks1[v] == (
            ste.batches[k].image,
            ste.batches[k].material,
        ) by {
            if k < st.batches.len() {
                assert(ste.batches[k] == st.batches[k]);
                assert(v < st.bstart);
                assert(v < ks0.len());
                assert(ks0[v] == (st.batches[k].image, st.batches[k].material));
            } else {
                assert(st.bstart < st.verts.len());
                assert(ste.batches[k].range_start as int == st.bstart);
                assert(ste.batches[k].range_end as int == st.verts.len());
                assert(v < ks0.len());
                assert(ks0[v] == (st.cur_image, st.cur_material));
            }
        }
        if spec_survives(n) {
            assert forall|v: int|
                st2.bstart <= v < st2.verts.len() implies #[trigger] ks1[v] == (
                st2.cur_image,
                st2.cur_material,
            ) by {
                assert(v >= ks0.len());
            }
        }
        assert forall|k: int, v: int|
            #![trigger st2.batches[k], ks1[v]]
            0 <= k < st2.batches.len() && st2.batches[k].range_start as int <= v && v
                < st2.batches[k].range_end as int implies ks1[v] == (
            st2.batches[k].image,
            st2.batches[k].material,
        ) by {
            assert(st2.batches[k] == ste.batches[k]);
        }
    } else {
        assert(st2.batches == st.batches);
        if spec_survives(n) {
            assert forall|v: int|
                st2.bstart <= v < st2.verts.len() implies #[trigger] ks1[v] == (
                st2.cur_image,
                st2.cur_material,
            ) by {
                if v < ks0.len() {
                    assert(ks0[v] == (st.cur_image, st.cur_material));
                }
            }
        }
        assert forall|k: int, v: int|
            #![trigger st2.batches[k], ks1[v]]
            0 <= k < st2.batches.len() && st2.batches[k].range_start as int <= v && v
                < st2.batches[k].range_end as int implies ks1[v] == (
            st2.batches[k].image,
            st2.batches[k].material,
        ) by {
            assert(st2.batches[k] == st.batches[k]);
            assert(v < st.bstart);
            assert(v < ks0.len());
            assert(ks0[v] == (st.batches[k].image, st.batches[k].material));
        }
    }
}

/// The batching walk maintains `fold_ok`.
pub proof fn lemma_fold_ok(s: Seq<ExtractedUiNode>, i: int)
    requires
        0 < s.len(),
        0 <= i <= s.len(),
        s.len() * 6 <= u32::MAX as int,
    ensures
        fold_ok(s, i, fold_upto(s, i)),
    decreases i,
{
    if i == 0 {
        assert(s.subrange(0, 0) =~= Seq::<ExtractedUiNode>::empty());
    } else {
        lemma_fold_ok(s, i - 1);
        lemma_fold_step_ok(s, i, fold_upto(s, i - 1));
    }
}

/// Law: for every extracted-node sequence, the batcher's vertex buffer is
/// exactly the surviving nodes' vertices in order, and the batches partition
/// it: they are non-empty, chain gaplessly from zero to the buffer's length,
/// and every vertex inside a batch's range carries that batch's
/// (texture, material) key.
#[verifier::rlimit(100)]
pub proof fn lemma_batches_partition(s: Seq<ExtractedUiNode>)
    requires
        s.len() * 6 <= u32::MAX as int,
    ensures
        prepare_model_verts(s) == flat_verts(s),
        ({
            let vs = prepare_model_verts(s);
            let bs = prepare_model_batches(s);
            let ks = flat_keys(s);
            &&& (bs.len() == 0 ==> vs.len() == 0)
            &&& (bs.len() > 0 ==> bs[0].range_start == 0)
            &&& (bs.len() > 0 ==> bs[bs.len() - 1].range_end as int == vs.len())
            &&& (forall|k: int|
                0 <= k < bs.len() ==> (#[trigger] bs[k]).range_start < bs[k].range_end)
            &&& (forall|k: int|
                0 <= k < bs.len() - 1 ==> (#[trigger] bs[k]).range_end == bs[k + 1].range_start)
            &&& (forall|k: int, v: int|
                #![trigger bs[k], ks[v]]
                0 <= k < bs.len() && bs[k].range_start as int <= v && v < bs[k].range_end as int
                    ==> ks[v] == (bs[k].image, bs[k].material))
        }),
{
    if s.len() == 0 {
        assert(flat_verts(s) =~= Seq::<UiVertex>::empty());
    } else {
        lemma_fold_ok(s, s.len() as int);
        let st = fold_upto(s, s.len() as int);
        assert(s.subrange(0, s.len() as int) =~= s);
        lemma_flat_len(s);
        let ste = fold_emit(st);
        let ks = flat_keys(s);
        assert forall|k: int, v: int|
            #![trigger ste.batches[k], ks[v]]
            0 <= k < ste.batches.len() && ste.batches[k].range_start as int <= v && v
                < ste.batches[k].range_end as int implies ks[v] == (
            ste.batches[k].image,
            ste.batches[k].material,
        ) by {
            if k < st.batches.len() {
                assert(ste.batches[k] == st.batches[k]);
            } else {
                assert(st.bstart < st.verts.len());
                assert(ste.batches[k].range_start as int == st.bstart);
            }
        }
    }
}

/// Batches only accumulate: every batch emitted after a prefix of the walk
/// is present, unchanged, in the final batch list.
proof fn lemma_batches_monotone(s: Seq<ExtractedUiNode>, j: int)
    requires
        0 < s.len(),
        0 <= j <= s.len(),
    ensures
        fold_upto(s, j).batches.len() <= prepare_model_batches(s).len(),
        forall|k: int|
            0 <= k < fold_upto(s, j).batches.len() ==> prepare_model_batches(s)[k] == (
            #[trigger] fold_upto(s, j).batches[k]),
    decreases s.len() - j,
{
    if j == s.len() {
        assert(prepare_model_batches(s) == fold_emit(fold_upto(s, j)).batches);
    } else {
        lemma_batches_monotone(s, j + 1);
        let st = fold_upto(s, j);
        let st2 = fold_upto(s, j + 1);
        assert(st2 == fold_step(st, s[j]));
        assert forall|k: int| 0 <= k < st.batches.len() implies prepare_model_batches(s)[k] == (
        #[trigger] st.batches[k]) by {
            assert(st2.batches[k] == st.batches[k]);
        }
    }
}

/// If at some point of the walk the open batch already covers `[lo, hi)`,
/// some final batch covers `[lo, hi)` whole.
proof fn lemma_segment_covered(s: Seq<ExtractedUiNode>, j: int, lo: int, hi: int)
    requires
        0 < s.len(),
        0 <= j <= s.len(),
        s.len() * 6 <= u32::MAX as int,
        fold_upto(s, j).bstart <= lo,
        lo < hi,
        hi <= fold_upto(s, j).verts.len(),
    ensures
        exists|k: int|
            0 <= k < prepare_model_batches(s).len() && (#[trigger] prepare_model_batches(
                s,
            )[k]).range_start as int <= lo && hi <= prepare_model_batches(s)[k].range_end as int,
    decreases s.len() - j,
{
    let st = fold_upto(s, j);
    lemma_fold_ok(s, j);
    assert(0 <= st.bstart && st.verts.len() <= 6 * j);
    if j == s.len() {
        let ste = fold_emit(st);
        assert(st.bstart < st.verts.len());
        let k = st.batches.len() as int;
        assert(prepare_model_batches(s) == ste.batches);
        assert(ste.batches[k].range_start as int <= lo && hi <= ste.batches[k].range_end as int);
    } else {
        let n = s[j];
        let st2 = fold_upto(s, j + 1);
        assert(st2 == fold_step(st, n));
        if n.image != st.cur_image || n.material != st.cur_material {
            assert(st.bstart < st.verts.len());
            let k = st.batches.len() as int;
            assert(st2.batches[k].range_start as int <= lo && hi <= st2.batches[
                k
            ].range_end as int);
            lemma_batches_monotone(s, j + 1);
            assert(prepare_model_batches(s)[k] == st2.batches[k]);
        } else {
            assert(st2.bstart == st.bstart);
            assert(st.verts.len() <= st2.verts.len());
            lemma_segment_covered(s, j + 1, lo, hi);
        }
    }
}

/// Law: two consecutive nodes with the same (texture, material) key that
/// both survive culling are never split into separate batches: one final
/// batch covers both of their vertex ranges.
pub proof fn lemma_adjacent_same_key_one_batch(s: Seq<ExtractedUiNode>, i: int)
    requires
        s.len() * 6 <= u32::MAX as int,
        0 <= i,
        i + 1 < s.len(),
        s[i].image == s[i + 1].image,
        s[i].material == s[i + 1].material,
        spec_survives(s[i]),
        spec_survives(s[i + 1]),
    ensures
        exists|k: int|
            0 <= k < prepare_model_batches(s).len() && (#[trigger] prepare_model_batches(
                s,
            )[k]).range_start as int <= flat_verts(s.subrange(0, i)).len() && flat_verts(
                s.subrange(0, i + 2),
            ).len() <= prepare_model_batches(s)[k].range_end as int,
{
    lemma_fold_ok(s, i);
    lemma_fold_ok(s, i + 1);
    let st0 = fold_upto(s, i);
    let st1 = fold_upto(s, i + 1);
    let st2 = fold_upto(s, i + 2);
    assert(st1 == fold_step(st0, s[i]));
    assert(st2 == fold_step(st1, s[i + 1]));
    let off0 = flat_verts(s.subrange(0, i)).len() as int;
    assert(st0.verts.len() == off0);
    // processing node i leaves the open batch starting at or before its
    // vertices
    assert(st1.bstart <= off0);
    assert(st1.verts.len() == off0 + 6);
    // node i+1 has the now-current key, so no batch is emitted between them
    assert(st1.cur_image == s[i].image && st1.cur_material == s[i].material);
    assert(st2.bstart == st1.bstart);
    assert(st2.verts.len() == off0 + 12);
    let pre2 = s.subrange(0, i + 2);
    assert(pre2.drop_last() =~= s.subrange(0, i + 1));
    assert(pre2.last() == s[i + 1]);
    let pre1 = s.subrange(0, i + 1);
    assert(pre1.drop_last() =~= s.subrange(0, i));
    assert(pre1.last() == s[i]);
    assert(flat_verts(pre2).len() == off0 + 12);
    lemma_segment_covered(s, i + 2, off0, off0 + 12);
}

/// Every node of `s` survives culling.
pub open spec fn all_survive(s: Seq<ExtractedUiNode>) -> bool {
    forall|i: int| 0 <= i < s.len() ==> spec_survives(#[trigger] s[i])
}

/// Two batches drawn with different render state.
pub open spec fn batch_keys_differ(a: UiBatch, b: UiBatch) -> bool {
    a.image != b.image || a.material != b.material
}

proof fn lemma_maximal_inv(s: Seq<ExtractedUiNode>, j: int)
    requires
        0 < s.len(),
        0 <= j <= s.len(),
        all_survive(s),
    ensures
        forall|k: int|
            0 <= k < fold_upto(s, j).batches.len() - 1 ==> batch_keys_differ(
                #[trigger] fold_upto(s, j).batches[k],
                fold_upto(s, j).batches[k + 1],
            ),
        fold_upto(s, j).batches.len() > 0 ==> {
            let st = fold_upto(s, j);
            st.batches[st.batches.len() - 1].image != st.cur_image || st.batches[st.batches.len()
                - 1].material != st.cur_material
        },
        j > 0 ==> fold_upto(s, j).bstart < fold_upto(s, j).verts.len(),
    decreases j,
{
    if j > 0 {
        lemma_maximal_inv(s, j - 1);
        let st = fold_upto(s, j - 1);
        let st2 = fold_upto(s, j);
        let n = s[j - 1];
        assert(st2 == fold_step(st, n));
        assert(spec_survives(n));
        if n.image != st.cur_image || n.material != st.cur_material {
            // at the first node the current key is the node's own, so a key
            // change implies an earlier node and a non-empty open batch
            assert(j - 1 > 0);
            assert(st.bstart < st.verts.len());
            assert forall|k: int|
                0 <= k < st2.batches.len() - 1 implies batch_keys_differ(
                #[trigger] st2.batches[k],
                st2.batches[k + 1],
            ) by {
                if k < st.batches.len() - 1 {
                    assert(st2.batches[k] == st.batches[k]);
                    assert(st2.batches[k + 1] == st.batches[k + 1]);
                }
            }
        }
    }
}

/// Law: when every node survives culling, consecutive batches never share
/// their (texture, material) key: batches are maximal runs.
pub proof fn lemma_batches_maximal(s: Seq<ExtractedUiNode>)
    requires
        all_survive(s),
    ensures
        forall|k: int|
            0 <= k < prepare_model_batches(s).len() - 1 ==> batch_keys_differ(
                #[trigger] prepare_model_batches(s)[k],
                prepare_model_batches(s)[k + 1],
            ),
{
    if s.len() > 0 {
        lemma_maximal_inv(s, s.len() as int);
        let st = fold_upto(s, s.len() as int);
        let ste = fold_emit(st);
        assert(prepare_model_batches(s) == ste.batches);
        assert forall|k: int|
            0 <= k < ste.batches.len() - 1 implies batch_keys_differ(
            #[trigger] ste.batches[k],
            ste.batches[k + 1],
        ) by {
            if k < st.batches.len() - 1 {
                assert(ste.batches[k] == st.batches[k]);
                assert(ste.batches[k + 1] == st.batches[k + 1]);
            } else {
                assert(st.bstart < st.verts.len());
                assert(ste.batches[k] == st.batches[k]);
            }
        }
    }
}

/// The geometry batcher. Clears the shared vertex buffer, stable-sorts the
/// extracted nodes by paint order in place, walks them generating clipped,
/// culled quads, and returns the emitted batches. An empty extracted list
/// yields zero batches and a cleared buffer.
pub fn prepare_uinodes(ui_meta: &mut UiMeta, extracted_uinodes: &mut ExtractedUiNodes) -> (batches:
    Vec<UiBatch>)
    requires
        forall|i: int|
            0 <= i < old(extracted_uinodes).uinodes@.len() ==> (#[trigger] old(
                extracted_uinodes,
            ).uinodes@[i]).wf(),
        old(extracted_uinodes).uinodes@.len() * 6 <= u32::MAX as int,
    ensures
        final(extracted_uinodes).uinodes@ == spec_sort_nodes(old(extracted_uinodes).uinodes@),
        final(ui_meta).vertices@ == prepare_model_verts(
            spec_sort_nodes(old(extracted_uinodes).uinodes@),
        ),
        batches@ == prepare_model_batches(spec_sort_nodes(old(extracted_uinodes).uinodes@)),
        final(ui_meta).view_bind_group == old(ui_meta).view_bind_group,
{
    ui_meta.vertices.clear();
    sort_uinodes_by_stack_index(&mut extracted_uinodes.uinodes);
    let ghost s = extracted_uinodes.uinodes@;
    proof {
        lemma_spec_sort_len(old(extracted_uinodes).uinodes@);
        lemma_spec_sort_wf(old(extracted_uinodes).uinodes@);
    }
    let mut batches: Vec<UiBatch> = Vec::new();
    if extracted_uinodes.uinodes.len() == 0 {
        return batches;
    }

    let mut start: u32 = 0;
    let mut cur_image: u64 = extracted_uinodes.uinodes[0].image;
    let mut cur_material: MaterialRef = extracted_uinodes.uinodes[0].material;
    let mut last_z: i64 = 0;
    let mut i: usize = 0;
    while i < extracted_uinodes.uinodes.len()
        invariant
            extracted_uinodes.uinodes@ == s,
            0 < s.len(),
            s.len() * 6 <= u32::MAX as int,
            forall|k: int| 0 <= k < s.len() ==> (#[trigger] s[k]).wf(),
            i <= s.len(),
            ui_meta.vertices@ == fold_upto(s, i as int).verts,
            batches@ == fold_upto(s, i as int).batches,
            start as int == fold_upto(s, i as int).bstart,
            cur_image == fold_upto(s, i as int).cur_image,
            cur_material == fold_upto(s, i as int).cur_material,
            last_z == fold_upto(s, i as int).last_z,
            ui_meta.vertices@.len() <= 6 * (i as int),
            fold_upto(s, i as int).bstart <= ui_meta.vertices@.len(),
            ui_meta.view_bind_group == old(ui_meta).view_bind_group,
        decreases s.len() - i,
    {
        let n = extracted_uinodes.uinodes[i];
        proof {
            assert(fold_upto(s, i + 1) == fold_step(fold_upto(s, i as int), s[i as int]));
        }
        if n.image != cur_image || n.material != cur_material {
            let vlen = ui_meta.vertices.len() as u32;
            if start < vlen {
                batches.push(
                    UiBatch {
                        range_start: start,
                        range_end: vlen,
                        image: cur_image,
                        material: cur_material,
                        z: last_z,
                    },
                );
                start = vlen;
            }
            cur_image = n.image;
            cur_material = n.material;
        }
        let survived = push_node_vertices(&mut ui_meta.vertices, &n);
        if survived {
            last_z = n.transform.tz;
        }
        i += 1;
    }

    let vlen = ui_meta.vertices.len() as u32;
    if start < vlen {
        batches.push(
            UiBatch {
                range_start: start,
                range_end: vlen,
                image: cur_image,
                material: cur_material,
                z: last_z,
            },
        );
    }
    batches
}

} // verus!
