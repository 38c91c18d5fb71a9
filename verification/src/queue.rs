//! The phase queue and sorter: joins batches with their prepared material,
//! specialized pipeline and texture bind group into per-view draw-item
//! lists, and the stable ascending sort those lists are ordered by before
//! execution.

use vstd::prelude::*;
use crate::batch::{UiBatch, UiMeta};
use crate::cache::AssocVec;
use crate::device::{
    group_lookup, lemma_group_lookup_push_found, lemma_group_lookup_push_self,
    BindGroupDescriptor, BindGroupEntry, BindingResource, GpuImage, RenderDevice,
};
use crate::material::{AssetEvent, PreparedUiMaterial, RenderUiMaterials, UiMaterial};
use crate::pipeline::{
    descriptor_matches, id_key_lookup, key_lookup, lemma_id_key_push_other,
    lemma_id_key_push_self, PipelineCache, SpecializedUiPipelines, UiPipeline, UiPipelineKey,
    specialized_wf,
};

verus! {

/// One queued draw: its depth sort key, the batch entity it draws, the
/// pipeline to bind and the draw function to run. Phases order these
/// ascending by sort key, ties kept in insertion order.
#[derive(Clone, Copy, PartialEq, Eq, Structural, Debug)]
pub struct TransparentUi {
    pub sort_key: i64,
    pub entity: u64,
    pub pipeline: u64,
    pub draw_function: u64,
}

impl TransparentUi {
    /// The batch entity this item draws.
    pub fn entity(&self) -> (r: u64)
        ensures
            r == self.entity,
    {
        self.entity
    }

    /// The depth key the phase sorts by.
    pub fn sort_key(&self) -> (r: i64)
        ensures
            r == self.sort_key,
    {
        self.sort_key
    }

    /// The draw function that executes this item.
    pub fn draw_function(&self) -> (r: u64)
        ensures
            r == self.draw_function,
    {
        self.draw_function
    }

    /// The cached pipeline this item binds.
    pub fn cached_pipeline(&self) -> (r: u64)
        ensures
            r == self.pipeline,
    {
        self.pipeline
    }
}

/// The per-view ordered list of queued draw items.
pub struct RenderPhase {
    pub items: Vec<TransparentUi>,
}

impl Default for RenderPhase {
    /// An empty phase.
    fn default() -> (r: Self)
        ensures
            r.items@.len() == 0,
    {
        RenderPhase { items: Vec::new() }
    }
}

impl RenderPhase {
    /// Appends a draw item; ordering happens in the shared sort stage.
    pub fn add(&mut self, item: TransparentUi)
        ensures
            final(self).items@ == old(self).items@.push(item),
    {
        self.items.push(item);
    }
}

/// One viewing context: its entity, whether it renders to an HDR target,
/// and its draw-item phase.
pub struct UiView {
    pub entity: u64,
    pub hdr: bool,
    pub phase: RenderPhase,
}

/// The texture-to-bind-group cache, keyed by texture asset identity;
/// persists across frames and is invalidated by asset change events.
pub struct UiImageBindGroups {
    pub values: AssocVec<u64>,
}

impl Default for UiImageBindGroups {
    /// An empty cache.
    fn default() -> (r: Self)
        ensures
            r.values.wf(),
            r.values@ == Map::<u64, u64>::empty(),
    {
        UiImageBindGroups { values: AssocVec::new() }
    }
}

/// Stable insertion of a draw item into a sequence ordered by sort key:
/// the item goes after every item whose key is at most its own.
pub open spec fn phase_sorted_insert(s: Seq<TransparentUi>, n: TransparentUi) -> Seq<TransparentUi>
    decreases s.len(),
{
    if s.len() == 0 {
        seq![n]
    } else if n.sort_key < s.last().sort_key {
        phase_sorted_insert(s.drop_last(), n).push(s.last())
    } else {
        s.push(n)
    }
}

/// Stable sort of a phase's items by sort key, ascending.
pub open spec fn spec_sort_phase(s: Seq<TransparentUi>) -> Seq<TransparentUi>
    decreases s.len(),
{
    if s.len() == 0 {
        Seq::empty()
    } else {
        phase_sorted_insert(spec_sort_phase(s.drop_last()), s.last())
    }
}

/// Items are in draw order: sort keys never decrease.
pub open spec fn phase_sorted(s: Seq<TransparentUi>) -> bool {
    forall|i: int, j: int|
        0 <= i <= j < s.len() ==> #[trigger] s[i].sort_key <= #[trigger] s[j].sort_key
}

proof fn lemma_phase_sorted_insert_at(s: Seq<TransparentUi>, n: TransparentUi, j: int)
    requires
        0 <= j <= s.len(),
        forall|k: int| j <= k < s.len() ==> s[k].sort_key > n.sort_key,
        j > 0 ==> s[j - 1].sort_key <= n.sort_key,
    ensures
        phase_sorted_insert(s, n) == s.subrange(0, j).push(n) + s.subrange(j, s.len() as int),
    decreases s.len(),
{
    if s.len() == 0 {
        assert(phase_sorted_insert(s, n) =~= s.subrange(0, 0).push(n) + s.subrange(0, 0));
    } else if j == s.len() {
        assert(phase_sorted_insert(s, n) == s.push(n));
        assert(s.push(n) =~= s.subrange(0, j).push(n) + s.subrange(j, s.len() as int));
    } else {
        assert(s[s.len() - 1].sort_key > n.sort_key);
        lemma_phase_sorted_insert_at(s.drop_last(), n, j);
        assert(s.drop_last().subrange(0, j) =~= s.subrange(0, j));
        assert((s.drop_last().subrange(0, j).push(n) + s.drop_last().subrange(
            j,
            s.len() - 1,
        )).push(s.last()) =~= s.subrange(0, j).push(n) + s.subrange(j, s.len() as int));
    }
}

proof fn lemma_phase_insert_multiset(s: Seq<TransparentUi>, n: TransparentUi)
    ensures
        phase_sorted_insert(s, n).to_multiset() =~= s.to_multiset().insert(n),
    decreases s.len(),
{
    broadcast use vstd::seq_lib::group_to_multiset_ensures;

    if s.len() == 0 {
        assert(phase_sorted_insert(s, n) =~= Seq::<TransparentUi>::empty().push(n));
    } else if n.sort_key < s.last().sort_key {
        lemma_phase_insert_multiset(s.drop_last(), n);
        assert(s =~= s.drop_last().push(s.last()));
        assert(phase_sorted_insert(s, n).to_multiset() =~= s.drop_last().to_multiset().insert(
            n,
        ).insert(s.last()));
        assert(s.to_multiset().insert(n) =~= s.drop_last().to_multiset().insert(s.last()).insert(
            n,
        ));
    }
}

/// Law: the phase sort is a permutation: no draw item is lost or
/// duplicated.
pub proof fn lemma_sort_phase_multiset(s: Seq<TransparentUi>)
    ensures
        spec_sort_phase(s).to_multiset() =~= s.to_multiset(),
    decreases s.len(),
{
    broadcast use vstd::seq_lib::group_to_multiset_ensures;

    if s.len() > 0 {
        lemma_sort_phase_multiset(s.drop_last());
        lemma_phase_insert_multiset(spec_sort_phase(s.drop_last()), s.last());
        assert(s =~= s.drop_last().push(s.last()));
    }
}

proof fn lemma_phase_insert_sorted(s: Seq<TransparentUi>, n: TransparentUi)
    requires
        phase_sorted(s),
    ensures
        phase_sorted(phase_sorted_insert(s, n)),
    decreases s.len(),
{
    broadcast use vstd::seq_lib::group_to_multiset_ensures;

    if s.len() == 0 {
    } else if n.sort_key < s.last().sort_key {
        assert(forall|i: int, j: int|
            0 <= i <= j < s.drop_last().len() ==> #[trigger] s.drop_last()[i].sort_key
                <= #[trigger] s.drop_last()[j].sort_key);
        lemma_phase_insert_sorted(s.drop_last(), n);
        lemma_phase_insert_multiset(s.drop_last(), n);
        let inner = phase_sorted_insert(s.drop_last(), n);
        assert forall|i: int| 0 <= i < inner.len() implies inner[i].sort_key
            <= s.last().sort_key by {
            assert(inner.contains(inner[i]));
            assert(inner.to_multiset().count(inner[i]) > 0);
            assert(s.drop_last().to_multiset().insert(n).count(inner[i]) > 0);
            if inner[i] != n {
                assert(s.drop_last().to_multiset().count(inner[i]) > 0);
                assert(s.drop_last().contains(inner[i]));
                let k = choose|k: int|
                    0 <= k < s.drop_last().len() && s.drop_last()[k] == inner[i];
                assert(s[k].sort_key <= s[s.len() - 1].sort_key);
            }
        }
        let r = inner.push(s.last());
        assert forall|i: int, j: int| 0 <= i <= j < r.len() implies #[trigger] r[i].sort_key
            <= #[trigger] r[j].sort_key by {
            if j < inner.len() {
                assert(r[i] == inner[i] && r[j] == inner[j]);
            } else {
                assert(r[j] == s.last());
                if i < inner.len() {
                    assert(r[i] == inner[i]);
                }
            }
        }
    } else {
        let r = s.push(n);
        assert forall|i: int, j: int| 0 <= i <= j < r.len() implies #[trigger] r[i].sort_key
            <= #[trigger] r[j].sort_key by {
            if j < s.len() {
                assert(r[i] == s[i] && r[j] == s[j]);
            } else {
                assert(r[j] == n);
                if i < s.len() {
                    assert(r[i] == s[i]);
                    assert(s[i].sort_key <= s[s.len() - 1].sort_key);
                }
            }
        }
    }
}

/// Law: after the sort stage, draw-item ordering is monotonic
/// non-decreasing in depth key, whatever order the items were queued in.
pub proof fn lemma_sort_phase_sorted(s: Seq<TransparentUi>)
    ensures
        phase_sorted(spec_sort_phase(s)),
    decreases s.len(),
{
    if s.len() > 0 {
        lemma_sort_phase_sorted(s.drop_last());
        lemma_phase_insert_sorted(spec_sort_phase(s.drop_last()), s.last());
    }
}

/// The shared phase-sort stage: stable-sorts a phase's draw items in place
/// by sort key ascending, ties kept in insertion order.
pub fn sort_phase(phase: &mut RenderPhase)
    ensures
        final(phase).items@ == spec_sort_phase(old(phase).items@),
{
    let mut out: Vec<TransparentUi> = Vec::new();
    let mut i: usize = 0;
    while i < phase.items.len()
        invariant
            i <= phase.items@.len(),
            phase.items@ == old(phase).items@,
            out@ == spec_sort_phase(phase.items@.subrange(0, i as int)),
        decreases phase.items@.len() - i,
    {
        let n = phase.items[i];
        let mut j: usize = out.len();
        while j > 0 && out[j - 1].sort_key > n.sort_key
            invariant
                j <= out@.len(),
                forall|k: int| j <= k < out@.len() ==> out@[k].sort_key > n.sort_key,
            decreases j,
        {
            j -= 1;
        }
        proof {
            lemma_phase_sorted_insert_at(out@, n, j as int);
        }
        out.insert(j, n);
        proof {
            assert(out@ =~= spec_sort_phase(phase.items@.subrange(0, i as int)).subrange(
                0,
                j as int,
            ).push(n) + spec_sort_phase(phase.items@.subrange(0, i as int)).subrange(
                j as int,
                spec_sort_phase(phase.items@.subrange(0, i as int)).len() as int,
            ));
            assert(phase.items@.subrange(0, (i + 1) as int).drop_last() =~= phase.items@.subrange(
                0,
                i as int,
            ));
            assert(phase.items@.subrange(0, (i + 1) as int).last() == n);
        }
        i += 1;
    }
    proof {
        assert(phase.items@.subrange(0, phase.items@.len() as int) =~= phase.items@);
    }
    phase.items = out;
}

/// A spawned batch entity: its identity and its batch.
#[derive(Clone, Copy, PartialEq, Eq, Structural, Debug)]
pub struct UiBatchEntity {
    pub entity: u64,
    pub batch: UiBatch,
}

/// Invalidation of the texture bind-group cache: a modified or removed
/// texture asset loses its cached bind group; entries are re-created
/// lazily when next referenced.
pub open spec fn purge_fold(m: Map<u64, u64>, events: Seq<AssetEvent>) -> Map<u64, u64>
    decreases events.len(),
{
    if events.len() == 0 {
        m
    } else {
        let pre = purge_fold(m, events.drop_last());
        match events.last() {
            AssetEvent::Created { handle } => pre,
            AssetEvent::Modified { handle } => pre.remove(handle),
            AssetEvent::Removed { handle } => pre.remove(handle),
        }
    }
}

/// Entries of the per-frame view bind group: the global uniform binding.
pub open spec fn spec_view_bind_group_entries(binding: u64) -> Seq<BindGroupEntry> {
    seq![BindGroupEntry { binding: 0, resource: BindingResource::Buffer(binding) }]
}

/// Entries of a texture bind group: the image's view and sampler.
pub open spec fn spec_image_bind_group_entries(img: GpuImage) -> Seq<BindGroupEntry> {
    seq![
        BindGroupEntry { binding: 0, resource: BindingResource::TextureView(img.texture_view) },
        BindGroupEntry { binding: 1, resource: BindingResource::Sampler(img.sampler) },
    ]
}

/// Fixed inputs of one queueing pass: the prepared materials of the pass's
/// material type, the resident GPU images, and the draw function queued
/// items run.
pub struct QueueEnv {
    pub mats: Map<u64, PreparedUiMaterial>,
    pub mat_type: u64,
    pub gpu: Map<u64, GpuImage>,
    pub draw_function: u64,
}

/// State threaded through the queueing pass: the pipeline key map and the
/// pipeline store's next identity, the texture bind-group cache and the
/// device's next identity, and the items queued for the current view.
pub struct QueueFold {
    pub pipes: Seq<(UiPipelineKey, u64)>,
    pub cache_next: int,
    pub bgs: Map<u64, u64>,
    pub dev_next: int,
    pub items: Seq<TransparentUi>,
}

/// Queueing one batch for a view. A batch of another material type, or one
/// whose material is not yet prepared, is skipped silently. Otherwise the
/// pipeline for (HDR flag, material key) is resolved through the cache, the
/// texture bind group is created and cached on first use, and one draw item
/// with the batch's depth is appended.
pub open spec fn queue_batch_model(
    st: QueueFold,
    b: UiBatchEntity,
    hdr: bool,
    env: QueueEnv,
) -> QueueFold {
    if b.batch.material.type_id != env.mat_type {
        st
    } else if !env.mats.contains_key(b.batch.material.instance) {
        st
    } else {
        let key = UiPipelineKey { hdr, bind_group_data: env.mats[b.batch.material.instance].key };
        let hit = key_lookup(st.pipes, key);
        let pid = if hit is Some {
            hit.unwrap()
        } else {
            st.cache_next as u64
        };
        let pipes1 = if hit is Some {
            st.pipes
        } else {
            st.pipes.push((key, pid))
        };
        let cnext1 = if hit is Some {
            st.cache_next
        } else {
            st.cache_next + 1
        };
        let bgs1 = if st.bgs.contains_key(b.batch.image) {
            st.bgs
        } else {
            st.bgs.insert(b.batch.image, st.dev_next as u64)
        };
        let dnext1 = if st.bgs.contains_key(b.batch.image) {
            st.dev_next
        } else {
            st.dev_next + 1
        };
        QueueFold {
            pipes: pipes1,
            cache_next: cnext1,
            bgs: bgs1,
            dev_next: dnext1,
            items: st.items.push(
                TransparentUi {
                    sort_key: b.batch.z,
                    entity: b.entity,
                    pipeline: pid,
                    draw_function: env.draw_function,
                },
            ),
        }
    }
}

/// Queueing all batches for one view, in order.
pub open spec fn queue_batches_model(
    batches: Seq<UiBatchEntity>,
    hdr: bool,
    env: QueueEnv,
    st0: QueueFold,
) -> QueueFold
    decreases batches.len(),
{
    if batches.len() == 0 {
        st0
    } else {
        queue_batch_model(
            queue_batches_model(batches.drop_last(), hdr, env, st0),
            batches.last(),
            hdr,
            env,
        )
    }
}

/// Every pipeline recorded in the store from `from` on was queued under a
/// key of the key map, with the descriptor that key specializes to.
pub open spec fn cache_entries_described(
    cache: PipelineCache,
    from: int,
    pipes: Seq<(UiPipelineKey, u64)>,
    p: UiPipeline,
    m: UiMaterial,
) -> bool {
    forall|j: int|
        from <= j < cache.pipelines@.len() ==> match id_key_lookup(
            pipes,
            (#[trigger] cache.pipelines@[j]).0,
        ) {
            Some(k) => descriptor_matches(cache.pipelines@[j].1, p, m, k),
            None => false,
        }
}

/// Coherence of the texture bind-group cache with the device and the
/// resident images: every cached entry names a resident image, and its
/// bind group identity resolves on the device to a bind group over that
/// image's view and sampler, against the image layout. The per-frame
/// event-driven invalidation exists to maintain exactly this.
pub open spec fn bind_groups_match_cache(
    dev: RenderDevice,
    bgs: Map<u64, u64>,
    gpu: Map<u64, GpuImage>,
    image_layout: u64,
) -> bool {
    forall|img: u64|
        bgs.contains_key(img) ==> {
            &&& gpu.contains_key(img)
            &&& match group_lookup(dev.bind_groups@, #[trigger] bgs[img]) {
                Some(d) => d.layout == image_layout && d.entries@
                    == spec_image_bind_group_entries(gpu[img]),
                None => false,
            }
        }
}

/// Queues one view's draw items: for every batch of this pass's material
/// type whose material is prepared, resolves the specialized pipeline and
/// the texture bind group (created and cached on first use) and appends one
/// draw item keyed by the batch's depth; batches not yet prepared are
/// skipped silently.
#[verifier::rlimit(100)]
#[verifier::loop_isolation(false)]
pub fn queue_uinodes_for_view(
    hdr: bool,
    phase: &mut RenderPhase,
    render_device: &mut RenderDevice,
    ui_pipeline: &UiPipeline,
    material: &UiMaterial,
    pipelines: &mut SpecializedUiPipelines,
    pipeline_cache: &mut PipelineCache,
    image_bind_groups: &mut UiImageBindGroups,
    render_materials: &RenderUiMaterials,
    gpu_images: &AssocVec<GpuImage>,
    ui_batches: &Vec<UiBatchEntity>,
    draw_function: u64,
)
    requires
        render_materials.materials.wf(),
        gpu_images.wf(),
        old(image_bind_groups).values.wf(),
        specialized_wf(*old(pipelines), *old(pipeline_cache)),
        old(pipeline_cache).wf(),
        old(render_device).wf(),
        old(pipeline_cache).next_id as int + ui_batches@.len() <= u64::MAX as int,
        old(render_device).next_id as int + ui_batches@.len() <= u64::MAX as int,
        forall|i: int|
            0 <= i < ui_batches@.len() ==> {
                let b = #[trigger] ui_batches@[i];
                b.batch.material.type_id == render_materials.material_type
                    && render_materials.materials@.contains_key(b.batch.material.instance)
                    ==> gpu_images@.contains_key(b.batch.image)
            },
        bind_groups_match_cache(
            *old(render_device),
            old(image_bind_groups).values@,
            gpu_images@,
            ui_pipeline.image_layout,
        ),
    ensures
        final(image_bind_groups).values.wf(),
        specialized_wf(*final(pipelines), *final(pipeline_cache)),
        final(pipeline_cache).wf(),
        final(render_device).wf(),
        bind_groups_match_cache(
            *final(render_device),
            final(image_bind_groups).values@,
            gpu_images@,
            ui_pipeline.image_layout,
        ),
        ({
            let env = QueueEnv {
                mats: render_materials.materials@,
                mat_type: render_materials.material_type,
                gpu: gpu_images@,
                draw_function,
            };
            let st0 = QueueFold {
                pipes: old(pipelines).entries@,
                cache_next: old(pipeline_cache).next_id as int,
                bgs: old(image_bind_groups).values@,
                dev_next: old(render_device).next_id as int,
                items: Seq::empty(),
            };
            let st1 = queue_batches_model(ui_batches@, hdr, env, st0);
            &&& final(phase).items@ == old(phase).items@ + st1.items
            &&& final(pipelines).entries@ == st1.pipes
            &&& final(pipeline_cache).next_id as int == st1.cache_next
            &&& final(image_bind_groups).values@ == st1.bgs
            &&& final(render_device).next_id as int == st1.dev_next
        }),
        final(render_device).layouts@ == old(render_device).layouts@,
        forall|j: int|
            0 <= j < old(render_device).bind_groups@.len()
                ==> final(render_device).bind_groups@[j] == old(render_device).bind_groups@[j],
        forall|j: int|
            0 <= j < old(pipeline_cache).pipelines@.len()
                ==> final(pipeline_cache).pipelines@[j] == old(pipeline_cache).pipelines@[j],
        cache_entries_described(
            *final(pipeline_cache),
            old(pipeline_cache).pipelines@.len() as int,
            final(pipelines).entries@,
            *ui_pipeline,
            *material,
        ),
{
    let ghost env = QueueEnv {
        mats: render_materials.materials@,
        mat_type: render_materials.material_type,
        gpu: gpu_images@,
        draw_function,
    };
    let ghost st0 = QueueFold {
        pipes: old(pipelines).entries@,
        cache_next: old(pipeline_cache).next_id as int,
        bgs: old(image_bind_groups).values@,
        dev_next: old(render_device).next_id as int,
        items: Seq::empty(),
    };
    let ghost items0 = phase.items@;
    let mut i: usize = 0;
    while i < ui_batches.len()
        invariant
            i <= ui_batches@.len(),
            render_materials.materials.wf(),
            gpu_images.wf(),
            image_bind_groups.values.wf(),
            specialized_wf(*pipelines, *pipeline_cache),
            pipeline_cache.wf(),
            render_device.wf(),
            pipeline_cache.next_id as int + (ui_batches@.len() - i) <= u64::MAX as int,
            render_device.next_id as int + (ui_batches@.len() - i) <= u64::MAX as int,
            forall|k: int|
                0 <= k < ui_batches@.len() ==> {
                    let b = #[trigger] ui_batches@[k];
                    b.batch.material.type_id == render_materials.material_type
                        && render_materials.materials@.contains_key(b.batch.material.instance)
                        ==> gpu_images@.contains_key(b.batch.image)
                },
            ({
                let st = queue_batches_model(ui_batches@.subrange(0, i as int), hdr, env, st0);
                &&& phase.items@ == items0 + st.items
                &&& pipelines.entries@ == st.pipes
                &&& pipeline_cache.next_id as int == st.cache_next
                &&& image_bind_groups.values@ == st.bgs
                &&& render_device.next_id as int == st.dev_next
            }),
            render_device.layouts@ == old(render_device).layouts@,
            old(render_device).bind_groups@.len() <= render_device.bind_groups@.len(),
            old(pipeline_cache).pipelines@.len() <= pipeline_cache.pipelines@.len(),
            forall|j: int|
                0 <= j < old(render_device).bind_groups@.len() ==> render_device.bind_groups@[j]
                    == old(render_device).bind_groups@[j],
            forall|j: int|
                0 <= j < old(pipeline_cache).pipelines@.len() ==> pipeline_cache.pipelines@[j]
                    == old(pipeline_cache).pipelines@[j],
            cache_entries_described(
                *pipeline_cache,
                old(pipeline_cache).pipelines@.len() as int,
                pipelines.entries@,
                *ui_pipeline,
                *material,
            ),
            bind_groups_match_cache(
                *render_device,
                image_bind_groups.values@,
                gpu_images@,
                ui_pipeline.image_layout,
            ),
        decreases ui_batches@.len() - i,
    {
        proof {
            assert(ui_batches@.subrange(0, i + 1).drop_last() =~= ui_batches@.subrange(
                0,
                i as int,
            ));
            assert(ui_batches@.subrange(0, i + 1).last() == ui_batches@[i as int]);
        }
        let ghost pre = queue_batches_model(ui_batches@.subrange(0, i as int), hdr, env, st0);
        let b = ui_batches[i];
        proof {
            assert(b == ui_batches@[i as int]);
            assert(pipelines.entries@ == pre.pipes);
            assert(pipeline_cache.next_id as int == pre.cache_next);
            assert(image_bind_groups.values@ == pre.bgs);
            assert(render_device.next_id as int == pre.dev_next);
            assert(phase.items@ == items0 + pre.items);
        }
        if b.batch.material.type_id == render_materials.material_type {
            match render_materials.materials.get(b.batch.material.instance) {
                Some(mat) => {
                    let key = UiPipelineKey { hdr, bind_group_data: mat.key };
                    proof {
                        assert(env.mats.contains_key(b.batch.material.instance));
                        assert(mat.key == env.mats[b.batch.material.instance].key);
                    }
                    let pid = pipelines.specialize(pipeline_cache, ui_pipeline, material, key);
                    proof {
                        assert forall|j: int|
                            0 <= j < old(pipeline_cache).pipelines@.len()
                                implies pipeline_cache.pipelines@[j] == old(
                            pipeline_cache,
                        ).pipelines@[j] by {}
                        // each pipeline recorded so far is still described
                        // by the grown key map
                        assert forall|j: int|
                            old(pipeline_cache).pipelines@.len() as int <= j
                                < pipeline_cache.pipelines@.len() implies (match id_key_lookup(
                            pipelines.entries@,
                            (#[trigger] pipeline_cache.pipelines@[j]).0,
                        ) {
                            Some(k) => descriptor_matches(
                                pipeline_cache.pipelines@[j].1,
                                *ui_pipeline,
                                *material,
                                k,
                            ),
                            None => false,
                        }) by {
                            match key_lookup(pre.pipes, key) {
                                Some(_) => {},
                                None => {
                                    let e = (key, pre.cache_next as u64);
                                    if j < pre.cache_next {
                                        lemma_id_key_push_other(
                                            pre.pipes,
                                            e,
                                            pipeline_cache.pipelines@[j].0,
                                        );
                                    } else {
                                        assert(j == pre.cache_next);
                                        assert(forall|t: int|
                                            0 <= t < pre.pipes.len() ==> (#[trigger] pre.pipes[
                                                t
                                            ]).1 != e.1);
                                        lemma_id_key_push_self(pre.pipes, e);
                                    }
                                },
                            }
                        }
                    }
                    if !image_bind_groups.values.contains_key(b.batch.image) {
                        match gpu_images.get(b.batch.image) {
                            Some(img) => {
                                let mut entries: Vec<BindGroupEntry> = Vec::new();
                                entries.push(
                                    BindGroupEntry {
                                        binding: 0,
                                        resource: BindingResource::TextureView(img.texture_view),
                                    },
                                );
                                entries.push(
                                    BindGroupEntry {
                                        binding: 1,
                                        resource: BindingResource::Sampler(img.sampler),
                                    },
                                );
                                assert(entries@ =~= spec_image_bind_group_entries(
                                    gpu_images@[b.batch.image],
                                ));
                                let ghost devrecs0 = render_device.bind_groups@;
                                let gid = render_device.create_bind_group(
                                    BindGroupDescriptor {
                                        layout: ui_pipeline.image_layout,
                                        entries,
                                    },
                                );
                                image_bind_groups.values.insert(b.batch.image, gid);
                                proof {
                                    assert forall|j: int|
                                        0 <= j < old(render_device).bind_groups@.len()
                                            implies render_device.bind_groups@[j] == old(
                                        render_device,
                                    ).bind_groups@[j] by {}
                                    // the freshly recorded group makes the
                                    // grown cache coherent again: old keys
                                    // keep their record, the new key finds
                                    // the new one
                                    let recs = render_device.bind_groups@;
                                    assert(recs.last().0 == gid);
                                    assert(recs == devrecs0.push(recs.last()));
                                    assert forall|img: u64|
                                        image_bind_groups.values@.contains_key(img) implies {
                                        &&& gpu_images@.contains_key(img)
                                        &&& match group_lookup(
                                            recs,
                                            #[trigger] image_bind_groups.values@[img],
                                        ) {
                                            Some(d) => d.layout == ui_pipeline.image_layout
                                                && d.entries@ == spec_image_bind_group_entries(
                                                gpu_images@[img],
                                            ),
                                            None => false,
                                        }
                                    } by {
                                        if img == b.batch.image {
                                            assert(forall|t: int|
                                                0 <= t < devrecs0.len() ==> (#[trigger] devrecs0[
                                                    t
                                                ]).0 != gid);
                                            lemma_group_lookup_push_self(devrecs0, recs.last());
                                        } else {
                                            assert(pre.bgs.contains_key(img));
                                            assert(image_bind_groups.values@[img]
                                                == pre.bgs[img]);
                                            lemma_group_lookup_push_found(
                                                devrecs0,
                                                recs.last(),
                                                pre.bgs[img],
                                            );
                                        }
                                    }
                                }
                            },
                            None => {
                                proof {
                                    assert(false);
                                }
                            },
                        }
                    }
                    let item = TransparentUi {
                        sort_key: b.batch.z,
                        entity: b.entity,
                        pipeline: pid,
                        draw_function,
                    };
                    phase.add(item);
                    proof {
                        let post = queue_batch_model(pre, ui_batches@[i as int], hdr, env);
                        assert(item == post.items.last());
                        assert(post.items == pre.items.push(item));
                        assert(items0 + post.items =~= (items0 + pre.items).push(item));
                        assert(phase.items@ == items0 + post.items);
                        assert(pipelines.entries@ == post.pipes);
                        assert(pipeline_cache.next_id as int == post.cache_next);
                        assert(image_bind_groups.values@ == post.bgs);
                        assert(render_device.next_id as int == post.dev_next);
                    }
                },
                None => {},
            }
        }
        proof {
            let post = queue_batch_model(pre, ui_batches@[i as int], hdr, env);
            assert(queue_batches_model(ui_batches@.subrange(0, i + 1), hdr, env, st0) == post);
            assert(phase.items@ == items0 + post.items);
        }
        i += 1;
    }
    proof {
        assert(ui_batches@.subrange(0, ui_batches@.len() as int) =~= ui_batches@);
    }
}

/// The queueing pass allocates at most one pipeline and one bind group per
/// batch, and never frees one.
pub proof fn lemma_queue_model_growth(
    batches: Seq<UiBatchEntity>,
    hdr: bool,
    env: QueueEnv,
    st0: QueueFold,
)
    ensures
        st0.cache_next <= queue_batches_model(batches, hdr, env, st0).cache_next,
        queue_batches_model(batches, hdr, env, st0).cache_next <= st0.cache_next + batches.len(),
        st0.dev_next <= queue_batches_model(batches, hdr, env, st0).dev_next,
        queue_batches_model(batches, hdr, env, st0).dev_next <= st0.dev_next + batches.len(),
    decreases batches.len(),
{
    if batches.len() > 0 {
        lemma_queue_model_growth(batches.drop_last(), hdr, env, st0);
    }
}

/// The queueing pass only appends to the pipeline key map, under fresh
/// identities.
pub proof fn lemma_queue_model_pipes_extend(
    batches: Seq<UiBatchEntity>,
    hdr: bool,
    env: QueueEnv,
    st0: QueueFold,
)
    requires
        0 <= st0.cache_next,
        st0.cache_next + batches.len() <= u64::MAX as int,
    ensures
        ({
            let st1 = queue_batches_model(batches, hdr, env, st0);
            &&& st0.pipes.len() <= st1.pipes.len()
            &&& forall|t: int| 0 <= t < st0.pipes.len() ==> #[trigger] st1.pipes[t] == st0.pipes[t]
            &&& forall|t: int|
                st0.pipes.len() <= t < st1.pipes.len() ==> (#[trigger] st1.pipes[t]).1 as int
                    >= st0.cache_next
        }),
    decreases batches.len(),
{
    if batches.len() > 0 {
        lemma_queue_model_pipes_extend(batches.drop_last(), hdr, env, st0);
        lemma_queue_model_growth(batches.drop_last(), hdr, env, st0);
        let mid = queue_batches_model(batches.drop_last(), hdr, env, st0);
        let st1 = queue_batches_model(batches, hdr, env, st0);
        assert(st1 == queue_batch_model(mid, batches.last(), hdr, env));
        assert((mid.cache_next as u64) as int == mid.cache_next);
    }
}

/// Extending an entry list with entries under other identities leaves a
/// lookup unchanged.
pub proof fn lemma_id_key_extend(
    s1: Seq<(UiPipelineKey, u64)>,
    s2: Seq<(UiPipelineKey, u64)>,
    id: u64,
)
    requires
        s1.len() <= s2.len(),
        forall|t: int| 0 <= t < s1.len() ==> #[trigger] s2[t] == s1[t],
        forall|t: int| s1.len() <= t < s2.len() ==> (#[trigger] s2[t]).1 != id,
    ensures
        id_key_lookup(s2, id) == id_key_lookup(s1, id),
    decreases s2.len() - s1.len(),
{
    if s2.len() == s1.len() {
        assert(s2 =~= s1);
    } else {
        assert(forall|t: int| s1.len() <= t < s2.drop_last().len() ==> (#[trigger] s2.drop_last()[
            t
        ]).1 != id);
        assert(forall|t: int| 0 <= t < s1.len() ==> #[trigger] s2.drop_last()[t] == s1[t]);
        lemma_id_key_extend(s1, s2.drop_last(), id);
        assert(s2 =~= s2.drop_last().push(s2.last()));
        lemma_id_key_push_other(s2.drop_last(), s2.last(), id);
    }
}

/// Cache state before view `v` of a queueing pass: each view's queueing
/// starts from the caches the previous view left, with a fresh item list.
pub open spec fn queue_view_state(
    batches: Seq<UiBatchEntity>,
    hdrs: Seq<bool>,
    env: QueueEnv,
    st0: QueueFold,
    v: int,
) -> QueueFold
    decreases v,
{
    if v <= 0 {
        st0
    } else {
        let st = queue_batches_model(
            batches,
            hdrs[v - 1],
            env,
            queue_view_state(batches, hdrs, env, st0, v - 1),
        );
        QueueFold {
            pipes: st.pipes,
            cache_next: st.cache_next,
            bgs: st.bgs,
            dev_next: st.dev_next,
            items: Seq::empty(),
        }
    }
}

/// The queueing pass over all views. First the texture bind-group cache is
/// invalidated by this frame's image asset events. If the global view
/// uniform binding is absent the stage then skips entirely; otherwise the
/// per-frame view bind group is created, and every view's phase is extended
/// with this material type's draw items, batch by batch.
#[verifier::rlimit(100)]
#[verifier::loop_isolation(false)]
pub fn queue_uinodes(
    events: &Vec<AssetEvent>,
    render_device: &mut RenderDevice,
    ui_meta: &mut UiMeta,
    view_uniforms_binding: Option<u64>,
    ui_pipeline: &UiPipeline,
    material: &UiMaterial,
    pipelines: &mut SpecializedUiPipelines,
    pipeline_cache: &mut PipelineCache,
    image_bind_groups: &mut UiImageBindGroups,
    render_materials: &RenderUiMaterials,
    gpu_images: &AssocVec<GpuImage>,
    ui_batches: &Vec<UiBatchEntity>,
    views: &mut Vec<UiView>,
    draw_function: u64,
)
    requires
        render_materials.materials.wf(),
        gpu_images.wf(),
        old(image_bind_groups).values.wf(),
        specialized_wf(*old(pipelines), *old(pipeline_cache)),
        old(pipeline_cache).wf(),
        old(render_device).wf(),
        old(pipeline_cache).next_id as int + old(views)@.len() * ui_batches@.len()
            <= u64::MAX as int,
        old(render_device).next_id as int + 1 + old(views)@.len() * ui_batches@.len()
            <= u64::MAX as int,
        forall|i: int|
            0 <= i < ui_batches@.len() ==> {
                let b = #[trigger] ui_batches@[i];
                b.batch.material.type_id == render_materials.material_type
                    && render_materials.materials@.contains_key(b.batch.material.instance)
                    ==> gpu_images@.contains_key(b.batch.image)
            },
        bind_groups_match_cache(
            *old(render_device),
            old(image_bind_groups).values@,
            gpu_images@,
            ui_pipeline.image_layout,
        ),
    ensures
        final(image_bind_groups).values.wf(),
        specialized_wf(*final(pipelines), *final(pipeline_cache)),
        final(pipeline_cache).wf(),
        final(render_device).wf(),
        bind_groups_match_cache(
            *final(render_device),
            final(image_bind_groups).values@,
            gpu_images@,
            ui_pipeline.image_layout,
        ),
        final(ui_meta).vertices@ == old(ui_meta).vertices@,
        final(render_device).layouts@ == old(render_device).layouts@,
        forall|j: int|
            0 <= j < old(render_device).bind_groups@.len()
                ==> final(render_device).bind_groups@[j] == old(render_device).bind_groups@[j],
        forall|j: int|
            0 <= j < old(pipeline_cache).pipelines@.len()
                ==> final(pipeline_cache).pipelines@[j] == old(pipeline_cache).pipelines@[j],
        cache_entries_described(
            *final(pipeline_cache),
            old(pipeline_cache).pipelines@.len() as int,
            final(pipelines).entries@,
            *ui_pipeline,
            *material,
        ),
        match view_uniforms_binding {
            None => {
                &&& final(image_bind_groups).values@ == purge_fold(
                    old(image_bind_groups).values@,
                    events@,
                )
                &&& final(ui_meta).view_bind_group == old(ui_meta).view_bind_group
                &&& final(views)@ == old(views)@
                &&& final(pipelines).entries@ == old(pipelines).entries@
                &&& final(pipeline_cache).pipelines@ == old(pipeline_cache).pipelines@
                &&& final(render_device).next_id == old(render_device).next_id
                &&& final(render_device).bind_groups@ == old(render_device).bind_groups@
            },
            Some(binding) => {
                let env = QueueEnv {
                    mats: render_materials.materials@,
                    mat_type: render_materials.material_type,
                    gpu: gpu_images@,
                    draw_function,
                };
                let vid = old(render_device).next_id;
                let st0 = QueueFold {
                    pipes: old(pipelines).entries@,
                    cache_next: old(pipeline_cache).next_id as int,
                    bgs: purge_fold(old(image_bind_groups).values@, events@),
                    dev_next: vid as int + 1,
                    items: Seq::empty(),
                };
                let hdrs = Seq::new(old(views)@.len(), |k: int| old(views)@[k].hdr);
                let stn = queue_view_state(
                    ui_batches@,
                    hdrs,
                    env,
                    st0,
                    old(views)@.len() as int,
                );
                &&& final(ui_meta).view_bind_group == Some(vid)
                &&& final(render_device).bind_groups@.len() > old(
                    render_device,
                ).bind_groups@.len()
                &&& final(render_device).bind_groups@[old(
                    render_device,
                ).bind_groups@.len() as int].0 == vid
                &&& final(render_device).bind_groups@[old(
                    render_device,
                ).bind_groups@.len() as int].1.layout == ui_pipeline.view_layout
                &&& final(render_device).bind_groups@[old(
                    render_device,
                ).bind_groups@.len() as int].1.entries@ == spec_view_bind_group_entries(binding)
                &&& final(views)@.len() == old(views)@.len()
                &&& forall|v: int|
                    0 <= v < old(views)@.len() ==> {
                        let fv = #[trigger] final(views)@[v];
                        &&& fv.entity == old(views)@[v].entity
                        &&& fv.hdr == old(views)@[v].hdr
                        &&& fv.phase.items@ == old(views)@[v].phase.items@ + queue_batches_model(
                            ui_batches@,
                            hdrs[v],
                            env,
                            queue_view_state(ui_batches@, hdrs, env, st0, v),
                        ).items
                    }
                &&& final(pipelines).entries@ == stn.pipes
                &&& final(pipeline_cache).next_id as int == stn.cache_next
                &&& final(image_bind_groups).values@ == stn.bgs
                &&& final(render_device).next_id as int == stn.dev_next
            },
        },
{
    let mut i: usize = 0;
    while i < events.len()
        invariant
            i <= events@.len(),
            image_bind_groups.values.wf(),
            image_bind_groups.values@ == purge_fold(
                old(image_bind_groups).values@,
                events@.subrange(0, i as int),
            ),
            bind_groups_match_cache(
                *render_device,
                image_bind_groups.values@,
                gpu_images@,
                ui_pipeline.image_layout,
            ),
        decreases events@.len() - i,
    {
        proof {
            assert(events@.subrange(0, i + 1).drop_last() =~= events@.subrange(0, i as int));
            assert(events@.subrange(0, i + 1).last() == events@[i as int]);
        }
        match events[i] {
            AssetEvent::Created { handle } => {},
            AssetEvent::Modified { handle } => {
                image_bind_groups.values.remove(handle);
            },
            AssetEvent::Removed { handle } => {
                image_bind_groups.values.remove(handle);
            },
        }
        i += 1;
    }
    proof {
        assert(events@.subrange(0, events@.len() as int) =~= events@);
    }

    let binding = match view_uniforms_binding {
        None => {
            return ;
        },
        Some(b) => b,
    };

    let mut view_entries: Vec<BindGroupEntry> = Vec::new();
    view_entries.push(BindGroupEntry { binding: 0, resource: BindingResource::Buffer(binding) });
    assert(view_entries@ =~= spec_view_bind_group_entries(binding));
    let ghost devrecs0 = render_device.bind_groups@;
    let vid = render_device.create_bind_group(
        BindGroupDescriptor { layout: ui_pipeline.view_layout, entries: view_entries },
    );
    ui_meta.view_bind_group = Some(vid);
    proof {
        // recording the view bind group leaves every cached texture bind
        // group's record in place
        let recs = render_device.bind_groups@;
        assert(recs == devrecs0.push(recs.last()));
        assert forall|img: u64| image_bind_groups.values@.contains_key(img) implies {
            &&& gpu_images@.contains_key(img)
            &&& match group_lookup(recs, #[trigger] image_bind_groups.values@[img]) {
                Some(d) => d.layout == ui_pipeline.image_layout && d.entries@
                    == spec_image_bind_group_entries(gpu_images@[img]),
                None => false,
            }
        } by {
            lemma_group_lookup_push_found(
                devrecs0,
                recs.last(),
                image_bind_groups.values@[img],
            );
        }
    }

    let ghost env = QueueEnv {
        mats: render_materials.materials@,
        mat_type: render_materials.material_type,
        gpu: gpu_images@,
        draw_function,
    };
    let ghost st0 = QueueFold {
        pipes: old(pipelines).entries@,
        cache_next: old(pipeline_cache).next_id as int,
        bgs: purge_fold(old(image_bind_groups).values@, events@),
        dev_next: vid as int + 1,
        items: Seq::empty(),
    };
    let ghost views0 = views@;
    let ghost hdrs = Seq::new(views@.len(), |k: int| views@[k].hdr);
    let ghost batches_len = ui_batches@.len() as int;

    let mut done: Vec<UiView> = Vec::new();
    while views.len() > 0
        invariant
            done@.len() + views@.len() == views0.len(),
            forall|k: int| 0 <= k < views@.len() ==> views@[k] == views0[done@.len() + k],
            forall|k: int|
                0 <= k < done@.len() ==> {
                    let dv = #[trigger] done@[k];
                    &&& dv.entity == views0[k].entity
                    &&& dv.hdr == views0[k].hdr
                    &&& dv.phase.items@ == views0[k].phase.items@ + queue_batches_model(
                        ui_batches@,
                        hdrs[k],
                        env,
                        queue_view_state(ui_batches@, hdrs, env, st0, k),
                    ).items
                },
            image_bind_groups.values.wf(),
            specialized_wf(*pipelines, *pipeline_cache),
            pipeline_cache.wf(),
            render_device.wf(),
            pipeline_cache.next_id as int + views@.len() * batches_len <= u64::MAX as int,
            render_device.next_id as int + views@.len() * batches_len <= u64::MAX as int,
            ({
                let st = queue_view_state(ui_batches@, hdrs, env, st0, done@.len() as int);
                &&& pipelines.entries@ == st.pipes
                &&& pipeline_cache.next_id as int == st.cache_next
                &&& image_bind_groups.values@ == st.bgs
                &&& render_device.next_id as int == st.dev_next
            }),
            ui_meta.view_bind_group == Some(vid),
            ui_meta.vertices@ == old(ui_meta).vertices@,
            bind_groups_match_cache(
                *render_device,
                image_bind_groups.values@,
                gpu_images@,
                ui_pipeline.image_layout,
            ),
            render_device.layouts@ == old(render_device).layouts@,
            old(render_device).bind_groups@.len() < render_device.bind_groups@.len(),
            forall|j: int|
                0 <= j < old(render_device).bind_groups@.len() ==> render_device.bind_groups@[j]
                    == old(render_device).bind_groups@[j],
            render_device.bind_groups@[old(render_device).bind_groups@.len() as int].0 == vid,
            render_device.bind_groups@[old(render_device).bind_groups@.len() as int].1.layout
                == ui_pipeline.view_layout,
            render_device.bind_groups@[old(render_device).bind_groups@.len() as int].1.entries@
                == spec_view_bind_group_entries(binding),
            forall|j: int|
                0 <= j < old(pipeline_cache).pipelines@.len() ==> pipeline_cache.pipelines@[j]
                    == old(pipeline_cache).pipelines@[j],
            old(pipeline_cache).pipelines@.len() <= pipeline_cache.pipelines@.len(),
            cache_entries_described(
                *pipeline_cache,
                old(pipeline_cache).pipelines@.len() as int,
                pipelines.entries@,
                *ui_pipeline,
                *material,
            ),
        decreases views@.len(),
    {
        let ghost d = done@.len() as int;
        let ghost r = views@.len() as int;
        proof {
            assert(r >= 1);
            assert((r - 1) * batches_len >= 0) by (nonlinear_arith)
                requires
                    r >= 1,
                    batches_len >= 0,
            ;
            assert(r * batches_len == (r - 1) * batches_len + batches_len) by (nonlinear_arith);
        }
        let mut view = views.remove(0);
        proof {
            assert(view == views0[d]);
            assert(view.hdr == hdrs[d]);
        }
        queue_uinodes_for_view(
            view.hdr,
            &mut view.phase,
            render_device,
            ui_pipeline,
            material,
            pipelines,
            pipeline_cache,
            image_bind_groups,
            render_materials,
            gpu_images,
            ui_batches,
            draw_function,
        );
        done.push(view);
        proof {
            let stv = queue_view_state(ui_batches@, hdrs, env, st0, d);
            let st = queue_batches_model(ui_batches@, hdrs[d], env, stv);
            lemma_queue_model_growth(ui_batches@, hdrs[d], env, stv);
            assert(queue_view_state(ui_batches@, hdrs, env, st0, d + 1) == (QueueFold {
                pipes: st.pipes,
                cache_next: st.cache_next,
                bgs: st.bgs,
                dev_next: st.dev_next,
                items: Seq::empty(),
            }));
            assert(forall|k: int|
                0 <= k < views@.len() ==> views@[k] == views0[done@.len() + k]);
            // older pipeline records stay described by the grown key map
            let stv0 = QueueFold {
                pipes: stv.pipes,
                cache_next: stv.cache_next,
                bgs: stv.bgs,
                dev_next: stv.dev_next,
                items: Seq::empty(),
            };
            lemma_queue_model_pipes_extend(ui_batches@, hdrs[d], env, stv0);
            assert forall|j: int|
                old(pipeline_cache).pipelines@.len() as int <= j
                    < pipeline_cache.pipelines@.len() implies (match id_key_lookup(
                pipelines.entries@,
                (#[trigger] pipeline_cache.pipelines@[j]).0,
            ) {
                Some(k) => descriptor_matches(
                    pipeline_cache.pipelines@[j].1,
                    *ui_pipeline,
                    *material,
                    k,
                ),
                None => false,
            }) by {
                if j < stv.cache_next {
                    lemma_id_key_extend(
                        stv.pipes,
                        pipelines.entries@,
                        pipeline_cache.pipelines@[j].0,
                    );
                }
            }
        }
    }
    proof {
        assert(done@.len() == views0.len());
    }
    *views = done;
}

} // verus!
