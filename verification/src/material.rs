//! Material identity, extraction of material asset changes, and the
//! preparation cache with its deferred-retry queue.

use vstd::prelude::*;
use crate::cache::AssocVec;
use crate::device::{
    BindGroupDescriptor, BindGroupEntry, BindGroupLayoutEntry, BindingResource, GpuImage,
    RenderDevice,
};
use crate::pipeline::{BlendMode, ShaderRef, UiPipeline};

verus! {

/// Identity of one material asset: the material type it belongs to (one
/// pipeline family per type) and the instance within that type.
#[derive(Clone, Copy, PartialEq, Eq, Structural, Hash, Debug)]
pub struct MaterialRef {
    pub type_id: u64,
    pub instance: u64,
}

/// A material type's customization of the pipeline descriptor template:
/// extra shader defines, an alternative fragment entry point, and an
/// alternative blend state.
#[derive(Clone, PartialEq, Eq, Debug)]
pub struct SpecializeOverride {
    pub extra_shader_defs: Vec<u64>,
    pub fragment_entry_point: Option<u64>,
    pub blend: Option<BlendMode>,
}

impl SpecializeOverride {
    /// No customization: the descriptor template is used as it stands.
    pub fn none() -> (r: SpecializeOverride)
        ensures
            r.extra_shader_defs@.len() == 0,
            r.fragment_entry_point is None,
            r.blend is None,
    {
        SpecializeOverride { extra_shader_defs: Vec::new(), fragment_entry_point: None, blend: None }
    }
}

/// The material contract, as a capability record registered per material
/// type: the type's identity, its optional custom fragment stage, the bind
/// group layout its instances are bound with, and its pipeline-descriptor
/// customization.
#[derive(Clone, PartialEq, Eq, Debug)]
pub struct UiMaterial {
    pub type_id: u64,
    pub fragment_shader: ShaderRef,
    pub layout_entries: Vec<BindGroupLayoutEntry>,
    pub specialize: SpecializeOverride,
}

/// One material instance's parameter data, as extracted from the asset
/// store: the part that keys pipeline specialization, and the texture
/// asset its bindings depend on, if any.
#[derive(Clone, Copy, PartialEq, Eq, Structural, Debug)]
pub struct UiMaterialData {
    pub key_data: u64,
    pub texture: Option<u64>,
}

/// A change to an asset store, carrying the asset's stable identity.
#[derive(Clone, Copy, PartialEq, Eq, Structural, Debug)]
pub enum AssetEvent {
    Created { handle: u64 },
    Modified { handle: u64 },
    Removed { handle: u64 },
}

/// Material asset changes of one frame, handed from the extraction stage to
/// the preparation stage: an additive extraction list and a removal list.
pub struct ExtractedUiMaterials {
    pub extracted: Vec<(u64, UiMaterialData)>,
    pub removed: Vec<u64>,
}

impl Default for ExtractedUiMaterials {
    /// No changes.
    fn default() -> (r: Self)
        ensures
            r.extracted@.len() == 0,
            r.removed@.len() == 0,
    {
        ExtractedUiMaterials { extracted: Vec::new(), removed: Vec::new() }
    }
}

/// Data prepared for one material instance: its bind group and its
/// pipeline-key data.
#[derive(Clone, Copy, PartialEq, Eq, Structural, Debug)]
pub struct PreparedUiMaterial {
    pub bind_group: u64,
    pub key: u64,
}

/// All prepared materials of one material type, keyed by instance identity;
/// persists across frames for as long as the assets exist.
pub struct RenderUiMaterials {
    pub material_type: u64,
    pub materials: AssocVec<PreparedUiMaterial>,
}

impl RenderUiMaterials {
    /// An empty cache for one material type.
    pub fn new(material_type: u64) -> (r: RenderUiMaterials)
        ensures
            r.material_type == material_type,
            r.materials.wf(),
            r.materials@ == Map::<u64, PreparedUiMaterial>::empty(),
    {
        RenderUiMaterials { material_type, materials: AssocVec::new() }
    }
}

impl Default for RenderUiMaterials {
    /// An empty cache.
    fn default() -> (r: Self)
        ensures
            r.material_type == 0,
            r.materials.wf(),
            r.materials@ == Map::<u64, PreparedUiMaterial>::empty(),
    {
        RenderUiMaterials { material_type: 0, materials: AssocVec::new() }
    }
}

/// Materials whose preparation was deferred to the next frame; they are
/// retried in front of newly extracted work.
pub struct PrepareNextFrameMaterials {
    pub assets: Vec<(u64, UiMaterialData)>,
}

impl Default for PrepareNextFrameMaterials {
    /// Nothing queued.
    fn default() -> (r: Self)
        ensures
            r.assets@.len() == 0,
    {
        PrepareNextFrameMaterials { assets: Vec::new() }
    }
}

/// Failure of a preparation attempt: the only tolerated failure is "not
/// ready yet, retry next frame".
#[derive(Clone, Copy, PartialEq, Eq, Structural, Debug)]
pub enum AsBindGroupError {
    RetryNextUpdate,
}

/// Removes the first occurrence of `h`, if any.
pub open spec fn remove_first(s: Seq<u64>, h: u64) -> Seq<u64>
    decreases s.len(),
{
    if s.len() == 0 {
        s
    } else if s[0] == h {
        s.drop_first()
    } else {
        seq![s[0]] + remove_first(s.drop_first(), h)
    }
}

/// The pending-change list after a sequence of asset events: a created or
/// modified asset is queued once; a removal cancels its pending change.
pub open spec fn spec_changed(events: Seq<AssetEvent>) -> Seq<u64>
    decreases events.len(),
{
    if events.len() == 0 {
        Seq::empty()
    } else {
        let pre = spec_changed(events.drop_last());
        match events.last() {
            AssetEvent::Created { handle } => if pre.contains(handle) {
                pre
            } else {
                pre.push(handle)
            },
            AssetEvent::Modified { handle } => if pre.contains(handle) {
                pre
            } else {
                pre.push(handle)
            },
            AssetEvent::Removed { handle } => remove_first(pre, handle),
        }
    }
}

/// The removal list after a sequence of asset events, in event order.
pub open spec fn spec_removed(events: Seq<AssetEvent>) -> Seq<u64>
    decreases events.len(),
{
    if events.len() == 0 {
        Seq::empty()
    } else {
        let pre = spec_removed(events.drop_last());
        match events.last() {
            AssetEvent::Removed { handle } => pre.push(handle),
            _ => pre,
        }
    }
}

/// The extraction list: each pending change whose asset still exists,
/// paired with its current data.
pub open spec fn spec_extracted(changed: Seq<u64>, assets: Map<u64, UiMaterialData>) -> Seq<
    (u64, UiMaterialData),
>
    decreases changed.len(),
{
    if changed.len() == 0 {
        Seq::empty()
    } else {
        spec_extracted(changed.drop_last(), assets) + if assets.contains_key(changed.last()) {
            seq![(changed.last(), assets[changed.last()])]
        } else {
            Seq::empty()
        }
    }
}

proof fn lemma_remove_first_at(s: Seq<u64>, h: u64, i: int)
    requires
        0 <= i < s.len(),
        s[i] == h,
        forall|k: int| 0 <= k < i ==> s[k] != h,
    ensures
        remove_first(s, h) =~= s.remove(i),
    decreases s.len(),
{
    if i == 0 {
        assert(s.remove(0) =~= s.drop_first());
    } else {
        lemma_remove_first_at(s.drop_first(), h, i - 1);
        assert(s.remove(i).drop_first() =~= s.drop_first().remove(i - 1));
        assert(remove_first(s, h) == seq![s[0]] + remove_first(s.drop_first(), h));
        assert(seq![s[0]] + s.drop_first().remove(i - 1) =~= s.remove(i));
    }
}

proof fn lemma_remove_first_absent(s: Seq<u64>, h: u64)
    requires
        forall|k: int| 0 <= k < s.len() ==> s[k] != h,
    ensures
        remove_first(s, h) =~= s,
    decreases s.len(),
{
    if s.len() > 0 {
        assert(forall|k: int| 0 <= k < s.drop_first().len() ==> s.drop_first()[k] != h);
        lemma_remove_first_absent(s.drop_first(), h);
        assert(seq![s[0]] + s.drop_first() =~= s);
    }
}

/// Removes the first occurrence of `h` from `v`, if any.
fn remove_first_u64(v: &mut Vec<u64>, h: u64)
    ensures
        final(v)@ == remove_first(old(v)@, h),
{
    let mut j: usize = 0;
    while j < v.len()
        invariant
            j <= v@.len(),
            v@ == old(v)@,
            forall|k: int| 0 <= k < j ==> v@[k] != h,
        decreases v@.len() - j,
    {
        if v[j] == h {
            proof {
                lemma_remove_first_at(v@, h, j as int);
            }
            v.remove(j);
            return ;
        }
        j += 1;
    }
    proof {
        lemma_remove_first_absent(v@, h);
    }
}

/// Whether `v` holds `x`.
pub(crate) fn vec_contains_u64(v: &Vec<u64>, x: u64) -> (r: bool)
    ensures
        r == v@.contains(x),
{
    let mut i: usize = 0;
    while i < v.len()
        invariant
            i <= v@.len(),
            forall|k: int| 0 <= k < i ==> v@[k] != x,
        decreases v@.len() - i,
    {
        if v[i] == x {
            return true;
        }
        i += 1;
    }
    false
}

/// Collects this frame's material asset changes: created or modified assets
/// whose data still exists are queued for preparation, removed assets are
/// listed for purging, a removal cancelling any pending change before it.
pub fn extract_ui_materials(events: &Vec<AssetEvent>, assets: &AssocVec<UiMaterialData>) -> (r:
    ExtractedUiMaterials)
    requires
        assets.wf(),
    ensures
        r.removed@ == spec_removed(events@),
        r.extracted@ == spec_extracted(spec_changed(events@), assets@),
{
    let mut changed: Vec<u64> = Vec::new();
    let mut removed: Vec<u64> = Vec::new();
    let mut i: usize = 0;
    while i < events.len()
        invariant
            i <= events@.len(),
            changed@ == spec_changed(events@.subrange(0, i as int)),
            removed@ == spec_removed(events@.subrange(0, i as int)),
        decreases events@.len() - i,
    {
        proof {
            assert(events@.subrange(0, i + 1).drop_last() =~= events@.subrange(0, i as int));
            assert(events@.subrange(0, i + 1).last() == events@[i as int]);
        }
        match events[i] {
            AssetEvent::Created { handle } => {
                if !vec_contains_u64(&changed, handle) {
                    changed.push(handle);
                }
            },
            AssetEvent::Modified { handle } => {
                if !vec_contains_u64(&changed, handle) {
                    changed.push(handle);
                }
            },
            AssetEvent::Removed { handle } => {
                remove_first_u64(&mut changed, handle);
                removed.push(handle);
            },
        }
        i += 1;
    }
    proof {
        assert(events@.subrange(0, events@.len() as int) =~= events@);
    }

    let mut extracted: Vec<(u64, UiMaterialData)> = Vec::new();
    let mut j: usize = 0;
    while j < changed.len()
        invariant
            j <= changed@.len(),
            assets.wf(),
            extracted@ == spec_extracted(changed@.subrange(0, j as int), assets@),
        decreases changed@.len() - j,
    {
        proof {
            assert(changed@.subrange(0, j + 1).drop_last() =~= changed@.subrange(0, j as int));
            assert(changed@.subrange(0, j + 1).last() == changed@[j as int]);
        }
        let h = changed[j];
        match assets.get(h) {
            Some(d) => {
                extracted.push((h, *d));
                proof {
                    assert(extracted@ =~= spec_extracted(changed@.subrange(0, j + 1), assets@));
                }
            },
            None => {
                proof {
                    assert(extracted@ =~= spec_extracted(changed@.subrange(0, j + 1), assets@));
                }
            },
        }
        j += 1;
    }
    proof {
        assert(changed@.subrange(0, changed@.len() as int) =~= changed@);
    }
    ExtractedUiMaterials { extracted, removed }
}

/// A material's dependencies are resident: its texture, if it has one, has
/// a GPU image.
pub open spec fn spec_ready(texture: Option<u64>, images: Map<u64, GpuImage>) -> bool {
    match texture {
        Some(t) => images.contains_key(t),
        None => true,
    }
}

/// The bind group entries of a prepared material: its texture's view and
/// sampler, or no entries for a textureless material.
pub open spec fn spec_material_entries(texture: Option<u64>, images: Map<u64, GpuImage>) -> Seq<
    BindGroupEntry,
> {
    match texture {
        Some(t) => seq![
            BindGroupEntry { binding: 0, resource: BindingResource::TextureView(images[t].texture_view) },
            BindGroupEntry { binding: 1, resource: BindingResource::Sampler(images[t].sampler) },
        ],
        None => Seq::empty(),
    }
}

/// One preparation attempt: converts a material's parameter data into a
/// bind group against the material layout. Succeeds exactly when the
/// material's dependencies are resident; otherwise signals a retry and
/// leaves the device untouched.
pub fn prepare_ui_material(
    material: &UiMaterialData,
    render_device: &mut RenderDevice,
    images: &AssocVec<GpuImage>,
    pipeline: &UiPipeline,
) -> (r: Result<PreparedUiMaterial, AsBindGroupError>)
    requires
        images.wf(),
        old(render_device).wf(),
        old(render_device).next_id < u64::MAX,
    ensures
        final(render_device).wf(),
        final(render_device).layouts@ == old(render_device).layouts@,
        if spec_ready(material.texture, images@) {
            &&& r == Ok::<PreparedUiMaterial, AsBindGroupError>(
                PreparedUiMaterial {
                    bind_group: old(render_device).next_id,
                    key: material.key_data,
                },
            )
            &&& final(render_device).next_id == old(render_device).next_id + 1
            &&& final(render_device).bind_groups@.len() == old(render_device).bind_groups@.len()
                + 1
            &&& forall|i: int|
                0 <= i < old(render_device).bind_groups@.len()
                    ==> final(render_device).bind_groups@[i] == old(render_device).bind_groups@[i]
            &&& final(render_device).bind_groups@.last().0 == old(render_device).next_id
            &&& final(render_device).bind_groups@.last().1.layout == pipeline.material_layout
            &&& final(render_device).bind_groups@.last().1.entries@ == spec_material_entries(
                material.texture,
                images@,
            )
        } else {
            &&& r == Err::<PreparedUiMaterial, AsBindGroupError>(AsBindGroupError::RetryNextUpdate)
            &&& final(render_device).next_id == old(render_device).next_id
            &&& final(render_device).bind_groups@ == old(render_device).bind_groups@
        },
{
    let mut entries: Vec<BindGroupEntry> = Vec::new();
    match material.texture {
        Some(t) => {
            match images.get(t) {
                Some(img) => {
                    entries.push(
                        BindGroupEntry {
                            binding: 0,
                            resource: BindingResource::TextureView(img.texture_view),
                        },
                    );
                    entries.push(
                        BindGroupEntry { binding: 1, resource: BindingResource::Sampler(img.sampler) },
                    );
                    assert(entries@ =~= spec_material_entries(material.texture, images@));
                },
                None => {
                    return Err(AsBindGroupError::RetryNextUpdate);
                },
            }
        },
        None => {
            assert(entries@ =~= spec_material_entries(material.texture, images@));
        },
    }
    let bind_group = render_device.create_bind_group(
        BindGroupDescriptor { layout: pipeline.material_layout, entries },
    );
    Ok(PreparedUiMaterial { bind_group, key: material.key_data })
}

/// State threaded through a run of preparation attempts: the cache of
/// prepared materials, the deferred-retry list, and the device's next
/// identifier.
pub struct PrepOutcome {
    pub mats: Map<u64, PreparedUiMaterial>,
    pub retry: Seq<(u64, UiMaterialData)>,
    pub dev_next: int,
}

/// Runs preparation attempts over `items` in order: a ready material is
/// prepared under a freshly allocated bind group and cached; one that is
/// not ready is queued for retry.
pub open spec fn prep_fold(
    items: Seq<(u64, UiMaterialData)>,
    images: Map<u64, GpuImage>,
    o0: PrepOutcome,
) -> PrepOutcome
    decreases items.len(),
{
    if items.len() == 0 {
        o0
    } else {
        let o = prep_fold(items.drop_last(), images, o0);
        let h = items.last().0;
        let d = items.last().1;
        if spec_ready(d.texture, images) {
            PrepOutcome {
                mats: o.mats.insert(
                    h,
                    PreparedUiMaterial { bind_group: o.dev_next as u64, key: d.key_data },
                ),
                retry: o.retry,
                dev_next: o.dev_next + 1,
            }
        } else {
            PrepOutcome { mats: o.mats, retry: o.retry.push((h, d)), dev_next: o.dev_next }
        }
    }
}

/// Purges every listed identity from the cache.
pub open spec fn remove_all(
    m: Map<u64, PreparedUiMaterial>,
    removed: Seq<u64>,
) -> Map<u64, PreparedUiMaterial>
    decreases removed.len(),
{
    if removed.len() == 0 {
        m
    } else {
        remove_all(m, removed.drop_last()).remove(removed.last())
    }
}

/// The per-frame material preparation pass. Retries last frame's deferred
/// materials first, then purges removed assets from the cache outright,
/// then prepares this frame's extracted materials; preparation failures are
/// deferred to the next frame. Consumes the frame's extracted change lists.
pub fn prepare_ui_materials(
    prepare_next_frame: &mut PrepareNextFrameMaterials,
    extracted_assets: &mut ExtractedUiMaterials,
    render_materials: &mut RenderUiMaterials,
    render_device: &mut RenderDevice,
    images: &AssocVec<GpuImage>,
    pipeline: &UiPipeline,
)
    requires
        images.wf(),
        old(render_materials).materials.wf(),
        old(render_device).wf(),
        old(render_device).next_id as int + old(prepare_next_frame).assets@.len() + old(
            extracted_assets,
        ).extracted@.len() <= u64::MAX as int,
    ensures
        ({
            let o1 = prep_fold(
                old(prepare_next_frame).assets@,
                images@,
                PrepOutcome {
                    mats: old(render_materials).materials@,
                    retry: Seq::empty(),
                    dev_next: old(render_device).next_id as int,
                },
            );
            let m2 = remove_all(o1.mats, old(extracted_assets).removed@);
            let o3 = prep_fold(
                old(extracted_assets).extracted@,
                images@,
                PrepOutcome { mats: m2, retry: o1.retry, dev_next: o1.dev_next },
            );
            &&& final(render_materials).materials@ == o3.mats
            &&& final(render_materials).materials.wf()
            &&& final(render_materials).material_type == old(render_materials).material_type
            &&& final(prepare_next_frame).assets@ == o3.retry
            &&& final(render_device).wf()
            &&& final(render_device).next_id as int == o3.dev_next
            &&& final(render_device).layouts@ == old(render_device).layouts@
            &&& forall|i: int|
                0 <= i < old(render_device).bind_groups@.len()
                    ==> final(render_device).bind_groups@[i] == old(render_device).bind_groups@[i]
            &&& final(render_device).bind_groups@.len() >= old(render_device).bind_groups@.len()
        }),
        final(extracted_assets).extracted@.len() == 0,
        final(extracted_assets).removed@.len() == 0,
{
    let ghost o0 = PrepOutcome {
        mats: old(render_materials).materials@,
        retry: Seq::empty(),
        dev_next: old(render_device).next_id as int,
    };
    let mut retry: Vec<(u64, UiMaterialData)> = Vec::new();

    let mut i: usize = 0;
    while i < prepare_next_frame.assets.len()
        invariant
            i <= prepare_next_frame.assets@.len(),
            prepare_next_frame.assets@ == old(prepare_next_frame).assets@,
            images.wf(),
            render_materials.materials.wf(),
            render_materials.material_type == old(render_materials).material_type,
            render_device.wf(),
            render_device.next_id as int + (prepare_next_frame.assets@.len() - i) + old(
                extracted_assets,
            ).extracted@.len() <= u64::MAX as int,
            render_device.layouts@ == old(render_device).layouts@,
            forall|k: int|
                0 <= k < old(render_device).bind_groups@.len() ==> render_device.bind_groups@[k]
                    == old(render_device).bind_groups@[k],
            render_device.bind_groups@.len() >= old(render_device).bind_groups@.len(),
            extracted_assets.extracted@ == old(extracted_assets).extracted@,
            extracted_assets.removed@ == old(extracted_assets).removed@,
            ({
                let o = prep_fold(
                    prepare_next_frame.assets@.subrange(0, i as int),
                    images@,
                    o0,
                );
                &&& render_materials.materials@ == o.mats
                &&& retry@ == o.retry
                &&& render_device.next_id as int == o.dev_next
            }),
        decreases prepare_next_frame.assets@.len() - i,
    {
        proof {
            assert(prepare_next_frame.assets@.subrange(0, i + 1).drop_last()
                =~= prepare_next_frame.assets@.subrange(0, i as int));
            assert(prepare_next_frame.assets@.subrange(0, i + 1).last()
                == prepare_next_frame.assets@[i as int]);
        }
        let (handle, data) = prepare_next_frame.assets[i];
        match prepare_ui_material(&data, render_device, images, pipeline) {
            Ok(prepared) => {
                render_materials.materials.insert(handle, prepared);
            },
            Err(AsBindGroupError::RetryNextUpdate) => {
                retry.push((handle, data));
            },
        }
        i += 1;
    }
    proof {
        assert(prepare_next_frame.assets@.subrange(0, prepare_next_frame.assets@.len() as int)
            =~= prepare_next_frame.assets@);
    }
    let ghost o1 = prep_fold(old(prepare_next_frame).assets@, images@, o0);

    let mut j: usize = 0;
    while j < extracted_assets.removed.len()
        invariant
            j <= extracted_assets.removed@.len(),
            extracted_assets.removed@ == old(extracted_assets).removed@,
            extracted_assets.extracted@ == old(extracted_assets).extracted@,
            render_materials.materials.wf(),
            render_materials.material_type == old(render_materials).material_type,
            render_materials.materials@ == remove_all(
                o1.mats,
                extracted_assets.removed@.subrange(0, j as int),
            ),
        decreases extracted_assets.removed@.len() - j,
    {
        proof {
            assert(extracted_assets.removed@.subrange(0, j + 1).drop_last()
                =~= extracted_assets.removed@.subrange(0, j as int));
            assert(extracted_assets.removed@.subrange(0, j + 1).last()
                == extracted_assets.removed@[j as int]);
        }
        let handle = extracted_assets.removed[j];
        render_materials.materials.remove(handle);
        j += 1;
    }
    proof {
        assert(extracted_assets.removed@.subrange(0, extracted_assets.removed@.len() as int)
            =~= extracted_assets.removed@);
    }
    let ghost m2 = remove_all(o1.mats, old(extracted_assets).removed@);
    let ghost o2 = PrepOutcome { mats: m2, retry: o1.retry, dev_next: o1.dev_next };

    let mut k: usize = 0;
    while k < extracted_assets.extracted.len()
        invariant
            k <= extracted_assets.extracted@.len(),
            extracted_assets.extracted@ == old(extracted_assets).extracted@,
            images.wf(),
            render_materials.materials.wf(),
            render_materials.material_type == old(render_materials).material_type,
            render_device.wf(),
            render_device.next_id as int + (extracted_assets.extracted@.len() - k)
                <= u64::MAX as int,
            render_device.layouts@ == old(render_device).layouts@,
            forall|t: int|
                0 <= t < old(render_device).bind_groups@.len() ==> render_device.bind_groups@[t]
                    == old(render_device).bind_groups@[t],
            render_device.bind_groups@.len() >= old(render_device).bind_groups@.len(),
            ({
                let o = prep_fold(
                    extracted_assets.extracted@.subrange(0, k as int),
                    images@,
                    o2,
                );
                &&& render_materials.materials@ == o.mats
                &&& retry@ == o.retry
                &&& render_device.next_id as int == o.dev_next
            }),
        decreases extracted_assets.extracted@.len() - k,
    {
        proof {
            assert(extracted_assets.extracted@.subrange(0, k + 1).drop_last()
                =~= extracted_assets.extracted@.subrange(0, k as int));
            assert(extracted_assets.extracted@.subrange(0, k + 1).last()
                == extracted_assets.extracted@[k as int]);
        }
        let (handle, data) = extracted_assets.extracted[k];
        match prepare_ui_material(&data, render_device, images, pipeline) {
            Ok(prepared) => {
                render_materials.materials.insert(handle, prepared);
            },
            Err(AsBindGroupError::RetryNextUpdate) => {
                retry.push((handle, data));
            },
        }
        k += 1;
    }
    proof {
        assert(extracted_assets.extracted@.subrange(0, extracted_assets.extracted@.len() as int)
            =~= extracted_assets.extracted@);
    }

    prepare_next_frame.assets = retry;
    extracted_assets.extracted = Vec::new();
    extracted_assets.removed = Vec::new();
}

} // verus!
