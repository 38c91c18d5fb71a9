//! The UI render pipeline: fixed vertex layout, per-key specialization of
//! the pipeline descriptor, and the key-addressed pipeline caches.
//!
//! Shaders, entry points and shader defines are carried by interned
//! identifiers the embedding maps to real names.

use vstd::prelude::*;
use crate::device::{
    BindGroupLayoutDescriptor, BindGroupLayoutEntry, BindingType, RenderDevice, ShaderStages,
};
use crate::material::UiMaterial;

verus! {

/// Asset identity of the built-in UI shader.
pub const UI_SHADER_HANDLE: u64 = 13012847047162779583;

/// Interned name of the fixed vertex stage entry point.
pub const VERTEX_ENTRY: u64 = 1;

/// Interned name of the default fragment stage entry point.
pub const FRAGMENT_ENTRY: u64 = 2;

/// Reference to a material's fragment shader: the built-in default, or a
/// shader asset the embedding has loaded.
#[derive(Clone, Copy, PartialEq, Eq, Structural, Debug)]
pub enum ShaderRef {
    Default,
    Handle(u64),
}

#[derive(Clone, Copy, PartialEq, Eq, Structural, Debug)]
pub enum VertexFormat {
    Float32x2,
    Float32x3,
    Float32x4,
}

/// Format of the render target a pipeline writes to, chosen by the key's
/// HDR flag.
#[derive(Clone, Copy, PartialEq, Eq, Structural, Debug)]
pub enum TargetFormat {
    Standard,
    Hdr,
}

#[derive(Clone, Copy, PartialEq, Eq, Structural, Debug)]
pub enum BlendMode {
    AlphaBlending,
    Premultiplied,
    Additive,
    Opaque,
}

#[derive(Clone, Copy, PartialEq, Eq, Structural, Debug)]
pub enum PrimitiveTopology {
    TriangleList,
    TriangleStrip,
}

#[derive(Clone, Copy, PartialEq, Eq, Structural, Debug)]
pub enum FrontFace {
    Ccw,
    Cw,
}

#[derive(Clone, Copy, PartialEq, Eq, Structural, Debug)]
pub enum Face {
    Front,
    Back,
}

#[derive(Clone, Copy, PartialEq, Eq, Structural, Debug)]
pub enum PolygonMode {
    Fill,
    Line,
}

/// A render pipeline descriptor: everything the embedding needs to compile
/// one pipeline variant.
#[derive(Clone, PartialEq, Eq, Debug)]
pub struct RenderPipelineDescriptor {
    pub vertex_shader: u64,
    pub vertex_entry_point: u64,
    pub vertex_shader_defs: Vec<u64>,
    pub vertex_buffer_formats: Vec<VertexFormat>,
    pub fragment_shader: u64,
    pub fragment_entry_point: u64,
    pub fragment_shader_defs: Vec<u64>,
    pub target_format: TargetFormat,
    pub blend: BlendMode,
    pub layout: Vec<u64>,
    pub depth_stencil: bool,
    pub sample_count: u32,
    pub topology: PrimitiveTopology,
    pub front_face: FrontFace,
    pub cull_mode: Option<Face>,
    pub polygon_mode: PolygonMode,
}

/// The specialization key: the render target's HDR flag and the material's
/// pipeline-relevant data. Equal keys share a cached pipeline.
#[derive(Clone, Copy, PartialEq, Eq, Structural, Hash, Debug)]
pub struct UiPipelineKey {
    pub hdr: bool,
    pub bind_group_data: u64,
}

/// One material type's pipeline family: its three bind group layouts and
/// its resolved fragment shader, if it has one of its own.
#[derive(Clone, Copy, PartialEq, Eq, Structural, Debug)]
pub struct UiPipeline {
    pub view_layout: u64,
    pub image_layout: u64,
    pub material_layout: u64,
    pub fragment_shader: Option<u64>,
}

/// Entries of the per-view layout: one dynamically offset uniform buffer
/// visible to both stages.
pub open spec fn spec_view_layout_entries() -> Seq<BindGroupLayoutEntry> {
    seq![
        BindGroupLayoutEntry {
            binding: 0,
            visibility: ShaderStages::VertexFragment,
            ty: BindingType::UniformBuffer { has_dynamic_offset: true },
        },
    ]
}

/// Entries of the per-texture layout: a texture and its sampler, fragment
/// stage only.
pub open spec fn spec_image_layout_entries() -> Seq<BindGroupLayoutEntry> {
    seq![
        BindGroupLayoutEntry {
            binding: 0,
            visibility: ShaderStages::Fragment,
            ty: BindingType::Texture,
        },
        BindGroupLayoutEntry {
            binding: 1,
            visibility: ShaderStages::Fragment,
            ty: BindingType::Sampler,
        },
    ]
}

impl UiPipeline {
    /// Builds one material type's pipeline family: creates the view, image
    /// and material bind group layouts on the device and resolves the
    /// material's fragment shader reference.
    pub fn from_device(device: &mut RenderDevice, material: &UiMaterial) -> (r: UiPipeline)
        requires
            old(device).wf(),
            old(device).next_id as int + 3 <= u64::MAX as int,
        ensures
            final(device).wf(),
            final(device).next_id == old(device).next_id + 3,
            final(device).bind_groups@ == old(device).bind_groups@,
            r.view_layout == old(device).next_id,
            r.image_layout == old(device).next_id + 1,
            r.material_layout == old(device).next_id + 2,
            final(device).layouts@.len() == old(device).layouts@.len() + 3,
            forall|i: int|
                0 <= i < old(device).layouts@.len() ==> final(device).layouts@[i] == old(
                    device,
                ).layouts@[i],
            final(device).layouts@[old(device).layouts@.len() as int].0 == r.view_layout,
            final(device).layouts@[old(device).layouts@.len() as int].1.entries@
                == spec_view_layout_entries(),
            final(device).layouts@[old(device).layouts@.len() as int + 1].0 == r.image_layout,
            final(device).layouts@[old(device).layouts@.len() as int + 1].1.entries@
                == spec_image_layout_entries(),
            final(device).layouts@[old(device).layouts@.len() as int + 2].0 == r.material_layout,
            final(device).layouts@[old(device).layouts@.len() as int + 2].1.entries@
                == material.layout_entries@,
            r.fragment_shader == (match material.fragment_shader {
                ShaderRef::Default => None::<u64>,
                ShaderRef::Handle(h) => Some(h),
            }),
    {
        let mut view_entries: Vec<BindGroupLayoutEntry> = Vec::new();
        view_entries.push(
            BindGroupLayoutEntry {
                binding: 0,
                visibility: ShaderStages::VertexFragment,
                ty: (BindingType::UniformBuffer { has_dynamic_offset: true }),
            },
        );
        assert(view_entries@ =~= spec_view_layout_entries());
        let view_layout = device.create_bind_group_layout(
            BindGroupLayoutDescriptor { entries: view_entries },
        );

        let mut image_entries: Vec<BindGroupLayoutEntry> = Vec::new();
        image_entries.push(
            BindGroupLayoutEntry {
                binding: 0,
                visibility: ShaderStages::Fragment,
                ty: BindingType::Texture,
            },
        );
        image_entries.push(
            BindGroupLayoutEntry {
                binding: 1,
                visibility: ShaderStages::Fragment,
                ty: BindingType::Sampler,
            },
        );
        assert(image_entries@ =~= spec_image_layout_entries());
        let image_layout = device.create_bind_group_layout(
            BindGroupLayoutDescriptor { entries: image_entries },
        );

        let material_layout = device.create_bind_group_layout(
            BindGroupLayoutDescriptor { entries: material.layout_entries.clone() },
        );

        let fragment_shader = match material.fragment_shader {
            ShaderRef::Default => None,
            ShaderRef::Handle(h) => Some(h),
        };

        UiPipeline { view_layout, image_layout, material_layout, fragment_shader }
    }
}

/// The descriptor produced by specializing `p` for `key` under `m`'s
/// customization: the fixed vertex layout and primitive state, the target
/// format chosen by the HDR flag, alpha blending unless overridden, no
/// depth/stencil, and the material's extra defines and entry point.
pub open spec fn descriptor_matches(
    d: RenderPipelineDescriptor,
    p: UiPipeline,
    m: UiMaterial,
    key: UiPipelineKey,
) -> bool {
    &&& d.vertex_shader == UI_SHADER_HANDLE
    &&& d.vertex_entry_point == VERTEX_ENTRY
    &&& d.vertex_shader_defs@ == m.specialize.extra_shader_defs@
    &&& d.vertex_buffer_formats@ == seq![
        VertexFormat::Float32x3,
        VertexFormat::Float32x2,
        VertexFormat::Float32x4,
    ]
    &&& d.fragment_shader == (match p.fragment_shader {
        Some(h) => h,
        None => UI_SHADER_HANDLE,
    })
    &&& d.fragment_entry_point == (match m.specialize.fragment_entry_point {
        Some(e) => e,
        None => FRAGMENT_ENTRY,
    })
    &&& d.fragment_shader_defs@ == m.specialize.extra_shader_defs@
    &&& d.target_format == (if key.hdr {
        TargetFormat::Hdr
    } else {
        TargetFormat::Standard
    })
    &&& d.blend == (match m.specialize.blend {
        Some(b) => b,
        None => BlendMode::AlphaBlending,
    })
    &&& d.layout@ == seq![p.view_layout, p.image_layout, p.material_layout]
    &&& d.depth_stencil == false
    &&& d.sample_count == 1
    &&& d.topology == PrimitiveTopology::TriangleList
    &&& d.front_face == FrontFace::Ccw
    &&& d.cull_mode is None
    &&& d.polygon_mode == PolygonMode::Fill
}

impl UiPipeline {
    /// Specializes the descriptor template for one key, then applies the
    /// material's customization hook (extra defines, fragment entry point,
    /// blend state).
    pub fn specialize(&self, material: &UiMaterial, key: UiPipelineKey) -> (d:
        RenderPipelineDescriptor)
        ensures
            descriptor_matches(d, *self, *material, key),
    {
        let mut formats: Vec<VertexFormat> = Vec::new();
        formats.push(VertexFormat::Float32x3);
        formats.push(VertexFormat::Float32x2);
        formats.push(VertexFormat::Float32x4);
        assert(formats@ =~= seq![
            VertexFormat::Float32x3,
            VertexFormat::Float32x2,
            VertexFormat::Float32x4,
        ]);

        let mut layout: Vec<u64> = Vec::new();
        layout.push(self.view_layout);
        layout.push(self.image_layout);
        layout.push(self.material_layout);
        assert(layout@ =~= seq![self.view_layout, self.image_layout, self.material_layout]);

        let fragment_shader = match self.fragment_shader {
            Some(h) => h,
            None => UI_SHADER_HANDLE,
        };
        let fragment_entry_point = match material.specialize.fragment_entry_point {
            Some(e) => e,
            None => FRAGMENT_ENTRY,
        };
        let blend = match material.specialize.blend {
            Some(b) => b,
            None => BlendMode::AlphaBlending,
        };
        let target_format = if key.hdr {
            TargetFormat::Hdr
        } else {
            TargetFormat::Standard
        };

        RenderPipelineDescriptor {
            vertex_shader: UI_SHADER_HANDLE,
            vertex_entry_point: VERTEX_ENTRY,
            vertex_shader_defs: material.specialize.extra_shader_defs.clone(),
            vertex_buffer_formats: formats,
            fragment_shader,
            fragment_entry_point,
            fragment_shader_defs: material.specialize.extra_shader_defs.clone(),
            target_format,
            blend,
            layout,
            depth_stencil: false,
            sample_count: 1,
            topology: PrimitiveTopology::TriangleList,
            front_face: FrontFace::Ccw,
            cull_mode: None,
            polygon_mode: PolygonMode::Fill,
        }
    }
}

/// The compiled-pipeline store: allocates pipeline identities and records
/// the descriptor queued for each; compilation itself is the embedding's.
pub struct PipelineCache {
    pub next_id: u64,
    pub pipelines: Vec<(u64, RenderPipelineDescriptor)>,
}

impl PipelineCache {
    pub open spec fn wf(&self) -> bool {
        &&& forall|i: int|
            0 <= i < self.pipelines@.len() ==> (#[trigger] self.pipelines@[i]).0 < self.next_id
        &&& forall|i: int, j: int|
            0 <= i < j < self.pipelines@.len() ==> (#[trigger] self.pipelines@[i]).0 != (
            #[trigger] self.pipelines@[j]).0
        &&& self.next_id as int == self.pipelines@.len()
    }

    /// An empty store.
    pub fn new() -> (r: PipelineCache)
        ensures
            r.wf(),
            r.next_id == 0,
            r.pipelines@.len() == 0,
    {
        PipelineCache { next_id: 0, pipelines: Vec::new() }
    }

    /// Queues a descriptor for compilation under a fresh pipeline identity.
    pub fn queue_render_pipeline(&mut self, desc: RenderPipelineDescriptor) -> (id: u64)
        requires
            old(self).wf(),
            old(self).next_id < u64::MAX,
        ensures
            final(self).wf(),
            id == old(self).next_id,
            final(self).next_id == old(self).next_id + 1,
            final(self).pipelines@ == old(self).pipelines@.push((id, desc)),
    {
        let id = self.next_id;
        self.next_id = self.next_id + 1;
        self.pipelines.push((id, desc));
        proof {
            assert forall|i: int, j: int|
                0 <= i < j < self.pipelines@.len() implies (#[trigger] self.pipelines@[i]).0 != (
            #[trigger] self.pipelines@[j]).0 by {
                if j < old(self).pipelines@.len() {
                    assert(self.pipelines@[i] == old(self).pipelines@[i]);
                    assert(self.pipelines@[j] == old(self).pipelines@[j]);
                } else {
                    assert(self.pipelines@[j].0 == id);
                    assert(self.pipelines@[i] == old(self).pipelines@[i]);
                }
            }
        }
        id
    }
}

/// First pipeline identity cached under `k`, scanning from the front.
pub open spec fn key_lookup(s: Seq<(UiPipelineKey, u64)>, k: UiPipelineKey) -> Option<u64>
    decreases s.len(),
{
    if s.len() == 0 {
        None
    } else if s[0].0 == k {
        Some(s[0].1)
    } else {
        key_lookup(s.drop_first(), k)
    }
}

/// The per-material-type map from specialization key to cached pipeline
/// identity. Caching is purely a function of key equality: identical keys
/// never cause recompilation.
pub struct SpecializedUiPipelines {
    pub entries: Vec<(UiPipelineKey, u64)>,
}

/// Well-formedness of the key map against the store it allocates from:
/// keys are distinct, and so are the cached pipeline identities, all of
/// them already allocated.
pub open spec fn specialized_wf(sp: SpecializedUiPipelines, cache: PipelineCache) -> bool {
    &&& forall|i: int, j: int|
        0 <= i < j < sp.entries@.len() ==> (#[trigger] sp.entries@[i]).0 != (
        #[trigger] sp.entries@[j]).0
    &&& forall|i: int, j: int|
        0 <= i < j < sp.entries@.len() ==> (#[trigger] sp.entries@[i]).1 != (
        #[trigger] sp.entries@[j]).1
    &&& forall|i: int|
        0 <= i < sp.entries@.len() ==> (#[trigger] sp.entries@[i]).1 < cache.next_id
}

impl SpecializedUiPipelines {
    /// An empty key map.
    pub fn new() -> (r: SpecializedUiPipelines)
        ensures
            r.entries@.len() == 0,
            forall|c: PipelineCache| specialized_wf(r, c),
    {
        SpecializedUiPipelines { entries: Vec::new() }
    }

    /// Returns the cached pipeline for `key`, or specializes, queues and
    /// caches a new one on first request.
    pub fn specialize(
        &mut self,
        cache: &mut PipelineCache,
        pipeline: &UiPipeline,
        material: &UiMaterial,
        key: UiPipelineKey,
    ) -> (id: u64)
        requires
            specialized_wf(*old(self), *old(cache)),
            old(cache).wf(),
            old(cache).next_id < u64::MAX,
        ensures
            final(cache).wf(),
            specialized_wf(*final(self), *final(cache)),
            match key_lookup(old(self).entries@, key) {
                Some(pid) => {
                    &&& id == pid
                    &&& final(self).entries@ == old(self).entries@
                    &&& final(cache).next_id == old(cache).next_id
                    &&& final(cache).pipelines@ == old(cache).pipelines@
                },
                None => {
                    &&& id == old(cache).next_id
                    &&& final(self).entries@ == old(self).entries@.push((key, id))
                    &&& final(cache).next_id == old(cache).next_id + 1
                    &&& final(cache).pipelines@.len() == old(cache).pipelines@.len() + 1
                    &&& forall|i: int|
                        0 <= i < old(cache).pipelines@.len() ==> final(cache).pipelines@[i] == old(
                            cache,
                        ).pipelines@[i]
                    &&& final(cache).pipelines@.last().0 == id
                    &&& descriptor_matches(
                        final(cache).pipelines@.last().1,
                        *pipeline,
                        *material,
                        key,
                    )
                },
            },
    {
        proof {
            assert(self.entries@.skip(0) =~= self.entries@);
        }
        let mut i: usize = 0;
        while i < self.entries.len()
            invariant
                i <= self.entries@.len(),
                self.entries@ == old(self).entries@,
                cache.next_id == old(cache).next_id,
                cache.pipelines@ == old(cache).pipelines@,
                cache.wf(),
                specialized_wf(*self, *cache),
                key_lookup(old(self).entries@, key) == key_lookup(
                    self.entries@.skip(i as int),
                    key,
                ),
            decreases self.entries@.len() - i,
        {
            proof {
                assert(self.entries@.skip(i as int)[0] == self.entries@[i as int]);
                assert(self.entries@.skip(i as int).drop_first() =~= self.entries@.skip(
                    i as int + 1,
                ));
            }
            if self.entries[i].0 == key {
                return self.entries[i].1;
            }
            i += 1;
        }
        proof {
            assert(self.entries@.skip(self.entries@.len() as int) =~= Seq::<(
                UiPipelineKey,
                u64,
            )>::empty());
        }
        let desc = pipeline.specialize(material, key);
        let id = cache.queue_render_pipeline(desc);
        self.entries.push((key, id));
        proof {
            assert forall|a: int, b: int|
                0 <= a < b < self.entries@.len() implies (#[trigger] self.entries@[a]).1 != (
            #[trigger] self.entries@[b]).1 by {
                if b < old(self).entries@.len() {
                    assert(self.entries@[a] == old(self).entries@[a]);
                    assert(self.entries@[b] == old(self).entries@[b]);
                } else {
                    assert(self.entries@[b].1 == id);
                    assert(self.entries@[a] == old(self).entries@[a]);
                }
            }
            assert forall|a: int, b: int|
                0 <= a < b < self.entries@.len() implies (#[trigger] self.entries@[a]).0 != (
            #[trigger] self.entries@[b]).0 by {
                if b < old(self).entries@.len() {
                    assert(self.entries@[a] == old(self).entries@[a]);
                    assert(self.entries@[b] == old(self).entries@[b]);
                } else {
                    assert(self.entries@[b].0 == key);
                    assert(self.entries@[a] == old(self).entries@[a]);
                    lemma_key_lookup_absent(old(self).entries@, key, a);
                }
            }
        }
        id
    }
}

/// First key cached under a pipeline identity, scanning from the front.
pub open spec fn id_key_lookup(s: Seq<(UiPipelineKey, u64)>, id: u64) -> Option<UiPipelineKey>
    decreases s.len(),
{
    if s.len() == 0 {
        None
    } else if s[0].1 == id {
        Some(s[0].0)
    } else {
        id_key_lookup(s.drop_first(), id)
    }
}

/// Appending an entry under a different identity leaves a lookup unchanged.
pub proof fn lemma_id_key_push_other(s: Seq<(UiPipelineKey, u64)>, e: (UiPipelineKey, u64), id: u64)
    requires
        e.1 != id,
    ensures
        id_key_lookup(s.push(e), id) == id_key_lookup(s, id),
    decreases s.len(),
{
    if s.len() == 0 {
        assert(s.push(e)[0] == e);
        assert(s.push(e).drop_first() =~= Seq::<(UiPipelineKey, u64)>::empty());
        assert(id_key_lookup(s.push(e), id) == id_key_lookup(s.push(e).drop_first(), id));
        assert(id_key_lookup(s, id) is None);
    } else {
        assert(s.push(e)[0] == s[0]);
        if s[0].1 != id {
            assert(s.push(e).drop_first() =~= s.drop_first().push(e));
            lemma_id_key_push_other(s.drop_first(), e, id);
            assert(id_key_lookup(s.push(e), id) == id_key_lookup(s.push(e).drop_first(), id));
            assert(id_key_lookup(s, id) == id_key_lookup(s.drop_first(), id));
        } else {
            assert(id_key_lookup(s.push(e), id) == Some(s.push(e)[0].0));
            assert(id_key_lookup(s, id) == Some(s[0].0));
        }
    }
}

/// Appending an entry under a fresh identity makes it that identity's key.
pub proof fn lemma_id_key_push_self(s: Seq<(UiPipelineKey, u64)>, e: (UiPipelineKey, u64))
    requires
        forall|i: int| 0 <= i < s.len() ==> (#[trigger] s[i]).1 != e.1,
    ensures
        id_key_lookup(s.push(e), e.1) == Some(e.0),
    decreases s.len(),
{
    if s.len() == 0 {
        assert(s.push(e)[0] == e);
    } else {
        assert(s.push(e)[0] == s[0]);
        assert(s[0].1 != e.1);
        assert(s.push(e).drop_first() =~= s.drop_first().push(e));
        assert(forall|i: int|
            0 <= i < s.drop_first().len() ==> (#[trigger] s.drop_first()[i]).1 != e.1);
        lemma_id_key_push_self(s.drop_first(), e);
    }
}

/// A key that looks up to nothing is on no entry.
proof fn lemma_key_lookup_absent(s: Seq<(UiPipelineKey, u64)>, k: UiPipelineKey, i: int)
    requires
        key_lookup(s, k) is None,
        0 <= i < s.len(),
    ensures
        s[i].0 != k,
    decreases s.len(),
{
    if i > 0 {
        lemma_key_lookup_absent(s.drop_first(), k, i - 1);
        assert(s.drop_first()[i - 1] == s[i]);
    }
}

/// A successful lookup names an entry of the map.
pub proof fn lemma_key_lookup_index(s: Seq<(UiPipelineKey, u64)>, k: UiPipelineKey)
    requires
        key_lookup(s, k) is Some,
    ensures
        exists|i: int| 0 <= i < s.len() && #[trigger] s[i] == (k, key_lookup(s, k).unwrap()),
    decreases s.len(),
{
    if s.len() > 0 && s[0].0 != k {
        lemma_key_lookup_index(s.drop_first(), k);
        let i = choose|i: int|
            0 <= i < s.drop_first().len() && #[trigger] s.drop_first()[i] == (
            k,
            key_lookup(s.drop_first(), k).unwrap(),
        );
        assert(s[i + 1] == (k, key_lookup(s, k).unwrap()));
    }
}

/// Law: the cache is a pure function of key equality. Once a pipeline
/// identity is cached under a key, looking that key up again yields the
/// identical identity.
pub proof fn lemma_pipeline_cache_roundtrip(
    s: Seq<(UiPipelineKey, u64)>,
    k: UiPipelineKey,
    id: u64,
)
    requires
        key_lookup(s, k) is None,
    ensures
        key_lookup(s.push((k, id)), k) == Some(id),
    decreases s.len(),
{
    if s.len() == 0 {
        assert(s.push((k, id))[0] == (k, id));
    } else {
        assert(s.push((k, id))[0] == s[0]);
        if s[0].0 != k {
            assert(s.push((k, id)).drop_first() =~= s.drop_first().push((k, id)));
            lemma_pipeline_cache_roundtrip(s.drop_first(), k, id);
        }
    }
}

/// Law: distinct keys never share a cached pipeline. In particular, two
/// keys differing only in the HDR flag yield distinct pipelines.
pub proof fn lemma_pipeline_cache_distinct(
    sp: SpecializedUiPipelines,
    cache: PipelineCache,
    k1: UiPipelineKey,
    k2: UiPipelineKey,
)
    requires
        specialized_wf(sp, cache),
        k1 != k2,
        key_lookup(sp.entries@, k1) is Some,
        key_lookup(sp.entries@, k2) is Some,
    ensures
        key_lookup(sp.entries@, k1) != key_lookup(sp.entries@, k2),
{
    lemma_key_lookup_index(sp.entries@, k1);
    lemma_key_lookup_index(sp.entries@, k2);
    let i1 = choose|i: int|
        0 <= i < sp.entries@.len() && #[trigger] sp.entries@[i] == (
        k1,
        key_lookup(sp.entries@, k1).unwrap(),
    );
    let i2 = choose|i: int|
        0 <= i < sp.entries@.len() && #[trigger] sp.entries@[i] == (
        k2,
        key_lookup(sp.entries@, k2).unwrap(),
    );
    assert(i1 != i2);
}

} // verus!
