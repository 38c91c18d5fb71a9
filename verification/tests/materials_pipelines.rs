use ui_render::batch::UiBatch;
use ui_render::cache::AssocVec;
use ui_render::device::{BindingType, GpuImage, RenderDevice, ShaderStages};
use ui_render::material::{
    extract_ui_materials, prepare_ui_material, prepare_ui_materials, AsBindGroupError, AssetEvent,
    ExtractedUiMaterials, MaterialRef, PrepareNextFrameMaterials, RenderUiMaterials,
    SpecializeOverride, UiMaterial, UiMaterialData,
};
use ui_render::pipeline::{
    BlendMode, PipelineCache, ShaderRef, SpecializedUiPipelines, TargetFormat, UiPipeline,
    UiPipelineKey, FRAGMENT_ENTRY, UI_SHADER_HANDLE, VERTEX_ENTRY,
};
use ui_render::queue::{
    queue_uinodes, queue_uinodes_for_view, RenderPhase, UiBatchEntity, UiImageBindGroups, UiView,
};

fn plain_material(type_id: u64) -> UiMaterial {
    UiMaterial {
        type_id,
        fragment_shader: ShaderRef::Default,
        layout_entries: Vec::new(),
        specialize: SpecializeOverride::none(),
    }
}

fn batch(entity: u64, image: u64, type_id: u64, instance: u64, z: i64) -> UiBatchEntity {
    UiBatchEntity {
        entity,
        batch: UiBatch {
            range_start: 0,
            range_end: 6,
            image,
            material: MaterialRef { type_id, instance },
            z,
        },
    }
}

#[test]
fn pipeline_requested_twice_is_cached() {
    let mut device = RenderDevice::new();
    let material = plain_material(1);
    let pipeline = UiPipeline::from_device(&mut device, &material);
    let mut pipelines = SpecializedUiPipelines::new();
    let mut cache = PipelineCache::new();
    let key = UiPipelineKey { hdr: false, bind_group_data: 9 };
    let first = pipelines.specialize(&mut cache, &pipeline, &material, key);
    let second = pipelines.specialize(&mut cache, &pipeline, &material, key);
    assert_eq!(first, second);
    assert_eq!(cache.pipelines.len(), 1);
    // a key differing only in the HDR flag is a distinct pipeline
    let hdr_key = UiPipelineKey { hdr: true, bind_group_data: 9 };
    let third = pipelines.specialize(&mut cache, &pipeline, &material, hdr_key);
    assert_ne!(first, third);
    assert_eq!(cache.pipelines.len(), 2);
    // and asking for it again still recompiles nothing
    let fourth = pipelines.specialize(&mut cache, &pipeline, &material, hdr_key);
    assert_eq!(third, fourth);
    assert_eq!(cache.pipelines.len(), 2);
}

#[test]
fn specialized_descriptor_has_the_fixed_template() {
    let mut device = RenderDevice::new();
    let material = plain_material(1);
    let pipeline = UiPipeline::from_device(&mut device, &material);
    let d = pipeline.specialize(&material, UiPipelineKey { hdr: false, bind_group_data: 0 });
    assert_eq!(d.vertex_shader, UI_SHADER_HANDLE);
    assert_eq!(d.vertex_entry_point, VERTEX_ENTRY);
    assert_eq!(d.fragment_entry_point, FRAGMENT_ENTRY);
    assert_eq!(d.target_format, TargetFormat::Standard);
    assert_eq!(d.blend, BlendMode::AlphaBlending);
    assert_eq!(d.layout, vec![pipeline.view_layout, pipeline.image_layout, pipeline.material_layout]);
    assert!(!d.depth_stencil);
    assert!(d.cull_mode.is_none());
    let hd = pipeline.specialize(&material, UiPipelineKey { hdr: true, bind_group_data: 0 });
    assert_eq!(hd.target_format, TargetFormat::Hdr);
}

#[test]
fn material_hook_customizes_the_descriptor() {
    let mut device = RenderDevice::new();
    let material = UiMaterial {
        type_id: 1,
        fragment_shader: ShaderRef::Handle(77),
        layout_entries: Vec::new(),
        specialize: SpecializeOverride {
            extra_shader_defs: vec![41, 42],
            fragment_entry_point: Some(99),
            blend: Some(BlendMode::Premultiplied),
        },
    };
    let pipeline = UiPipeline::from_device(&mut device, &material);
    assert_eq!(pipeline.fragment_shader, Some(77));
    let d = pipeline.specialize(&material, UiPipelineKey { hdr: false, bind_group_data: 0 });
    assert_eq!(d.fragment_shader, 77);
    assert_eq!(d.fragment_entry_point, 99);
    assert_eq!(d.blend, BlendMode::Premultiplied);
    assert_eq!(d.fragment_shader_defs, vec![41, 42]);
}

#[test]
fn from_device_records_the_three_layouts() {
    let mut device = RenderDevice::new();
    let material = plain_material(1);
    let pipeline = UiPipeline::from_device(&mut device, &material);
    assert_eq!(device.layouts.len(), 3);
    assert_eq!(device.layouts[0].0, pipeline.view_layout);
    let view_entries = &device.layouts[0].1.entries;
    assert_eq!(view_entries.len(), 1);
    assert_eq!(view_entries[0].visibility, ShaderStages::VertexFragment);
    assert_eq!(view_entries[0].ty, BindingType::UniformBuffer { has_dynamic_offset: true });
    let image_entries = &device.layouts[1].1.entries;
    assert_eq!(image_entries.len(), 2);
    assert_eq!(image_entries[0].ty, BindingType::Texture);
    assert_eq!(image_entries[1].ty, BindingType::Sampler);
}

#[test]
fn removal_cancels_pending_change() {
    let mut assets: AssocVec<UiMaterialData> = AssocVec::new();
    assets.insert(5, UiMaterialData { key_data: 50, texture: None });
    assets.insert(6, UiMaterialData { key_data: 60, texture: None });
    let events = vec![
        AssetEvent::Created { handle: 5 },
        AssetEvent::Created { handle: 6 },
        AssetEvent::Removed { handle: 5 },
    ];
    let extracted = extract_ui_materials(&events, &assets);
    assert_eq!(extracted.removed, vec![5]);
    assert_eq!(extracted.extracted.len(), 1);
    assert_eq!(extracted.extracted[0].0, 6);
    assert_eq!(extracted.extracted[0].1.key_data, 60);
}

#[test]
fn change_without_asset_extracts_nothing() {
    let assets: AssocVec<UiMaterialData> = AssocVec::new();
    let events = vec![AssetEvent::Modified { handle: 9 }];
    let extracted = extract_ui_materials(&events, &assets);
    assert!(extracted.extracted.is_empty());
    assert!(extracted.removed.is_empty());
}

#[test]
fn not_ready_material_defers_to_next_frame() {
    let mut device = RenderDevice::new();
    let material_record = plain_material(1);
    let pipeline = UiPipeline::from_device(&mut device, &material_record);
    let mut next = PrepareNextFrameMaterials::default();
    let mut rendered = RenderUiMaterials::new(1);
    let images: AssocVec<GpuImage> = AssocVec::new();
    let mut extracted = ExtractedUiMaterials {
        extracted: vec![(4, UiMaterialData { key_data: 40, texture: Some(900) })],
        removed: Vec::new(),
    };
    prepare_ui_materials(&mut next, &mut extracted, &mut rendered, &mut device, &images, &pipeline);
    assert!(rendered.materials.get(4).is_none());
    assert_eq!(next.assets.len(), 1);
    assert_eq!(next.assets[0].0, 4);

    // next frame the texture is resident, and the deferred material is
    // retried in front of newly extracted work
    let mut images2: AssocVec<GpuImage> = AssocVec::new();
    images2.insert(900, GpuImage { texture_view: 70, sampler: 71 });
    let mut extracted2 = ExtractedUiMaterials { extracted: Vec::new(), removed: Vec::new() };
    prepare_ui_materials(
        &mut next,
        &mut extracted2,
        &mut rendered,
        &mut device,
        &images2,
        &pipeline,
    );
    assert!(next.assets.is_empty());
    let prepared = rendered.materials.get(4).copied().unwrap();
    assert_eq!(prepared.key, 40);
    // the bind group was created against the material layout with the
    // texture's view and sampler
    let (gid, desc) = device.bind_groups.last().unwrap().clone();
    assert_eq!(gid, prepared.bind_group);
    assert_eq!(desc.layout, pipeline.material_layout);
    assert_eq!(desc.entries.len(), 2);
}

#[test]
fn direct_preparation_reports_retry() {
    let mut device = RenderDevice::new();
    let material_record = plain_material(1);
    let pipeline = UiPipeline::from_device(&mut device, &material_record);
    let images: AssocVec<GpuImage> = AssocVec::new();
    let data = UiMaterialData { key_data: 1, texture: Some(123) };
    let r = prepare_ui_material(&data, &mut device, &images, &pipeline);
    assert_eq!(r, Err(AsBindGroupError::RetryNextUpdate));
}

#[test]
fn removed_material_is_purged_and_batches_drop_silently() {
    // scenario: a material is prepared, then its asset is removed
    // mid-frame; the following queueing pass drops batches referencing it
    let mut device = RenderDevice::new();
    let material_record = plain_material(1);
    let pipeline = UiPipeline::from_device(&mut device, &material_record);
    let mut next = PrepareNextFrameMaterials::default();
    let mut rendered = RenderUiMaterials::new(1);
    let images: AssocVec<GpuImage> = AssocVec::new();
    let mut extracted = ExtractedUiMaterials {
        extracted: vec![(4, UiMaterialData { key_data: 40, texture: None })],
        removed: Vec::new(),
    };
    prepare_ui_materials(&mut next, &mut extracted, &mut rendered, &mut device, &images, &pipeline);
    assert!(rendered.materials.get(4).is_some());

    let mut removal = ExtractedUiMaterials { extracted: Vec::new(), removed: vec![4] };
    prepare_ui_materials(&mut next, &mut removal, &mut rendered, &mut device, &images, &pipeline);
    assert!(rendered.materials.get(4).is_none());

    let mut gpu_images: AssocVec<GpuImage> = AssocVec::new();
    gpu_images.insert(7, GpuImage { texture_view: 1, sampler: 2 });
    let mut pipelines = SpecializedUiPipelines::new();
    let mut cache = PipelineCache::new();
    let mut bind_groups = UiImageBindGroups::default();
    let mut phase = RenderPhase::default();
    let batches = vec![batch(30, 7, 1, 4, 11)];
    queue_uinodes_for_view(
        false,
        &mut phase,
        &mut device,
        &pipeline,
        &material_record,
        &mut pipelines,
        &mut cache,
        &mut bind_groups,
        &rendered,
        &gpu_images,
        &batches,
        2,
    );
    assert!(phase.items.is_empty());
    assert!(cache.pipelines.is_empty());
}

#[test]
fn queue_joins_batches_with_pipelines_and_bind_groups() {
    let mut device = RenderDevice::new();
    let material_record = plain_material(1);
    let pipeline = UiPipeline::from_device(&mut device, &material_record);
    let mut next = PrepareNextFrameMaterials::default();
    let mut rendered = RenderUiMaterials::new(1);
    let images: AssocVec<GpuImage> = AssocVec::new();
    let mut extracted = ExtractedUiMaterials {
        extracted: vec![(4, UiMaterialData { key_data: 40, texture: None })],
        removed: Vec::new(),
    };
    prepare_ui_materials(&mut next, &mut extracted, &mut rendered, &mut device, &images, &pipeline);

    let mut gpu_images: AssocVec<GpuImage> = AssocVec::new();
    gpu_images.insert(7, GpuImage { texture_view: 1, sampler: 2 });
    let mut pipelines = SpecializedUiPipelines::new();
    let mut cache = PipelineCache::new();
    let mut bind_groups = UiImageBindGroups::default();
    let mut phase = RenderPhase::default();
    // two batches share the texture, a third is another material type
    let batches = vec![batch(30, 7, 1, 4, 11), batch(31, 7, 1, 4, 12), batch(32, 7, 9, 4, 13)];
    queue_uinodes_for_view(
        false,
        &mut phase,
        &mut device,
        &pipeline,
        &material_record,
        &mut pipelines,
        &mut cache,
        &mut bind_groups,
        &rendered,
        &gpu_images,
        &batches,
        2,
    );
    assert_eq!(phase.items.len(), 2);
    assert_eq!(phase.items[0].sort_key, 11);
    assert_eq!(phase.items[0].entity, 30);
    assert_eq!(phase.items[0].draw_function, 2);
    assert_eq!(phase.items[1].sort_key, 12);
    // both batches share one specialized pipeline and one texture bind group
    assert_eq!(phase.items[0].pipeline, phase.items[1].pipeline);
    assert_eq!(cache.pipelines.len(), 1);
    assert_eq!(bind_groups.values.entries.len(), 1);
}

#[test]
fn queue_skips_without_view_uniforms_and_purges_on_events() {
    let mut device = RenderDevice::new();
    let material_record = plain_material(1);
    let pipeline = UiPipeline::from_device(&mut device, &material_record);
    let rendered = RenderUiMaterials::new(1);
    let mut gpu_images: AssocVec<GpuImage> = AssocVec::new();
    gpu_images.insert(7, GpuImage { texture_view: 701, sampler: 702 });
    gpu_images.insert(8, GpuImage { texture_view: 801, sampler: 802 });
    let mut pipelines = SpecializedUiPipelines::new();
    let mut cache = PipelineCache::new();
    let mut bind_groups = UiImageBindGroups::default();
    // two texture bind groups cached from an earlier frame
    for (img, view, sampler) in [(7u64, 701u64, 702u64), (8, 801, 802)] {
        let gid = device.create_bind_group(ui_render::device::BindGroupDescriptor {
            layout: pipeline.image_layout,
            entries: vec![
                ui_render::device::BindGroupEntry {
                    binding: 0,
                    resource: ui_render::device::BindingResource::TextureView(view),
                },
                ui_render::device::BindGroupEntry {
                    binding: 1,
                    resource: ui_render::device::BindingResource::Sampler(sampler),
                },
            ],
        });
        bind_groups.values.insert(img, gid);
    }
    let cached_eight = *bind_groups.values.get(8).unwrap();
    let mut meta = ui_render::batch::UiMeta::default();
    let mut views = vec![UiView { entity: 1, hdr: false, phase: RenderPhase::default() }];
    let events = vec![AssetEvent::Modified { handle: 7 }];
    queue_uinodes(
        &events,
        &mut device,
        &mut meta,
        None,
        &pipeline,
        &material_record,
        &mut pipelines,
        &mut cache,
        &mut bind_groups,
        &rendered,
        &gpu_images,
        &Vec::new(),
        &mut views,
        2,
    );
    // the modified texture lost its cached bind group, the untouched one kept it
    assert!(bind_groups.values.get(7).is_none());
    assert_eq!(bind_groups.values.get(8).copied(), Some(cached_eight));
    // without the global uniform binding nothing else happened
    assert!(meta.view_bind_group.is_none());
    assert!(views[0].phase.items.is_empty());
}

#[test]
fn queue_creates_the_view_bind_group_per_frame() {
    let mut device = RenderDevice::new();
    let material_record = plain_material(1);
    let pipeline = UiPipeline::from_device(&mut device, &material_record);
    let rendered = RenderUiMaterials::new(1);
    let gpu_images: AssocVec<GpuImage> = AssocVec::new();
    let mut pipelines = SpecializedUiPipelines::new();
    let mut cache = PipelineCache::new();
    let mut bind_groups = UiImageBindGroups::default();
    let mut meta = ui_render::batch::UiMeta::default();
    let mut views = vec![UiView { entity: 1, hdr: false, phase: RenderPhase::default() }];
    queue_uinodes(
        &Vec::new(),
        &mut device,
        &mut meta,
        Some(555),
        &pipeline,
        &material_record,
        &mut pipelines,
        &mut cache,
        &mut bind_groups,
        &rendered,
        &gpu_images,
        &Vec::new(),
        &mut views,
        2,
    );
    let vid = meta.view_bind_group.unwrap();
    let (gid, desc) = device.bind_groups.last().unwrap().clone();
    assert_eq!(gid, vid);
    assert_eq!(desc.layout, pipeline.view_layout);
    assert_eq!(desc.entries.len(), 1);
}
