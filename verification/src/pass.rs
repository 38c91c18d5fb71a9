//! The pass executor: resolves which viewing context to render, decides
//! whether to render at all, and turns a sorted phase into the ordered
//! draw commands of one render pass over the existing color target.

use vstd::prelude::*;
use crate::batch::{UiBatch, UiMeta};
use crate::material::{PreparedUiMaterial, RenderUiMaterials};
use crate::queue::{TransparentUi, RenderPhase, UiBatchEntity, UiImageBindGroups};

verus! {

/// Per-camera UI toggle: rendering is skipped for a camera that disables
/// its UI layer.
#[derive(Clone, Copy, PartialEq, Eq, Structural, Debug)]
pub struct UiCameraConfig {
    pub show_ui: bool,
}

/// How the pass treats the color target it opens: the UI pass loads the
/// already rendered frame, it never clears it.
#[derive(Clone, Copy, PartialEq, Eq, Structural, Debug)]
pub enum LoadOp {
    Load,
    Clear,
}

/// One command issued into the render pass, by resource identity.
#[derive(Clone, Copy, PartialEq, Eq, Structural, Debug)]
pub enum DrawCommand {
    SetPipeline { pipeline: u64 },
    SetBindGroup { index: u32, bind_group: u64, dynamic_offset: Option<u32> },
    SetVertexBuffer { slot: u32, buffer: u64 },
    Draw { start: u32, end: u32 },
}

/// One recorded render pass: the color target it draws over (loaded, not
/// cleared) and its commands in order.
#[derive(Clone, PartialEq, Eq, Debug)]
pub struct RenderPassRecording {
    pub target: u64,
    pub load: LoadOp,
    pub commands: Vec<DrawCommand>,
}

/// One viewing context the pass can render: its entity, its color target,
/// its camera's UI toggle, and its sorted phase.
pub struct UiViewEntry {
    pub entity: u64,
    pub target: u64,
    pub camera_config: Option<UiCameraConfig>,
    pub phase: RenderPhase,
}

/// First entry registered for an entity.
pub open spec fn spec_find_view(s: Seq<UiViewEntry>, entity: u64) -> Option<UiViewEntry>
    decreases s.len(),
{
    if s.len() == 0 {
        None
    } else if s[0].entity == entity {
        Some(s[0])
    } else {
        spec_find_view(s.drop_first(), entity)
    }
}

/// First default-camera view registered for an entity.
pub open spec fn spec_find_default_view(s: Seq<(u64, u64)>, entity: u64) -> Option<u64>
    decreases s.len(),
{
    if s.len() == 0 {
        None
    } else if s[0].0 == entity {
        Some(s[0].1)
    } else {
        spec_find_default_view(s.drop_first(), entity)
    }
}

/// First uniform offset registered for a view entity.
pub open spec fn spec_find_offset(s: Seq<(u64, u32)>, entity: u64) -> Option<u32>
    decreases s.len(),
{
    if s.len() == 0 {
        None
    } else if s[0].0 == entity {
        Some(s[0].1)
    } else {
        spec_find_offset(s.drop_first(), entity)
    }
}

/// First batch spawned under an entity.
pub open spec fn spec_find_batch(s: Seq<UiBatchEntity>, entity: u64) -> Option<UiBatch>
    decreases s.len(),
{
    if s.len() == 0 {
        None
    } else if s[0].entity == entity {
        Some(s[0].batch)
    } else {
        spec_find_batch(s.drop_first(), entity)
    }
}

/// Looks up the first view entry registered for an entity.
fn find_view<'a>(s: &'a Vec<UiViewEntry>, entity: u64) -> (r: Option<&'a UiViewEntry>)
    ensures
        match r {
            Some(v) => spec_find_view(s@, entity) == Some(*v),
            None => spec_find_view(s@, entity) is None,
        },
{
    proof {
        assert(s@.skip(0) =~= s@);
    }
    let mut i: usize = 0;
    while i < s.len()
        invariant
            i <= s@.len(),
            spec_find_view(s@, entity) == spec_find_view(s@.skip(i as int), entity),
        decreases s@.len() - i,
    {
        proof {
            assert(s@.skip(i as int)[0] == s@[i as int]);
            assert(s@.skip(i as int).drop_first() =~= s@.skip(i as int + 1));
        }
        if s[i].entity == entity {
            return Some(&s[i]);
        }
        i += 1;
    }
    None
}

/// Looks up the first default-camera view registered for an entity.
fn find_default_view(s: &Vec<(u64, u64)>, entity: u64) -> (r: Option<u64>)
    ensures
        r == spec_find_default_view(s@, entity),
{
    proof {
        assert(s@.skip(0) =~= s@);
    }
    let mut i: usize = 0;
    while i < s.len()
        invariant
            i <= s@.len(),
            spec_find_default_view(s@, entity) == spec_find_default_view(
                s@.skip(i as int),
                entity,
            ),
        decreases s@.len() - i,
    {
        proof {
            assert(s@.skip(i as int)[0] == s@[i as int]);
            assert(s@.skip(i as int).drop_first() =~= s@.skip(i as int + 1));
        }
        if s[i].0 == entity {
            return Some(s[i].1);
        }
        i += 1;
    }
    None
}

/// Looks up the first uniform offset registered for a view entity.
fn find_offset(s: &Vec<(u64, u32)>, entity: u64) -> (r: Option<u32>)
    ensures
        r == spec_find_offset(s@, entity),
{
    proof {
        assert(s@.skip(0) =~= s@);
    }
    let mut i: usize = 0;
    while i < s.len()
        invariant
            i <= s@.len(),
            spec_find_offset(s@, entity) == spec_find_offset(s@.skip(i as int), entity),
        decreases s@.len() - i,
    {
        proof {
            assert(s@.skip(i as int)[0] == s@[i as int]);
            assert(s@.skip(i as int).drop_first() =~= s@.skip(i as int + 1));
        }
        if s[i].0 == entity {
            return Some(s[i].1);
        }
        i += 1;
    }
    None
}

/// Looks up the first batch spawned under an entity.
fn find_batch(s: &Vec<UiBatchEntity>, entity: u64) -> (r: Option<UiBatch>)
    ensures
        r == spec_find_batch(s@, entity),
{
    proof {
        assert(s@.skip(0) =~= s@);
    }
    let mut i: usize = 0;
    while i < s.len()
        invariant
            i <= s@.len(),
            spec_find_batch(s@, entity) == spec_find_batch(s@.skip(i as int), entity),
        decreases s@.len() - i,
    {
        proof {
            assert(s@.skip(i as int)[0] == s@[i as int]);
            assert(s@.skip(i as int).drop_first() =~= s@.skip(i as int + 1));
        }
        if s[i].entity == entity {
            return Some(s[i].batch);
        }
        i += 1;
    }
    None
}

/// Binds the per-frame view bind group at `index` with the view's dynamic
/// uniform offset.
pub struct SetUiViewBindGroup;

impl SetUiViewBindGroup {
    pub fn render(
        index: u32,
        ui_meta: &UiMeta,
        view_uniform_offset: u32,
        pass: &mut Vec<DrawCommand>,
    )
        requires
            ui_meta.view_bind_group is Some,
        ensures
            final(pass)@ == old(pass)@.push(
                DrawCommand::SetBindGroup {
                    index,
                    bind_group: ui_meta.view_bind_group.unwrap(),
                    dynamic_offset: Some(view_uniform_offset),
                },
            ),
    {
        match ui_meta.view_bind_group {
            Some(bg) => {
                pass.push(
                    DrawCommand::SetBindGroup {
                        index,
                        bind_group: bg,
                        dynamic_offset: Some(view_uniform_offset),
                    },
                );
            },
            None => {
                proof {
                    assert(false);
                }
            },
        }
    }
}

/// Binds the batch's cached texture bind group at `index`.
pub struct SetUiTextureBindGroup;

impl SetUiTextureBindGroup {
    pub fn render(
        index: u32,
        batch: &UiBatch,
        image_bind_groups: &UiImageBindGroups,
        pass: &mut Vec<DrawCommand>,
    )
        requires
            image_bind_groups.values.wf(),
            image_bind_groups.values@.contains_key(batch.image),
        ensures
            final(pass)@ == old(pass)@.push(
                DrawCommand::SetBindGroup {
                    index,
                    bind_group: image_bind_groups.values@[batch.image],
                    dynamic_offset: None,
                },
            ),
    {
        match image_bind_groups.values.get(batch.image) {
            Some(bg) => {
                pass.push(
                    DrawCommand::SetBindGroup { index, bind_group: *bg, dynamic_offset: None },
                );
            },
            None => {
                proof {
                    assert(false);
                }
            },
        }
    }
}

/// Binds the batch's prepared material bind group at `index`.
pub struct SetUiMaterialBindGroup;

impl SetUiMaterialBindGroup {
    pub fn render(
        index: u32,
        batch: &UiBatch,
        materials: &RenderUiMaterials,
        pass: &mut Vec<DrawCommand>,
    )
        requires
            materials.materials.wf(),
            materials.materials@.contains_key(batch.material.instance),
        ensures
            final(pass)@ == old(pass)@.push(
                DrawCommand::SetBindGroup {
                    index,
                    bind_group: materials.materials@[batch.material.instance].bind_group,
                    dynamic_offset: None,
                },
            ),
    {
        match materials.materials.get(batch.material.instance) {
            Some(m) => {
                pass.push(
                    DrawCommand::SetBindGroup {
                        index,
                        bind_group: m.bind_group,
                        dynamic_offset: None,
                    },
                );
            },
            None => {
                proof {
                    assert(false);
                }
            },
        }
    }
}

/// Issues the indexed draw over the batch's vertex range.
pub struct DrawUiNode;

impl DrawUiNode {
    pub fn render(batch: &UiBatch, pass: &mut Vec<DrawCommand>)
        ensures
            final(pass)@ == old(pass)@.push(
                DrawCommand::Draw { start: batch.range_start, end: batch.range_end },
            ),
    {
        pass.push(DrawCommand::Draw { start: batch.range_start, end: batch.range_end });
    }
}

/// The commands one draw item issues: its pipeline, the view, texture and
/// material bind groups, and the indexed draw over its batch's range.
pub open spec fn spec_item_commands(
    item: TransparentUi,
    batch: UiBatch,
    view_bind_group: u64,
    offset: u32,
    bgs: Map<u64, u64>,
    mats: Map<u64, PreparedUiMaterial>,
) -> Seq<DrawCommand> {
    seq![
        DrawCommand::SetPipeline { pipeline: item.pipeline },
        DrawCommand::SetBindGroup { index: 0, bind_group: view_bind_group, dynamic_offset: Some(offset) },
        DrawCommand::SetBindGroup { index: 1, bind_group: bgs[batch.image], dynamic_offset: None },
        DrawCommand::SetBindGroup {
            index: 2,
            bind_group: mats[batch.material.instance].bind_group,
            dynamic_offset: None,
        },
        DrawCommand::Draw { start: batch.range_start, end: batch.range_end },
    ]
}

/// The commands of a whole phase, item by item in sorted order.
pub open spec fn spec_phase_commands(
    items: Seq<TransparentUi>,
    batches: Seq<UiBatchEntity>,
    view_bind_group: u64,
    offset: u32,
    bgs: Map<u64, u64>,
    mats: Map<u64, PreparedUiMaterial>,
) -> Seq<DrawCommand>
    decreases items.len(),
{
    if items.len() == 0 {
        Seq::empty()
    } else {
        spec_phase_commands(items.drop_last(), batches, view_bind_group, offset, bgs, mats)
            + spec_item_commands(
            items.last(),
            spec_find_batch(batches, items.last().entity).unwrap(),
            view_bind_group,
            offset,
            bgs,
            mats,
        )
    }
}

/// Every item of the phase can be drawn: its batch entity exists, its
/// texture bind group is cached, and its material is prepared.
pub open spec fn phase_renderable(
    items: Seq<TransparentUi>,
    batches: Seq<UiBatchEntity>,
    bgs: Map<u64, u64>,
    mats: Map<u64, PreparedUiMaterial>,
) -> bool {
    forall|i: int|
        0 <= i < items.len() ==> {
            let b = spec_find_batch(batches, (#[trigger] items[i]).entity);
            &&& b is Some
            &&& bgs.contains_key(b.unwrap().image)
            &&& mats.contains_key(b.unwrap().material.instance)
        }
}

/// The render-graph node that executes the UI pass for one view per frame.
pub struct UiPassNode {}

impl UiPassNode {
    /// A fresh pass node.
    pub fn new() -> (r: UiPassNode) {
        UiPassNode {  }
    }

    /// Runs the pass for the view handed in. Resolves the view entry; a
    /// view with no queued items, or whose camera disables UI, terminates
    /// with no pass (not an error). Otherwise prefers the dedicated
    /// orthographic UI camera view over the raw view entity, opens a pass
    /// that loads the existing color target, binds the shared vertex
    /// buffer once, and issues each sorted item's commands in order.
    #[verifier::rlimit(100)]
    #[verifier::loop_isolation(false)]
    pub fn run(
        &self,
        input_view_entity: u64,
        ui_views: &Vec<UiViewEntry>,
        default_camera_views: &Vec<(u64, u64)>,
        ui_meta: &UiMeta,
        vertex_buffer: u64,
        view_uniform_offsets: &Vec<(u64, u32)>,
        image_bind_groups: &UiImageBindGroups,
        render_materials: &RenderUiMaterials,
        ui_batches: &Vec<UiBatchEntity>,
    ) -> (r: Option<RenderPassRecording>)
        requires
            image_bind_groups.values.wf(),
            render_materials.materials.wf(),
            match spec_find_view(ui_views@, input_view_entity) {
                Some(v) => (v.phase.items@.len() > 0 && (match v.camera_config {
                    Some(c) => c.show_ui,
                    None => true,
                })) ==> {
                    let resolved = match spec_find_default_view(
                        default_camera_views@,
                        input_view_entity,
                    ) {
                        Some(e) => e,
                        None => input_view_entity,
                    };
                    &&& ui_meta.view_bind_group is Some
                    &&& spec_find_offset(view_uniform_offsets@, resolved) is Some
                    &&& phase_renderable(
                        v.phase.items@,
                        ui_batches@,
                        image_bind_groups.values@,
                        render_materials.materials@,
                    )
                },
                None => true,
            },
        ensures
            match spec_find_view(ui_views@, input_view_entity) {
                None => r is None,
                Some(v) => {
                    if v.phase.items@.len() == 0 {
                        r is None
                    } else if (match v.camera_config {
                        Some(c) => !c.show_ui,
                        None => false,
                    }) {
                        r is None
                    } else {
                        let resolved = match spec_find_default_view(
                            default_camera_views@,
                            input_view_entity,
                        ) {
                            Some(e) => e,
                            None => input_view_entity,
                        };
                        match r {
                            Some(rec) => {
                                &&& rec.target == v.target
                                &&& rec.load == LoadOp::Load
                                &&& rec.commands@ == seq![
                                    DrawCommand::SetVertexBuffer { slot: 0, buffer: vertex_buffer },
                                ] + spec_phase_commands(
                                    v.phase.items@,
                                    ui_batches@,
                                    ui_meta.view_bind_group.unwrap(),
                                    spec_find_offset(view_uniform_offsets@, resolved).unwrap(),
                                    image_bind_groups.values@,
                                    render_materials.materials@,
                                )
                            },
                            None => false,
                        }
                    }
                },
            },
    {
        let entry = match find_view(ui_views, input_view_entity) {
            Some(e) => e,
            None => {
                return None;
            },
        };
        if entry.phase.items.len() == 0 {
            return None;
        }
        match entry.camera_config {
            Some(c) => {
                if !c.show_ui {
                    return None;
                }
            },
            None => {},
        }

        let view_entity = match find_default_view(default_camera_views, input_view_entity) {
            Some(e) => e,
            None => input_view_entity,
        };
        let offset = match find_offset(view_uniform_offsets, view_entity) {
            Some(o) => o,
            None => {
                proof {
                    assert(false);
                }
                0
            },
        };

        let ghost view_bg = ui_meta.view_bind_group.unwrap();
        let mut commands: Vec<DrawCommand> = Vec::new();
        commands.push(DrawCommand::SetVertexBuffer { slot: 0, buffer: vertex_buffer });

        let mut i: usize = 0;
        while i < entry.phase.items.len()
            invariant
                i <= entry.phase.items@.len(),
                commands@ == seq![
                    DrawCommand::SetVertexBuffer { slot: 0, buffer: vertex_buffer },
                ] + spec_phase_commands(
                    entry.phase.items@.subrange(0, i as int),
                    ui_batches@,
                    view_bg,
                    offset,
                    image_bind_groups.values@,
                    render_materials.materials@,
                ),
            decreases entry.phase.items@.len() - i,
        {
            proof {
                assert(entry.phase.items@.subrange(0, i + 1).drop_last()
                    =~= entry.phase.items@.subrange(0, i as int));
                assert(entry.phase.items@.subrange(0, i + 1).last()
                    == entry.phase.items@[i as int]);
            }
            let item = entry.phase.items[i];
            let batch = match find_batch(ui_batches, item.entity) {
                Some(b) => b,
                None => {
                    proof {
                        assert(false);
                    }
                    UiBatch {
                        range_start: 0,
                        range_end: 0,
                        image: 0,
                        material: crate::material::MaterialRef { type_id: 0, instance: 0 },
                        z: 0,
                    }
                },
            };
            commands.push(DrawCommand::SetPipeline { pipeline: item.pipeline });
            SetUiViewBindGroup::render(0, ui_meta, offset, &mut commands);
            SetUiTextureBindGroup::render(1, &batch, image_bind_groups, &mut commands);
            SetUiMaterialBindGroup::render(2, &batch, render_materials, &mut commands);
            DrawUiNode::render(&batch, &mut commands);
            proof {
                assert(commands@ =~= seq![
                    DrawCommand::SetVertexBuffer { slot: 0, buffer: vertex_buffer },
                ] + spec_phase_commands(
                    entry.phase.items@.subrange(0, i + 1),
                    ui_batches@,
                    view_bg,
                    offset,
                    image_bind_groups.values@,
                    render_materials.materials@,
                ));
            }
            i += 1;
        }
        proof {
            assert(entry.phase.items@.subrange(0, entry.phase.items@.len() as int)
                =~= entry.phase.items@);
        }
        Some(RenderPassRecording { target: entry.target, load: LoadOp::Load, commands })
    }
}

} // verus!
