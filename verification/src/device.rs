//! The GPU resource model: the library allocates logical identifiers for
//! bind group layouts and bind groups and records the descriptor of each;
//! the embedding replays the recorded creations against the real device.

use vstd::prelude::*;

verus! {

/// Shader stages a binding is visible to.
#[derive(Clone, Copy, PartialEq, Eq, Structural, Debug)]
pub enum ShaderStages {
    Vertex,
    Fragment,
    VertexFragment,
}

/// The type of one bind group layout entry.
#[derive(Clone, Copy, PartialEq, Eq, Structural, Debug)]
pub enum BindingType {
    /// A uniform buffer binding; the per-view binding uses a dynamic offset.
    UniformBuffer { has_dynamic_offset: bool },
    /// A filterable 2D texture.
    Texture,
    /// A filtering sampler.
    Sampler,
}

#[derive(Clone, Copy, PartialEq, Eq, Structural, Debug)]
pub struct BindGroupLayoutEntry {
    pub binding: u32,
    pub visibility: ShaderStages,
    pub ty: BindingType,
}

/// A bind group layout: the ordered entries it declares.
#[derive(Clone, PartialEq, Eq, Debug)]
pub struct BindGroupLayoutDescriptor {
    pub entries: Vec<BindGroupLayoutEntry>,
}

/// The resource bound by one bind group entry, by identity.
#[derive(Clone, Copy, PartialEq, Eq, Structural, Debug)]
pub enum BindingResource {
    /// A buffer binding, such as the per-frame view uniform buffer.
    Buffer(u64),
    /// A texture view.
    TextureView(u64),
    /// A sampler.
    Sampler(u64),
}

#[derive(Clone, Copy, PartialEq, Eq, Structural, Debug)]
pub struct BindGroupEntry {
    pub binding: u32,
    pub resource: BindingResource,
}

/// A bind group: its layout and the resources bound to each entry.
#[derive(Clone, PartialEq, Eq, Debug)]
pub struct BindGroupDescriptor {
    pub layout: u64,
    pub entries: Vec<BindGroupEntry>,
}

/// A texture asset resident on the GPU: its view and sampler identities.
#[derive(Clone, Copy, PartialEq, Eq, Structural, Debug)]
pub struct GpuImage {
    pub texture_view: u64,
    pub sampler: u64,
}

/// First bind group recorded under an identity, scanning from the front.
pub open spec fn group_lookup(s: Seq<(u64, BindGroupDescriptor)>, id: u64) -> Option<
    BindGroupDescriptor,
>
    decreases s.len(),
{
    if s.len() == 0 {
        None
    } else if s[0].0 == id {
        Some(s[0].1)
    } else {
        group_lookup(s.drop_first(), id)
    }
}

/// Recording one more bind group leaves every successful lookup unchanged.
pub proof fn lemma_group_lookup_push_found(
    s: Seq<(u64, BindGroupDescriptor)>,
    e: (u64, BindGroupDescriptor),
    id: u64,
)
    requires
        group_lookup(s, id) is Some,
    ensures
        group_lookup(s.push(e), id) == group_lookup(s, id),
    decreases s.len(),
{
    assert(s.len() > 0);
    assert(s.push(e)[0] == s[0]);
    if s[0].0 != id {
        assert(s.push(e).drop_first() =~= s.drop_first().push(e));
        lemma_group_lookup_push_found(s.drop_first(), e, id);
        assert(group_lookup(s.push(e), id) == group_lookup(s.push(e).drop_first(), id));
        assert(group_lookup(s, id) == group_lookup(s.drop_first(), id));
    } else {
        assert(group_lookup(s.push(e), id) == Some(s.push(e)[0].1));
        assert(group_lookup(s, id) == Some(s[0].1));
    }
}

/// Recording a bind group under a fresh identity makes it that identity's
/// record.
pub proof fn lemma_group_lookup_push_self(
    s: Seq<(u64, BindGroupDescriptor)>,
    e: (u64, BindGroupDescriptor),
)
    requires
        forall|i: int| 0 <= i < s.len() ==> (#[trigger] s[i]).0 != e.0,
    ensures
        group_lookup(s.push(e), e.0) == Some(e.1),
    decreases s.len(),
{
    if s.len() == 0 {
        assert(s.push(e)[0] == e);
    } else {
        assert(s.push(e)[0] == s[0]);
        assert(s[0].0 != e.0);
        assert(s.push(e).drop_first() =~= s.drop_first().push(e));
        assert(forall|i: int|
            0 <= i < s.drop_first().len() ==> (#[trigger] s.drop_first()[i]).0 != e.0);
        lemma_group_lookup_push_self(s.drop_first(), e);
    }
}

/// The device model: a fresh-identifier allocator together with the record
/// of every layout and bind group created through it.
pub struct RenderDevice {
    pub next_id: u64,
    pub layouts: Vec<(u64, BindGroupLayoutDescriptor)>,
    pub bind_groups: Vec<(u64, BindGroupDescriptor)>,
}

impl RenderDevice {
    /// Every identifier handed out so far is below `next_id`, and each
    /// allocation recorded exactly one creation.
    pub open spec fn wf(&self) -> bool {
        &&& forall|i: int|
            0 <= i < self.layouts@.len() ==> (#[trigger] self.layouts@[i]).0 < self.next_id
        &&& forall|i: int|
            0 <= i < self.bind_groups@.len() ==> (#[trigger] self.bind_groups@[i]).0 < self.next_id
        &&& self.next_id as int == self.layouts@.len() + self.bind_groups@.len()
    }

    /// A fresh device that has created nothing.
    pub fn new() -> (r: RenderDevice)
        ensures
            r.wf(),
            r.next_id == 0,
            r.layouts@.len() == 0,
            r.bind_groups@.len() == 0,
    {
        RenderDevice { next_id: 0, layouts: Vec::new(), bind_groups: Vec::new() }
    }

    /// Allocates a fresh identifier for a bind group layout and records its
    /// descriptor.
    pub fn create_bind_group_layout(&mut self, desc: BindGroupLayoutDescriptor) -> (id: u64)
        requires
            old(self).wf(),
            old(self).next_id < u64::MAX,
        ensures
            final(self).wf(),
            id == old(self).next_id,
            final(self).next_id == old(self).next_id + 1,
            final(self).layouts@ == old(self).layouts@.push((id, desc)),
            final(self).bind_groups@ == old(self).bind_groups@,
    {
        let id = self.next_id;
        self.next_id = self.next_id + 1;
        self.layouts.push((id, desc));
        id
    }

    /// Allocates a fresh identifier for a bind group and records its
    /// descriptor.
    pub fn create_bind_group(&mut self, desc: BindGroupDescriptor) -> (id: u64)
        requires
            old(self).wf(),
            old(self).next_id < u64::MAX,
        ensures
            final(self).wf(),
            id == old(self).next_id,
            final(self).next_id == old(self).next_id + 1,
            final(self).bind_groups@ == old(self).bind_groups@.push((id, desc)),
            final(self).layouts@ == old(self).layouts@,
    {
        let id = self.next_id;
        self.next_id = self.next_id + 1;
        self.bind_groups.push((id, desc));
        id
    }
}

} // verus!
