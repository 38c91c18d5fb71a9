//! Verified core of a per-frame 2D overlay (UI) renderer.
//!
//! The crate covers the per-frame path from a committed snapshot of UI node
//! state to an ordered list of GPU draw commands: extraction of node visual
//! state, depth-ordered quad generation with clip adjustment and culling,
//! draw-call batching by render-state continuity, material preparation and
//! pipeline specialization caches, per-view phase queueing and sorting, and
//! the pass executor that turns a sorted phase into draw commands.
//!
//! All coordinates are exact fixed-point integers (the embedding chooses the
//! unit); GPU resources are modelled as allocated identifiers together with
//! the recorded descriptors an embedding replays against a real device.

pub mod batch;
pub mod cache;
pub mod device;
pub mod extract;
pub mod geometry;
pub mod material;
pub mod pass;
pub mod pipeline;
pub mod queue;
