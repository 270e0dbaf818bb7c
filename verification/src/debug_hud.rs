//! Data of the debug overlay: the graphics memory counters it shows,
//! shared with the graphics backend.
use std::sync::atomic::AtomicU64;
use std::sync::Arc;
use vstd::prelude::*;

verus! {

/// Counters of graphics memory in use, in bytes, kept up to date by the
/// graphics backend.
pub struct DebugHudData {
    pub texture_memory_usage: Arc<AtomicU64>,
    pub buffer_memory_usage: Arc<AtomicU64>,
    pub stream_memory_usage: Arc<AtomicU64>,
    pub staging_memory_usage: Arc<AtomicU64>,
}

impl DebugHudData {
    pub fn new(
        texture_memory_usage: Arc<AtomicU64>,
        buffer_memory_usage: Arc<AtomicU64>,
        stream_memory_usage: Arc<AtomicU64>,
        staging_memory_usage: Arc<AtomicU64>,
    ) -> (r: DebugHudData)
        ensures
            r.texture_memory_usage == texture_memory_usage,
            r.buffer_memory_usage == buffer_memory_usage,
            r.stream_memory_usage == stream_memory_usage,
            r.staging_memory_usage == staging_memory_usage,
    {
        DebugHudData {
            texture_memory_usage,
            buffer_memory_usage,
            stream_memory_usage,
            staging_memory_usage,
        }
    }
}

} // verus!
