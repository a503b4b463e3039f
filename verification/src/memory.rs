//! GPU memory management and the metrics of performance comparisons.

use vstd::prelude::*;
use std::sync::Arc;

verus! {

/// Results of memory management.
pub type MemoryResult<T> = Result<T, String>;

/// A buffer handed out by the memory manager; `B` is the GPU buffer.
pub struct ManagedBuffer<B> {
    pub buffer: Arc<B>,
}

impl<B> ManagedBuffer<B> {
    /// The shared buffer.
    pub fn buffer_arc(self) -> (r: Arc<B>)
        ensures
            r == self.buffer,
    {
        self.buffer
    }
}

/// Hands out GPU buffers.
pub struct MemoryManager;

impl MemoryManager {
    /// Allocates a buffer of `size` bytes for the usage bits `usage`; allocation is not
    /// available, so this always fails with a message saying so.
    pub fn alloc_buffer<B>(&mut self, size: u64, usage: u32) -> (r: MemoryResult<ManagedBuffer<B>>)
        ensures
            r matches Err(message) && message@ == "MemoryManager::alloc_buffer not implemented"@,
    {
        Err(String::from_str("MemoryManager::alloc_buffer not implemented"))
    }
}

/// Where an implementation runs.
#[derive(Debug, Clone, Copy, PartialEq, Eq, Structural)]
pub enum Implementation {
    Cpu,
    Gpu,
}

/// What a metric measures.
#[derive(Debug, Clone, Copy, PartialEq, Eq, Structural)]
pub enum MetricType {
    Time,
    Memory,
    FrameTime,
}

/// Performance comparisons between implementations.
pub struct PerformanceMetrics;

impl PerformanceMetrics {
    /// Metrics with nothing measured.
    pub fn new() -> PerformanceMetrics {
        PerformanceMetrics
    }

    /// Starts measuring `name`; measurements are not recorded yet.
    pub fn start_measurement(&self, name: &str) {
    }

    /// The comparisons made so far: none, as measurements are not recorded yet.
    pub fn get_comparisons(&self) -> (r: Vec<String>)
        ensures
            r@.len() == 0,
    {
        Vec::new()
    }
}

impl Default for PerformanceMetrics {
    fn default() -> PerformanceMetrics {
        PerformanceMetrics::new()
    }
}

} // verus!
