//! Worker pools for GPU-side work.

use vstd::prelude::*;

verus! {

/// Data of the general worker pool.
pub struct ThreadPoolData;

/// What a GPU workload is for.
#[derive(Debug, Clone, Copy, PartialEq, Eq, Structural)]
pub enum GpuWorkloadCategory {
    Rendering,
    Physics,
    Compute,
}

/// Data of the GPU worker pool.
pub struct GpuThreadPoolData;

/// Configuration of the GPU worker pool.
pub struct GpuThreadPoolConfig;

impl Default for GpuThreadPoolConfig {
    fn default() -> GpuThreadPoolConfig {
        GpuThreadPoolConfig
    }
}

/// Hands out work to the pools.
pub struct ThreadPoolManager;

impl ThreadPoolManager {
    /// The manager shared by the whole engine.
    pub fn global() -> (r: &'static ThreadPoolManager)
        ensures
            *r == ThreadPoolManager,
    {
        &ThreadPoolManager
    }

    /// Runs `work` in the pool of `category`; there are no workers yet, so the work is
    /// dropped without running.
    pub fn execute<F: FnOnce()>(&self, category: GpuWorkloadCategory, work: F) {
    }
}

/// Runs a task on the general pool; there are no tasks yet.
pub fn execute_task() {
}

/// Submits a GPU command task; there are no tasks yet.
pub fn submit_gpu_command_task() {
}

/// Data of the GPU worker pool; making it always succeeds.
pub fn create_gpu_thread_pool_data(config: GpuThreadPoolConfig) -> (r: Result<GpuThreadPoolData, String>)
    ensures
        r is Ok,
{
    Ok(GpuThreadPoolData)
}

} // verus!
