//! Choice of the Monte Carlo integration backend.
use vstd::prelude::*;

verus! {

/// Compute backend for amplitude evaluation.
#[derive(Debug, Clone, Copy, PartialEq, Eq, Structural)]
pub enum IntegratorBackend {
    /// CPU, thread-parallel.
    Cpu,
    /// GPU compute shader.
    Gpu,
}

impl Default for IntegratorBackend {
    /// The CPU backend.
    fn default() -> (b: Self)
        ensures
            b == IntegratorBackend::Cpu,
    {
        IntegratorBackend::Cpu
    }
}

impl IntegratorBackend {
    /// Whether GPU integration is available: this build has no GPU support,
    /// so never.
    pub fn gpu_available() -> (b: bool)
        ensures
            !b,
    {
        false
    }

    /// Human-readable description of the backend.
    pub fn description(&self) -> (s: &'static str)
        ensures
            s@ == (match *self {
                IntegratorBackend::Cpu => "CPU (Rayon thread-parallel)"@,
                IntegratorBackend::Gpu => "GPU (WebGPU compute shader)"@,
            }),
    {
        match self {
            IntegratorBackend::Cpu => "CPU (Rayon thread-parallel)",
            IntegratorBackend::Gpu => "GPU (WebGPU compute shader)",
        }
    }
}

} // verus!
