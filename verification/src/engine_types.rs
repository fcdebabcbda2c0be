use vstd::prelude::*;

verus! {

/// The outside handle types that the engine's bookkeeping carries without looking inside:
/// GPU objects, the outputs of asynchronous workloads and the actions handed to the engine.
/// The rendering layer names the concrete types; the scene logic only stores and moves them.
pub trait EngineTypes {
    type Buffer: core::fmt::Debug;
    type BindGroup: core::fmt::Debug;
    type BindGroupLayout: core::fmt::Debug;
    type RenderPipeline: core::fmt::Debug;
    type ComputePipeline: core::fmt::Debug;
    type TextureView: core::fmt::Debug;
    type TextureFormat: Copy + core::fmt::Debug;
    type WorkloadOutput;
    type Workload;
    type EngineAction;
}

} // verus!
