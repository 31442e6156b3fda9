//! Layout of the per-mesh transform uniforms.

use vstd::prelude::*;

use crate::resource_store::{GpuMeshId, PipelineId};

verus! {

/// A mesh to draw and the pipeline to draw it with.
#[derive(Debug, Clone, Copy)]
pub struct MeshBundle {
    pub mesh_id: GpuMeshId,
    pub pipeline_id: PipelineId,
}

/// The smallest multiple of `step` that is at least `value` (both as 32-bit
/// numbers).
pub open spec fn next_multiple(value: u32, step: u32) -> int {
    step * (value / step + if value % step == 0 { 0int } else { 1int })
}

/// Rounds `value`, taken as a 32-bit number, up to the next multiple of
/// `step`: the least multiple of `step` that is at least the value.
pub fn ceil_to_next_multiple(value: usize, step: u32) -> (r: u64)
    requires
        step > 0,
        next_multiple(#[verifier::truncate] (value as u32), step) <= u32::MAX,
    ensures
        r == next_multiple(#[verifier::truncate] (value as u32), step),
        (r as int) % (step as int) == 0,
        (#[verifier::truncate] (value as u32)) <= r,
        r < (#[verifier::truncate] (value as u32)) + step,
{
    let value32 = #[verifier::truncate] (value as u32);
    proof {
        crate::laws::law_next_multiple_bounds(value32, step);
        if value32 % step != 0 {
            assert(step >= 2);
            assert(value32 / step <= value32 / 2) by (nonlinear_arith)
                requires
                    step >= 2,
            ;
        }
    }
    let divide_and_ceil = value32 / step + if value32 % step == 0 {
        0
    } else {
        1
    };
    (step * divide_and_ceil) as u64
}

/// [`ceil_to_next_multiple`] for any input: `None` when `step` is zero or
/// the multiple does not fit in 32 bits.
pub fn checked_ceil_to_next_multiple(value: usize, step: u32) -> (r: Option<u64>)
    ensures
        r is None <==> step == 0 || next_multiple(#[verifier::truncate] (value as u32), step)
            > u32::MAX,
        r matches Some(m) ==> m == next_multiple(#[verifier::truncate] (value as u32), step) && (m as int)
            % (step as int) == 0 && (#[verifier::truncate] (value as u32)) <= m && m < (
        #[verifier::truncate] (value as u32)) + step,
{
    if step == 0 {
        return None;
    }
    let value32 = #[verifier::truncate] (value as u32);
    proof {
        crate::laws::law_next_multiple_bounds(value32, step);
    }
    proof {
        if value32 % step != 0 {
            assert(step >= 2);
            assert(value32 / step <= value32 / 2) by (nonlinear_arith)
                requires
                    step >= 2,
            ;
        }
    }
    let divide_and_ceil = value32 / step + if value32 % step == 0 {
        0
    } else {
        1
    };
    match step.checked_mul(divide_and_ceil) {
        Some(m) => Some(m as u64),
        None => None,
    }
}

/// The byte offset of the `index`-th transform in a uniform buffer whose
/// transforms are `aligned_size` bytes apart.
pub fn transform_offset(index: usize, aligned_size: u64) -> (r: u64)
    requires
        index * aligned_size <= u64::MAX,
    ensures
        r == index * aligned_size,
{
    (index as u64) * aligned_size
}

/// The dynamic offset, in the 32 bits the GPU API takes, of the `index`-th
/// transform of the uniform buffer: both numbers are taken in 32 bits, as
/// the GPU API does.
pub fn dynamic_offset(index: usize, aligned_size: u64) -> (r: u32)
    requires
        (#[verifier::truncate] (index as u32)) * (#[verifier::truncate] (aligned_size as u32))
            <= u32::MAX,
    ensures
        r == (#[verifier::truncate] (index as u32)) * (#[verifier::truncate] (aligned_size as u32)),
{
    (#[verifier::truncate] (index as u32)) * (#[verifier::truncate] (aligned_size as u32))
}

} // verus!
