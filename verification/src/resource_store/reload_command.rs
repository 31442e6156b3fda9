use vstd::prelude::*;

use super::render_pipeline::PipelineId;
use super::shader::ShaderId;

verus! {

/// What has to be rebuilt when a resource it was built from changes.
#[derive(Debug, Clone, Copy, PartialEq, Eq, Structural)]
pub enum RebuildCommand {
    Shader(ShaderId),
    Pipeline(PipelineId),
}

} // verus!
