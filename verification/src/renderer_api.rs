//! Handles of the renderer's public drawing API.

use vstd::prelude::*;

use crate::resource_store::shader::ShaderId;

verus! {

/// Handle of a mesh added to the renderer.
#[derive(Clone, Copy)]
pub struct MeshId;

/// A mesh together with the shader it is drawn with.
#[derive(Clone, Copy)]
pub struct MeshBundle {
    shader: ShaderId,
    mesh: MeshId,
}

impl MeshBundle {
    pub closed spec fn spec_shader(&self) -> ShaderId {
        self.shader
    }

    pub fn new(shader: ShaderId, mesh: MeshId) -> (r: MeshBundle)
        ensures
            r.spec_shader() == shader,
    {
        MeshBundle { shader, mesh }
    }

    #[verifier::when_used_as_spec(spec_shader)]
    pub fn shader(&self) -> (r: ShaderId)
        ensures
            r == self.spec_shader(),
    {
        self.shader
    }
}

/// Handle of a camera of the renderer.
pub struct CameraId;

} // verus!
