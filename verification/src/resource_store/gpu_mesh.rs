use vstd::prelude::*;

verus! {

/// Key of a mesh uploaded to the GPU, in the 64-bit form of
/// `slotmap::KeyData::as_ffi`.
#[derive(Debug, Clone, Copy, PartialEq, Eq, Hash, Structural)]
pub struct GpuMeshId {
    key: u64,
}

impl GpuMeshId {
    pub closed spec fn spec_key(&self) -> u64 {
        self.key
    }

    /// The id of the mesh stored under the slot-map key of this form.
    pub fn from_ffi(key: u64) -> (r: GpuMeshId)
        ensures
            r.spec_key() == key,
    {
        GpuMeshId { key }
    }

    #[verifier::when_used_as_spec(spec_key)]
    pub fn as_ffi(&self) -> (r: u64)
        ensures
            r == self.spec_key(),
    {
        self.key
    }
}

} // verus!
