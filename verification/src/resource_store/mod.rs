pub mod composer;
pub mod gpu_mesh;
pub mod reload_command;
pub mod render_pipeline;
pub mod shader;
pub mod slot_map;
pub mod store_base;

use vstd::prelude::*;

use self::reload_command::RebuildCommand;
use self::shader::{ShaderId, ShaderStore};

pub use self::gpu_mesh::GpuMeshId;
pub use self::render_pipeline::PipelineId;

verus! {

/// The rebuilds still to do in a hot reload. They are taken last in, first
/// out; rebuilding a shader schedules the rebuild of everything registered as
/// depending on it.
pub struct ReloadQueue {
    dependants: Vec<RebuildCommand>,
}

impl ReloadQueue {
    /// The pending rebuilds; the last one is taken next.
    pub closed spec fn pending(&self) -> Seq<RebuildCommand> {
        self.dependants@
    }

    /// A queue of the rebuilds that changed files lead to.
    pub fn new(changed: Vec<RebuildCommand>) -> (r: ReloadQueue)
        ensures
            r.pending() == changed@,
    {
        ReloadQueue { dependants: changed }
    }

    /// Takes the rebuild to do next, if any.
    pub fn next(&mut self) -> (r: Option<RebuildCommand>)
        ensures
            old(self).pending().len() == 0 ==> r is None && final(self).pending() == old(self).pending(),
            old(self).pending().len() > 0 ==> r == Some(old(self).pending().last())
                && final(self).pending() == old(self).pending().drop_last(),
    {
        self.dependants.pop()
    }

    /// Schedules, after a successful rebuild of `shader_id`, the rebuild of
    /// every dependant registered with it, in registration order.
    pub fn shader_rebuilt(&mut self, shader_store: &ShaderStore, shader_id: ShaderId)
        requires
            shader_store.contains(shader_id),
        ensures
            final(self).pending() == old(self).pending() + shader_store.dependants_of(shader_id),
    {
        let new_dependants = shader_store.dependants(shader_id);
        let mut i: usize = 0;
        while i < new_dependants.len()
            invariant
                i <= new_dependants@.len(),
                new_dependants@ == shader_store.dependants_of(shader_id),
                self.dependants@ == old(self).dependants@ + new_dependants@.take(i as int),
            decreases new_dependants@.len() - i,
        {
            self.dependants.push(new_dependants[i]);
            assert(new_dependants@.take(i + 1) == new_dependants@.take(i as int).push(new_dependants@[i as int]));
            i = i + 1;
        }
        assert(new_dependants@.take(new_dependants@.len() as int) == new_dependants@);
    }
}

} // verus!
