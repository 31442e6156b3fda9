//! The instances a shape renderer collects during a frame, each with the
//! transform it is drawn with.

use std::ops::Range;

use vstd::prelude::*;

verus! {

/// Instances and their transforms, kept pairwise in the order they were
/// added.
pub struct InstanceBatch<I, M> {
    instances: Vec<I>,
    transforms: Vec<M>,
}

impl<I, M> InstanceBatch<I, M> {
    pub closed spec fn spec_instances(&self) -> Seq<I> {
        self.instances@
    }

    pub closed spec fn spec_transforms(&self) -> Seq<M> {
        self.transforms@
    }

    /// There is one transform per instance.
    pub closed spec fn wf(&self) -> bool {
        self.instances@.len() == self.transforms@.len()
    }

    pub fn new() -> (r: InstanceBatch<I, M>)
        ensures
            r.wf(),
            r.spec_instances() == Seq::<I>::empty(),
            r.spec_transforms() == Seq::<M>::empty(),
    {
        InstanceBatch { instances: Vec::new(), transforms: Vec::new() }
    }

    /// Adds an instance drawn with `transform`.
    pub fn add(&mut self, instance: I, transform: M)
        requires
            old(self).wf(),
        ensures
            final(self).wf(),
            final(self).spec_instances() == old(self).spec_instances().push(instance),
            final(self).spec_transforms() == old(self).spec_transforms().push(transform),
    {
        self.instances.push(instance);
        self.transforms.push(transform);
    }

    pub fn is_empty(&self) -> (r: bool)
        requires
            self.wf(),
        ensures
            r == (self.spec_instances().len() == 0),
    {
        self.instances.len() == 0
    }

    pub fn len(&self) -> (r: usize)
        requires
            self.wf(),
        ensures
            r == self.spec_instances().len(),
    {
        self.instances.len()
    }

    /// The instances, in the order they were added.
    pub fn instances(&self) -> (r: &Vec<I>)
        ensures
            r@ == self.spec_instances(),
    {
        &self.instances
    }

    /// The transforms, in the order their instances were added.
    pub fn transforms(&self) -> (r: &Vec<M>)
        ensures
            r@ == self.spec_transforms(),
    {
        &self.transforms
    }

    /// The instance range of a draw of the whole batch; like the GPU API it
    /// counts in 32 bits, taken from the low 32 bits of the length.
    pub fn instance_range(&self) -> (r: Range<u32>)
        requires
            self.wf(),
        ensures
            r.start == 0,
            r.end == self.spec_instances().len() as u32,
    {
        0..(self.instances.len() as u32)
    }

    /// Forgets every instance once the batch has been drawn.
    pub fn clear(&mut self)
        ensures
            final(self).wf(),
            final(self).spec_instances() == Seq::<I>::empty(),
            final(self).spec_transforms() == Seq::<M>::empty(),
    {
        self.instances.clear();
        self.transforms.clear();
    }
}

} // verus!
