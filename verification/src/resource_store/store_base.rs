use std::collections::VecDeque;
use std::marker::PhantomData;

use vstd::prelude::*;

use super::reload_command::RebuildCommand;

verus! {

/// Position of an entity inside a [`StoreBase`].
pub struct StoreEntityId<T> {
    index: usize,
    phantom_data: PhantomData<T>,
}

impl<T> StoreEntityId<T> {
    /// The position this id refers to.
    pub closed spec fn spec_index(&self) -> usize {
        self.index
    }

    /// The position this id refers to.
    #[verifier::when_used_as_spec(spec_index)]
    pub fn index(&self) -> (r: usize)
        ensures
            r == self.spec_index(),
    {
        self.index
    }
}

impl<T> Clone for StoreEntityId<T> {
    fn clone(&self) -> (r: Self)
        ensures
            r.spec_index() == self.spec_index(),
    {
        StoreEntityId { index: self.index, phantom_data: PhantomData }
    }
}

impl<T> PartialEq for StoreEntityId<T> {
    fn eq(&self, other: &Self) -> (r: bool) {
        self.index == other.index
    }
}

impl<T> vstd::std_specs::cmp::PartialEqSpecImpl for StoreEntityId<T> {
    open spec fn obeys_eq_spec() -> bool {
        true
    }

    open spec fn eq_spec(&self, other: &Self) -> bool {
        self.spec_index() == other.spec_index()
    }
}

impl<T> Eq for StoreEntityId<T> {
}

/// Trusted: `<VecDeque<T> as IndexMut<usize>>::index_mut` hands out the slot at
/// position `i` (std panics past the end, which `requires` rules out); what is
/// written through it is what the deque holds at `i` afterwards.
#[verifier::external_body]
fn deque_index_mut<T>(v: &mut VecDeque<T>, i: usize) -> (r: &mut T)
    requires
        i < old(v)@.len(),
    ensures
        *r == old(v)@[i as int],
        final(v)@ == old(v)@.update(i as int, *final(r)),
{
    &mut v[i]
}

/// Entities of type `T`, each added together with the source data `S` it
/// was made from and a list of rebuild commands that depend on it.
#[derive(Debug, Eq, PartialEq, Default)]
pub struct StoreBase<T, S> {
    store: VecDeque<T>,
    store_dependants: VecDeque<VecDeque<RebuildCommand>>,
    source_data: VecDeque<S>,
    phantom_data: PhantomData<T>,
}

impl<T, S> StoreBase<T, S> {
    /// The entities in the order they are held.
    pub closed spec fn entities(&self) -> Seq<T> {
        self.store@
    }

    /// The dependants recorded for each added entity, in the order of `add`.
    pub closed spec fn dependants(&self) -> Seq<Seq<RebuildCommand>> {
        Seq::new(self.store_dependants@.len(), |i: int| self.store_dependants@[i]@)
    }

    /// The source data of each added entity, in the order of `add`.
    pub closed spec fn sources(&self) -> Seq<S> {
        self.source_data@
    }

    /// Every added entity has one dependant list and one source; `remove`
    /// takes out the entity only, so there are never more entities than
    /// sources.
    pub closed spec fn wf(&self) -> bool {
        &&& self.store_dependants@.len() == self.source_data@.len()
        &&& self.store@.len() <= self.source_data@.len()
    }

    /// Consequences of `wf` for the lengths of the views.
    pub proof fn lemma_wf_lengths(&self)
        requires
            self.wf(),
        ensures
            self.dependants().len() == self.sources().len(),
            self.entities().len() <= self.sources().len(),
    {
    }

    pub fn new() -> (r: StoreBase<T, S>)
        ensures
            r.wf(),
            r.entities() == Seq::<T>::empty(),
            r.dependants() == Seq::<Seq<RebuildCommand>>::empty(),
            r.sources() == Seq::<S>::empty(),
    {
        let r = StoreBase {
            store: VecDeque::new(),
            phantom_data: PhantomData,
            store_dependants: VecDeque::new(),
            source_data: VecDeque::new(),
        };
        assert(r.dependants() =~= Seq::<Seq<RebuildCommand>>::empty());
        r
    }

    pub fn add(&mut self, entity: T, source_data: S) -> (r: StoreEntityId<T>)
        requires
            old(self).wf(),
        ensures
            final(self).wf(),
            r.spec_index() == old(self).entities().len(),
            final(self).entities() == old(self).entities().push(entity),
            final(self).dependants() == old(self).dependants().push(Seq::<RebuildCommand>::empty()),
            final(self).sources() == old(self).sources().push(source_data),
    {
        let index = self.store.len();
        self.store.push_back(entity);
        let empty: VecDeque<RebuildCommand> = VecDeque::new();
        self.store_dependants.push_back(empty);
        self.source_data.push_back(source_data);
        assert(self.dependants() =~= old(self).dependants().push(Seq::<RebuildCommand>::empty()));
        StoreEntityId { index, phantom_data: PhantomData }
    }

    pub fn remove(&mut self, entity_id: StoreEntityId<T>) -> (r: T)
        requires
            old(self).wf(),
            entity_id.spec_index() < old(self).entities().len(),
        ensures
            final(self).wf(),
            r == old(self).entities()[entity_id.spec_index() as int],
            final(self).entities() == old(self).entities().remove(entity_id.spec_index() as int),
            final(self).dependants() == old(self).dependants(),
            final(self).sources() == old(self).sources(),
    {
        self.store.remove(entity_id.index).unwrap()
    }

    pub fn register_dependant(
        &mut self,
        entity_id: &StoreEntityId<T>,
        reload_command: RebuildCommand,
    )
        requires
            old(self).wf(),
            entity_id.spec_index() < old(self).dependants().len(),
        ensures
            final(self).wf(),
            final(self).entities() == old(self).entities(),
            final(self).dependants() == old(self).dependants().update(
                entity_id.spec_index() as int,
                old(self).dependants()[entity_id.spec_index() as int].push(reload_command),
            ),
            final(self).sources() == old(self).sources(),
    {
        let ghost i = entity_id.index as int;
        let slot = deque_index_mut(&mut self.store_dependants, entity_id.index);
        slot.push_back(reload_command);
        assert(self.dependants() =~= old(self).dependants().update(
            i,
            old(self).dependants()[i].push(reload_command),
        ));
    }

    pub fn get_source_data(&self, entity_id: &StoreEntityId<T>) -> (r: &S)
        requires
            entity_id.spec_index() < self.sources().len(),
        ensures
            *r == self.sources()[entity_id.spec_index() as int],
    {
        &self.source_data[entity_id.index]
    }

    pub fn get_dependants(&self, entity_id: &StoreEntityId<T>) -> (r: &VecDeque<RebuildCommand>)
        requires
            entity_id.spec_index() < self.dependants().len(),
        ensures
            r@ == self.dependants()[entity_id.spec_index() as int],
    {
        &self.store_dependants[entity_id.index]
    }

    pub fn set_entity(&mut self, id: &StoreEntityId<T>, element: T)
        requires
            old(self).wf(),
            id.spec_index() < old(self).entities().len(),
        ensures
            final(self).wf(),
            final(self).entities() == old(self).entities().update(id.spec_index() as int, element),
            final(self).dependants() == old(self).dependants(),
            final(self).sources() == old(self).sources(),
    {
        let slot = deque_index_mut(&mut self.store, id.index);
        *slot = element;
    }

    pub fn get(&self, entity_id: &StoreEntityId<T>) -> (r: &T)
        requires
            entity_id.spec_index() < self.entities().len(),
        ensures
            *r == self.entities()[entity_id.spec_index() as int],
    {
        &self.store[entity_id.index]
    }

    pub fn get_mut(&mut self, entity_id: &StoreEntityId<T>) -> (r: &mut T)
        requires
            old(self).wf(),
            entity_id.spec_index() < old(self).entities().len(),
        ensures
            *r == old(self).entities()[entity_id.spec_index() as int],
            final(self).entities() == old(self).entities().update(
                entity_id.spec_index() as int,
                *final(r),
            ),
            final(self).dependants() == old(self).dependants(),
            final(self).sources() == old(self).sources(),
    {
        deque_index_mut(&mut self.store, entity_id.index)
    }
}

} // verus!
