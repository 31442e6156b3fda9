//! Typed ids of a resource store.

use std::marker::PhantomData;

use vstd::prelude::*;

verus! {

/// Position of a resource of type `T` in its store.
#[derive(Debug)]
pub struct StoreID<T> {
    index: usize,
    phantom_t: PhantomData<T>,
}

impl<T> StoreID<T> {
    pub closed spec fn spec_index(&self) -> usize {
        self.index
    }

    pub fn new(index: &usize) -> (r: StoreID<T>)
        ensures
            r.spec_index() == *index,
    {
        StoreID { index: *index, phantom_t: PhantomData }
    }

    #[verifier::when_used_as_spec(spec_index)]
    pub fn index(&self) -> (r: usize)
        ensures
            r == self.spec_index(),
    {
        self.index
    }
}

impl<T> Clone for StoreID<T> {
    fn clone(&self) -> (r: Self)
        ensures
            r.spec_index() == self.spec_index(),
    {
        StoreID::new(&self.index)
    }
}

impl<T> PartialEq for StoreID<T> {
    fn eq(&self, other: &Self) -> (r: bool) {
        self.index == other.index
    }
}

impl<T> vstd::std_specs::cmp::PartialEqSpecImpl for StoreID<T> {
    open spec fn obeys_eq_spec() -> bool {
        true
    }

    open spec fn eq_spec(&self, other: &Self) -> bool {
        self.spec_index() == other.spec_index()
    }
}

impl<T> Eq for StoreID<T> {
}

/// Trusted: `usize`'s `Hash::hash` feeds the number to the hasher; what
/// that does to the hasher's state is not stated.
pub assume_specification<H: std::hash::Hasher>[ <usize as std::hash::Hash>::hash ](
    data: &usize,
    state: &mut H,
);

impl<T> std::hash::Hash for StoreID<T> {
    fn hash<H: std::hash::Hasher>(&self, state: &mut H) {
        self.index.hash(state);
    }
}

/// The type a store's address is seen as when two stores are told apart.
pub struct Dummy {}

} // verus!
