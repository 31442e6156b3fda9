//! Shared facts about the slot maps of the `slotmap` crate that the stores
//! hold. Keys are handed around in their 64-bit form (`KeyData::as_ffi`),
//! which names an occupied slot exactly.

use vstd::prelude::*;

verus! {

/// `SlotMap::insert` panics once the map holds `u32::MAX - 1` values; a
/// store stays below that bound.
pub open spec fn slot_map_has_room(len: nat) -> bool {
    len < 0xffff_fffe
}

} // verus!
