//! The per-thread arena: its size and how a slot gets a fresh one.
//!
//! The slot itself lives in thread-local storage, outside this library.
use crate::lake::Lake;
use crate::meta::LakeMeta;
use crate::model::ArenaView;
use vstd::prelude::*;

verus! {

/// Capacity of the per-thread arena.
pub const DEFAULT_SIZE: usize = 65536;

/// Installs a fresh, empty arena of `DEFAULT_SIZE` bytes in `slot`, dropping
/// whatever it held before.
pub fn thread_lake_init(slot: &mut Option<Lake<DEFAULT_SIZE>>)
    ensures
        *final(slot) is Some,
        (*final(slot))->0.well_formed(),
        (*final(slot))->0@ == ArenaView::fresh(DEFAULT_SIZE as nat),
{
    *slot = Some(Lake::new());
}

} // verus!
