//! What every arena exposes: its bookkeeping (`LakeMeta`), its bytes
//! (`LakeMemory`), and the small value types shared by the arenas.
use crate::droplet::{DropletDyn, DropletMeta};
use crate::utils::{align_up, aligned};
use vstd::layout::{align_of, size_of};
use vstd::prelude::*;

verus! {

/// Failure of a capacity-checked operation.
#[derive(Debug, Clone, Copy, PartialEq, Eq, Structural)]
pub enum LakeError {
    /// The request does not fit into what is left of the arena.
    Overflow,
}

/// A saved fill level; rewinding to it touches neither generation nor marks.
#[derive(Debug, Clone, Copy, PartialEq, Eq, Structural)]
pub struct LakeSnapshot {
    pub offset: usize,
}

/// A summary of an arena's bookkeeping.
#[derive(Debug, Clone, Copy)]
pub struct LakeStats {
    pub used: usize,
    pub remaining: usize,
    pub capacity: usize,
    pub generation: usize,
}

/// The bookkeeping every arena shares: fill level, capacity and generation.
///
/// Handles carved from an arena check their validity through it.
pub trait LakeMeta {
    spec fn spec_offset(&self) -> nat;

    spec fn spec_capacity(&self) -> nat;

    spec fn spec_generation(&self) -> nat;

    /// The arena's internal consistency, which every operation keeps.
    spec fn well_formed(&self) -> bool;

    /// The current fill level, which never exceeds the capacity.
    fn offset(&self) -> (r: usize)
        requires
            self.well_formed(),
        ensures
            r == self.spec_offset(),
            self.spec_offset() <= self.spec_capacity(),
    ;

    fn generation(&self) -> (r: usize)
        ensures
            r == self.spec_generation(),
    ;

    fn capacity(&self) -> (r: usize)
        requires
            self.well_formed(),
        ensures
            r == self.spec_capacity(),
            self.spec_offset() <= self.spec_capacity(),
    ;

    /// Moves the fill level to `val`; capacity and generation stay.
    fn set_offset(&mut self, val: usize)
        requires
            old(self).well_formed(),
            val <= old(self).spec_capacity(),
        ensures
            final(self).well_formed(),
            final(self).spec_offset() == val,
            final(self).spec_capacity() == old(self).spec_capacity(),
            final(self).spec_generation() == old(self).spec_generation(),
    ;

    fn stats(&self) -> (r: LakeStats)
        requires
            self.well_formed(),
        ensures
            r.used == self.spec_offset(),
            r.remaining == self.spec_capacity() - self.spec_offset(),
            r.capacity == self.spec_capacity(),
            r.generation == self.spec_generation(),
    {
        let used = self.offset();
        let capacity = self.capacity();
        LakeStats { used, remaining: capacity - used, capacity, generation: self.generation() }
    }
}

/// Access to the bytes an arena manages (all of its capacity, used or not).
pub trait LakeMemory: LakeMeta {
    spec fn spec_bytes(&self) -> Seq<u8>;

    fn bytes(&self) -> (r: &[u8])
        requires
            self.well_formed(),
        ensures
            r@ == self.spec_bytes(),
            r@.len() == self.spec_capacity(),
            self.spec_offset() <= self.spec_capacity(),
    ;

    /// Writable access to the bytes; the bookkeeping is left as it was, and
    /// the arena stays consistent as long as the slice keeps its length.
    fn bytes_mut(&mut self) -> (r: &mut [u8])
        requires
            old(self).well_formed(),
        ensures
            final(r)@.len() == r@.len() ==> {
                &&& final(self).well_formed()
                &&& final(self).spec_capacity() == old(self).spec_capacity()
            },
            r@ == old(self).spec_bytes(),
            r@.len() == old(self).spec_capacity(),
            old(self).spec_offset() <= old(self).spec_capacity(),
            final(self).spec_bytes() == final(r)@,
            final(self).spec_offset() == old(self).spec_offset(),
            final(self).spec_generation() == old(self).spec_generation(),
    ;
}

/// Typed placement: reserves room for values of a type, aligned for it.
///
/// The arena hands out the byte range as a handle; the bytes are the
/// caller's to fill.
pub trait LakeAllocatorExt: LakeMeta {
    /// Reserves `size_of::<T>()` bytes at the next multiple of
    /// `align_of::<T>()`. The request must fit.
    fn alloc_struct<T>(&mut self) -> (r: DropletDyn)
        requires
            old(self).well_formed(),
            aligned(old(self).spec_offset(), align_of::<T>()) + size_of::<T>()
                <= old(self).spec_capacity(),
        ensures
            final(self).well_formed(),
            final(self).spec_offset() == aligned(old(self).spec_offset(), align_of::<T>())
                + size_of::<T>(),
            final(self).spec_capacity() == old(self).spec_capacity(),
            final(self).spec_generation() == old(self).spec_generation(),
            r.spec_start() == aligned(old(self).spec_offset(), align_of::<T>()),
            r.spec_len() == size_of::<T>(),
            r.spec_generation() == old(self).spec_generation(),
            r.spec_cursor() == 0,
    {
        vstd::layout::layout_for_type_is_valid::<T>();
        let align = core::mem::align_of::<T>();
        let size = core::mem::size_of::<T>();
        let capacity = self.capacity();
        let offset = align_up(self.offset(), align);
        let generation = self.generation();
        self.set_offset(offset + size);
        DropletDyn::new(offset, size, generation)
    }

    /// Reserves room for `count` values of `T` at the next multiple of
    /// `align_of::<T>()`. The request must fit.
    fn alloc_slice<T>(&mut self, count: usize) -> (r: DropletDyn)
        requires
            old(self).well_formed(),
            aligned(old(self).spec_offset(), align_of::<T>()) + count * size_of::<T>()
                <= old(self).spec_capacity(),
        ensures
            final(self).well_formed(),
            final(self).spec_offset() == aligned(old(self).spec_offset(), align_of::<T>())
                + count * size_of::<T>(),
            final(self).spec_capacity() == old(self).spec_capacity(),
            final(self).spec_generation() == old(self).spec_generation(),
            r.spec_start() == aligned(old(self).spec_offset(), align_of::<T>()),
            r.spec_len() == count * size_of::<T>(),
            r.spec_generation() == old(self).spec_generation(),
            r.spec_cursor() == 0,
    {
        vstd::layout::layout_for_type_is_valid::<T>();
        let align = core::mem::align_of::<T>();
        let capacity = self.capacity();
        let size = count * core::mem::size_of::<T>();
        let offset = align_up(self.offset(), align);
        let generation = self.generation();
        self.set_offset(offset + size);
        DropletDyn::new(offset, size, generation)
    }
}

} // verus!
