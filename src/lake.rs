//! `Lake`, the owning arena: a fixed-size buffer filled front to back.
use crate::droplet::{valid_at, Droplet, DropletDyn, DropletMeta};
use crate::lake_view::LakeView;
use crate::meta::{LakeAllocatorExt, LakeError, LakeMemory, LakeMeta, LakeSnapshot};
use crate::model::{process_outcome, ArenaView};
use crate::utils::{write_to, zero_fill, zero_prefix};
use vstd::prelude::*;

verus! {

/// An owning arena of `SIZE` bytes.
///
/// Allocation advances a fill level; nothing is freed one by one. Space comes
/// back by `reset` (which starts a new generation), by popping a mark, or by
/// rewinding to a snapshot.
pub struct Lake<const SIZE: usize> {
    buf: Vec<u8>,
    offset: usize,
    mark_stack: Vec<usize>,
    generation: usize,
    zeroing: bool,
}

impl<const SIZE: usize> View for Lake<SIZE> {
    type V = ArenaView;

    closed spec fn view(&self) -> ArenaView {
        ArenaView {
            offset: self.offset as nat,
            capacity: SIZE as nat,
            generation: self.generation as nat,
            marks: self.mark_stack@.map_values(|m: usize| m as nat),
            zeroing: self.zeroing,
        }
    }
}

impl<const SIZE: usize> Lake<SIZE> {
    /// A new, empty arena: nothing used, generation zero, no marks, zeroing off.
    pub fn new() -> (r: Self)
        ensures
            r.well_formed(),
            r@ == ArenaView::fresh(SIZE as nat),
            r.spec_bytes() == Seq::new(SIZE as nat, |i: int| 0u8),
    {
        let r = Lake {
            buf: vec![0u8; SIZE],
            offset: 0,
            mark_stack: Vec::with_capacity(100),
            generation: 0,
            zeroing: false,
        };
        proof {
            assert(r@.marks =~= Seq::<nat>::empty());
            assert(r.buf@ =~= Seq::new(SIZE as nat, |i: int| 0u8));
        }
        r
    }

    /// The current fill level, as a value to rewind to later.
    pub fn snapshot(&self) -> (r: LakeSnapshot)
        ensures
            r.offset == self@.offset,
    {
        LakeSnapshot { offset: self.offset }
    }

    /// Sets the fill level to the snapshot's; generation and marks stay.
    pub fn rewind(&mut self, snapshot: LakeSnapshot)
        requires
            old(self).well_formed(),
            snapshot.offset <= SIZE,
        ensures
            final(self).well_formed(),
            final(self)@ == old(self)@.rewind(snapshot.offset as nat),
            final(self).spec_bytes() == old(self).spec_bytes(),
    {
        self.offset = snapshot.offset;
    }

    /// Carves the next `len` bytes off into a sub-arena that starts empty, in
    /// generation zero, with this arena's zeroing policy. The sub-arena
    /// borrows this arena, so it cannot outlive it; what it writes lands in
    /// the carved bytes. Fails with `Overflow` when `len` bytes do not fit.
    pub fn split(&mut self, len: usize) -> (r: Result<LakeView<'_>, LakeError>)
        requires
            old(self).well_formed(),
        ensures
            r is Ok <==> old(self)@.fits(len as nat),
            r is Err ==> *final(self) == *old(self) && r == Err::<LakeView<'_>, LakeError>(
                LakeError::Overflow,
            ),
            r is Ok ==> {
                &&& final(self)@ == old(self)@.bump(len as nat)
                &&& r->Ok_0.well_formed()
                &&& r->Ok_0@ == (ArenaView { zeroing: old(self)@.zeroing, ..ArenaView::fresh(len as nat) })
                &&& r->Ok_0.spec_bytes() == old(self).spec_bytes().subrange(
                    old(self)@.offset as int,
                    old(self)@.offset + len,
                )
                &&& final(self).spec_bytes() == old(self).spec_bytes().subrange(
                    0,
                    old(self)@.offset as int,
                ) + final(r->Ok_0.buf)@ + old(self).spec_bytes().subrange(
                    old(self)@.offset + len,
                    SIZE as int,
                )
                &&& final(r->Ok_0.buf)@.len() == len ==> final(self).well_formed()
            },
    {
        if len > SIZE - self.offset {
            return Err(LakeError::Overflow);
        }
        let start = self.offset;
        self.offset = start + len;
        let zeroing = self.zeroing;
        let (head, tail) = self.buf.as_mut_slice().split_at_mut(start);
        let (carved, rest) = tail.split_at_mut(len);
        proof {
            assert(has_resolved(head));
            assert(has_resolved(rest));
        }
        let view = LakeView { buf: carved, offset: 0, mark_stack: Vec::new(), generation: 0, zeroing };
        proof {
            assert(view@.marks =~= Seq::<nat>::empty());
        }
        Ok(view)
    }

    /// Copies `data` behind the fill level and returns a handle to it; fails
    /// with `Overflow` when the arena is full or `data` does not fit.
    pub fn process_data(&mut self, data: &[u8]) -> (r: Result<DropletDyn, LakeError>)
        requires
            old(self).well_formed(),
        ensures
            final(self).well_formed(),
            process_outcome(
                r,
                old(self)@,
                old(self).spec_bytes(),
                data@,
                final(self)@,
                final(self).spec_bytes(),
            ),
    {
        let remaining: usize = SIZE - self.offset;
        let len = data.len();
        if remaining == 0 || len > remaining {
            return Err(LakeError::Overflow);
        }
        let offset = self.offset;
        let generation = self.generation;
        write_to(self.buf.as_mut_slice(), offset, data);
        self.offset = offset + len;
        Ok(DropletDyn::new(offset, len, generation))
    }

    /// Calls `f` with the number of free bytes and copies what it returns
    /// behind the fill level, returning a handle to it. Fails with `Overflow`,
    /// changing nothing, when the arena is full (then `f` is not called) or
    /// when `f` returned more than it was offered.
    pub fn process<F>(&mut self, f: F) -> (r: Result<DropletDyn, LakeError>) where
        F: FnOnce(usize) -> Vec<u8>,

        requires
            old(self).well_formed(),
            f.requires(((SIZE - old(self)@.offset) as usize,)),
        ensures
            final(self).well_formed(),
            old(self)@.offset == SIZE ==> r == Err::<DropletDyn, LakeError>(LakeError::Overflow)
                && *final(self) == *old(self),
            old(self)@.offset < SIZE ==> exists|data: Vec<u8>|
                {
                    &&& f.ensures(((SIZE - old(self)@.offset) as usize,), data)
                    &&& process_outcome(
                        r,
                        old(self)@,
                        old(self).spec_bytes(),
                        data@,
                        final(self)@,
                        final(self).spec_bytes(),
                    )
                },
    {
        let remaining: usize = SIZE - self.offset;
        if remaining == 0 {
            return Err(LakeError::Overflow);
        }
        let data: Vec<u8> = f(remaining);
        self.process_data(data.as_slice())
    }

    /// Carves the next `N` bytes into a handle, or `None` when they do not fit.
    /// The handle records the current generation; no alignment is applied.
    pub fn alloc_fixed<const N: usize>(&mut self) -> (r: Option<Droplet<N>>)
        requires
            old(self).well_formed(),
        ensures
            final(self).well_formed(),
            final(self).spec_bytes() == old(self).spec_bytes(),
            r is Some <==> old(self)@.fits(N as nat),
            r is None ==> final(self)@ == old(self)@,
            r is Some ==> {
                &&& final(self)@ == old(self)@.bump(N as nat)
                &&& r->0.spec_start() == old(self)@.offset
                &&& r->0.spec_len() == N
                &&& r->0.spec_generation() == old(self)@.generation
                &&& r->0.spec_cursor() == 0
                &&& valid_at(r->0, final(self)@.offset, final(self)@.generation)
            },
    {
        if N > SIZE - self.offset {
            return None;
        }
        let droplet = Droplet::<N>::new(self.offset, self.generation);
        self.offset = self.offset + N;
        Some(droplet)
    }

    /// Empties the arena and starts a new generation, so that every handle
    /// carved before reports invalid. Marks are dropped. With zeroing on, the
    /// used bytes are overwritten with zeros first.
    pub fn reset(&mut self)
        requires
            old(self).well_formed(),
            old(self)@.generation < usize::MAX,
        ensures
            final(self).well_formed(),
            final(self)@ == old(self)@.reset(),
            old(self)@.zeroing ==> final(self).spec_bytes() == zero_prefix(
                old(self).spec_bytes(),
                old(self)@.offset,
            ),
            !old(self)@.zeroing ==> final(self).spec_bytes() == old(self).spec_bytes(),
    {
        if self.zeroing {
            let offset = self.offset;
            zero_fill(self.buf.as_mut_slice(), offset);
        }
        self.offset = 0;
        self.mark_stack.clear();
        self.generation = self.generation + 1;
        proof {
            assert(self@.marks =~= Seq::<nat>::empty());
        }
    }

    /// Bytes in use.
    pub fn used(&self) -> (r: usize)
        ensures
            r == self@.offset,
    {
        self.offset
    }

    /// Bytes still free.
    pub fn remaining(&self) -> (r: usize)
        requires
            self.well_formed(),
        ensures
            r == self@.remaining(),
    {
        SIZE - self.offset
    }

    pub fn is_empty(&self) -> (r: bool)
        ensures
            r == (self@.offset == 0),
    {
        self.offset == 0
    }

    pub fn is_full(&self) -> (r: bool)
        ensures
            r == (self@.offset == SIZE),
    {
        self.offset == SIZE
    }

    /// The used bytes.
    pub fn as_slice(&self) -> (r: &[u8])
        requires
            self.well_formed(),
        ensures
            r@ == self.spec_bytes().subrange(0, self@.offset as int),
    {
        vstd::slice::slice_subrange(self.buf.as_slice(), 0, self.offset)
    }

    /// The used bytes, writable.
    pub fn as_mut_slice(&mut self) -> (r: &mut [u8])
        requires
            old(self).well_formed(),
        ensures
            r@ == old(self).spec_bytes().subrange(0, old(self)@.offset as int),
            final(self)@ == old(self)@,
            final(self).spec_bytes() == final(r)@ + old(self).spec_bytes().subrange(
                old(self)@.offset as int,
                SIZE as int,
            ),
            final(r)@.len() == r@.len() ==> final(self).well_formed(),
    {
        let offset = self.offset;
        let (used, rest) = self.buf.as_mut_slice().split_at_mut(offset);
        proof {
            assert(has_resolved(rest));
        }
        used
    }

    /// The `N` bytes the next allocation would receive, without allocating
    /// them; `None` when they do not fit.
    pub fn peek<const N: usize>(&self) -> (r: Option<&[u8]>)
        requires
            self.well_formed(),
        ensures
            r is Some <==> self@.fits(N as nat),
            r is Some ==> r->0@ == self.spec_bytes().subrange(
                self@.offset as int,
                self@.offset + N,
            ),
    {
        if N > SIZE - self.offset {
            return None;
        }
        Some(vstd::slice::slice_subrange(self.buf.as_slice(), self.offset, self.offset + N))
    }

    /// Lowers the fill level by `n` bytes, stopping at zero. Nothing checks
    /// that live handles stay covered.
    pub fn reset_to(&mut self, n: usize)
        requires
            old(self).well_formed(),
        ensures
            final(self).well_formed(),
            final(self)@ == old(self)@.reset_to(n as nat),
            final(self).spec_bytes() == old(self).spec_bytes(),
    {
        self.offset = self.offset.saturating_sub(n);
    }

    pub fn get_offset(&self) -> (r: usize)
        ensures
            r == self@.offset,
    {
        self.used()
    }

    /// Pushes the current fill level onto the mark stack.
    pub fn mark(&mut self)
        requires
            old(self).well_formed(),
        ensures
            final(self).well_formed(),
            final(self)@ == old(self)@.mark(),
            final(self).spec_bytes() == old(self).spec_bytes(),
    {
        self.mark_stack.push(self.offset);
        proof {
            assert(self@.marks =~= old(self)@.marks.push(old(self)@.offset));
        }
    }

    /// Pops the newest mark into the fill level; without a mark nothing happens.
    pub fn reset_to_mark(&mut self)
        requires
            old(self).well_formed(),
        ensures
            final(self).well_formed(),
            final(self)@ == old(self)@.reset_to_mark(),
            final(self).spec_bytes() == old(self).spec_bytes(),
    {
        match self.mark_stack.pop() {
            Some(mark) => {
                proof {
                    assert(old(self)@.marks.last() == mark);
                    assert(self@.marks =~= old(self)@.marks.drop_last());
                }
                self.offset = mark;
            },
            None => {},
        }
    }

    /// Overwrites the newest mark with the current fill level; without a mark
    /// nothing happens.
    pub fn move_mark(&mut self)
        requires
            old(self).well_formed(),
        ensures
            final(self).well_formed(),
            final(self)@ == old(self)@.move_mark(),
            final(self).spec_bytes() == old(self).spec_bytes(),
    {
        let n = self.mark_stack.len();
        if n > 0 {
            self.mark_stack.set(n - 1, self.offset);
            proof {
                assert(self@.marks =~= old(self)@.marks.update(n - 1, old(self)@.offset));
            }
        }
    }

    /// The same as `reset`.
    pub fn clear(&mut self)
        requires
            old(self).well_formed(),
            old(self)@.generation < usize::MAX,
        ensures
            final(self).well_formed(),
            final(self)@ == old(self)@.reset(),
            old(self)@.zeroing ==> final(self).spec_bytes() == zero_prefix(
                old(self).spec_bytes(),
                old(self)@.offset,
            ),
            !old(self)@.zeroing ==> final(self).spec_bytes() == old(self).spec_bytes(),
    {
        self.reset();
    }

    pub fn capacity(&self) -> (r: usize)
        ensures
            r == SIZE,
    {
        SIZE
    }

    /// Turns zeroing of the used bytes on `reset` on or off.
    pub fn set_zeroing(&mut self, state: bool)
        requires
            old(self).well_formed(),
        ensures
            final(self).well_formed(),
            final(self)@ == old(self)@.set_zeroing(state),
            final(self).spec_bytes() == old(self).spec_bytes(),
    {
        self.zeroing = state;
    }

    pub fn get_zeroing(&mut self) -> (r: bool)
        ensures
            r == old(self)@.zeroing,
            *final(self) == *old(self),
    {
        self.zeroing
    }
}

impl<const SIZE: usize> LakeMeta for Lake<SIZE> {
    open spec fn spec_offset(&self) -> nat {
        self@.offset
    }

    open spec fn spec_capacity(&self) -> nat {
        SIZE as nat
    }

    open spec fn spec_generation(&self) -> nat {
        self@.generation
    }

    closed spec fn well_formed(&self) -> bool {
        &&& self.buf@.len() == SIZE
        &&& self.offset <= SIZE
        &&& forall|i: int| 0 <= i < self.mark_stack@.len() ==> #[trigger] self.mark_stack@[i] <= SIZE
    }

    fn offset(&self) -> (r: usize) {
        self.offset
    }

    fn generation(&self) -> (r: usize) {
        self.generation
    }

    fn capacity(&self) -> (r: usize) {
        SIZE
    }

    fn set_offset(&mut self, val: usize) {
        self.offset = val;
    }
}

impl<const SIZE: usize> LakeMemory for Lake<SIZE> {
    closed spec fn spec_bytes(&self) -> Seq<u8> {
        self.buf@
    }

    fn bytes(&self) -> (r: &[u8]) {
        self.buf.as_slice()
    }

    fn bytes_mut(&mut self) -> (r: &mut [u8]) {
        self.buf.as_mut_slice()
    }
}

impl<const SIZE: usize> LakeAllocatorExt for Lake<SIZE> {

}

} // verus!
