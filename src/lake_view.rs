//! `LakeView`, an arena over borrowed bytes: usually a parent arena's tail,
//! carved off by `split`.
use crate::droplet::{valid_at, Droplet, DropletDyn, DropletMeta};
use crate::meta::{LakeAllocatorExt, LakeError, LakeMemory, LakeMeta};
use crate::model::{process_outcome, ArenaView};
use crate::utils::{write_to, zero_fill, zero_prefix};
use vstd::prelude::*;

verus! {

/// An arena over a borrowed byte region, with its own fill level, marks and
/// generation. It cannot outlive the region it borrows.
pub struct LakeView<'a> {
    /// The borrowed region; its length is the view's capacity.
    pub buf: &'a mut [u8],
    /// Bytes in use, from the start of `buf`.
    pub offset: usize,
    /// Saved fill levels, newest last.
    pub mark_stack: Vec<usize>,
    /// Bumped by every `reset`; handles carved earlier stop being valid.
    pub generation: usize,
    /// Whether `reset` overwrites the used bytes with zeros.
    pub zeroing: bool,
}

impl<'a> View for LakeView<'a> {
    type V = ArenaView;

    open spec fn view(&self) -> ArenaView {
        ArenaView {
            offset: self.offset as nat,
            capacity: self.buf@.len(),
            generation: self.generation as nat,
            marks: self.mark_stack@.map_values(|m: usize| m as nat),
            zeroing: self.zeroing,
        }
    }
}

impl<'a> LakeView<'a> {
    /// An empty arena over `buf`: nothing used, generation zero, no marks,
    /// zeroing off. What the view writes lands in `buf`.
    pub fn new(buf: &'a mut [u8]) -> (r: Self)
        ensures
            r.well_formed(),
            r@ == ArenaView::fresh(old(buf)@.len()),
            r.spec_bytes() == old(buf)@,
            final(r.buf)@ == final(buf)@,
    {
        let r = LakeView { buf, offset: 0, mark_stack: Vec::new(), generation: 0, zeroing: false };
        proof {
            assert(r@.marks =~= Seq::<nat>::empty());
        }
        r
    }

    /// Carves the next `len` bytes of this view off into a sub-view that
    /// starts empty, in generation zero, with this view's zeroing policy;
    /// `None` when they do not fit.
    pub fn split(&mut self, len: usize) -> (r: Option<LakeView<'_>>)
        requires
            old(self).well_formed(),
        ensures
            r is Some <==> old(self)@.fits(len as nat),
            r is None ==> *final(self) == *old(self),
            r is Some ==> final(self)@.offset == old(self)@.offset + len,
            r is Some ==> r->0.well_formed(),
            r is Some ==> r->0@ == (ArenaView { zeroing: old(self)@.zeroing, ..ArenaView::fresh(len as nat) }),
            r is Some ==> r->0.spec_bytes() == old(self).spec_bytes().subrange(
                old(self)@.offset as int,
                old(self)@.offset + len,
            ),
            r is Some ==> final(self).spec_bytes() == old(self).spec_bytes().subrange(
                0,
                old(self)@.offset as int,
            ) + final(r->0.buf)@ + old(self).spec_bytes().subrange(
                old(self)@.offset + len,
                old(self)@.capacity as int,
            ),
            r is Some ==> (final(r->0.buf)@.len() == len ==> final(self)@ == old(self)@.bump(
                len as nat,
            ) && final(self).well_formed()),
    {
        if len > self.buf.len() - self.offset {
            return None;
        }
        let start = self.offset;
        self.offset = start + len;
        let zeroing = self.zeroing;
        let (head, tail) = self.buf.split_at_mut(start);
        let (carved, rest) = tail.split_at_mut(len);
        proof {
            assert(has_resolved(head));
            assert(has_resolved(rest));
        }
        let view = LakeView { buf: carved, offset: 0, mark_stack: Vec::new(), generation: 0, zeroing };
        proof {
            assert(view@.marks =~= Seq::<nat>::empty());
        }
        Some(view)
    }

    /// Copies `data` behind the fill level and returns a handle to it; fails
    /// with `Overflow` when the view is full or `data` does not fit.
    pub fn process_data(&mut self, data: &[u8]) -> (r: Result<DropletDyn, LakeError>)
        requires
            old(self).well_formed(),
        ensures
            final(self).well_formed(),
            final(final(self).buf)@ == final(old(self).buf)@,
            process_outcome(
                r,
                old(self)@,
                old(self).spec_bytes(),
                data@,
                final(self)@,
                final(self).spec_bytes(),
            ),
    {
        let remaining: usize = self.buf.len() - self.offset;
        let len = data.len();
        if remaining == 0 || len > remaining {
            return Err(LakeError::Overflow);
        }
        let offset = self.offset;
        let generation = self.generation;
        write_to(self.buf, offset, data);
        self.offset = offset + len;
        Ok(DropletDyn::new(offset, len, generation))
    }

    /// Calls `f` with the number of free bytes and copies what it returns
    /// behind the fill level, returning a handle to it. Fails with `Overflow`,
    /// changing nothing, when the view is full (then `f` is not called) or
    /// when `f` returned more than it was offered.
    pub fn process<F>(&mut self, f: F) -> (r: Result<DropletDyn, LakeError>) where
        F: FnOnce(usize) -> Vec<u8>,

        requires
            old(self).well_formed(),
            f.requires(((old(self)@.capacity - old(self)@.offset) as usize,)),
        ensures
            final(self).well_formed(),
            final(final(self).buf)@ == final(old(self).buf)@,
            old(self)@.offset == old(self)@.capacity ==> r == Err::<DropletDyn, LakeError>(
                LakeError::Overflow,
            ) && *final(self) == *old(self),
            old(self)@.offset < old(self)@.capacity ==> exists|data: Vec<u8>|
                {
                    &&& f.ensures(((old(self)@.capacity - old(self)@.offset) as usize,), data)
                    &&& process_outcome(
                        r,
                        old(self)@,
                        old(self).spec_bytes(),
                        data@,
                        final(self)@,
                        final(self).spec_bytes(),
                    )
                },
    {
        let remaining: usize = self.buf.len() - self.offset;
        if remaining == 0 {
            return Err(LakeError::Overflow);
        }
        let data: Vec<u8> = f(remaining);
        self.process_data(data.as_slice())
    }

    /// Carves the next `N` bytes into a handle, or `None` when they do not fit.
    /// The handle records the view's current generation.
    pub fn alloc_fixed<const N: usize>(&mut self) -> (r: Option<Droplet<N>>)
        requires
            old(self).well_formed(),
        ensures
            final(self).well_formed(),
            final(self).spec_bytes() == old(self).spec_bytes(),
            final(final(self).buf)@ == final(old(self).buf)@,
            r is Some <==> old(self)@.fits(N as nat),
            r is None ==> final(self)@ == old(self)@,
            r is Some ==> {
                &&& final(self)@ == old(self)@.bump(N as nat)
                &&& r->0.spec_start() == old(self)@.offset
                &&& r->0.spec_len() == N
                &&& r->0.spec_generation() == old(self)@.generation
                &&& r->0.spec_cursor() == 0
                &&& valid_at(r->0, final(self)@.offset, final(self)@.generation)
            },
    {
        if N > self.buf.len() - self.offset {
            return None;
        }
        let droplet = Droplet::<N>::new(self.offset, self.generation);
        self.offset = self.offset + N;
        Some(droplet)
    }

    /// Bytes in use.
    pub fn used(&self) -> (r: usize)
        ensures
            r == self@.offset,
    {
        self.offset
    }

    /// Bytes still free.
    pub fn remaining(&self) -> (r: usize)
        requires
            self.well_formed(),
        ensures
            r == self@.remaining(),
    {
        self.buf.len() - self.offset
    }

    pub fn capacity(&self) -> (r: usize)
        ensures
            r == self@.capacity,
    {
        self.buf.len()
    }

    /// Empties the view and starts a new generation, so that every handle
    /// carved from it before reports invalid. Marks are dropped. With zeroing
    /// on, the used bytes are overwritten with zeros first.
    pub fn reset(&mut self)
        requires
            old(self).well_formed(),
            old(self)@.generation < usize::MAX,
        ensures
            final(self).well_formed(),
            final(self)@ == old(self)@.reset(),
            final(final(self).buf)@ == final(old(self).buf)@,
            old(self)@.zeroing ==> final(self).spec_bytes() == zero_prefix(
                old(self).spec_bytes(),
                old(self)@.offset,
            ),
            !old(self)@.zeroing ==> final(self).spec_bytes() == old(self).spec_bytes(),
    {
        if self.zeroing {
            let offset = self.offset;
            zero_fill(self.buf, offset);
        }
        self.offset = 0;
        self.mark_stack.clear();
        self.generation = self.generation + 1;
        proof {
            assert(self@.marks =~= Seq::<nat>::empty());
        }
    }

    /// Pushes the current fill level onto the mark stack.
    pub fn mark(&mut self)
        requires
            old(self).well_formed(),
        ensures
            final(self).well_formed(),
            final(self)@ == old(self)@.mark(),
            final(self).spec_bytes() == old(self).spec_bytes(),
            final(final(self).buf)@ == final(old(self).buf)@,
    {
        self.mark_stack.push(self.offset);
        proof {
            assert(self@.marks =~= old(self)@.marks.push(old(self)@.offset));
        }
    }

    /// Pops the newest mark into the fill level; without a mark nothing happens.
    pub fn reset_to_mark(&mut self)
        requires
            old(self).well_formed(),
        ensures
            final(self).well_formed(),
            final(self)@ == old(self)@.reset_to_mark(),
            final(self).spec_bytes() == old(self).spec_bytes(),
            final(final(self).buf)@ == final(old(self).buf)@,
    {
        match self.mark_stack.pop() {
            Some(mark) => {
                proof {
                    assert(old(self)@.marks.last() == mark);
                    assert(self@.marks =~= old(self)@.marks.drop_last());
                }
                self.offset = mark;
            },
            None => {},
        }
    }

    /// Overwrites the newest mark with the current fill level; without a mark
    /// nothing happens.
    pub fn move_mark(&mut self)
        requires
            old(self).well_formed(),
        ensures
            final(self).well_formed(),
            final(self)@ == old(self)@.move_mark(),
            final(self).spec_bytes() == old(self).spec_bytes(),
            final(final(self).buf)@ == final(old(self).buf)@,
    {
        let n = self.mark_stack.len();
        if n > 0 {
            self.mark_stack.set(n - 1, self.offset);
            proof {
                assert(self@.marks =~= old(self)@.marks.update(n - 1, old(self)@.offset));
            }
        }
    }

    /// The same as `reset`.
    pub fn clear(&mut self)
        requires
            old(self).well_formed(),
            old(self)@.generation < usize::MAX,
        ensures
            final(self).well_formed(),
            final(self)@ == old(self)@.reset(),
            final(final(self).buf)@ == final(old(self).buf)@,
            old(self)@.zeroing ==> final(self).spec_bytes() == zero_prefix(
                old(self).spec_bytes(),
                old(self)@.offset,
            ),
            !old(self)@.zeroing ==> final(self).spec_bytes() == old(self).spec_bytes(),
    {
        self.reset();
    }

    /// Turns zeroing of the used bytes on `reset` on or off.
    pub fn set_zeroing(&mut self, state: bool)
        requires
            old(self).well_formed(),
        ensures
            final(self).well_formed(),
            final(self)@ == old(self)@.set_zeroing(state),
            final(self).spec_bytes() == old(self).spec_bytes(),
            final(final(self).buf)@ == final(old(self).buf)@,
    {
        self.zeroing = state;
    }

    pub fn get_zeroing(&mut self) -> (r: bool)
        ensures
            r == old(self)@.zeroing,
            final(self)@ == old(self)@,
            final(self).spec_bytes() == old(self).spec_bytes(),
            final(final(self).buf)@ == final(old(self).buf)@,
    {
        self.zeroing
    }
}

impl<'a> LakeMeta for LakeView<'a> {
    open spec fn spec_offset(&self) -> nat {
        self@.offset
    }

    open spec fn spec_capacity(&self) -> nat {
        self.buf@.len()
    }

    open spec fn spec_generation(&self) -> nat {
        self@.generation
    }

    open spec fn well_formed(&self) -> bool {
        &&& self.offset <= self.buf@.len()
        &&& forall|i: int|
            0 <= i < self.mark_stack@.len() ==> #[trigger] self.mark_stack@[i] <= self.buf@.len()
    }

    fn offset(&self) -> (r: usize) {
        self.offset
    }

    fn generation(&self) -> (r: usize) {
        self.generation
    }

    fn capacity(&self) -> (r: usize) {
        self.buf.len()
    }

    fn set_offset(&mut self, val: usize) {
        self.offset = val;
    }
}

impl<'a> LakeMemory for LakeView<'a> {
    open spec fn spec_bytes(&self) -> Seq<u8> {
        self.buf@
    }

    fn bytes(&self) -> (r: &[u8]) {
        self.buf
    }

    fn bytes_mut(&mut self) -> (r: &mut [u8]) {
        self.buf
    }
}

impl<'a> LakeAllocatorExt for LakeView<'a> {

}

} // verus!
