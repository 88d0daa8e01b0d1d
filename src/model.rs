//! The mathematical model of an arena's bookkeeping: what `Lake` and
//! `LakeView` expose as their view, and the transitions their operations make.
use crate::droplet::{end_of, valid_at, DropletDyn, DropletMeta};
use crate::meta::LakeError;
use crate::utils::spliced;
use vstd::prelude::*;

verus! {

/// The abstract state of an arena: fill level, size, generation counter,
/// saved marks (oldest first) and the zeroing policy.
pub struct ArenaView {
    pub offset: nat,
    pub capacity: nat,
    pub generation: nat,
    pub marks: Seq<nat>,
    pub zeroing: bool,
}

impl ArenaView {
    /// A fresh, empty arena of the given capacity.
    pub open spec fn fresh(capacity: nat) -> ArenaView {
        ArenaView { offset: 0, capacity, generation: 0, marks: Seq::empty(), zeroing: false }
    }

    pub open spec fn remaining(self) -> nat {
        (self.capacity - self.offset) as nat
    }

    /// Whether `n` more bytes fit behind the current fill level.
    pub open spec fn fits(self, n: nat) -> bool {
        self.offset + n <= self.capacity
    }

    /// Advances the fill level by `n` bytes.
    pub open spec fn bump(self, n: nat) -> ArenaView {
        ArenaView { offset: self.offset + n, ..self }
    }

    /// Sets the fill level to `offset`, leaving generation and marks alone.
    pub open spec fn rewind(self, offset: nat) -> ArenaView {
        ArenaView { offset, ..self }
    }

    /// Lowers the fill level by `n`, stopping at zero.
    pub open spec fn reset_to(self, n: nat) -> ArenaView {
        self.rewind(if self.offset >= n { (self.offset - n) as nat } else { 0 })
    }

    /// Pushes the current fill level onto the mark stack.
    pub open spec fn mark(self) -> ArenaView {
        ArenaView { marks: self.marks.push(self.offset), ..self }
    }

    /// Pops the newest mark into the fill level; nothing happens without a mark.
    pub open spec fn reset_to_mark(self) -> ArenaView {
        if self.marks.len() == 0 {
            self
        } else {
            ArenaView { offset: self.marks.last(), marks: self.marks.drop_last(), ..self }
        }
    }

    /// Overwrites the newest mark with the current fill level; nothing happens without a mark.
    pub open spec fn move_mark(self) -> ArenaView {
        if self.marks.len() == 0 {
            self
        } else {
            ArenaView { marks: self.marks.update(self.marks.len() - 1, self.offset), ..self }
        }
    }

    /// Empties the arena, forgets every mark and starts a new generation.
    pub open spec fn reset(self) -> ArenaView {
        ArenaView { offset: 0, marks: Seq::empty(), generation: self.generation + 1, ..self }
    }

    pub open spec fn set_zeroing(self, zeroing: bool) -> ArenaView {
        ArenaView { zeroing, ..self }
    }
}

/// A reset invalidates every handle carved before it: such a handle's
/// generation is at most the arena's, and the reset moves past it.
pub proof fn reset_invalidates<D: DropletMeta>(before: ArenaView, d: D)
    requires
        d.spec_generation() <= before.generation,
    ensures
        !valid_at(d, before.reset().offset, before.reset().generation),
{
}

/// Rewinding keeps a handle of the current generation valid exactly when the
/// handle's bytes end at or below the new fill level.
pub proof fn rewind_validity<D: DropletMeta>(before: ArenaView, d: D, offset: nat)
    requires
        d.spec_generation() == before.generation,
    ensures
        valid_at(d, before.rewind(offset).offset, before.rewind(offset).generation) <==> end_of(d)
            <= offset,
        before.rewind(offset).generation == before.generation,
        before.rewind(offset).marks == before.marks,
{
}

/// Popping a mark returns to the fill level at which it was pushed, whatever
/// happened in between as long as the mark stack was left as `mark` made it
/// (allocation, rewinding and balanced mark pairs leave it so; a reset does not).
pub proof fn mark_then_reset_to_mark(at_mark: ArenaView, later: ArenaView)
    requires
        later.marks == at_mark.mark().marks,
    ensures
        later.reset_to_mark().offset == at_mark.offset,
        later.reset_to_mark().marks == at_mark.marks,
{
    assert(at_mark.mark().marks.drop_last() =~= at_mark.marks);
}

/// After `move_mark`, popping the mark returns to the fill level at the
/// `move_mark` call, not the one at which the mark was first pushed.
pub proof fn move_mark_then_reset_to_mark(at_move: ArenaView, later: ArenaView)
    requires
        at_move.marks.len() > 0,
        later.marks == at_move.move_mark().marks,
    ensures
        later.reset_to_mark().offset == at_move.offset,
        later.reset_to_mark().marks == at_move.marks.drop_last(),
{
    assert(at_move.move_mark().marks.drop_last() =~= at_move.marks.drop_last());
}

/// What `process` does with the bytes `data` its producer returned: they are
/// copied behind the fill level when the arena is not full and they fit,
/// and the result is a handle to them; otherwise nothing changes.
pub open spec fn process_outcome(
    r: Result<DropletDyn, LakeError>,
    before: ArenaView,
    before_bytes: Seq<u8>,
    data: Seq<u8>,
    after: ArenaView,
    after_bytes: Seq<u8>,
) -> bool {
    &&& (r is Ok <==> before.offset < before.capacity && data.len() <= before.remaining())
    &&& r is Err ==> after == before && after_bytes == before_bytes && r == Err::<
        DropletDyn,
        LakeError,
    >(LakeError::Overflow)
    &&& r is Ok ==> {
        &&& after == before.bump(data.len())
        &&& after_bytes == spliced(before_bytes, before.offset as int, data)
        &&& r->Ok_0.spec_start() == before.offset
        &&& r->Ok_0.spec_len() == data.len()
        &&& r->Ok_0.spec_generation() == before.generation
        &&& r->Ok_0.spec_cursor() == 0
    }
}

} // verus!
