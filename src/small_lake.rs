//! `SmallLake`, a small fixed-size ring writer: bytes are appended at a
//! position that starts over at zero when a write would run past the end.
use crate::utils::{decimal, digit_count_of, fixed_digits, fixed_digits_of, spliced, write_to};
use vstd::prelude::*;

verus! {

/// Where a write of `len` bytes lands in a ring of `size` bytes whose
/// position is `pos`: at `pos` if it fits behind it, else at the start.
pub open spec fn ring_start(pos: nat, len: nat, size: nat) -> nat {
    if pos + len <= size {
        pos
    } else {
        0
    }
}

/// A ring writer over `N` bytes.
#[derive(Clone)]
pub struct SmallLake<const N: usize> {
    buf: Vec<u8>,
    pos: usize,
}

impl<const N: usize> SmallLake<N> {
    /// The bytes held.
    pub closed spec fn spec_bytes(&self) -> Seq<u8> {
        self.buf@
    }

    /// The write position.
    pub closed spec fn spec_pos(&self) -> nat {
        self.pos as nat
    }

    pub closed spec fn well_formed(&self) -> bool {
        self.buf@.len() == N && self.pos <= N
    }

    /// A writer over `N` zero bytes, positioned at the start.
    pub fn build() -> (r: Self)
        ensures
            r.well_formed(),
            r.spec_pos() == 0,
            r.spec_bytes() == Seq::new(N as nat, |i: int| 0u8),
    {
        let r = SmallLake { buf: vec![0u8; N], pos: 0 };
        proof {
            assert(r.buf@ =~= Seq::new(N as nat, |i: int| 0u8));
        }
        r
    }

    /// Moves the write position back to the start; the bytes stay.
    pub fn reset_pos(&mut self)
        requires
            old(self).well_formed(),
        ensures
            final(self).well_formed(),
            final(self).spec_pos() == 0,
            final(self).spec_bytes() == old(self).spec_bytes(),
    {
        self.pos = 0;
    }

    /// Writes one byte at the position and advances it, starting over at
    /// zero when the end is reached.
    pub fn write_byte(&mut self, c: u8)
        requires
            old(self).well_formed(),
            old(self).spec_pos() < N,
        ensures
            final(self).well_formed(),
            final(self).spec_bytes() == old(self).spec_bytes().update(old(self).spec_pos() as int, c),
            final(self).spec_pos() == if old(self).spec_pos() + 1 >= N {
                0
            } else {
                old(self).spec_pos() + 1
            },
    {
        self.buf.set(self.pos, c);
        self.pos = self.pos + 1;
        if self.pos >= N {
            self.pos = 0;
        }
    }

    pub fn freeze_ref(&mut self) -> (r: &Self)
        ensures
            *r == *old(self),
    {
        &*self
    }

    /// The bytes written since the position was last at the start.
    pub fn as_slice(&self) -> (r: &[u8])
        requires
            self.well_formed(),
        ensures
            r@ == self.spec_bytes().subrange(0, self.spec_pos() as int),
    {
        vstd::slice::slice_subrange(self.buf.as_slice(), 0, self.pos)
    }

    /// The write position.
    pub fn len(&self) -> (r: usize)
        ensures
            r == self.spec_pos(),
    {
        self.pos
    }

    /// Writes `src` behind the position, or at the start when it would run
    /// past the end, and moves the position behind it.
    pub fn write(&mut self, src: &[u8])
        requires
            old(self).well_formed(),
            src@.len() <= N,
        ensures
            final(self).well_formed(),
            final(self).spec_bytes() == spliced(
                old(self).spec_bytes(),
                ring_start(old(self).spec_pos(), src@.len(), N as nat) as int,
                src@,
            ),
            final(self).spec_pos() == ring_start(old(self).spec_pos(), src@.len(), N as nat)
                + src@.len(),
    {
        let len = src.len();
        if len > N - self.pos {
            self.pos = 0;
        }
        let at = self.pos;
        write_to(self.buf.as_mut_slice(), at, src);
        self.pos = at + len;
    }

    /// Writes the decimal representation of `value` as `write` does.
    pub fn write_num_str(&mut self, value: usize)
        requires
            old(self).well_formed(),
            decimal(value as nat).len() <= N,
        ensures
            final(self).well_formed(),
            final(self).spec_bytes() == spliced(
                old(self).spec_bytes(),
                ring_start(old(self).spec_pos(), decimal(value as nat).len(), N as nat) as int,
                decimal(value as nat),
            ),
            final(self).spec_pos() == ring_start(
                old(self).spec_pos(),
                decimal(value as nat).len(),
                N as nat,
            ) + decimal(value as nat).len(),
    {
        let count = digit_count_of(value);
        let digits = fixed_digits_of(value, count);
        self.write(digits.as_slice());
    }

    /// Writes the last `width` decimal digits of `value`, zero-padded, behind
    /// the position, and moves the position behind them.
    pub fn write_num_str_fixed(&mut self, value: usize, width: usize)
        requires
            old(self).well_formed(),
            old(self).spec_pos() + width <= N,
        ensures
            final(self).well_formed(),
            final(self).spec_bytes() == spliced(
                old(self).spec_bytes(),
                old(self).spec_pos() as int,
                fixed_digits(value as nat, width as nat),
            ),
            final(self).spec_pos() == old(self).spec_pos() + width,
    {
        let digits = fixed_digits_of(value, width);
        let at = self.pos;
        write_to(self.buf.as_mut_slice(), at, digits.as_slice());
        self.pos = at + width;
    }
}

} // verus!
