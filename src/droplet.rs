//! Handles to byte ranges carved from an arena.
//!
//! A handle remembers where its bytes lie and the arena generation it was
//! carved in. It does not point at the arena: every access takes the arena
//! as an argument and is only allowed while the handle is valid for it.
use crate::meta::{LakeMemory, LakeMeta};
use crate::utils::{decimal, digit_count_of, fixed_digits, fixed_digits_of, spliced, write_to};
use vstd::layout::size_of;
use vstd::prelude::*;

verus! {

/// Position just past the handle's bytes.
pub open spec fn end_of<D: DropletMeta>(d: D) -> nat {
    d.spec_start() + d.spec_len()
}

/// A handle is valid while the arena is in the generation it was carved in
/// and the arena's fill level has not dropped below the handle's end.
pub open spec fn valid_at<D: DropletMeta>(d: D, offset: nat, generation: nat) -> bool {
    generation == d.spec_generation() && offset >= end_of(d)
}

/// The bytes of `memory` that the handle addresses.
pub open spec fn region<D: DropletMeta>(d: D, memory: Seq<u8>) -> Seq<u8> {
    memory.subrange(d.spec_start() as int, end_of(d) as int)
}

/// Position of the handle's write cursor in the arena.
pub open spec fn cursor_at<D: DropletMeta>(d: D) -> int {
    (d.spec_start() + d.spec_cursor()) as int
}

/// Where a handle's bytes lie, the generation it was carved in, and its
/// write cursor.
pub trait DropletMeta: Sized {
    spec fn spec_start(&self) -> nat;

    spec fn spec_len(&self) -> nat;

    spec fn spec_generation(&self) -> nat;

    /// Position of the write cursor, relative to the handle's start.
    spec fn spec_cursor(&self) -> nat;

    /// Where the handle's bytes begin in the arena.
    fn d_start(&self) -> (r: usize)
        ensures
            r == self.spec_start(),
            self.spec_start() + self.spec_len() <= usize::MAX,
            self.spec_cursor() <= self.spec_len(),
    ;

    fn d_len(&self) -> (r: usize)
        ensures
            r == self.spec_len(),
            self.spec_start() + self.spec_len() <= usize::MAX,
            self.spec_cursor() <= self.spec_len(),
    ;

    fn d_generation(&self) -> (r: usize)
        ensures
            r == self.spec_generation(),
    ;

    /// The write cursor.
    fn d_offset(&self) -> (r: usize)
        ensures
            r == self.spec_cursor(),
            self.spec_cursor() <= self.spec_len(),
    ;

    /// Moves the write cursor; where the bytes lie stays the same.
    fn d_set_offset(&mut self, cursor: usize)
        requires
            cursor <= old(self).spec_len(),
        ensures
            final(self).spec_cursor() == cursor,
            final(self).spec_start() == old(self).spec_start(),
            final(self).spec_len() == old(self).spec_len(),
            final(self).spec_generation() == old(self).spec_generation(),
    ;
}

/// The operations shared by fixed and dynamic handles: access to their bytes
/// and a write cursor that appends inside them.
pub trait DropletBase: DropletMeta {
    /// Puts the write cursor back at the handle's start.
    fn d_reset(&mut self)
        ensures
            final(self).spec_cursor() == 0,
            final(self).spec_start() == old(self).spec_start(),
            final(self).spec_len() == old(self).spec_len(),
            final(self).spec_generation() == old(self).spec_generation(),
    {
        self.d_set_offset(0);
    }

    /// How many bytes the write cursor can still append.
    fn d_remaining(&self) -> (r: usize)
        ensures
            r == self.spec_len() - self.spec_cursor(),
    {
        self.d_len() - self.d_offset()
    }

    /// The handle's bytes, read from `lake`.
    fn d_as_slice<'a, L: LakeMemory>(&self, lake: &'a L) -> (r: &'a [u8])
        requires
            lake.well_formed(),
            valid_at(*self, lake.spec_offset(), lake.spec_generation()),
        ensures
            r@ == region(*self, lake.spec_bytes()),
            r@.len() == self.spec_len(),
    {
        let start = self.d_start();
        let end = start + self.d_len();
        let bytes = lake.bytes();
        vstd::slice::slice_subrange(bytes, start, end)
    }

    /// The handle's bytes in `lake`, writable; whatever is written there is
    /// written into the arena and nowhere else.
    fn d_as_mut_slice<'a, L: LakeMemory>(&self, lake: &'a mut L) -> (r: &'a mut [u8])
        requires
            old(lake).well_formed(),
            valid_at(*self, old(lake).spec_offset(), old(lake).spec_generation()),
        ensures
            final(r)@.len() == r@.len() ==> {
                &&& final(lake).well_formed()
                &&& final(lake).spec_capacity() == old(lake).spec_capacity()
            },
            r@ == region(*self, old(lake).spec_bytes()),
            final(lake).spec_bytes() == old(lake).spec_bytes().subrange(0, self.spec_start() as int)
                + final(r)@ + old(lake).spec_bytes().subrange(
                end_of(*self) as int,
                old(lake).spec_bytes().len() as int,
            ),
            final(lake).spec_offset() == old(lake).spec_offset(),
            final(lake).spec_generation() == old(lake).spec_generation(),
    {
        let start = self.d_start();
        let len = self.d_len();
        let bytes = lake.bytes_mut();
        let (head, tail) = bytes.split_at_mut(start);
        let (mine, rest) = tail.split_at_mut(len);
        proof {
            assert(mine@ =~= region(*self, old(lake).spec_bytes()));
            assert(has_resolved(head));
            assert(has_resolved(rest));
        }
        mine
    }

    /// Appends `src` at the write cursor and advances it.
    fn d_write<L: LakeMemory>(&mut self, lake: &mut L, src: &[u8])
        requires
            old(lake).well_formed(),
            valid_at(*old(self), old(lake).spec_offset(), old(lake).spec_generation()),
            old(self).spec_cursor() + src@.len() <= old(self).spec_len(),
        ensures
            final(self).spec_cursor() == old(self).spec_cursor() + src@.len(),
            final(self).spec_start() == old(self).spec_start(),
            final(self).spec_len() == old(self).spec_len(),
            final(self).spec_generation() == old(self).spec_generation(),
            final(lake).well_formed(),
            final(lake).spec_bytes() == spliced(old(lake).spec_bytes(), cursor_at(*old(self)), src@),
            old(lake).spec_bytes().len() == old(lake).spec_capacity(),
            old(lake).spec_offset() <= old(lake).spec_capacity(),
            final(lake).spec_offset() == old(lake).spec_offset(),
            final(lake).spec_capacity() == old(lake).spec_capacity(),
            final(lake).spec_generation() == old(lake).spec_generation(),
    {
        let start = self.d_start();
        let cursor = self.d_offset();
        let bytes = lake.bytes_mut();
        write_to(bytes, start + cursor, src);
        self.d_set_offset(cursor + src.len());
    }

    /// Appends one byte at the write cursor.
    fn write_byte<L: LakeMemory>(&mut self, lake: &mut L, c: u8)
        requires
            old(lake).well_formed(),
            valid_at(*old(self), old(lake).spec_offset(), old(lake).spec_generation()),
            old(self).spec_cursor() + 1 <= old(self).spec_len(),
        ensures
            final(self).spec_cursor() == old(self).spec_cursor() + 1,
            final(self).spec_start() == old(self).spec_start(),
            final(self).spec_len() == old(self).spec_len(),
            final(self).spec_generation() == old(self).spec_generation(),
            final(lake).well_formed(),
            final(lake).spec_bytes() == old(lake).spec_bytes().update(cursor_at(*old(self)), c),
            final(lake).spec_offset() == old(lake).spec_offset(),
            final(lake).spec_capacity() == old(lake).spec_capacity(),
            final(lake).spec_generation() == old(lake).spec_generation(),
    {
        let one: Vec<u8> = vec![c];
        self.d_write(lake, one.as_slice());
        proof {
            assert(final(lake).spec_bytes() =~= old(lake).spec_bytes().update(
                cursor_at(*old(self)),
                c,
            ));
        }
    }

    /// Appends the last `width` decimal digits of `value`, zero-padded, at the
    /// write cursor.
    fn write_num_str_fixed<L: LakeMemory>(&mut self, lake: &mut L, value: usize, width: usize)
        requires
            old(lake).well_formed(),
            valid_at(*old(self), old(lake).spec_offset(), old(lake).spec_generation()),
            old(self).spec_cursor() + width <= old(self).spec_len(),
        ensures
            final(self).spec_cursor() == old(self).spec_cursor() + width,
            final(self).spec_start() == old(self).spec_start(),
            final(self).spec_len() == old(self).spec_len(),
            final(self).spec_generation() == old(self).spec_generation(),
            final(lake).well_formed(),
            final(lake).spec_bytes() == spliced(old(lake).spec_bytes(), cursor_at(*old(self)), fixed_digits(value as nat, width as nat)),
            final(lake).spec_offset() == old(lake).spec_offset(),
            final(lake).spec_capacity() == old(lake).spec_capacity(),
            final(lake).spec_generation() == old(lake).spec_generation(),
    {
        let digits = fixed_digits_of(value, width);
        self.d_write(lake, digits.as_slice());
    }

    /// Appends the decimal representation of `value` at the write cursor.
    fn write_num_str<L: LakeMemory>(&mut self, lake: &mut L, value: usize)
        requires
            old(lake).well_formed(),
            valid_at(*old(self), old(lake).spec_offset(), old(lake).spec_generation()),
            old(self).spec_cursor() + decimal(value as nat).len() <= old(self).spec_len(),
        ensures
            final(self).spec_cursor() == old(self).spec_cursor() + decimal(value as nat).len(),
            final(self).spec_start() == old(self).spec_start(),
            final(self).spec_len() == old(self).spec_len(),
            final(self).spec_generation() == old(self).spec_generation(),
            final(lake).well_formed(),
            final(lake).spec_bytes() == spliced(old(lake).spec_bytes(), cursor_at(*old(self)), decimal(value as nat)),
            final(lake).spec_offset() == old(lake).spec_offset(),
            final(lake).spec_capacity() == old(lake).spec_capacity(),
            final(lake).spec_generation() == old(lake).spec_generation(),
    {
        let count = digit_count_of(value);
        self.write_num_str_fixed(lake, value, count);
    }
}

/// A fixed-size handle: `N` bytes carved from an arena.
pub struct Droplet<const N: usize> {
    start: usize,
    generation: usize,
    cursor: usize,
}

impl<const N: usize> Droplet<N> {
    #[verifier::type_invariant]
    spec fn inv(&self) -> bool {
        self.start + N <= usize::MAX && self.cursor <= N
    }

    /// A handle to the `N` bytes at `start`, carved in `generation`.
    pub(crate) fn new(start: usize, generation: usize) -> (r: Self)
        requires
            start + N <= usize::MAX,
        ensures
            r.spec_start() == start,
            r.spec_len() == N,
            r.spec_generation() == generation,
            r.spec_cursor() == 0,
    {
        Droplet { start, generation, cursor: 0 }
    }

    /// The number of bytes the handle addresses.
    pub fn len(&self) -> (r: usize)
        ensures
            r == N,
    {
        N
    }

    /// Whether the handle may still be used with `lake`: same generation, and
    /// the fill level still covers the handle's bytes.
    pub fn is_valid<L: LakeMeta>(&self, lake: &L) -> (r: bool)
        requires
            lake.well_formed(),
        ensures
            r == valid_at(*self, lake.spec_offset(), lake.spec_generation()),
    {
        proof {
            use_type_invariant(self);
        }
        lake.generation() == self.generation && lake.offset() >= self.start + N
    }
}

impl<const N: usize> DropletMeta for Droplet<N> {
    closed spec fn spec_start(&self) -> nat {
        self.start as nat
    }

    closed spec fn spec_len(&self) -> nat {
        N as nat
    }

    closed spec fn spec_generation(&self) -> nat {
        self.generation as nat
    }

    closed spec fn spec_cursor(&self) -> nat {
        self.cursor as nat
    }

    fn d_start(&self) -> (r: usize) {
        proof {
            use_type_invariant(self);
        }
        self.start
    }

    fn d_len(&self) -> (r: usize) {
        proof {
            use_type_invariant(self);
        }
        N
    }

    fn d_generation(&self) -> (r: usize) {
        self.generation
    }

    fn d_offset(&self) -> (r: usize) {
        proof {
            use_type_invariant(self);
        }
        self.cursor
    }

    fn d_set_offset(&mut self, cursor: usize) {
        proof {
            use_type_invariant(&*self);
        }
        self.cursor = cursor;
    }
}

impl<const N: usize> DropletBase for Droplet<N> {

}

/// A handle whose length is chosen at run time.
pub struct DropletDyn {
    start: usize,
    len: usize,
    generation: usize,
    cursor: usize,
}

impl DropletDyn {
    #[verifier::type_invariant]
    spec fn inv(&self) -> bool {
        self.start + self.len <= usize::MAX && self.cursor <= self.len
    }

    /// A handle to the `len` bytes at `start`, carved in `generation`.
    pub(crate) fn new(start: usize, len: usize, generation: usize) -> (r: Self)
        requires
            start + len <= usize::MAX,
        ensures
            r.spec_start() == start,
            r.spec_len() == len,
            r.spec_generation() == generation,
            r.spec_cursor() == 0,
    {
        DropletDyn { start, len, generation, cursor: 0 }
    }

    /// Whether the handle may still be used with `lake`: same generation, and
    /// the fill level still covers the handle's bytes.
    pub fn is_valid<L: LakeMeta>(&self, lake: &L) -> (r: bool)
        requires
            lake.well_formed(),
        ensures
            r == valid_at(*self, lake.spec_offset(), lake.spec_generation()),
    {
        proof {
            use_type_invariant(self);
        }
        lake.generation() == self.generation && lake.offset() >= self.start + self.len
    }
}

impl DropletMeta for DropletDyn {
    closed spec fn spec_start(&self) -> nat {
        self.start as nat
    }

    closed spec fn spec_len(&self) -> nat {
        self.len as nat
    }

    closed spec fn spec_generation(&self) -> nat {
        self.generation as nat
    }

    closed spec fn spec_cursor(&self) -> nat {
        self.cursor as nat
    }

    fn d_start(&self) -> (r: usize) {
        proof {
            use_type_invariant(self);
        }
        self.start
    }

    fn d_len(&self) -> (r: usize) {
        proof {
            use_type_invariant(self);
        }
        self.len
    }

    fn d_generation(&self) -> (r: usize) {
        self.generation
    }

    fn d_offset(&self) -> (r: usize) {
        proof {
            use_type_invariant(self);
        }
        self.cursor
    }

    fn d_set_offset(&mut self, cursor: usize) {
        proof {
            use_type_invariant(&*self);
        }
        self.cursor = cursor;
    }
}

impl DropletBase for DropletDyn {

}

/// A plain value that can be read from its bytes (little-endian for integers).
pub trait Pod: Sized {
    /// The value whose bytes are `bytes`.
    spec fn decode(bytes: Seq<u8>) -> Self;

    fn from_bytes(bytes: &[u8]) -> (r: Self)
        requires
            bytes@.len() == size_of::<Self>(),
        ensures
            r == Self::decode(bytes@),
    ;
}

impl Pod for u8 {
    open spec fn decode(bytes: Seq<u8>) -> u8 {
        bytes[0]
    }

    fn from_bytes(bytes: &[u8]) -> (r: u8) {
        proof {
            broadcast use vstd::layout::layout_of_primitives;
        }
        bytes[0]
    }
}

impl Pod for u16 {
    open spec fn decode(bytes: Seq<u8>) -> u16 {
        (bytes[0] + 0x100 * bytes[1]) as u16
    }

    fn from_bytes(bytes: &[u8]) -> (r: u16) {
        proof {
            broadcast use vstd::layout::layout_of_primitives;
        }
        bytes[0] as u16 + 0x100 * bytes[1] as u16
    }
}

impl Pod for u32 {
    open spec fn decode(bytes: Seq<u8>) -> u32 {
        (bytes[0] + 0x100 * bytes[1] + 0x1_0000 * bytes[2] + 0x100_0000 * bytes[3]) as u32
    }

    fn from_bytes(bytes: &[u8]) -> (r: u32) {
        proof {
            broadcast use vstd::layout::layout_of_primitives;
        }
        bytes[0] as u32 + 0x100 * bytes[1] as u32 + 0x1_0000 * bytes[2] as u32 + 0x100_0000
            * bytes[3] as u32
    }
}

impl Pod for u64 {
    open spec fn decode(bytes: Seq<u8>) -> u64 {
        (bytes[0] + 0x100 * bytes[1] + 0x1_0000 * bytes[2] + 0x100_0000 * bytes[3] + 0x1_0000_0000
            * bytes[4] + 0x100_0000_0000 * bytes[5] + 0x1_0000_0000_0000 * bytes[6]
            + 0x100_0000_0000_0000 * bytes[7]) as u64
    }

    fn from_bytes(bytes: &[u8]) -> (r: u64) {
        proof {
            broadcast use vstd::layout::layout_of_primitives;
        }
        bytes[0] as u64 + 0x100 * bytes[1] as u64 + 0x1_0000 * bytes[2] as u64 + 0x100_0000
            * bytes[3] as u64 + 0x1_0000_0000 * bytes[4] as u64 + 0x100_0000_0000
            * bytes[5] as u64 + 0x1_0000_0000_0000 * bytes[6] as u64 + 0x100_0000_0000_0000
            * bytes[7] as u64
    }
}

/// Reading a handle's bytes as plain values.
pub trait DropletDeserializeExt: DropletBase {
    /// The value held by the handle's first `size_of::<T>()` bytes, or
    /// `None` when the handle is shorter than that.
    fn deserialize<T: Pod, L: LakeMemory>(&self, lake: &L) -> (r: Option<T>)
        requires
            lake.well_formed(),
            valid_at(*self, lake.spec_offset(), lake.spec_generation()),
        ensures
            r is None <==> size_of::<T>() > self.spec_len(),
            r is Some ==> r->0 == T::decode(
                region(*self, lake.spec_bytes()).subrange(0, size_of::<T>() as int),
            ),
    {
        let size = core::mem::size_of::<T>();
        if size > self.d_len() {
            return None;
        }
        let bytes = self.d_as_slice(lake);
        Some(T::from_bytes(vstd::slice::slice_subrange(bytes, 0, size)))
    }

    /// The handle's bytes read as consecutive values of `T`, or `None` when
    /// `T` has no size or the length is not a multiple of it.
    fn deserialize_slice<T: Pod, L: LakeMemory>(&self, lake: &L) -> (r: Option<Vec<T>>)
        requires
            lake.well_formed(),
            valid_at(*self, lake.spec_offset(), lake.spec_generation()),
        ensures
            r is Some <==> size_of::<T>() > 0 && self.spec_len() % size_of::<T>() == 0,
            r is Some ==> r->0@.len() == self.spec_len() / size_of::<T>(),
            r is Some ==> forall|i: int|
                0 <= i < r->0@.len() ==> #[trigger] r->0@[i] == T::decode(
                    region(*self, lake.spec_bytes()).subrange(
                        i * size_of::<T>(),
                        i * size_of::<T>() + size_of::<T>(),
                    ),
                ),
    {
        let size = core::mem::size_of::<T>();
        let len = self.d_len();
        if size == 0 || len % size != 0 {
            return None;
        }
        let count = len / size;
        let bytes = self.d_as_slice(lake);
        let mut out: Vec<T> = Vec::new();
        let mut i: usize = 0;
        let mut pos: usize = 0;
        while i < count
            invariant
                size == size_of::<T>(),
                size > 0,
                len == self.spec_len(),
                count == len / size,
                len % size == 0,
                bytes@ == region(*self, lake.spec_bytes()),
                bytes@.len() == len,
                i <= count,
                pos == i * size,
                out@.len() == i,
                forall|k: int|
                    0 <= k < i ==> #[trigger] out@[k] == T::decode(
                        bytes@.subrange(k * size, k * size + size),
                    ),
            decreases count - i,
        {
            proof {
                assert(pos + size <= len) by (nonlinear_arith)
                    requires
                        pos == i * size,
                        i < count,
                        count == len / size,
                        len % size == 0,
                        size > 0,
                {
                    vstd::arithmetic::div_mod::lemma_fundamental_div_mod(len as int, size as int);
                }
            }
            let item = T::from_bytes(vstd::slice::slice_subrange(bytes, pos, pos + size));
            out.push(item);
            pos = pos + size;
            i = i + 1;
            proof {
                assert(pos == i * size) by (nonlinear_arith)
                    requires
                        pos == (i - 1) * size + size,
                ;
            }
        }
        Some(out)
    }
}

impl<const N: usize> DropletDeserializeExt for Droplet<N> {

}

impl DropletDeserializeExt for DropletDyn {

}

} // verus!
