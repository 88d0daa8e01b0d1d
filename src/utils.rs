//! Small arithmetic and byte helpers shared by the arenas.
use vstd::arithmetic::power2::is_pow2;
use vstd::prelude::*;

verus! {

/// The smallest multiple of `align` that is not below `offset`.
pub open spec fn aligned(offset: nat, align: nat) -> nat {
    if offset % align == 0 {
        offset
    } else {
        (offset + (align - offset % align)) as nat
    }
}

/// Rounds `offset` up to the next multiple of `align`.
///
/// `align` must be a power of two; the result is the smallest multiple of
/// `align` that is not below `offset`.
pub fn align_up(offset: usize, align: usize) -> (r: usize)
    requires
        is_pow2(align as int),
        aligned(offset as nat, align as nat) <= usize::MAX,
    ensures
        r == aligned(offset as nat, align as nat),
        r >= offset,
        r % align == 0,
        r < offset + align,
        offset % align == 0 ==> r == offset,
{
    proof {
        reveal(is_pow2);
    }
    let rem: usize = offset % align;
    if rem == 0 {
        offset
    } else {
        proof {
            assert((offset + (align - rem)) % (align as int) == 0) by (nonlinear_arith)
                requires
                    rem == offset % align,
                    align > 0,
            {
                vstd::arithmetic::div_mod::lemma_fundamental_div_mod(offset as int, align as int);
                vstd::arithmetic::div_mod::lemma_mod_multiples_basic(offset as int / align as int + 1, align as int);
            }
        }
        offset + (align - rem)
    }
}

/// `memory` with the bytes from `at` on overwritten by `piece`.
pub open spec fn spliced(memory: Seq<u8>, at: int, piece: Seq<u8>) -> Seq<u8> {
    memory.subrange(0, at) + piece + memory.subrange(at + piece.len(), memory.len() as int)
}

/// Copies `src` into `dst` starting at position `at` (a plain, non-overlapping
/// byte copy); the rest of `dst` is left as it was.
pub fn write_to(dst: &mut [u8], at: usize, src: &[u8])
    requires
        at + src@.len() <= old(dst)@.len(),
    ensures
        final(dst)@ == spliced(old(dst)@, at as int, src@),
{
    let len = src.len();
    let dst_len = dst.len();
    let mut i: usize = 0;
    while i < len
        invariant
            0 <= i <= len,
            len == src@.len(),
            at + len <= old(dst)@.len(),
            dst@.len() == old(dst)@.len(),
            dst_len == dst@.len(),
            forall|k: int| 0 <= k < at ==> #[trigger] dst@[k] == old(dst)@[k],
            forall|k: int| at + i <= k < dst@.len() ==> #[trigger] dst@[k] == old(dst)@[k],
            forall|k: int| at <= k < at + i ==> #[trigger] dst@[k] == src@[k - at],
        decreases len - i,
    {
        dst[at + i] = src[i];
        i = i + 1;
    }
    assert(dst@ =~= old(dst)@.subrange(0, at as int) + src@ + old(dst)@.subrange(
        at + src@.len(),
        old(dst)@.len() as int,
    ));
}

/// The last `width` decimal digits of `v` (ASCII), padded with leading zeros.
pub open spec fn fixed_digits(v: nat, width: nat) -> Seq<u8>
    decreases width,
{
    if width == 0 {
        Seq::empty()
    } else {
        fixed_digits(v / 10, (width - 1) as nat).push((v % 10 + 48) as u8)
    }
}

/// The number of decimal digits of `v`.
pub open spec fn digit_count(v: nat) -> nat
    decreases v,
{
    if v < 10 {
        1
    } else {
        1 + digit_count(v / 10)
    }
}

/// The decimal representation of `v` (ASCII, no leading zeros).
pub open spec fn decimal(v: nat) -> Seq<u8>
    decreases v,
{
    if v < 10 {
        seq![(v + 48) as u8]
    } else {
        decimal(v / 10).push((v % 10 + 48) as u8)
    }
}

pub proof fn lemma_fixed_digits_len(v: nat, width: nat)
    ensures
        fixed_digits(v, width).len() == width,
    decreases width,
{
    if width > 0 {
        lemma_fixed_digits_len(v / 10, (width - 1) as nat);
    }
}

pub proof fn lemma_decimal_is_fixed(v: nat)
    ensures
        decimal(v) == fixed_digits(v, digit_count(v)),
    decreases v,
{
    if v < 10 {
        assert(fixed_digits(v / 10, 0) =~= Seq::<u8>::empty());
        assert(decimal(v) =~= fixed_digits(v, 1));
    } else {
        lemma_decimal_is_fixed(v / 10);
    }
}

/// The last `width` decimal digits of `value`, zero-padded (ASCII).
pub fn fixed_digits_of(value: usize, width: usize) -> (r: Vec<u8>)
    ensures
        r@ == fixed_digits(value as nat, width as nat),
        r@.len() == width,
{
    let mut digits: Vec<u8> = vec![0u8; width];
    let mut v: usize = value;
    let mut j: usize = width;
    while j > 0
        invariant
            j <= width,
            digits@.len() == width,
            fixed_digits(value as nat, width as nat) == fixed_digits(v as nat, j as nat)
                + digits@.subrange(j as int, width as int),
        decreases j,
    {
        let d: u8 = (v % 10) as u8 + 48;
        proof {
            assert(fixed_digits(v as nat, j as nat) == fixed_digits(
                (v / 10) as nat,
                (j - 1) as nat,
            ).push(d));
        }
        let ghost before = digits@;
        digits.set(j - 1, d);
        proof {
            assert(digits@.subrange(j - 1, width as int) =~= seq![d] + before.subrange(
                j as int,
                width as int,
            ));
            assert(fixed_digits(value as nat, width as nat) =~= fixed_digits(
                (v / 10) as nat,
                (j - 1) as nat,
            ) + digits@.subrange(j - 1, width as int));
        }
        v = v / 10;
        j = j - 1;
    }
    proof {
        assert(fixed_digits(v as nat, 0) =~= Seq::<u8>::empty());
        assert(digits@ =~= fixed_digits(value as nat, width as nat));
    }
    digits
}

/// The number of decimal digits of `value`.
pub fn digit_count_of(value: usize) -> (r: usize)
    ensures
        r == digit_count(value as nat),
        r == decimal(value as nat).len(),
        decimal(value as nat) == fixed_digits(value as nat, r as nat),
{
    let mut count: usize = 1;
    let mut v: usize = value;
    while v >= 10
        invariant
            1 <= count,
            count + digit_count(v as nat) == 1 + digit_count(value as nat),
            count <= value - v + 1,
        decreases v,
    {
        v = v / 10;
        count = count + 1;
    }
    proof {
        lemma_decimal_is_fixed(value as nat);
        lemma_fixed_digits_len(value as nat, digit_count(value as nat));
    }
    count
}

/// `bytes` with its first `n` bytes set to zero.
pub open spec fn zero_prefix(bytes: Seq<u8>, n: nat) -> Seq<u8> {
    Seq::new(n, |i: int| 0u8) + bytes.subrange(n as int, bytes.len() as int)
}

/// Overwrites the first `n` bytes of `dst` with zeros.
pub fn zero_fill(dst: &mut [u8], n: usize)
    requires
        n <= old(dst)@.len(),
    ensures
        final(dst)@ == zero_prefix(old(dst)@, n as nat),
{
    let mut i: usize = 0;
    while i < n
        invariant
            i <= n,
            n <= dst@.len(),
            dst@.len() == old(dst)@.len(),
            forall|k: int| 0 <= k < i ==> #[trigger] dst@[k] == 0u8,
            forall|k: int| i <= k < dst@.len() ==> #[trigger] dst@[k] == old(dst)@[k],
        decreases n - i,
    {
        dst[i] = 0u8;
        i = i + 1;
    }
    assert(dst@ =~= zero_prefix(old(dst)@, n as nat));
}

} // verus!
