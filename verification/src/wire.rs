//! Little-endian integers.

use vstd::prelude::*;

verus! {

/// The `width` low-order bytes of `n`, least significant first.
pub open spec fn le_bytes(n: nat, width: nat) -> Seq<u8>
    decreases width,
{
    if width == 0 {
        Seq::empty()
    } else {
        seq![(n % 256) as u8] + le_bytes(n / 256, (width - 1) as nat)
    }
}

/// The number whose bytes, least significant first, are `s`.
pub open spec fn le_value(s: Seq<u8>) -> nat
    decreases s.len(),
{
    if s.len() == 0 {
        0
    } else {
        s[0] as nat + 256 * le_value(s.drop_first())
    }
}

/// One more than the largest number that fits in `width` bytes.
pub open spec fn le_bound(width: nat) -> nat
    decreases width,
{
    if width == 0 {
        1
    } else {
        256 * le_bound((width - 1) as nat)
    }
}

/// `le_bytes` yields as many bytes as it is asked for.
pub proof fn le_bytes_len(n: nat, width: nat)
    ensures
        le_bytes(n, width).len() == width,
    decreases width,
{
    if width > 0 {
        le_bytes_len(n / 256, (width - 1) as nat);
    }
}

/// A number that fits is read back as it was written.
pub proof fn le_value_of_bytes(n: nat, width: nat)
    requires
        n < le_bound(width),
    ensures
        le_value(le_bytes(n, width)) == n,
    decreases width,
{
    if width > 0 {
        let rest = le_bytes(n / 256, (width - 1) as nat);
        le_value_of_bytes(n / 256, (width - 1) as nat);
        assert(le_bytes(n, width).drop_first() =~= rest);
    }
}

/// A number read from bytes fits in as many bytes and is written as them again.
pub proof fn le_bytes_of_value(s: Seq<u8>)
    ensures
        le_value(s) < le_bound(s.len()),
        le_bytes(le_value(s), s.len()) == s,
    decreases s.len(),
{
    if s.len() > 0 {
        le_bytes_of_value(s.drop_first());
        let v = le_value(s.drop_first());
        assert((s[0] as nat + 256 * v) % 256 == s[0] as nat);
        assert((s[0] as nat + 256 * v) / 256 == v);
        assert(le_bytes(le_value(s), s.len()) =~= s);
    }
}

/// The bounds of the widths in use.
pub proof fn le_bounds()
    ensures
        le_bound(1) == 0x100,
        le_bound(2) == 0x1_0000,
        le_bound(4) == 0x1_0000_0000,
        le_bound(8) == 0x1_0000_0000_0000_0000,
{
    reveal_with_fuel(le_bound, 9);
}

/// Appends the `width` low-order bytes of `n`, least significant first.
pub fn push_le(out: &mut Vec<u8>, n: u64, width: usize)
    ensures
        final(out)@ == old(out)@ + le_bytes(n as nat, width as nat),
{
    let ghost start = out@;
    let mut left: u64 = n;
    let mut i: usize = 0;
    while i < width
        invariant
            i <= width,
            out@ + le_bytes(left as nat, (width - i) as nat) == start + le_bytes(
                n as nat,
                width as nat,
            ),
        decreases width - i,
    {
        let ghost before = out@;
        let low: u8 = (left % 256) as u8;
        out.push(low);
        proof {
            let tail = le_bytes(left as nat / 256, (width - i - 1) as nat);
            assert(le_bytes(left as nat, (width - i) as nat) == seq![low] + tail);
            assert(before.push(low) + tail =~= before + (seq![low] + tail));
        }
        left = left / 256;
        i = i + 1;
    }
    assert(out@ =~= start + le_bytes(n as nat, width as nat));
}

/// Reads `width` bytes at `at`, least significant first.
pub fn read_le(bytes: &[u8], at: usize, width: usize) -> (n: u64)
    requires
        at + width <= bytes@.len(),
        width <= 8,
    ensures
        n == le_value(bytes@.subrange(at as int, at + width)),
        n < le_bound(width as nat),
{
    let total: usize = bytes.len();
    let mut n: u64 = 0;
    let mut i: usize = width;
    proof {
        le_bounds();
        le_bytes_of_value(bytes@.subrange(at as int, at + width));
    }
    while i > 0
        invariant
            i <= width <= 8,
            total == bytes@.len(),
            at + width <= total,
            n == le_value(bytes@.subrange(at + i, at + width)),
        decreases i,
    {
        let ghost tail = bytes@.subrange(at + i, at + width);
        i = i - 1;
        let byte: u8 = bytes[at + i];
        proof {
            let whole = bytes@.subrange(at + i, at + width);
            assert(whole.drop_first() =~= tail);
            le_bytes_of_value(whole);
            le_bound_monotonic(whole.len(), 8);
            le_bounds();
        }
        n = n * 256 + byte as u64;
    }
    n
}

/// More bytes hold larger numbers.
proof fn le_bound_monotonic(a: nat, b: nat)
    requires
        a <= b,
    ensures
        le_bound(a) <= le_bound(b),
    decreases b,
{
    if a < b {
        le_bound_monotonic(a, (b - 1) as nat);
    }
}

/// The least significant byte comes first, and the others are those of the
/// number without it.
pub proof fn the_least_significant_byte_comes_first(n: nat, width: nat)
    requires
        width > 0,
    ensures
        le_bytes(n, width)[0] == n % 256,
        le_bytes(n, width).drop_first() == le_bytes(n / 256, (width - 1) as nat),
{
    assert(le_bytes(n, width).drop_first() =~= le_bytes(n / 256, (width - 1) as nat));
}

} // verus!
