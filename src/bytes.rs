//! Little-endian integer decoding from byte buffers, where bytes past the end
//! of the buffer read as zero.

use vstd::prelude::*;

verus! {

/// The byte at position `k`, or zero where `k` lies outside the buffer.
pub open spec fn byte_or_zero(b: Seq<u8>, k: int) -> nat {
    if 0 <= k < b.len() {
        b[k] as nat
    } else {
        0
    }
}

/// The unsigned little-endian value of the `n` bytes starting at `k`.
pub open spec fn le_nat(b: Seq<u8>, k: int, n: nat) -> nat
    decreases n,
{
    if n == 0 {
        0
    } else {
        byte_or_zero(b, k) + 256 * le_nat(b, k + 1, (n - 1) as nat)
    }
}

pub open spec fn pow256(n: nat) -> nat
    decreases n,
{
    if n == 0 {
        1
    } else {
        256 * pow256((n - 1) as nat)
    }
}

/// The two's complement reading of an unsigned value `v` of `n` bytes.
pub open spec fn twos(v: nat, n: nat) -> int {
    if v < pow256(n) / 2 {
        v as int
    } else {
        v - pow256(n)
    }
}

proof fn lemma_le_nat_bound(b: Seq<u8>, k: int, n: nat)
    ensures
        le_nat(b, k, n) < pow256(n),
    decreases n,
{
    if n > 0 {
        lemma_le_nat_bound(b, k + 1, (n - 1) as nat);
        assert(byte_or_zero(b, k) < 256);
    }
}

proof fn lemma_pow256_mono(a: nat, c: nat)
    requires
        a <= c,
    ensures
        pow256(a) <= pow256(c),
    decreases c,
{
    if a < c {
        lemma_pow256_mono(a, (c - 1) as nat);
    }
}

fn byte_or_zero_exec(bytes: &[u8], offset: usize, i: usize) -> (r: u8)
    ensures
        r as nat == byte_or_zero(bytes@, offset + i),
{
    if offset < bytes.len() && i < bytes.len() - offset {
        bytes[offset + i]
    } else {
        0
    }
}

/// The unsigned value of `n <= 16` bytes from `offset`, missing bytes read as zero.
fn read_le(bytes: &[u8], offset: usize, n: usize) -> (r: u128)
    requires
        n <= 16,
    ensures
        r as nat == le_nat(bytes@, offset as int, n as nat),
{
    let mut acc: u128 = 0;
    let mut i: usize = n;
    while i > 0
        invariant
            i <= n <= 16,
            acc as nat == le_nat(bytes@, offset + i, (n - i) as nat),
        decreases i,
    {
        i = i - 1;
        let byte = byte_or_zero_exec(bytes, offset, i);
        proof {
            lemma_le_nat_bound(bytes@, offset + i + 1, (n - i - 1) as nat);
            lemma_pow256_mono((n - i - 1) as nat, 15);
            reveal_with_fuel(pow256, 16);
            assert(le_nat(bytes@, offset + i, (n - i) as nat) == byte as nat + 256 * acc as nat);
        }
        acc = byte as u128 + 256 * acc;
    }
    acc
}

/// Reads a `u64` from the eight bytes at `offset`, little-endian; bytes past
/// the end of the buffer count as zero.
pub fn bytes_to_u64(bytes: &[u8], offset: usize) -> (r: u64)
    ensures
        r as nat == le_nat(bytes@, offset as int, 8),
{
    let v = read_le(bytes, offset, 8);
    proof {
        lemma_le_nat_bound(bytes@, offset as int, 8);
        reveal_with_fuel(pow256, 9);
    }
    v as u64
}

/// Reads an `i128` from the sixteen bytes at `offset`, little-endian two's
/// complement; bytes past the end of the buffer count as zero.
pub fn bytes_to_i128(bytes: &[u8], offset: usize) -> (r: i128)
    ensures
        r as int == twos(le_nat(bytes@, offset as int, 16), 16),
{
    let v = read_le(bytes, offset, 16);
    proof {
        lemma_le_nat_bound(bytes@, offset as int, 16);
        reveal_with_fuel(pow256, 17);
    }
    if v < 0x8000_0000_0000_0000_0000_0000_0000_0000 {
        v as i128
    } else {
        ((v - 0x8000_0000_0000_0000_0000_0000_0000_0000) as i128) + i128::MIN
    }
}

/// Reads an `i64` from the eight bytes at `offset`, little-endian two's
/// complement; bytes past the end of the buffer count as zero.
pub fn bytes_to_i64(bytes: &[u8], offset: usize) -> (r: i64)
    ensures
        r as int == twos(le_nat(bytes@, offset as int, 8), 8),
{
    let v = read_le(bytes, offset, 8);
    proof {
        lemma_le_nat_bound(bytes@, offset as int, 8);
        reveal_with_fuel(pow256, 9);
    }
    if v < 0x8000_0000_0000_0000 {
        v as i64
    } else {
        ((v - 0x8000_0000_0000_0000) as i64) + i64::MIN
    }
}

} // verus!
