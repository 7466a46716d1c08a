//! Little-endian byte sequences of fixed-width integers.

use vstd::prelude::*;

verus! {

/// The two bytes of `v`, least significant first.
pub open spec fn le_u16(v: u16) -> Seq<u8> {
    seq![v as u8, (v >> 8) as u8]
}

/// The four bytes of `v`, least significant first.
pub open spec fn le_u32(v: u32) -> Seq<u8> {
    seq![v as u8, (v >> 8) as u8, (v >> 16) as u8, (v >> 24) as u8]
}

/// The eight bytes of `v`, least significant first.
pub open spec fn le_u64(v: u64) -> Seq<u8> {
    seq![
        v as u8,
        (v >> 8) as u8,
        (v >> 16) as u8,
        (v >> 24) as u8,
        (v >> 32) as u8,
        (v >> 40) as u8,
        (v >> 48) as u8,
        (v >> 56) as u8,
    ]
}

/// The 32-bit number whose little-endian bytes start at `at` in `s`.
pub open spec fn u32_at(s: Seq<u8>, at: int) -> u32 {
    (s[at] as u32) | ((s[at + 1] as u32) << 8) | ((s[at + 2] as u32) << 16) | ((s[at + 3] as u32)
        << 24)
}

/// The 64-bit number whose little-endian bytes start at `at` in `s`.
pub open spec fn u64_at(s: Seq<u8>, at: int) -> u64 {
    (s[at] as u64) | ((s[at + 1] as u64) << 8) | ((s[at + 2] as u64) << 16) | ((s[at + 3] as u64)
        << 24) | ((s[at + 4] as u64) << 32) | ((s[at + 5] as u64) << 40) | ((s[at + 6] as u64)
        << 48) | ((s[at + 7] as u64) << 56)
}

/// `s` with the four bytes from `at` replaced by the little-endian bytes of `v`.
#[verifier::opaque]
pub open spec fn patched_u32(s: Seq<u8>, at: int, v: u32) -> Seq<u8> {
    s.update(at, v as u8).update(at + 1, (v >> 8) as u8).update(at + 2, (v >> 16) as u8).update(
        at + 3,
        (v >> 24) as u8,
    )
}

proof fn lemma_u32_bytes(v: u32)
    by (bit_vector)
    ensures
        (v as u8 as u32) | (((v >> 8) as u8 as u32) << 8) | (((v >> 16) as u8 as u32) << 16) | (((v
            >> 24) as u8 as u32) << 24) == v,
{
}

proof fn lemma_u64_bytes(v: u64)
    by (bit_vector)
    ensures
        (v as u8 as u64) | (((v >> 8) as u8 as u64) << 8) | (((v >> 16) as u8 as u64) << 16) | (((v
            >> 24) as u8 as u64) << 24) | (((v >> 32) as u8 as u64) << 32) | (((v >> 40) as u8
            as u64) << 40) | (((v >> 48) as u8 as u64) << 48) | (((v >> 56) as u8 as u64) << 56)
            == v,
{
}

/// Reading back what `le_u32` wrote gives the number again.
pub proof fn lemma_u32_round_trip(v: u32)
    ensures
        le_u32(v).len() == 4,
        u32_at(le_u32(v), 0) == v,
{
    lemma_u32_bytes(v);
}

/// Reading back what `le_u64` wrote gives the number again.
pub proof fn lemma_u64_round_trip(v: u64)
    ensures
        le_u64(v).len() == 8,
        u64_at(le_u64(v), 0) == v,
{
    lemma_u64_bytes(v);
}

/// A patched slot holds the bytes of the number, and nothing else moves.
pub proof fn lemma_patched_u32(s: Seq<u8>, at: int, v: u32)
    requires
        0 <= at,
        at + 4 <= s.len(),
    ensures
        patched_u32(s, at, v).len() == s.len(),
        patched_u32(s, at, v).subrange(at, at + 4) == le_u32(v),
        u32_at(patched_u32(s, at, v), at) == v,
        forall|i: int|
            0 <= i < s.len() && !(at <= i < at + 4) ==> #[trigger] patched_u32(s, at, v)[i]
                == s[i],
{
    reveal(patched_u32);
    lemma_u32_bytes(v);
    assert(patched_u32(s, at, v).subrange(at, at + 4) =~= le_u32(v));
}

/// Patching inside the first part of a sequence leaves the rest alone.
pub proof fn lemma_patched_u32_prefix(a: Seq<u8>, b: Seq<u8>, at: int, v: u32)
    requires
        0 <= at,
        at + 4 <= a.len(),
    ensures
        patched_u32(a + b, at, v) == patched_u32(a, at, v) + b,
{
    reveal(patched_u32);
    assert(patched_u32(a + b, at, v) =~= patched_u32(a, at, v) + b);
}

} // verus!
