//! Big-endian integer encoding and decoding over byte sequences.
//!
//! All integers on the replication wire are big-endian.  The spec
//! functions here give the mathematical meaning of the bytes; the
//! executable reader and writer in `buffer` are specified against them.

use vstd::prelude::*;

verus! {

use vstd::arithmetic::div_mod::{
    lemma_div_denominator, lemma_fundamental_div_mod, lemma_mod_division_less_than_divisor,
    lemma_multiply_divide_lt,
};

/// The big-endian `u16` stored at offset `i` of `s`.
pub open spec fn be_u16_at(s: Seq<u8>, i: int) -> u16 {
    (s[i] * 0x100 + s[i + 1]) as u16
}

/// The big-endian `u32` stored at offset `i` of `s`.
pub open spec fn be_u32_at(s: Seq<u8>, i: int) -> u32 {
    (s[i] * 0x1000000 + s[i + 1] * 0x10000 + s[i + 2] * 0x100 + s[i + 3]) as u32
}

/// The big-endian `u64` stored at offset `i` of `s`.
pub open spec fn be_u64_at(s: Seq<u8>, i: int) -> u64 {
    (s[i] * 0x100000000000000 + s[i + 1] * 0x1000000000000 + s[i + 2] * 0x10000000000 + s[i
        + 3] * 0x100000000 + s[i + 4] * 0x1000000 + s[i + 5] * 0x10000 + s[i + 6] * 0x100 + s[i
        + 7]) as u64
}

/// The big-endian two-byte encoding of `v`.
pub open spec fn u16_be_bytes(v: u16) -> Seq<u8> {
    seq![(v / 0x100) as u8, (v % 0x100) as u8]
}

/// The big-endian four-byte encoding of `v`.
pub open spec fn u32_be_bytes(v: u32) -> Seq<u8> {
    seq![
        (v / 0x1000000) as u8,
        ((v / 0x10000) % 0x100) as u8,
        ((v / 0x100) % 0x100) as u8,
        (v % 0x100) as u8,
    ]
}

/// The big-endian eight-byte encoding of `v`.
pub open spec fn u64_be_bytes(v: u64) -> Seq<u8> {
    seq![
        (v / 0x100000000000000) as u8,
        ((v / 0x1000000000000) % 0x100) as u8,
        ((v / 0x10000000000) % 0x100) as u8,
        ((v / 0x100000000) % 0x100) as u8,
        ((v / 0x1000000) % 0x100) as u8,
        ((v / 0x10000) % 0x100) as u8,
        ((v / 0x100) % 0x100) as u8,
        (v % 0x100) as u8,
    ]
}

/// The offset of the first `0x00` byte of `s` at or after `i`, or `-1`
/// when no terminator exists before the end of the sequence.
pub open spec fn find_nul(s: Seq<u8>, i: int) -> int
    decreases s.len() - i,
{
    if i < 0 || i >= s.len() {
        -1
    } else if s[i] == 0 {
        i
    } else {
        find_nul(s, i + 1)
    }
}

/// The null-terminated UTF-8 string starting at offset `i` of `s`: the
/// decoded characters and the offset just past the terminator.  `None`
/// when no terminator exists or the bytes are not valid UTF-8.
pub open spec fn spec_cstr(s: Seq<u8>, i: int) -> Option<(Seq<char>, int)> {
    let j = find_nul(s, i);
    if j < 0 {
        None
    } else if !vstd::utf8::valid_utf8(s.subrange(i, j)) {
        None
    } else {
        Some((vstd::utf8::decode_utf8(s.subrange(i, j)), j + 1))
    }
}

/// The length-prefixed UTF-8 string starting at offset `i` of `s`: an
/// `i32` big-endian byte count followed by that many bytes.  `None` when
/// the count is negative, runs past the end, or the bytes are not valid
/// UTF-8.
pub open spec fn spec_lp_string(s: Seq<u8>, i: int) -> Option<(Seq<char>, int)> {
    if i + 4 > s.len() {
        None
    } else {
        let l = be_u32_at(s, i) as i32;
        if l < 0 {
            None
        } else if i + 4 + l > s.len() {
            None
        } else if !vstd::utf8::valid_utf8(s.subrange(i + 4, i + 4 + l)) {
            None
        } else {
            Some((vstd::utf8::decode_utf8(s.subrange(i + 4, i + 4 + l)), i + 4 + l))
        }
    }
}

/// A `0x00` byte at `j`, with none before it from `i` on, is the one
/// `find_nul` returns.
pub proof fn lemma_find_nul_at(s: Seq<u8>, i: int, j: int)
    requires
        0 <= i <= j < s.len(),
        s[j] == 0,
        forall|k: int| i <= k < j ==> s[k] != 0,
    ensures
        find_nul(s, i) == j,
    decreases j - i,
{
    if i < j {
        lemma_find_nul_at(s, i + 1, j);
    }
}

/// With no `0x00` byte from `i` on, `find_nul` reports none.
pub proof fn lemma_find_nul_none(s: Seq<u8>, i: int)
    requires
        0 <= i <= s.len(),
        forall|k: int| i <= k < s.len() ==> s[k] != 0,
    ensures
        find_nul(s, i) == -1,
    decreases s.len() - i,
{
    if i < s.len() {
        lemma_find_nul_none(s, i + 1);
    }
}

/// Where `find_nul` finds a terminator, it lies in range, is zero, and
/// nothing before it is zero.
pub proof fn lemma_find_nul_found(s: Seq<u8>, i: int)
    requires
        0 <= i <= s.len(),
        find_nul(s, i) >= 0,
    ensures
        i <= find_nul(s, i) < s.len(),
        s[find_nul(s, i)] == 0,
        forall|k: int| i <= k < find_nul(s, i) ==> s[k] != 0,
    decreases s.len() - i,
{
    if i < s.len() && s[i] != 0 {
        lemma_find_nul_found(s, i + 1);
    }
}

/// Writing a `u16` big-endian and reading it back yields the same value.
pub proof fn lemma_u16_be_roundtrip(v: u16)
    ensures
        u16_be_bytes(v).len() == 2,
        be_u16_at(u16_be_bytes(v), 0) == v,
{
    lemma_fundamental_div_mod(v as int, 0x100);
}

/// Writing a `u32` big-endian and reading it back yields the same value.
pub proof fn lemma_u32_be_roundtrip(v: u32)
    ensures
        u32_be_bytes(v).len() == 4,
        be_u32_at(u32_be_bytes(v), 0) == v,
{
    let x = v as int;
    lemma_fundamental_div_mod(x, 0x100);
    lemma_fundamental_div_mod(x / 0x100, 0x100);
    lemma_fundamental_div_mod(x / 0x10000, 0x100);
    lemma_div_denominator(x, 0x100, 0x100);
    lemma_div_denominator(x, 0x10000, 0x100);
    lemma_multiply_divide_lt(x, 0x100, 0x1000000);
    lemma_mod_division_less_than_divisor(x / 0x100, 0x100);
    lemma_mod_division_less_than_divisor(x / 0x10000, 0x100);
    lemma_mod_division_less_than_divisor(x, 0x100);
}

/// Writing a `u64` big-endian and reading it back yields the same value.
pub proof fn lemma_u64_be_roundtrip(v: u64)
    ensures
        u64_be_bytes(v).len() == 8,
        be_u64_at(u64_be_bytes(v), 0) == v,
{
    let x = v as int;
    lemma_fundamental_div_mod(x, 0x100);
    lemma_fundamental_div_mod(x / 0x100, 0x100);
    lemma_fundamental_div_mod(x / 0x10000, 0x100);
    lemma_fundamental_div_mod(x / 0x1000000, 0x100);
    lemma_fundamental_div_mod(x / 0x100000000, 0x100);
    lemma_fundamental_div_mod(x / 0x10000000000, 0x100);
    lemma_fundamental_div_mod(x / 0x1000000000000, 0x100);
    lemma_div_denominator(x, 0x100, 0x100);
    lemma_div_denominator(x, 0x10000, 0x100);
    lemma_div_denominator(x, 0x1000000, 0x100);
    lemma_div_denominator(x, 0x100000000, 0x100);
    lemma_div_denominator(x, 0x10000000000, 0x100);
    lemma_div_denominator(x, 0x1000000000000, 0x100);
    lemma_multiply_divide_lt(x, 0x100, 0x100000000000000);
    lemma_mod_division_less_than_divisor(x / 0x100, 0x100);
    lemma_mod_division_less_than_divisor(x / 0x10000, 0x100);
    lemma_mod_division_less_than_divisor(x / 0x1000000, 0x100);
    lemma_mod_division_less_than_divisor(x / 0x100000000, 0x100);
    lemma_mod_division_less_than_divisor(x / 0x10000000000, 0x100);
    lemma_mod_division_less_than_divisor(x / 0x1000000000000, 0x100);
    lemma_mod_division_less_than_divisor(x, 0x100);
}

/// Writing an `i16` big-endian (two's complement) and reading it back
/// yields the same value.
pub proof fn lemma_i16_be_roundtrip(v: i16)
    ensures
        be_u16_at(u16_be_bytes(v as u16), 0) as i16 == v,
{
    lemma_u16_be_roundtrip(v as u16);
    assert((v as u16) as i16 == v) by (bit_vector);
}

/// Writing an `i32` big-endian (two's complement) and reading it back
/// yields the same value.
pub proof fn lemma_i32_be_roundtrip(v: i32)
    ensures
        be_u32_at(u32_be_bytes(v as u32), 0) as i32 == v,
{
    lemma_u32_be_roundtrip(v as u32);
    assert((v as u32) as i32 == v) by (bit_vector);
}

/// Writing an `i64` big-endian (two's complement) and reading it back
/// yields the same value.
pub proof fn lemma_i64_be_roundtrip(v: i64)
    ensures
        be_u64_at(u64_be_bytes(v as u64), 0) as i64 == v,
{
    lemma_u64_be_roundtrip(v as u64);
    assert((v as u64) as i64 == v) by (bit_vector);
}

} // verus!
