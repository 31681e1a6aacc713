//! Shared pieces of the fixed-offset wire layouts.
//!
//! Every persistent record and every instruction payload is a fixed-offset
//! byte image. Fixed-width integers are little-endian. Optional fields are
//! stored under a reserved all-zero sentinel meaning "absent": a present
//! 32-byte value must therefore not itself be all zero, and a present
//! integer must not be zero. This ambiguity is a known representational
//! limit of the format, and the well-formedness predicates below exclude
//! the unrepresentable values.

use vstd::prelude::*;

verus! {

use vstd::bytes::{spec_u16_from_le_bytes, spec_u16_to_le_bytes};
use vstd::bytes::{spec_u64_from_le_bytes, spec_u64_to_le_bytes};
use vstd::bytes::{lemma_auto_spec_u16_to_from_le_bytes, lemma_auto_spec_u64_to_from_le_bytes};

/// The all-zero 32-byte block: the wire sentinel for an absent value.
pub open spec fn zero32() -> Seq<u8> {
    Seq::new(32, |i: int| 0u8)
}

/// The 32-byte block under which an optional 32-byte value is stored.
pub open spec fn opt_block32(o: Option<Seq<u8>>) -> Seq<u8> {
    match o {
        Some(b) => b,
        None => zero32(),
    }
}

/// An optional 32-byte value that the sentinel encoding can represent.
pub open spec fn wf_opt32(o: Option<Seq<u8>>) -> bool {
    match o {
        Some(b) => b.len() == 32 && b != zero32(),
        None => true,
    }
}

/// Reads an optional 32-byte value back from its block.
pub open spec fn decode_block32(b: Seq<u8>) -> Option<Seq<u8>> {
    if b == zero32() {
        None
    } else {
        Some(b)
    }
}

/// The eight bytes under which an optional `u64` is stored.
pub open spec fn opt_word64(o: Option<u64>) -> u64 {
    match o {
        Some(v) => v,
        None => 0,
    }
}

/// An optional `u64` that the zero sentinel can represent.
pub open spec fn wf_opt64(o: Option<u64>) -> bool {
    o != Some(0u64)
}

/// Reads an optional `u64` back from its eight bytes.
pub open spec fn decode_word64(b: Seq<u8>) -> Option<u64> {
    if spec_u64_from_le_bytes(b) == 0 {
        None
    } else {
        Some(spec_u64_from_le_bytes(b))
    }
}

/// The two bytes under which an optional `u16` is stored.
pub open spec fn opt_word16(o: Option<u16>) -> u16 {
    match o {
        Some(v) => v,
        None => 0,
    }
}

/// An optional `u16` that the zero sentinel can represent.
pub open spec fn wf_opt16(o: Option<u16>) -> bool {
    o != Some(0u16)
}

/// Reads an optional `u16` back from its two bytes.
pub open spec fn decode_word16(b: Seq<u8>) -> Option<u16> {
    if spec_u16_from_le_bytes(b) == 0 {
        None
    } else {
        Some(spec_u16_from_le_bytes(b))
    }
}

/// The byte under which the `initialized` flag is stored.
pub open spec fn init_byte(b: bool) -> u8 {
    if b {
        1u8
    } else {
        0u8
    }
}

/// A representable optional 32-byte value survives the sentinel encoding.
pub proof fn lemma_opt_block32_round_trip(o: Option<Seq<u8>>)
    requires
        wf_opt32(o),
    ensures
        opt_block32(o).len() == 32,
        decode_block32(opt_block32(o)) == o,
{
}

/// A representable optional `u64` survives the sentinel encoding.
pub proof fn lemma_opt_word64_round_trip(o: Option<u64>)
    requires
        wf_opt64(o),
    ensures
        spec_u64_to_le_bytes(opt_word64(o)).len() == 8,
        decode_word64(spec_u64_to_le_bytes(opt_word64(o))) == o,
{
    lemma_auto_spec_u64_to_from_le_bytes();
}

/// A representable optional `u16` survives the sentinel encoding.
pub proof fn lemma_opt_word16_round_trip(o: Option<u16>)
    requires
        wf_opt16(o),
    ensures
        spec_u16_to_le_bytes(opt_word16(o)).len() == 2,
        decode_word16(spec_u16_to_le_bytes(opt_word16(o))) == o,
{
    lemma_auto_spec_u16_to_from_le_bytes();
    assert(spec_u16_to_le_bytes(opt_word16(o)).len() == 2);
    assert(spec_u16_from_le_bytes(spec_u16_to_le_bytes(opt_word16(o))) == opt_word16(o));
}

/// Appends a whole slice to a byte buffer.
pub fn push_bytes(dst: &mut Vec<u8>, src: &[u8])
    ensures
        final(dst)@ == old(dst)@ + src@,
{
    let ghost start = dst@;
    let n = src.len();
    let mut i: usize = 0;
    while i < n
        invariant
            i <= n,
            n == src@.len(),
            dst@ == start + src@.take(i as int),
        decreases n - i,
    {
        dst.push(src[i]);
        proof {
            assert(dst@ =~= start + src@.take(i + 1));
        }
        i += 1;
    }
    proof {
        assert(src@.take(n as int) =~= src@);
    }
}

/// Appends the 32-byte absent-value sentinel to a byte buffer.
pub fn push_zero32(dst: &mut Vec<u8>)
    ensures
        final(dst)@ == old(dst)@ + zero32(),
{
    let ghost start = dst@;
    let mut i: usize = 0;
    while i < 32
        invariant
            i <= 32,
            dst@ == start + zero32().take(i as int),
        decreases 32 - i,
    {
        dst.push(0u8);
        proof {
            assert(dst@ =~= start + zero32().take(i + 1));
        }
        i += 1;
    }
    proof {
        assert(zero32().take(32) =~= zero32());
    }
}

/// Copies the 32-byte block of `src` that starts at `off`.
pub fn read_block32(src: &[u8], off: usize) -> (r: Vec<u8>)
    requires
        off + 32 <= src@.len(),
    ensures
        r@ == src@.subrange(off as int, off as int + 32),
{
    let n = src.len();
    let mut r: Vec<u8> = Vec::new();
    let mut i: usize = 0;
    while i < 32
        invariant
            i <= 32,
            off + 32 <= n,
            n == src@.len(),
            r@ == src@.subrange(off as int, off as int + i),
        decreases 32 - i,
    {
        r.push(src[off + i]);
        proof {
            assert(r@ =~= src@.subrange(off as int, off as int + i + 1));
        }
        i += 1;
    }
    r
}

/// Whether a 32-byte block holds the absent-value sentinel.
pub fn block_is_zero(b: &Vec<u8>) -> (r: bool)
    requires
        b@.len() == 32,
    ensures
        r <==> b@ == zero32(),
{
    let mut i: usize = 0;
    while i < 32
        invariant
            i <= 32,
            b@.len() == 32,
            forall|j: int| 0 <= j < i ==> b@[j] == 0u8,
        decreases 32 - i,
    {
        if b[i] != 0 {
            proof {
                assert(b@[i as int] != zero32()[i as int]);
            }
            return false;
        }
        i += 1;
    }
    proof {
        assert(b@ =~= zero32());
    }
    true
}

/// Copies a byte string.
pub fn copy_bytes(src: &Vec<u8>) -> (r: Vec<u8>)
    ensures
        r@ == src@,
{
    vstd::slice::slice_to_vec(src.as_slice())
}

/// Whether two byte strings hold the same bytes.
pub fn bytes_eq(a: &Vec<u8>, b: &Vec<u8>) -> (r: bool)
    ensures
        r <==> a@ == b@,
{
    if a.len() != b.len() {
        return false;
    }
    let n = a.len();
    let mut i: usize = 0;
    while i < n
        invariant
            i <= n,
            n == a@.len(),
            a@.len() == b@.len(),
            forall|j: int| 0 <= j < i ==> a@[j] == b@[j],
        decreases n - i,
    {
        if a[i] != b[i] {
            return false;
        }
        i += 1;
    }
    proof {
        assert(a@ =~= b@);
    }
    true
}

} // verus!
