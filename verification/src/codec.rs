//! Little-endian field readers for the fixed-layout records and payloads.
//!
//! Every persisted record and every instruction payload is a fixed-width,
//! non-padded little-endian byte string.  These helpers read one field at a
//! given offset; each states exactly which bytes it interprets.

use vstd::prelude::*;
use vstd::bytes::{spec_u16_from_le_bytes, spec_u64_from_le_bytes, u16_from_le_bytes, u64_from_le_bytes};
use vstd::slice::slice_subrange;

verus! {

/// The signed 64-bit value whose little-endian encoding is `s`
/// (the unsigned reading of the bytes, reinterpreted in two's complement).
pub open spec fn spec_i64_from_le_bytes(s: Seq<u8>) -> i64 {
    spec_u64_from_le_bytes(s) as i64
}

/// Reads the unsigned 64-bit field stored at `data[off..off + 8]`.
pub fn read_u64_le(data: &[u8], off: usize) -> (r: u64)
    requires
        off + 8 <= data@.len(),
    ensures
        r == spec_u64_from_le_bytes(data@.subrange(off as int, off as int + 8)),
{
    let n = data.len();
    assert(off + 8 <= n);
    let field = slice_subrange(data, off, off + 8);
    u64_from_le_bytes(field)
}

/// Reads the unsigned 16-bit field stored at `data[off..off + 2]`.
pub fn read_u16_le(data: &[u8], off: usize) -> (r: u16)
    requires
        off + 2 <= data@.len(),
    ensures
        r == spec_u16_from_le_bytes(data@.subrange(off as int, off as int + 2)),
{
    let n = data.len();
    assert(off + 2 <= n);
    let field = slice_subrange(data, off, off + 2);
    u16_from_le_bytes(field)
}

/// Reads the signed 64-bit field stored at `data[off..off + 8]`.
pub fn read_i64_le(data: &[u8], off: usize) -> (r: i64)
    requires
        off + 8 <= data@.len(),
    ensures
        r == spec_i64_from_le_bytes(data@.subrange(off as int, off as int + 8)),
{
    let unsigned = read_u64_le(data, off);
    #[verifier::truncate]
    let r = unsigned as i64;
    r
}

/// Reads the 32-byte key stored at `data[off..off + 32]`.
pub fn read_key(data: &[u8], off: usize) -> (r: [u8; 32])
    requires
        off + 32 <= data@.len(),
    ensures
        r@ == data@.subrange(off as int, off as int + 32),
{
    let n = data.len();
    let mut r: [u8; 32] = [0u8; 32];
    let mut i: usize = 0;
    while i < 32
        invariant
            i <= 32,
            off + 32 <= n == data@.len(),
            r@.len() == 32,
            forall|j: int| 0 <= j < i ==> r@[j] == data@[off + j],
        decreases 32 - i,
    {
        r[i] = data[off + i];
        i += 1;
    }
    assert(r@ =~= data@.subrange(off as int, off as int + 32));
    r
}

/// Whether two 32-byte keys are equal, byte for byte.
pub fn keys_equal(a: &[u8; 32], b: &[u8; 32]) -> (r: bool)
    ensures
        r == (a@ == b@),
{
    let mut i: usize = 0;
    while i < 32
        invariant
            i <= 32,
            forall|j: int| 0 <= j < i ==> a@[j] == b@[j],
        decreases 32 - i,
    {
        if a[i] != b[i] {
            assert(a@ != b@);
            return false;
        }
        i += 1;
    }
    assert(a@ =~= b@);
    true
}

} // verus!
