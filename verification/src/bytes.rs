//! Bytes, put together and compared.

use vstd::prelude::*;

verus! {

/// So many zero bytes.
pub open spec fn zeros(count: nat) -> Seq<u8> {
    Seq::new(count, |i: int| 0u8)
}

/// A thirty-two-bit number as bytes, low byte first.
pub open spec fn le32(n: u32) -> Seq<u8> {
    seq![
        (n % 0x100) as u8,
        (n / 0x100 % 0x100) as u8,
        (n / 0x1_0000 % 0x100) as u8,
        (n / 0x100_0000) as u8,
    ]
}

/// Appends bytes.
pub(crate) fn append(bytes: &mut Vec<u8>, more: &[u8])
    ensures
        final(bytes)@ == old(bytes)@ + more@,
{
    let ghost before = bytes@;
    bytes.extend_from_slice(more);
    assert(bytes@ =~= before + more@);
}

/// Appends sixteen zero bytes.
pub(crate) fn append_sixteen_zeros(bytes: &mut Vec<u8>)
    ensures
        final(bytes)@ == old(bytes)@ + zeros(16),
{
    let ghost before = bytes@;
    let zeroed: [u8; 16] = [0; 16];
    append(bytes, zeroed.as_slice());
    assert(bytes@ =~= before + zeros(16));
}

/// Appends a thirty-two-bit number, low byte first.
pub(crate) fn append_le32(bytes: &mut Vec<u8>, n: u32)
    ensures
        final(bytes)@ == old(bytes)@ + le32(n),
{
    let ghost before = bytes@;
    bytes.push((n % 0x100) as u8);
    bytes.push((n / 0x100 % 0x100) as u8);
    bytes.push((n / 0x1_0000 % 0x100) as u8);
    bytes.push((n / 0x100_0000) as u8);
    assert(bytes@ =~= before + le32(n));
}

/// Whether two byte strings are the same.
pub(crate) fn same(x: &[u8], y: &[u8]) -> (same: bool)
    ensures
        same == (x@ == y@),
{
    if x.len() != y.len() {
        return false;
    }
    for at in 0..x.len()
        invariant
            x.len() == y.len(),
            forall|i: int| 0 <= i < at ==> x[i] == y[i],
    {
        if x[at] != y[at] {
            assert(x@[at as int] != y@[at as int]);
            return false;
        }
    }
    assert(x@ =~= y@);
    true
}

/// Sixteen bytes as an array.
pub(crate) fn sixteen(bytes: &[u8]) -> (array: [u8; 16])
    requires
        bytes.len() == 16,
    ensures
        array@ == bytes@,
{
    let mut array: [u8; 16] = [0; 16];
    for at in 0..16usize
        invariant
            bytes.len() == 16,
            forall|i: int| 0 <= i < at ==> array[i] == bytes[i],
    {
        array[at] = bytes[at];
    }
    assert(array@ =~= bytes@);
    array
}

} // verus!
