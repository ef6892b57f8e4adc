//! The ACPI checksum: the bytes of a structure, the checksum byte among
//! them, add up to zero modulo 256.

use crate::tag::HEADER_SIZE;
use vstd::prelude::*;
use vstd::slice::slice_subrange;

verus! {

/// The sum of all bytes of `bytes`.
pub open spec fn byte_sum(bytes: Seq<u8>) -> int
    decreases bytes.len(),
{
    if bytes.len() == 0 {
        0
    } else {
        byte_sum(bytes.drop_last()) + bytes.last()
    }
}

/// True when the bytes add up to zero in 8-bit wrapping arithmetic.
pub open spec fn sums_to_zero(bytes: Seq<u8>) -> bool {
    byte_sum(bytes) % 256 == 0
}

/// Replacing one byte changes the sum by the difference of the two bytes.
pub proof fn lemma_byte_sum_update(bytes: Seq<u8>, i: int, b: u8)
    requires
        0 <= i < bytes.len(),
    ensures
        byte_sum(bytes.update(i, b)) == byte_sum(bytes) - bytes[i] + b,
    decreases bytes.len(),
{
    if i == bytes.len() - 1 {
        assert(bytes.update(i, b).drop_last() =~= bytes.drop_last());
    } else {
        lemma_byte_sum_update(bytes.drop_last(), i, b);
        assert(bytes.update(i, b).drop_last() =~= bytes.drop_last().update(i, b));
    }
}

/// Where the bytes add up to zero, changing any single one of them breaks
/// the checksum.
pub proof fn lemma_changed_byte_breaks_checksum(bytes: Seq<u8>, i: int, b: u8)
    requires
        0 <= i < bytes.len(),
        b != bytes[i],
        sums_to_zero(bytes),
    ensures
        !sums_to_zero(bytes.update(i, b)),
{
    lemma_byte_sum_update(bytes, i, b);
}

/// Whatever the other bytes are, exactly one value of the byte at `i` makes
/// the bytes add up to zero.
pub proof fn lemma_checksum_byte_exists(bytes: Seq<u8>, i: int) -> (b: u8)
    requires
        0 <= i < bytes.len(),
    ensures
        sums_to_zero(bytes.update(i, b)),
        forall|c: u8| sums_to_zero(bytes.update(i, c)) ==> c == b,
{
    let rest: int = byte_sum(bytes) - bytes[i];
    let b: u8 = ((256 - rest % 256) % 256) as u8;
    lemma_byte_sum_update(bytes, i, b);
    assert forall|c: u8| sums_to_zero(bytes.update(i, c)) implies c == b by {
        lemma_byte_sum_update(bytes, i, c);
    }
    b
}

/// Why a checksum was not computed.
#[derive(Clone, Copy, Debug, PartialEq, Eq, Structural)]
pub enum ChecksumError {
    /// The declared length reaches beyond the bytes that were handed over.
    LengthExceedsRegion,
}

/// Adds up `bytes` in 8-bit wrapping arithmetic.
pub fn wrapping_sum(bytes: &[u8]) -> (r: u8)
    ensures
        r == byte_sum(bytes@) % 256,
{
    let mut acc: u8 = 0;
    let mut i: usize = 0;
    while i < bytes.len()
        invariant
            i <= bytes@.len(),
            acc == byte_sum(bytes@.take(i as int)) % 256,
        decreases bytes@.len() - i,
    {
        proof {
            assert(bytes@.take(i + 1).drop_last() =~= bytes@.take(i as int));
        }
        acc = acc.wrapping_add(bytes[i]);
        i = i + 1;
    }
    proof {
        assert(bytes@.take(i as int) =~= bytes@);
    }
    acc
}

/// Validates the checksum of the ACPI structure that a tag wraps.
///
/// `tag` holds the tag from its first byte on, cut to the region that the
/// caller has validated; `acpi_len` is the length that the structure
/// declares for itself. The structure stands behind the tag's header, at
/// `tag[8..8 + acpi_len]`. Where that range does not lie inside `tag`,
/// nothing is read and the error says so.
pub fn acpi_checksum_is_valid(tag: &[u8], acpi_len: usize) -> (r: Result<bool, ChecksumError>)
    ensures
        r is Err <==> HEADER_SIZE + acpi_len > tag@.len(),
        r matches Ok(valid) ==> valid == sums_to_zero(
            tag@.subrange(HEADER_SIZE as int, HEADER_SIZE + acpi_len),
        ),
        r matches Err(e) ==> e == ChecksumError::LengthExceedsRegion,
{
    if tag.len() < HEADER_SIZE || acpi_len > tag.len() - HEADER_SIZE {
        return Err(ChecksumError::LengthExceedsRegion);
    }
    let acpi: &[u8] = slice_subrange(tag, HEADER_SIZE, HEADER_SIZE + acpi_len);
    Ok(wrapping_sum(acpi) == 0)
}

} // verus!
