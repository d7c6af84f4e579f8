//! The 32-bit checksum of the pairing frames: CRC-32/BZIP2.

use vstd::prelude::*;

verus! {

/// Generator polynomial, without its highest term.
pub const CRC_POLY: u32 = 0x04c1_1db7;

/// The register before the first byte.
pub const CRC_INIT: u32 = 0xffff_ffff;

/// What the register is combined with at the end.
pub const CRC_XOROUT: u32 = 0xffff_ffff;

/// The register shifted by one bit, with the polynomial fed back where a
/// set bit leaves at the top.
pub open spec fn crc_shift(value: u32) -> u32 {
    if value & 0x8000_0000 != 0 {
        (value << 1) ^ CRC_POLY
    } else {
        value << 1
    }
}

/// Eight shifts.
pub open spec fn crc_shift8(value: u32) -> u32 {
    crc_shift(crc_shift(crc_shift(crc_shift(crc_shift(crc_shift(crc_shift(crc_shift(value))))))))
}

/// The entry for `index` in the table of one byte's contributions.
pub open spec fn crc_table(index: u32) -> u32 {
    crc_shift8(index << 24)
}

/// The register after one more byte.
pub open spec fn crc_step(register: u32, byte: u8) -> u32 {
    crc_table(((register >> 24) ^ (byte as u32)) & 0xff) ^ (register << 8)
}

/// The register after all of `bytes`.
pub open spec fn crc_register(bytes: Seq<u8>) -> u32
    decreases bytes.len(),
{
    if bytes.len() == 0 {
        CRC_INIT
    } else {
        crc_step(crc_register(bytes.drop_last()), bytes.last())
    }
}

/// The CRC-32/BZIP2 checksum of `bytes`: bytes taken highest bit first, the
/// register started at all ones and inverted at the end.
pub open spec fn crc32_bzip2(bytes: Seq<u8>) -> u32 {
    crc_register(bytes) ^ CRC_XOROUT
}

/// Calls `crc::Crc::<u32>::checksum` on a `Crc` made by `crc::Crc::<u32>::new`
/// for `crc::CRC_32_BZIP2`. Trusted: the result is the checksum that the
/// algorithm's parameters define, as `crc32_bzip2` writes it out: the table
/// entry for the register's top byte combined with the input byte, combined
/// with the register moved up by one byte, for each byte in turn.
#[verifier::external_body]
fn crc_checksum(bytes: &[u8]) -> (sum: u32)
    ensures
        sum == crc32_bzip2(bytes@),
{
    crc::Crc::<u32>::new(&crc::CRC_32_BZIP2).checksum(bytes)
}

/// The checksum of `bytes`.
pub fn checksum(bytes: &[u8]) -> (sum: u32)
    ensures
        sum == crc32_bzip2(bytes@),
{
    crc_checksum(bytes)
}

/// Two registers that one byte takes to the same register are the same.
pub proof fn lemma_step_keeps_registers_apart(first: u32, second: u32, byte: u8)
    requires
        first != second,
    ensures
        crc_step(first, byte) != crc_step(second, byte),
{
    assert(crc_step(first, byte) != crc_step(second, byte)) by (bit_vector)
        requires
            first != second,
    ;
}

/// Two bytes that take one register to the same register are the same.
pub proof fn lemma_step_keeps_bytes_apart(register: u32, first: u8, second: u8)
    requires
        first != second,
    ensures
        crc_step(register, first) != crc_step(register, second),
{
    assert(crc_step(register, first) != crc_step(register, second)) by (bit_vector)
        requires
            first != second,
    ;
}

/// Whether `first` and `second` are of one length and differ in the byte at
/// `at` and in no other.
pub open spec fn differ_only_at(first: Seq<u8>, second: Seq<u8>, at: int) -> bool {
    &&& first.len() == second.len()
    &&& 0 <= at < first.len()
    &&& first[at] != second[at]
    &&& forall|i: int| 0 <= i < first.len() && i != at ==> first[i] == second[i]
}

/// A change to one byte changes the register.
pub proof fn lemma_register_detects_one_byte(first: Seq<u8>, second: Seq<u8>, at: int)
    requires
        differ_only_at(first, second, at),
    ensures
        crc_register(first) != crc_register(second),
    decreases first.len(),
{
    let last = first.len() - 1;
    if at == last {
        assert(first.drop_last() =~= second.drop_last());
        lemma_step_keeps_bytes_apart(
            crc_register(first.drop_last()),
            first.last(),
            second.last(),
        );
    } else {
        assert(differ_only_at(first.drop_last(), second.drop_last(), at));
        lemma_register_detects_one_byte(first.drop_last(), second.drop_last(), at);
        lemma_step_keeps_registers_apart(
            crc_register(first.drop_last()),
            crc_register(second.drop_last()),
            first.last(),
        );
    }
}

/// A change to one byte changes the checksum.
pub proof fn lemma_checksum_detects_one_byte(first: Seq<u8>, second: Seq<u8>, at: int)
    requires
        differ_only_at(first, second, at),
    ensures
        crc32_bzip2(first) != crc32_bzip2(second),
{
    lemma_register_detects_one_byte(first, second, at);
    let a = crc_register(first);
    let b = crc_register(second);
    assert(a ^ 0xffff_ffffu32 != b ^ 0xffff_ffffu32) by (bit_vector)
        requires
            a != b,
    ;
}

} // verus!
