//! Variable-length integers of the wire format.
//!
//! An integer is written seven bits at a time, lowest bits first. Every byte
//! but the last has its top bit set. Only the shortest form is read back: a
//! longer form that ends in a zero byte is malformed, and so is a form of
//! more than ten bytes or one that does not fit 64 bits.

use vstd::prelude::*;

verus! {

/// The most bytes one integer takes.
pub const VARINT_MAX_BYTES: usize = 10;

/// Why bytes could not be read.
#[derive(Clone, Copy, Debug, PartialEq, Eq, Structural)]
pub enum DecodeError {
    /// The bytes end before the value does.
    Truncated,
    /// An integer is not in its shortest form, is too long, or does not fit.
    BadVarint,
    /// A tag names no kind known to this version.
    UnknownTag,
    /// A sequence claims more buttons than a sequence holds.
    TooLong,
    /// The checksum behind a body is not the checksum of that body.
    BadChecksum,
}

/// The bytes of `value`.
pub open spec fn spec_varint(value: nat) -> Seq<u8>
    decreases value,
{
    if value < 128 {
        seq![value as u8]
    } else {
        seq![(128 + value % 128) as u8] + spec_varint(value / 128)
    }
}

/// The integer at the front of `bytes`, read with at most `budget` bytes, and
/// the bytes behind it.
pub open spec fn parse_varint(bytes: Seq<u8>, budget: nat) -> Result<(nat, Seq<u8>), DecodeError>
    decreases budget,
{
    if budget == 0 {
        Err(DecodeError::BadVarint)
    } else if bytes.len() == 0 {
        Err(DecodeError::Truncated)
    } else if bytes[0] < 128 {
        Ok((bytes[0] as nat, bytes.skip(1)))
    } else {
        match parse_varint(bytes.skip(1), (budget - 1) as nat) {
            Ok((high, rest)) => if high == 0 {
                Err(DecodeError::BadVarint)
            } else {
                Ok(((bytes[0] - 128 + 128 * high) as nat, rest))
            },
            Err(e) => Err(e),
        }
    }
}

/// The 64-bit integer at the front of `bytes`, and the bytes behind it.
pub open spec fn parse_u64(bytes: Seq<u8>) -> Result<(u64, Seq<u8>), DecodeError> {
    match parse_varint(bytes, VARINT_MAX_BYTES as nat) {
        Ok((value, rest)) => if value > u64::MAX {
            Err(DecodeError::BadVarint)
        } else {
            Ok((value as u64, rest))
        },
        Err(e) => Err(e),
    }
}

/// 128 to the power `exponent`.
pub open spec fn pow128(exponent: nat) -> nat
    decreases exponent,
{
    if exponent == 0 {
        1
    } else {
        128 * pow128((exponent - 1) as nat)
    }
}

/// What the whole integer is, given the seven-bit groups read so far
/// (`low`, worth `scale` each unit of what follows) and the rest as read from
/// here on.
pub open spec fn with_low_groups(
    low: nat,
    scale: nat,
    continued: bool,
    high: Result<(nat, Seq<u8>), DecodeError>,
) -> Result<(nat, Seq<u8>), DecodeError> {
    match high {
        Ok((value, rest)) => if continued && value == 0 {
            Err(DecodeError::BadVarint)
        } else {
            Ok((low + scale * value, rest))
        },
        Err(e) => Err(e),
    }
}

/// Appends the bytes of `value` to `out`.
pub fn encode_varint(value: u64, out: &mut Vec<u8>)
    ensures
        final(out)@ == old(out)@ + spec_varint(value as nat),
{
    let mut rest: u64 = value;
    while rest >= 128
        invariant
            out@ + spec_varint(rest as nat) == old(out)@ + spec_varint(value as nat),
        decreases rest,
    {
        let ghost before = out@;
        let low: u8 = (128 + rest % 128) as u8;
        out.push(low);
        proof {
            let tail = spec_varint((rest / 128) as nat);
            assert(spec_varint(rest as nat) == seq![low] + tail);
            assert(before.push(low) + tail =~= before + (seq![low] + tail));
        }
        rest = rest / 128;
    }
    let ghost before = out@;
    out.push(rest as u8);
    assert(before.push(rest as u8) =~= before + spec_varint(rest as nat));
}

/// Reads the integer that starts at `at`. Gives the integer and the place
/// behind it, or says why there is none. Behind the end of `bytes` there is
/// nothing to read.
pub fn decode_varint(bytes: &[u8], at: usize) -> (result: Result<(u64, usize), DecodeError>)
    ensures
        at > bytes@.len() ==> result == Err::<(u64, usize), DecodeError>(DecodeError::Truncated),
        at <= bytes@.len() ==> match parse_u64(bytes@.skip(at as int)) {
            Ok((value, rest)) => result matches Ok((v, next)) && v == value && at < next
                <= bytes@.len() && rest == bytes@.skip(next as int),
            Err(e) => result == Err::<(u64, usize), DecodeError>(e),
        },
{
    if at > bytes.len() {
        return Err(DecodeError::Truncated);
    }
    let ghost whole = parse_varint(bytes@.skip(at as int), VARINT_MAX_BYTES as nat);
    let mut i: usize = at;
    let mut count: usize = 0;
    let mut low: u64 = 0;
    let mut scale: u64 = 1;
    proof {
        reveal_with_fuel(pow128, 11);
        assert(with_low_groups(0, 1, false, whole) == whole) by {
            match whole {
                Ok((value, rest)) => {
                    assert(1 * value == value) by (nonlinear_arith);
                },
                Err(e) => {},
            }
        }
    }
    loop
        invariant
            whole == parse_varint(bytes@.skip(at as int), VARINT_MAX_BYTES as nat),
            at <= i <= bytes@.len(),
            i == at + count,
            count < VARINT_MAX_BYTES,
            scale == pow128(count as nat),
            low < scale,
            whole == with_low_groups(
                low as nat,
                scale as nat,
                count > 0,
                parse_varint(bytes@.skip(i as int), (VARINT_MAX_BYTES - count) as nat),
            ),
        decreases VARINT_MAX_BYTES - count,
    {
        proof {
            reveal_with_fuel(pow128, 11);
        }
        if i >= bytes.len() {
            return Err(DecodeError::Truncated);
        }
        let byte: u8 = bytes[i];
        let ghost here = bytes@.skip(i as int);
        assert(here[0] == byte);
        assert(here.skip(1) =~= bytes@.skip(i + 1));
        if byte < 128 {
            if count > 0 && byte == 0 {
                return Err(DecodeError::BadVarint);
            }
            if count == VARINT_MAX_BYTES - 1 && byte > 1 {
                assert((low as nat) + (scale as nat) * (byte as nat) > u64::MAX) by (nonlinear_arith)
                    requires
                        scale == 0x8000_0000_0000_0000u64,
                        byte >= 2,
                ;
                return Err(DecodeError::BadVarint);
            }
            assert((low as nat) + (scale as nat) * (byte as nat) <= u64::MAX && (scale as nat) * (
            byte as nat) <= u64::MAX) by (nonlinear_arith)
                requires
                    low < scale,
                    scale <= 0x8000_0000_0000_0000u64,
                    byte < 128,
                    scale == 0x8000_0000_0000_0000u64 ==> byte <= 1,
                    scale < 0x8000_0000_0000_0000u64 ==> scale <= 0x0100_0000_0000_0000u64,
            ;
            let value: u64 = low + scale * (byte as u64);
            return Ok((value, i + 1));
        }
        if count == VARINT_MAX_BYTES - 1 {
            assert(parse_varint(here.skip(1), 0) == Err::<(nat, Seq<u8>), DecodeError>(
                DecodeError::BadVarint,
            ));
            assert(parse_varint(here, 1) == Err::<(nat, Seq<u8>), DecodeError>(
                DecodeError::BadVarint,
            ));
            return Err(DecodeError::BadVarint);
        }
        let group: u64 = (byte - 128) as u64;
        assert((low as nat) + (scale as nat) * (group as nat) < (scale as nat) * 128 && (
        scale as nat) * 128 <= 0x8000_0000_0000_0000u64) by (nonlinear_arith)
            requires
                low < scale,
                group < 128,
                scale <= 0x0100_0000_0000_0000u64,
        ;
        proof {
            let budget = (VARINT_MAX_BYTES - count) as nat;
            let inner = parse_varint(here.skip(1), (budget - 1) as nat);
            match inner {
                Ok((high, rest)) => {
                    if high != 0 {
                        assert((low as nat) + (scale as nat) * ((byte - 128 + 128 * high) as nat)
                            == ((low as nat) + (scale as nat) * (group as nat)) + ((scale as nat)
                            * 128) * high) by (nonlinear_arith)
                            requires
                                group == byte - 128,
                                byte >= 128,
                        ;
                    }
                },
                Err(e) => {},
            }
        }
        low = low + scale * group;
        scale = scale * 128;
        count = count + 1;
        i = i + 1;
    }
}

/// A value below 128 to the power `bytes` takes at most `bytes` bytes, and
/// at least one.
pub proof fn lemma_varint_len(value: nat, bytes: nat)
    requires
        bytes > 0,
        value < pow128(bytes),
    ensures
        1 <= spec_varint(value).len() <= bytes,
    decreases value,
{
    if value >= 128 {
        if bytes == 1 {
            reveal_with_fuel(pow128, 2);
        } else {
            assert(value / 128 < pow128((bytes - 1) as nat)) by (nonlinear_arith)
                requires
                    value < 128 * pow128((bytes - 1) as nat),
            ;
            lemma_varint_len(value / 128, (bytes - 1) as nat);
        }
    }
}

/// A 64-bit integer takes at most ten bytes.
pub proof fn lemma_varint_len_u64(value: u64)
    ensures
        1 <= spec_varint(value as nat).len() <= VARINT_MAX_BYTES,
{
    reveal_with_fuel(pow128, 11);
    lemma_varint_len(value as nat, 10);
}

/// What was written is read back: the bytes of `value`, with anything behind
/// them, give `value` and what was behind them.
pub proof fn lemma_parse_varint_roundtrip(value: nat, tail: Seq<u8>, budget: nat)
    requires
        spec_varint(value).len() <= budget,
    ensures
        parse_varint(spec_varint(value) + tail, budget) == Ok::<(nat, Seq<u8>), DecodeError>(
            (value, tail),
        ),
    decreases value,
{
    let bytes = spec_varint(value) + tail;
    if value < 128 {
        assert(bytes.skip(1) =~= tail);
    } else {
        let high = value / 128;
        assert(bytes.skip(1) =~= spec_varint(high) + tail);
        assert(bytes[0] == 128 + value % 128);
        lemma_parse_varint_roundtrip(high, tail, (budget - 1) as nat);
    }
}

/// What was written is read back, for 64-bit integers.
pub proof fn lemma_parse_u64_roundtrip(value: u64, tail: Seq<u8>)
    ensures
        parse_u64(spec_varint(value as nat) + tail) == Ok::<(u64, Seq<u8>), DecodeError>(
            (value, tail),
        ),
{
    lemma_varint_len_u64(value);
    lemma_parse_varint_roundtrip(value as nat, tail, VARINT_MAX_BYTES as nat);
}

} // verus!
