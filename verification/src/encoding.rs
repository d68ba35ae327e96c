//! The primitives of the wire format: base-128 variable-length integers, field
//! keys, length-delimited payloads and the skipping of fields nobody asked for.
//!
//! The integers themselves are written and read by `prost`, and `prost` passes
//! over the fields that the messages do not know; everything else is decided
//! here.

use vstd::prelude::*;
use vstd::utf8::*;

verus! {

/// Why a frame could not be read.
#[derive(Clone, Copy, Debug, PartialEq, Eq, Structural)]
pub enum DecodeFailure {
    /// A variable-length integer ran past ten bytes, past the end of the
    /// input, or past sixty-four bits.
    InvalidVarint,
    /// A field key does not fit in thirty-two bits.
    InvalidKey,
    /// A field key names a wire type above five.
    InvalidWireType,
    /// A field key names field zero.
    InvalidTag,
    /// A known field arrived with a wire type other than its own.
    UnexpectedWireType,
    /// A length prefix promises more bytes than are left.
    BufferUnderflow,
    /// A string field holds bytes that are not UTF-8.
    InvalidString,
    /// A field that this format does not know could not be skipped.
    InvalidUnknownField,
}

impl DecodeFailure {
    /// What went wrong, in words.
    pub open spec fn text(self) -> Seq<char> {
        match self {
            DecodeFailure::InvalidVarint => "invalid varint"@,
            DecodeFailure::InvalidKey => "invalid key value"@,
            DecodeFailure::InvalidWireType => "invalid wire type value"@,
            DecodeFailure::InvalidTag => "invalid tag value: 0"@,
            DecodeFailure::UnexpectedWireType => "unexpected wire type"@,
            DecodeFailure::BufferUnderflow => "buffer underflow"@,
            DecodeFailure::InvalidString => "invalid string value: data is not UTF-8 encoded"@,
            DecodeFailure::InvalidUnknownField => "invalid unknown field"@,
        }
    }

    /// What went wrong, in words.
    pub fn description(self) -> (words: &'static str)
        ensures
            words@ == self.text(),
    {
        match self {
            DecodeFailure::InvalidVarint => "invalid varint",
            DecodeFailure::InvalidKey => "invalid key value",
            DecodeFailure::InvalidWireType => "invalid wire type value",
            DecodeFailure::InvalidTag => "invalid tag value: 0",
            DecodeFailure::UnexpectedWireType => "unexpected wire type",
            DecodeFailure::BufferUnderflow => "buffer underflow",
            DecodeFailure::InvalidString => "invalid string value: data is not UTF-8 encoded",
            DecodeFailure::InvalidUnknownField => "invalid unknown field",
        }
    }
}

/// How the bytes after a field key are laid out.
#[derive(Clone, Copy, Debug, PartialEq, Eq, Structural)]
pub enum WireType {
    Varint,
    SixtyFourBit,
    LengthDelimited,
    StartGroup,
    EndGroup,
    ThirtyTwoBit,
}

/// The smallest field number a key may carry.
pub const MIN_TAG: u32 = 1;

/// The largest field number a key may carry.
pub const MAX_TAG: u32 = 0x1fff_ffff;

impl WireType {
    /// The three low bits that stand for this wire type in a key.
    pub open spec fn number(self) -> int {
        match self {
            WireType::Varint => 0,
            WireType::SixtyFourBit => 1,
            WireType::LengthDelimited => 2,
            WireType::StartGroup => 3,
            WireType::EndGroup => 4,
            WireType::ThirtyTwoBit => 5,
        }
    }

    /// The wire type that a number up to five stands for.
    pub open spec fn of_number(n: int) -> WireType {
        if n == 0 {
            WireType::Varint
        } else if n == 1 {
            WireType::SixtyFourBit
        } else if n == 2 {
            WireType::LengthDelimited
        } else if n == 3 {
            WireType::StartGroup
        } else if n == 4 {
            WireType::EndGroup
        } else {
            WireType::ThirtyTwoBit
        }
    }

    /// The number of this wire type, as it stands in a key.
    pub fn to_number(self) -> (n: u64)
        ensures
            n == self.number(),
            WireType::of_number(n as int) == self,
    {
        match self {
            WireType::Varint => 0,
            WireType::SixtyFourBit => 1,
            WireType::LengthDelimited => 2,
            WireType::StartGroup => 3,
            WireType::EndGroup => 4,
            WireType::ThirtyTwoBit => 5,
        }
    }

    /// The wire type for a number, if the number is five or less.
    pub fn from_number(n: u64) -> (r: Result<WireType, DecodeFailure>)
        ensures
            n <= 5 ==> r == Ok::<WireType, DecodeFailure>(WireType::of_number(n as int)),
            n > 5 ==> r == Err::<WireType, DecodeFailure>(DecodeFailure::InvalidWireType),
    {
        if n == 0 {
            Ok(WireType::Varint)
        } else if n == 1 {
            Ok(WireType::SixtyFourBit)
        } else if n == 2 {
            Ok(WireType::LengthDelimited)
        } else if n == 3 {
            Ok(WireType::StartGroup)
        } else if n == 4 {
            Ok(WireType::EndGroup)
        } else if n == 5 {
            Ok(WireType::ThirtyTwoBit)
        } else {
            Err(DecodeFailure::InvalidWireType)
        }
    }
}

/// The bytes of `value` as a variable-length integer: seven bits to a byte,
/// lowest first, every byte but the last with its top bit set.
pub open spec fn varint(value: u64) -> Seq<u8>
    decreases value,
{
    if value < 0x80 {
        seq![value as u8]
    } else {
        seq![(value % 0x80 + 0x80) as u8] + varint(value / 0x80)
    }
}

/// Reads a variable-length integer from the front of `bytes`, allowing it at
/// most `budget` bytes: the value and the number of bytes it took.
///
/// The integer ends at the first byte below `0x80`. There is none to read when
/// the input or the budget ends first, or when the byte that uses up the
/// budget is `2` or more.
pub open spec fn parse_varint_within(bytes: Seq<u8>, budget: nat) -> Option<(int, int)>
    decreases budget,
{
    if budget == 0 || bytes.len() == 0 {
        None
    } else if bytes[0] < 0x80 {
        if budget == 1 && bytes[0] >= 2 {
            None
        } else {
            Some((bytes[0] as int, 1))
        }
    } else {
        match parse_varint_within(bytes.skip(1), (budget - 1) as nat) {
            Some((high, taken)) => Some(((bytes[0] - 0x80) + 0x80 * high, taken + 1)),
            None => None,
        }
    }
}

/// Reads a variable-length integer of at most ten bytes and sixty-four bits
/// from the front of `bytes`: the value and the number of bytes it took.
pub open spec fn parse_varint(bytes: Seq<u8>) -> Option<(int, int)> {
    parse_varint_within(bytes, 10)
}

/// The largest value, plus one, that `parse_varint_within` can read with a
/// budget of `budget` bytes out of the ten.
pub open spec fn varint_bound(budget: nat) -> int
    decreases budget,
{
    if budget <= 1 {
        2
    } else {
        0x80 * varint_bound((budget - 1) as nat)
    }
}

/// An integer that was read took between one byte and the budget, no more than
/// the input holds, and is below the bound of that budget.
pub proof fn lemma_parse_varint_within_bounds(bytes: Seq<u8>, budget: nat)
    ensures
        match parse_varint_within(bytes, budget) {
            Some((value, taken)) => 1 <= taken <= budget && taken <= bytes.len() && 0 <= value
                < varint_bound(budget),
            None => true,
        },
    decreases budget,
{
    if budget == 0 || bytes.len() == 0 {
    } else if bytes[0] < 0x80 {
        lemma_varint_bound_grows(budget);
    } else {
        lemma_parse_varint_within_bounds(bytes.skip(1), (budget - 1) as nat);
        if budget == 1 {
        } else {
            assert(varint_bound(budget) == 0x80 * varint_bound((budget - 1) as nat));
        }
    }
}

/// Every budget of two bytes or more reaches at least one full byte.
pub proof fn lemma_varint_bound_grows(budget: nat)
    ensures
        budget >= 2 ==> varint_bound(budget) >= 0x100,
        varint_bound(budget) >= 2,
    decreases budget,
{
    if budget >= 2 {
        lemma_varint_bound_grows((budget - 1) as nat);
    }
}

/// Ten bytes reach exactly sixty-four bits.
pub proof fn lemma_varint_bound_ten()
    ensures
        varint_bound(10) == 0x1_0000_0000_0000_0000,
{
    reveal_with_fuel(varint_bound, 11);
}

/// An integer read by `parse_varint` fits in sixty-four bits.
pub proof fn lemma_parse_varint_bounds(bytes: Seq<u8>)
    ensures
        match parse_varint(bytes) {
            Some((value, taken)) => 1 <= taken <= 10 && taken <= bytes.len() && 0 <= value
                <= u64::MAX,
            None => true,
        },
{
    lemma_parse_varint_within_bounds(bytes, 10);
    lemma_varint_bound_ten();
}

/// What was written with `varint` is read back whole, whatever follows it, by
/// any budget whose bound is above the value.
pub proof fn lemma_varint_within_round_trip(value: u64, rest: Seq<u8>, budget: nat)
    requires
        budget >= 1,
        value < varint_bound(budget),
    ensures
        parse_varint_within(varint(value) + rest, budget) == Some(
            (value as int, varint(value).len() as int),
        ),
    decreases budget,
{
    let bytes = varint(value) + rest;
    if value < 0x80 {
        assert(bytes[0] == value as u8);
        if budget == 1 {
            assert(varint_bound(1) == 2);
        }
    } else {
        let head = (value % 0x80 + 0x80) as u8;
        let tail = varint(value / 0x80);
        assert(bytes[0] == head);
        assert(bytes.skip(1) =~= tail + rest);
        assert(budget >= 2) by {
            if budget == 1 {
                assert(varint_bound(1) == 2);
            }
        }
        assert(varint_bound(budget) == 0x80 * varint_bound((budget - 1) as nat));
        lemma_varint_within_round_trip(value / 0x80, rest, (budget - 1) as nat);
        assert((head - 0x80) + 0x80 * (value / 0x80) == value);
    }
}

/// What was written with `varint` is read back whole, whatever follows it.
pub proof fn lemma_varint_round_trip(value: u64, rest: Seq<u8>)
    ensures
        parse_varint(varint(value) + rest) == Some((value as int, varint(value).len() as int)),
{
    lemma_varint_bound_ten();
    lemma_varint_within_round_trip(value, rest, 10);
}

/// The error that `prost` reports when it cannot read what it is given.
#[verifier::external_type_specification]
#[verifier::external_body]
pub struct ExDecodeError(prost::DecodeError);

/// The number of bytes that `prost::encoding::skip_field` passes over at the
/// front of `bytes` for a field of wire type number `wire_type` and field
/// number `tag`, or `None` where it reports an error.
pub uninterp spec fn skipped_len(wire_type: int, tag: u32, bytes: Seq<u8>) -> Option<int>;

/// Appends `value` to `buf` as a variable-length integer.
///
/// Calls `prost::encoding::encode_varint`, which writes the low seven bits of
/// the value with the top bit set while `0x80` or more is left, and ends with
/// a byte below `0x80`: the bytes of `varint`.
#[verifier::external_body]
pub(crate) fn put_varint(value: u64, buf: &mut Vec<u8>)
    ensures
        final(buf)@ == old(buf)@ + varint(value),
{
    prost::encoding::encode_varint(value, buf)
}

/// Reads a variable-length integer from the front of `buf` and hands back the
/// value with what follows it.
///
/// Calls `prost::encoding::decode_varint`. It reads up to ten bytes, stops at
/// the first one below `0x80`, and fails on empty input, on input that ends
/// first, and on a tenth byte of `2` or more: the reading of `parse_varint`.
#[verifier::external_body]
fn take_varint<'a>(buf: &'a [u8]) -> (r: Result<(u64, &'a [u8]), prost::DecodeError>)
    ensures
        match r {
            Ok((value, rest)) => parse_varint(buf@) == Some(
                (value as int, buf@.len() - rest@.len()),
            ) && rest@ == buf@.skip(buf@.len() - rest@.len()),
            Err(_) => parse_varint(buf@) is None,
        },
{
    let mut rest = buf;
    let value = prost::encoding::decode_varint(&mut rest)?;
    Ok((value, rest))
}

/// Passes over one field that this format does not know, given the wire type
/// number and field number of its key, and hands back what follows it.
///
/// Calls `prost::encoding::skip_field` with a fresh decode context. What it
/// consumes is named by `skipped_len`; it only ever moves forward in `buf`.
#[verifier::external_body]
fn skip_field<'a>(wire_type: u64, tag: u32, buf: &'a [u8]) -> (r: Result<
    &'a [u8],
    prost::DecodeError,
>)
    requires
        wire_type <= 5,
    ensures
        match r {
            Ok(rest) => skipped_len(wire_type as int, tag, buf@) == Some(
                buf@.len() - rest@.len(),
            ) && rest@.len() <= buf@.len() && rest@ == buf@.skip(buf@.len() - rest@.len()),
            Err(_) => skipped_len(wire_type as int, tag, buf@) is None,
        },
{
    let mut rest = buf;
    let wire_type = prost::encoding::WireType::try_from(wire_type)?;
    let fresh = prost::encoding::DecodeContext::default();
    prost::encoding::skip_field(wire_type, tag, &mut rest, fresh)?;
    Ok(rest)
}

/// Turns bytes into the string they spell, if they are UTF-8.
///
/// Calls `String::from_utf8`, which fails exactly on input that is not UTF-8
/// and otherwise returns a string made of the very bytes it was given.
#[verifier::external_body]
fn string_from_utf8(bytes: Vec<u8>) -> (r: Option<String>)
    ensures
        r is Some <==> valid_utf8(bytes@),
        r matches Some(s) ==> encode_utf8(s@) == bytes@,
{
    match String::from_utf8(bytes) {
        Ok(s) => Some(s),
        Err(_) => None,
    }
}

/// The bytes of the key that opens field `tag` with wire type `wire_type`.
pub open spec fn key(tag: u32, wire_type: WireType) -> Seq<u8> {
    varint((tag * 8 + wire_type.number()) as u64)
}

/// Reads a field key from the front of `bytes`: the field number, the wire
/// type and the number of bytes the key took.
pub open spec fn parse_key(bytes: Seq<u8>) -> Result<(u32, WireType, int), DecodeFailure> {
    match parse_varint(bytes) {
        None => Err(DecodeFailure::InvalidVarint),
        Some((value, taken)) => if value > u32::MAX {
            Err(DecodeFailure::InvalidKey)
        } else if value % 8 > 5 {
            Err(DecodeFailure::InvalidWireType)
        } else if value / 8 < MIN_TAG {
            Err(DecodeFailure::InvalidTag)
        } else {
            Ok(((value / 8) as u32, WireType::of_number(value % 8), taken))
        },
    }
}

/// The bytes of a length-delimited payload: its length, then the payload.
pub open spec fn length_delimited(payload: Seq<u8>) -> Seq<u8> {
    varint(payload.len() as u64) + payload
}

/// Reads a length-delimited payload from the front of `bytes`: the payload and
/// the number of bytes that prefix and payload took together.
pub open spec fn parse_length_delimited(bytes: Seq<u8>) -> Result<(Seq<u8>, int), DecodeFailure> {
    match parse_varint(bytes) {
        None => Err(DecodeFailure::InvalidVarint),
        Some((len, taken)) => if len > bytes.len() - taken {
            Err(DecodeFailure::BufferUnderflow)
        } else {
            Ok((bytes.subrange(taken, taken + len), taken + len))
        },
    }
}

/// Appends the key of field `tag` with wire type `wire_type` to `buf`.
pub fn encode_key(tag: u32, wire_type: WireType, buf: &mut Vec<u8>)
    requires
        MIN_TAG <= tag <= MAX_TAG,
    ensures
        final(buf)@ == old(buf)@ + key(tag, wire_type),
{
    let low = wire_type.to_number();
    put_varint(tag as u64 * 8 + low, buf);
}

/// Appends `payload` to `buf` behind its length.
pub fn encode_length_delimited(payload: &[u8], buf: &mut Vec<u8>)
    ensures
        final(buf)@ == old(buf)@ + length_delimited(payload@),
{
    put_varint(payload.len() as u64, buf);
    let ghost before = buf@;
    buf.extend_from_slice(payload);
    assert(buf@ =~= before + payload@);
    assert(buf@ =~= old(buf)@ + length_delimited(payload@));
}

/// Reads a variable-length integer from the front of `buf`: the value and what
/// follows it.
pub fn decode_varint<'a>(buf: &'a [u8]) -> (r: Result<(u64, &'a [u8]), DecodeFailure>)
    ensures
        match r {
            Ok((value, rest)) => parse_varint(buf@) matches Some((v, taken)) && v == value
                && rest@ == buf@.skip(taken) && 1 <= taken <= buf@.len(),
            Err(e) => parse_varint(buf@) is None && e == DecodeFailure::InvalidVarint,
        },
{
    proof {
        lemma_parse_varint_bounds(buf@);
    }
    match take_varint(buf) {
        Ok(found) => Ok(found),
        Err(_) => Err(DecodeFailure::InvalidVarint),
    }
}

/// Reads a field key from the front of `buf`: the field number, the wire type
/// and what follows the key.
pub fn decode_key<'a>(buf: &'a [u8]) -> (r: Result<(u32, WireType, &'a [u8]), DecodeFailure>)
    ensures
        match r {
            Ok((tag, wire_type, rest)) => parse_key(buf@) matches Ok((t, w, taken)) && t == tag
                && w == wire_type && rest@ == buf@.skip(taken) && 1 <= taken <= buf@.len(),
            Err(e) => parse_key(buf@) == Err::<(u32, WireType, int), DecodeFailure>(e),
        },
{
    proof {
        lemma_parse_varint_bounds(buf@);
    }
    let (value, rest) = match decode_varint(buf) {
        Ok(found) => found,
        Err(e) => { return Err(e); },
    };
    if value > u32::MAX as u64 {
        return Err(DecodeFailure::InvalidKey);
    }
    let wire_type = match WireType::from_number(value % 8) {
        Ok(wire_type) => wire_type,
        Err(e) => { return Err(e); },
    };
    let tag = (value / 8) as u32;
    if tag < MIN_TAG {
        return Err(DecodeFailure::InvalidTag);
    }
    Ok((tag, wire_type, rest))
}

/// Reads a length-delimited payload from the front of `buf`: the payload and
/// what follows it.
pub fn decode_length_delimited<'a>(buf: &'a [u8]) -> (r: Result<(&'a [u8], &'a [u8]), DecodeFailure>)
    ensures
        match r {
            Ok((payload, rest)) => parse_length_delimited(buf@) matches Ok((p, taken)) && p
                == payload@ && rest@ == buf@.skip(taken) && 1 <= taken <= buf@.len(),
            Err(e) => parse_length_delimited(buf@) == Err::<(Seq<u8>, int), DecodeFailure>(e),
        },
{
    proof {
        lemma_parse_varint_bounds(buf@);
    }
    let (len, after) = match decode_varint(buf) {
        Ok(found) => found,
        Err(e) => { return Err(e); },
    };
    if len > after.len() as u64 {
        return Err(DecodeFailure::BufferUnderflow);
    }
    let (payload, rest) = after.split_at(len as usize);
    proof {
        let taken = buf@.len() - after@.len();
        assert(payload@ =~= buf@.subrange(taken, taken + len));
        assert(rest@ =~= buf@.skip(taken + len));
    }
    Ok((payload, rest))
}

/// Passes over one field that this format does not know and hands back what
/// follows it.
pub fn skip_unknown<'a>(wire_type: WireType, tag: u32, buf: &'a [u8]) -> (r: Result<
    &'a [u8],
    DecodeFailure,
>)
    ensures
        match r {
            Ok(rest) => skipped_len(wire_type.number(), tag, buf@) matches Some(taken) && 0
                <= taken <= buf@.len() && rest@ == buf@.skip(taken),
            Err(e) => e == DecodeFailure::InvalidUnknownField && !(skipped_len(
                wire_type.number(),
                tag,
                buf@,
            ) matches Some(taken) && 0 <= taken <= buf@.len()),
        },
{
    match skip_field(wire_type.to_number(), tag, buf) {
        Ok(rest) => Ok(rest),
        Err(_) => Err(DecodeFailure::InvalidUnknownField),
    }
}

/// Turns the payload of a string field into the string it spells.
pub fn decode_string(payload: &[u8]) -> (r: Result<String, DecodeFailure>)
    ensures
        match r {
            Ok(s) => valid_utf8(payload@) && s@ == decode_utf8(payload@),
            Err(e) => !valid_utf8(payload@) && e == DecodeFailure::InvalidString,
        },
{
    match string_from_utf8(vstd::slice::slice_to_vec(payload)) {
        Some(s) => {
            proof {
                encode_utf8_decode_utf8(s@);
            }
            Ok(s)
        },
        None => Err(DecodeFailure::InvalidString),
    }
}

/// A key that was written is read back whole, whatever follows it.
pub proof fn lemma_key_round_trip(tag: u32, wire_type: WireType, rest: Seq<u8>)
    requires
        MIN_TAG <= tag <= MAX_TAG,
    ensures
        parse_key(key(tag, wire_type) + rest) == Ok::<(u32, WireType, int), DecodeFailure>(
            (tag, wire_type, key(tag, wire_type).len() as int),
        ),
{
    let value = (tag * 8 + wire_type.number()) as u64;
    lemma_varint_round_trip(value, rest);
    assert(value / 8 == tag);
    assert(value % 8 == wire_type.number());
}

/// A length-delimited payload that was written is read back whole, whatever
/// follows it.
pub proof fn lemma_length_delimited_round_trip(payload: Seq<u8>, rest: Seq<u8>)
    requires
        payload.len() <= u64::MAX,
    ensures
        parse_length_delimited(length_delimited(payload) + rest) == Ok::<
            (Seq<u8>, int),
            DecodeFailure,
        >((payload, length_delimited(payload).len() as int)),
{
    let prefix = varint(payload.len() as u64);
    let bytes = length_delimited(payload) + rest;
    assert(bytes =~= prefix + (payload + rest));
    lemma_varint_round_trip(payload.len() as u64, payload + rest);
    assert(bytes.subrange(prefix.len() as int, (prefix.len() + payload.len()) as int) =~= payload);
}

} // verus!
