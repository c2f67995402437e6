//! Where signals lie in a payload, and what they are decoded to.
use crate::layout::{
    decoded_type_of, integer_type, kept, mask, placed, readable, shift, signal_shift, DecodedType,
};
use crate::message::{frame_id, standard_id};
use crate::model::{ByteOrder, DBC, MessageId, Signal, SignalExtendedValueType, ValueType};
use crate::tokens::decimal;
use vstd::arithmetic::power2::{lemma2_to64, lemma2_to64_rest, lemma_pow2_strictly_increases};
use vstd::prelude::*;

verus! {

/// A little endian signal lies at its start bit, whatever its size.
pub proof fn law_little_endian_signals_lie_at_their_start_bit(start_bit: int, signal_size: int)
    ensures
        shift(ByteOrder::LittleEndian, start_bit, signal_size) == start_bit,
{
}

/// Moving a big endian signal into the next byte lowers its shift by the bits of a byte; moving it
/// down within its byte lowers the shift by one, and so does making it longer. A signal that starts
/// in the top bit of the first byte ends its size below the top of the payload.
pub proof fn law_big_endian_shift_follows_start_bit_and_size(start_bit: int, signal_size: int)
    requires
        start_bit >= 0,
    ensures
        shift(ByteOrder::BigEndian, start_bit + 8, signal_size) == shift(
            ByteOrder::BigEndian,
            start_bit,
            signal_size,
        ) - 8,
        start_bit % 8 != 0 ==> shift(ByteOrder::BigEndian, start_bit - 1, signal_size) == shift(
            ByteOrder::BigEndian,
            start_bit,
            signal_size,
        ) - 1,
        shift(ByteOrder::BigEndian, start_bit, signal_size + 1) == shift(
            ByteOrder::BigEndian,
            start_bit,
            signal_size,
        ) - 1,
        shift(ByteOrder::BigEndian, 7, signal_size) == 63 - signal_size,
{
}

/// The position, in the payload read as a big endian number, of the bit that the database counts as
/// `bit`: bytes count from the top of the number down, bits from the bottom of their byte up.
pub open spec fn big_endian_position(bit: int) -> int {
    8 * (7 - bit / 8) + bit % 8
}

/// The shift and the size of a big endian signal add up to the position of its start bit.
pub proof fn law_big_endian_signals_end_below_their_start_bit(start_bit: int, signal_size: int)
    requires
        start_bit >= 0,
    ensures
        shift(ByteOrder::BigEndian, start_bit, signal_size) + signal_size == big_endian_position(
            start_bit,
        ),
{
}

/// A little endian signal is decoded exactly if it starts within 64 bits; a big endian one exactly
/// if as many bits as it has lie below its start bit.
pub proof fn law_signals_within_the_payload_are_decoded(signal: Signal)
    ensures
        signal.byte_order is LittleEndian ==> {
            &&& signal_shift(signal) == signal.start_bit
            &&& placed(signal)
            &&& kept(signal) <==> signal.start_bit < 64
            &&& readable(signal) <==> signal.start_bit < 64
        },
        signal.byte_order is BigEndian ==> {
            &&& signal_shift(signal) == big_endian_position(signal.start_bit as int)
                - signal.signal_size
            &&& kept(signal)
            &&& placed(signal) <==> signal.signal_size <= big_endian_position(
                signal.start_bit as int,
            )
            &&& readable(signal) <==> placed(signal)
        },
{
}

/// The mask of a signal of 64 bits or more is the second largest number; only the low 32 bits of a
/// size count.
pub proof fn law_mask_of_wide_signals(signal_size: nat)
    ensures
        64 <= signal_size < 0x1_0000_0000 ==> mask(signal_size) == 0xffff_ffff_ffff_fffe,
        mask(signal_size + 0x1_0000_0000) == mask(signal_size),
{
    lemma2_to64();
    lemma2_to64_rest();
    if 64 < signal_size < 0x1_0000_0000 {
        lemma_pow2_strictly_increases(64, signal_size);
    }
    assert((signal_size + 0x1_0000_0000) % 0x1_0000_0000 == signal_size % 0x1_0000_0000)
        by (nonlinear_arith);
}

/// A type whose values may be negative.
pub open spec fn signed_type(ty: DecodedType) -> bool {
    ty is I8 || ty is I16 || ty is I32 || ty is I64
}

/// The integer type for a size has room for it, and half as many bits would be too few; sizes that
/// no type has room for get the widest, and so does zero. It is signed if the value is; a single
/// bit gets a truth value.
pub proof fn law_integer_type_is_the_smallest_with_room(value_type: ValueType, signal_size: nat)
    ensures
        signal_size == 1 <==> integer_type(value_type, signal_size) is Bool,
        !(integer_type(value_type, signal_size) is Float32),
        !(integer_type(value_type, signal_size) is Float64),
        signal_size != 1 ==> {
            let ty = integer_type(value_type, signal_size);
            let bits = bits_of(ty);
            &&& signed_type(ty) <==> value_type is Signed
            &&& bits == 8 || bits == 16 || bits == 32 || bits == 64
            &&& 1 < signal_size <= 64 ==> signal_size <= bits && (bits > 8 ==> bits < 2
                * signal_size)
            &&& signal_size == 0 || signal_size > 64 ==> bits == 64
        },
{
}

/// The bits of a value of the type.
pub open spec fn bits_of(ty: DecodedType) -> nat {
    match ty {
        DecodedType::Bool => 1,
        DecodedType::I8 | DecodedType::U8 => 8,
        DecodedType::I16 | DecodedType::U16 => 16,
        DecodedType::I32 | DecodedType::U32 | DecodedType::Float32 => 32,
        DecodedType::I64 | DecodedType::U64 | DecodedType::Float64 => 64,
    }
}

/// The name of a type other than the truth values is a letter for its kind and its number of bits.
pub proof fn law_type_names_tell_kind_and_bits(ty: DecodedType)
    ensures
        ty is Bool ==> ty.text()@ == seq!['b', 'o', 'o', 'l'],
        ty is Float32 || ty is Float64 ==> ty.text()@ == seq!['f'] + decimal(bits_of(ty)),
        signed_type(ty) ==> ty.text()@ == seq!['i'] + decimal(bits_of(ty)),
        ty is U8 || ty is U16 || ty is U32 || ty is U64 ==> ty.text()@ == seq!['u'] + decimal(
            bits_of(ty),
        ),
        ty.width() == if ty is Float32 || ty is Float64 {
            None
        } else {
            Some(bits_of(ty))
        },
{
    reveal_strlit("f32");
    reveal_strlit("f64");
    reveal_strlit("bool");
    reveal_strlit("i8");
    reveal_strlit("u8");
    reveal_strlit("i16");
    reveal_strlit("u16");
    reveal_strlit("i32");
    reveal_strlit("u32");
    reveal_strlit("i64");
    reveal_strlit("u64");
    reveal_with_fuel(decimal, 3);
    assert(decimal(8) =~= seq!['8']);
    assert(decimal(16) =~= seq!['1', '6']);
    assert(decimal(32) =~= seq!['3', '2']);
    assert(decimal(64) =~= seq!['6', '4']);
}

/// A floating point extended value type decides the type of a signal. Without one, a signal that is
/// scaled or moved is decoded to a double; its own sign and size decide on any other.
pub proof fn law_type_of_a_signal(dbc: DBC, id: MessageId, signal: Signal)
    ensures
        ({
            let ty = decoded_type_of(dbc, id, signal);
            let extended = dbc.extended_type_of(id, signal.name@);
            let scaled = !signal.factor.one() || !signal.offset.zero();
            &&& extended == Some(SignalExtendedValueType::IEEEfloat32Bit) <==> ty is Float32
            &&& extended == Some(SignalExtendedValueType::IEEEdouble64bit) ==> ty is Float64
            &&& extended is None || extended == Some(
                SignalExtendedValueType::SignedOrUnsignedInteger,
            ) ==> {
                &&& scaled <==> ty is Float64
                &&& !scaled ==> ty == integer_type(signal.value_type, signal.signal_size as nat)
            }
        }),
{
}

/// The frame id of a message is made of the low 29 bits of its id, whatever the bits above say; it
/// is the id of a standard frame exactly if it fits into 11 bits.
pub proof fn law_frame_id_is_the_low_bits(id: MessageId)
    ensures
        frame_id(id) == id.0 % 0x2000_0000,
        standard_id(id) <==> id.0 % 0x2000_0000 < 0x800,
{
    let bits = id.0;
    assert((bits & 0x1fff_ffff) == bits % 0x2000_0000) by (bit_vector);
}

/// Ids that differ only above their low 29 bits have the same frame id.
pub proof fn law_frame_ids_agree_where_the_low_bits_do(a: MessageId, b: MessageId)
    ensures
        frame_id(a) == frame_id(b) <==> a.0 % 0x2000_0000 == b.0 % 0x2000_0000,
{
    law_frame_id_is_the_low_bits(a);
    law_frame_id_is_the_low_bits(b);
}

} // verus!
