//! Where a signal lies in the payload of its frame, and the type its value is decoded to.
use crate::model::{ByteOrder, MessageId, Signal, SignalExtendedValueType, ValueType, DBC};
use vstd::arithmetic::power2::{lemma2_to64, lemma2_to64_rest, lemma_pow2_strictly_increases, pow2};
use vstd::bits::lemma_u64_shl_is_mul;
use vstd::prelude::*;

verus! {

/// By how many bits the payload, read as one 64 bit number in the byte order of the signal, is
/// shifted right to decode the signal. It is negative where the bits of a big endian signal do
/// not fit.
pub open spec fn shift(byte_order: ByteOrder, start_bit: int, signal_size: int) -> int {
    match byte_order {
        ByteOrder::LittleEndian => start_bit,
        ByteOrder::BigEndian => 63 - signal_size - ((start_bit / 8) * 8 + (7 - start_bit % 8)),
    }
}

/// The shift of a signal.
pub open spec fn signal_shift(signal: Signal) -> int {
    shift(signal.byte_order, signal.start_bit as int, signal.signal_size as int)
}

/// A shift exists for the signal.
pub open spec fn placed(signal: Signal) -> bool {
    signal_shift(signal) >= 0
}

/// The signal starts within 8 bytes. Code is generated for no other.
pub open spec fn kept(signal: Signal) -> bool {
    signal_shift(signal) <= 63
}

/// The bits of the signal start within the payload, so they can be read from it.
pub open spec fn readable(signal: Signal) -> bool {
    placed(signal) && kept(signal)
}

/// By how many bits the payload is shifted right to decode a signal.
pub fn shift_amount(byte_order: ByteOrder, start_bit: u64, signal_size: u64) -> (r: u64)
    requires
        shift(byte_order, start_bit as int, signal_size as int) >= 0,
    ensures
        r == shift(byte_order, start_bit as int, signal_size as int),
{
    match byte_order {
        ByteOrder::LittleEndian => start_bit,
        ByteOrder::BigEndian => 63 - signal_size - ((start_bit / 8) * 8 + (7 - (start_bit % 8))),
    }
}

/// Tells whether a shift exists for the signal.
pub fn is_placed(signal: &Signal) -> (r: bool)
    ensures
        r == placed(*signal),
{
    match signal.byte_order {
        ByteOrder::LittleEndian => true,
        ByteOrder::BigEndian => signal.signal_size <= 63 && (signal.start_bit / 8) * 8 + (7 - (
        signal.start_bit % 8)) <= 63 - signal.signal_size,
    }
}

/// Tells whether the signal starts within 8 bytes.
pub fn is_kept(signal: &Signal) -> (r: bool)
    requires
        placed(*signal),
    ensures
        r == kept(*signal),
{
    shift_amount(signal.byte_order, signal.start_bit, signal.signal_size) <= 63
}

/// Tells whether the bits of the signal can be read from the payload.
pub fn is_readable(signal: &Signal) -> (r: bool)
    ensures
        r == readable(*signal),
{
    is_placed(signal) && is_kept(signal)
}

/// One less than two to the power of the signal size, whose low 32 bits count; the power is
/// capped at the largest 64 bit number.
pub open spec fn mask(signal_size: nat) -> nat {
    let power = pow2(signal_size % 0x1_0000_0000);
    if power <= u64::MAX {
        (power - 1) as nat
    } else {
        (u64::MAX - 1) as nat
    }
}

/// The mask that cuts a shifted payload down to a signal of the given size.
pub fn bit_mask(signal_size: u64) -> (r: u64)
    ensures
        r == mask(signal_size as nat),
{
    let exponent: u64 = signal_size % 0x1_0000_0000;
    proof {
        lemma2_to64();
        lemma2_to64_rest();
    }
    if exponent >= 64 {
        proof {
            if exponent > 64 {
                lemma_pow2_strictly_increases(64, exponent as nat);
            }
        }
        u64::MAX - 1
    } else {
        proof {
            lemma_pow2_strictly_increases(exponent as nat, 64);
            if exponent > 0 {
                lemma_pow2_strictly_increases(0, exponent as nat);
            }
            lemma_u64_shl_is_mul(1, exponent);
        }
        (1u64 << exponent) - 1
    }
}

/// The types that signals are decoded to.
#[derive(Clone, Copy, Debug, PartialEq, Eq, Structural)]
pub enum DecodedType {
    Float32,
    Float64,
    Bool,
    I8,
    U8,
    I16,
    U16,
    I32,
    U32,
    I64,
    U64,
}

impl DecodedType {
    /// The name of the type in source text.
    pub open spec fn text(self) -> &'static str {
        match self {
            DecodedType::Float32 => "f32",
            DecodedType::Float64 => "f64",
            DecodedType::Bool => "bool",
            DecodedType::I8 => "i8",
            DecodedType::U8 => "u8",
            DecodedType::I16 => "i16",
            DecodedType::U16 => "u16",
            DecodedType::I32 => "i32",
            DecodedType::U32 => "u32",
            DecodedType::I64 => "i64",
            DecodedType::U64 => "u64",
        }
    }

    /// Names the type in source text.
    pub fn name(self) -> (r: &'static str)
        ensures
            r == self.text(),
    {
        match self {
            DecodedType::Float32 => "f32",
            DecodedType::Float64 => "f64",
            DecodedType::Bool => "bool",
            DecodedType::I8 => "i8",
            DecodedType::U8 => "u8",
            DecodedType::I16 => "i16",
            DecodedType::U16 => "u16",
            DecodedType::I32 => "i32",
            DecodedType::U32 => "u32",
            DecodedType::I64 => "i64",
            DecodedType::U64 => "u64",
        }
    }

    /// The number of bits of an integer type, or of a truth value; none for the others.
    pub open spec fn width(self) -> Option<nat> {
        match self {
            DecodedType::Float32 | DecodedType::Float64 => None,
            DecodedType::Bool => Some(1),
            DecodedType::I8 | DecodedType::U8 => Some(8),
            DecodedType::I16 | DecodedType::U16 => Some(16),
            DecodedType::I32 | DecodedType::U32 => Some(32),
            DecodedType::I64 | DecodedType::U64 => Some(64),
        }
    }
}

/// The smallest integer type for a raw value of the given size, a truth value for a single bit.
/// A size of zero, or beyond the widest type, gets the widest.
pub open spec fn integer_type(value_type: ValueType, signal_size: nat) -> DecodedType {
    let signed = value_type == ValueType::Signed;
    if signal_size == 1 {
        DecodedType::Bool
    } else if 1 < signal_size <= 8 {
        if signed {
            DecodedType::I8
        } else {
            DecodedType::U8
        }
    } else if 8 < signal_size <= 16 {
        if signed {
            DecodedType::I16
        } else {
            DecodedType::U16
        }
    } else if 16 < signal_size <= 32 {
        if signed {
            DecodedType::I32
        } else {
            DecodedType::U32
        }
    } else if signed {
        DecodedType::I64
    } else {
        DecodedType::U64
    }
}

/// The type a signal is decoded to: that of its extended value type, if it has a floating point
/// one; a double, if it is scaled or moved; else an integer.
pub open spec fn decoded_type_of(dbc: DBC, id: MessageId, signal: Signal) -> DecodedType {
    match dbc.extended_type_of(id, signal.name@) {
        Some(SignalExtendedValueType::IEEEfloat32Bit) => DecodedType::Float32,
        Some(SignalExtendedValueType::IEEEdouble64bit) => DecodedType::Float64,
        _ => if !(signal.offset.zero() && signal.factor.one()) {
            DecodedType::Float64
        } else {
            integer_type(signal.value_type, signal.signal_size as nat)
        },
    }
}

/// Decides the type that a signal is decoded to.
pub fn decoded_type(dbc: &DBC, message_id: MessageId, signal: &Signal) -> (r: DecodedType)
    ensures
        r == decoded_type_of(*dbc, message_id, *signal),
{
    if let Some(extended_value_type) = dbc.extended_value_type_for_signal(
        message_id,
        signal.name.as_str(),
    ) {
        match extended_value_type {
            SignalExtendedValueType::IEEEfloat32Bit => {
                return DecodedType::Float32;
            },
            SignalExtendedValueType::IEEEdouble64bit => {
                return DecodedType::Float64;
            },
            // Decided below, by the signal itself
            SignalExtendedValueType::SignedOrUnsignedInteger => {},
        }
    }
    if !(signal.offset.is_zero() && signal.factor.is_one()) {
        return DecodedType::Float64;
    }
    let size: u64 = signal.signal_size;
    match signal.value_type {
        _ if size == 1 => DecodedType::Bool,
        ValueType::Signed if size > 1 && size <= 8 => DecodedType::I8,
        ValueType::Unsigned if size > 1 && size <= 8 => DecodedType::U8,
        ValueType::Signed if size > 8 && size <= 16 => DecodedType::I16,
        ValueType::Unsigned if size > 8 && size <= 16 => DecodedType::U16,
        ValueType::Signed if size > 16 && size <= 32 => DecodedType::I32,
        ValueType::Unsigned if size > 16 && size <= 32 => DecodedType::U32,
        ValueType::Signed => DecodedType::I64,
        ValueType::Unsigned => DecodedType::U64,
    }
}

} // verus!
