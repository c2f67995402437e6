use dbcc::double::{is_real_text, real_to_u64, Real};
use dbcc::layout::{bit_mask, decoded_type, is_kept, is_placed, shift_amount, DecodedType};
use dbcc::message::{decoded_frame_id, is_standard_id};
use dbcc::model::{
    ByteOrder, MessageId, MultiplexIndicator, Signal, SignalExtendedValueType,
    SignalExtendedValueTypeList, ValueType, Version, DBC,
};

fn number(x: f64) -> Real {
    Real {
        bits: x.to_bits(),
        literal: format!("{:?}", x),
    }
}

fn signal(value_type: ValueType, size: u64, factor: f64, offset: f64) -> Signal {
    Signal {
        name: "Signal".to_string(),
        multiplexer_indicator: MultiplexIndicator::Plain,
        start_bit: 0,
        signal_size: size,
        byte_order: ByteOrder::LittleEndian,
        value_type,
        factor: number(factor),
        offset: number(offset),
        unit: String::new(),
    }
}

fn empty() -> DBC {
    DBC {
        version: Version(String::new()),
        messages: Vec::new(),
        comments: Vec::new(),
        value_descriptions: Vec::new(),
        signal_extended_value_type_list: Vec::new(),
    }
}

#[test]
fn ones_and_zeros() {
    assert!(number(1.0).is_one());
    assert!(!number(-1.0).is_one());
    assert!(!number(1.0000000000000002).is_one());
    assert!(number(0.0).is_zero());
    assert!(number(-0.0).is_zero());
    assert!(!number(5e-324).is_zero());
    assert!(!number(f64::NAN).is_one());
    assert!(!number(f64::NAN).is_zero());
}

#[test]
fn writable_numbers() {
    assert!(number(0.5).is_writable());
    assert!(number(-40.0).is_writable());
    assert!(!number(f64::INFINITY).is_writable());
    assert!(!number(f64::NAN).is_writable());
    for text in ["0.5", "-40.0", "007.250"] {
        assert!(is_real_text(text), "{}", text);
    }
    for text in ["", "-", ".", "1", "1.", ".5", "-.5", "1.2.3", "--1.0", "1e5", "1.0f", "1-.0", " 1.0"] {
        assert!(!is_real_text(text), "{}", text);
    }
}

#[test]
fn double_to_integer() {
    let samples = [
        0.0, -0.0, 0.5, 0.9999999999999999, 1.0, 1.5, 2.0, 255.0, 255.99, 4294967296.0,
        4503599627370495.5, 9007199254740992.0, 9007199254740994.0, 9223372036854775808.0,
        18446744073709549568.0, 18446744073709551616.0, 1e300, -1.0, -1e300, 5e-324,
        f64::INFINITY, f64::NEG_INFINITY, f64::NAN, -f64::NAN, f64::MAX, f64::MIN_POSITIVE,
    ];
    for x in samples {
        assert_eq!(real_to_u64(x.to_bits()), x as u64, "{}", x);
    }
    let mut x = 1.0e-3;
    while x < 1.0e25 {
        assert_eq!(real_to_u64(f64::to_bits(x)), x as u64, "{}", x);
        x *= 1.37;
    }
}

#[test]
fn shifts() {
    assert_eq!(shift_amount(ByteOrder::LittleEndian, 24, 16), 24);
    assert_eq!(shift_amount(ByteOrder::LittleEndian, 64, 8), 64);
    assert_eq!(shift_amount(ByteOrder::BigEndian, 7, 8), 55);
    assert_eq!(shift_amount(ByteOrder::BigEndian, 3, 12), 47);
    assert_eq!(shift_amount(ByteOrder::BigEndian, 0, 0), 56);
    assert_eq!(shift_amount(ByteOrder::BigEndian, 7, 63), 0);
}

#[test]
fn placement() {
    let mut s = signal(ValueType::Unsigned, 8, 1.0, 0.0);
    s.start_bit = 63;
    assert!(is_placed(&s) && is_kept(&s));
    s.start_bit = 64;
    assert!(is_placed(&s) && !is_kept(&s));
    s.byte_order = ByteOrder::BigEndian;
    s.start_bit = 7;
    s.signal_size = 63;
    assert!(is_placed(&s) && is_kept(&s));
    s.signal_size = 64;
    assert!(!is_placed(&s));
    s.signal_size = 8;
    s.start_bit = u64::MAX;
    assert!(!is_placed(&s));
}

#[test]
fn masks() {
    assert_eq!(bit_mask(0), 0);
    assert_eq!(bit_mask(1), 1);
    assert_eq!(bit_mask(8), 255);
    assert_eq!(bit_mask(63), (1 << 63) - 1);
    // The power of two is capped before one is taken off.
    assert_eq!(bit_mask(64), u64::MAX - 1);
    assert_eq!(bit_mask(65), u64::MAX - 1);
    // Only the low 32 bits of the size count.
    assert_eq!(bit_mask(1 << 32), 0);
    assert_eq!(bit_mask((1 << 32) + 4), 15);
}

#[test]
fn mask_cuts_the_signal() {
    let payload: u64 = 0x8877_6655_4433_2211;
    assert_eq!((payload >> 24) & bit_mask(16), 0x5544);
    assert_eq!((payload >> 63) & bit_mask(1), 1);
}

#[test]
fn integer_types() {
    let dbc = empty();
    let id = MessageId(1);
    let cases = [
        (0, DecodedType::I64, DecodedType::U64),
        (1, DecodedType::Bool, DecodedType::Bool),
        (2, DecodedType::I8, DecodedType::U8),
        (8, DecodedType::I8, DecodedType::U8),
        (9, DecodedType::I16, DecodedType::U16),
        (16, DecodedType::I16, DecodedType::U16),
        (17, DecodedType::I32, DecodedType::U32),
        (32, DecodedType::I32, DecodedType::U32),
        (33, DecodedType::I64, DecodedType::U64),
        (64, DecodedType::I64, DecodedType::U64),
        (65, DecodedType::I64, DecodedType::U64),
    ];
    for (size, signed, unsigned) in cases {
        assert_eq!(decoded_type(&dbc, id, &signal(ValueType::Signed, size, 1.0, 0.0)), signed);
        assert_eq!(decoded_type(&dbc, id, &signal(ValueType::Unsigned, size, 1.0, 0.0)), unsigned);
    }
}

#[test]
fn floating_types() {
    let mut dbc = empty();
    let id = MessageId(1);
    let plain = signal(ValueType::Unsigned, 8, 1.0, 0.0);
    let scaled = signal(ValueType::Unsigned, 8, 0.5, 0.0);
    let moved = signal(ValueType::Unsigned, 1, 1.0, -40.0);
    assert_eq!(decoded_type(&dbc, id, &scaled), DecodedType::Float64);
    assert_eq!(decoded_type(&dbc, id, &moved), DecodedType::Float64);
    let mut entry = SignalExtendedValueTypeList {
        message_id: id,
        signal_name: "Signal".to_string(),
        signal_extended_value_type: SignalExtendedValueType::IEEEfloat32Bit,
    };
    dbc.signal_extended_value_type_list = vec![entry.clone()];
    assert_eq!(decoded_type(&dbc, id, &plain), DecodedType::Float32);
    assert_eq!(decoded_type(&dbc, MessageId(2), &plain), DecodedType::U8);
    entry.signal_extended_value_type = SignalExtendedValueType::IEEEdouble64bit;
    dbc.signal_extended_value_type_list = vec![entry.clone()];
    assert_eq!(decoded_type(&dbc, id, &plain), DecodedType::Float64);
    entry.signal_extended_value_type = SignalExtendedValueType::SignedOrUnsignedInteger;
    dbc.signal_extended_value_type_list = vec![entry];
    assert_eq!(decoded_type(&dbc, id, &plain), DecodedType::U8);
    assert_eq!(decoded_type(&dbc, id, &scaled), DecodedType::Float64);
}

#[test]
fn frame_ids() {
    assert_eq!(decoded_frame_id(MessageId(0x123)), 0x123);
    assert_eq!(decoded_frame_id(MessageId(0x7ff)), 0x7ff);
    assert_eq!(decoded_frame_id(MessageId(0x800)), 0x800);
    assert_eq!(decoded_frame_id(MessageId(0x8cf0_04fe)), 0x0cf0_04fe);
    assert_eq!(decoded_frame_id(MessageId(0x8000_07ff)), 0x7ff);
    assert_eq!(decoded_frame_id(MessageId(u32::MAX)), 0x1fff_ffff);
    assert!(is_standard_id(MessageId(0x8000_07ff)));
    assert!(!is_standard_id(MessageId(0x800)));
}
