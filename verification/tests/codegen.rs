use dbcc::checked::{
    try_can_code_gen, try_decode_signal_enum, try_decode_signal_raw, try_message_decoder,
    try_message_stream, try_message_struct, try_signal_enum, try_signal_enum_impl_from,
    try_signal_field,
};
use dbcc::double::Real;
use dbcc::message::{
    decoded_frame_id, is_standard_id, message_decoder_named, message_impl_named,
};
use dbcc::model::{
    ByteOrder, Comment, Message, MessageId, MultiplexIndicator, Signal, SignalExtendedValueType,
    SignalExtendedValueTypeList, ValDescription, ValueDescription, ValueType, Version, DBC,
};
use dbcc::naming::{message_names, MessageNames, SignalNames};
use dbcc::signal::wrap_multiplex_indicator_value;
use dbcc::{can_code_gen, signal_enum, DbccOpt};
use proc_macro2::TokenStream;
use socketcan::{EFF_MASK, SFF_MASK};
use tokio_socketcan_bcm::CANMessageId;

const EEC1: MessageId = MessageId(0x8cf0_04fe);

fn number(x: f64) -> Real {
    Real {
        bits: x.to_bits(),
        literal: format!("{:?}", x),
    }
}

fn signal(name: &str, start_bit: u64, signal_size: u64) -> Signal {
    Signal {
        name: name.to_string(),
        multiplexer_indicator: MultiplexIndicator::Plain,
        start_bit,
        signal_size,
        byte_order: ByteOrder::LittleEndian,
        value_type: ValueType::Unsigned,
        factor: number(1.0),
        offset: number(0.0),
        unit: String::new(),
    }
}

fn description(value: f64, text: &str) -> ValDescription {
    ValDescription {
        a: value.to_bits(),
        b: text.to_string(),
    }
}

/// An engine message with a scaled, a described and a skipped signal, and an empty message.
fn sample() -> DBC {
    let mut speed = signal("EngineSpeed", 24, 16);
    speed.factor = number(0.125);
    speed.unit = "rpm".to_string();
    let mode = signal("Eng_Torque_Mode", 0, 4);
    let beyond = signal("Beyond", 64, 8);
    DBC {
        version: Version("1.0".to_string()),
        messages: vec![
            Message {
                message_id: EEC1,
                message_name: "EEC1".to_string(),
                signals: vec![speed, mode, beyond],
            },
            Message {
                message_id: MessageId(291),
                message_name: "Empty_message".to_string(),
                signals: Vec::new(),
            },
        ],
        comments: vec![
            Comment::Plain {
                comment: "plain".to_string(),
            },
            Comment::Signal {
                message_id: MessageId(291),
                signal_name: "Eng_Torque_Mode".to_string(),
                comment: "of another message".to_string(),
            },
            Comment::Signal {
                message_id: EEC1,
                signal_name: "Eng_Torque_Mode".to_string(),
                comment: "Torque \"mode\"".to_string(),
            },
            Comment::Message {
                message_id: EEC1,
                comment: "Engine".to_string(),
            },
        ],
        value_descriptions: vec![
            ValueDescription::EnvironmentVariable {
                env_var_name: "Env".to_string(),
                value_descriptions: vec![description(0.0, "Zero")],
            },
            ValueDescription::Signal {
                message_id: EEC1,
                signal_name: "Eng_Torque_Mode".to_string(),
                value_descriptions: vec![
                    description(0.0, "Low idle governor/no request"),
                    description(15.0, "2nd, can't tell"),
                ],
            },
        ],
        signal_extended_value_type_list: Vec::new(),
    }
}

fn squeezed(text: &str) -> String {
    text.split_whitespace().collect()
}

fn assert_code(tokens: &TokenStream, expected: &str) {
    assert_eq!(squeezed(&tokens.to_string()), squeezed(expected));
}

fn opt() -> DbccOpt {
    DbccOpt { with_tokio: false }
}

#[test]
fn field_of_a_raw_value() {
    let dbc = sample();
    let speed = &dbc.messages[0].signals[0];
    let tokens = try_signal_field(&dbc, speed, EEC1).unwrap();
    assert_eq!(
        tokens.to_string(),
        "# [doc = \"Read EngineSpeed signal from can frame\\nUnit: rpm\"] engine_speed_raw_value : f64 ,"
    );
    let mode = &dbc.messages[0].signals[1];
    assert_eq!(
        try_signal_field(&dbc, mode, EEC1).unwrap().to_string(),
        "# [doc = \"Torque \\\"mode\\\"\"] eng_torque_mode_raw_value : u8 ,"
    );
    let mut multiplexed = mode.clone();
    multiplexed.multiplexer_indicator = MultiplexIndicator::MultiplexedSignal(3);
    assert_eq!(
        try_signal_field(&dbc, &multiplexed, MessageId(5)).unwrap().to_string(),
        "# [doc = \"Read Eng_Torque_Mode signal from can frame\"] eng_torque_mode_raw_value : Option < u8 > ,"
    );
    assert!(try_signal_field(&dbc, &signal("1st", 0, 8), EEC1).is_none());
}

#[test]
fn decoding_of_an_integer() {
    let dbc = sample();
    let tokens = try_decode_signal_raw(&dbc, &signal("Plain", 0, 8), EEC1).unwrap();
    assert_eq!(
        tokens.to_string(),
        "let frame_payload : u64 = LE :: read_u64 (frame . data ()) ; \
         let plain_raw_value : u8 = (frame_payload & 255) as u8 ;"
    );
    let mut big = signal("Big", 7, 8);
    big.byte_order = ByteOrder::BigEndian;
    big.value_type = ValueType::Signed;
    assert_eq!(
        try_decode_signal_raw(&dbc, &big, EEC1).unwrap().to_string(),
        "let frame_payload : u64 = BE :: read_u64 (frame . data ()) ; \
         let big_raw_value : i8 = ((frame_payload >> 55) & 255) as i8 ;"
    );
}

#[test]
fn decoding_of_a_scaled_value() {
    let dbc = sample();
    let mut scaled = signal("Temperature", 8, 8);
    scaled.factor = number(0.5);
    scaled.offset = number(-40.0);
    assert_code(
        &try_decode_signal_raw(&dbc, &scaled, EEC1).unwrap(),
        "let frame_payload: u64 = LE::read_u64(frame.data());
         let temperature_raw_value: f64 = ((frame_payload >> 8) & 255) as f64 * 0.5 + -40.0;",
    );
    // The sign of a literal is a token of its own.
    let count = try_decode_signal_raw(&dbc, &scaled, EEC1).unwrap().into_iter().count();
    scaled.offset = number(40.0);
    let without_sign = try_decode_signal_raw(&dbc, &scaled, EEC1).unwrap().into_iter().count();
    assert_eq!(count, without_sign + 1);
    scaled.offset = number(f64::NAN);
    assert!(try_decode_signal_raw(&dbc, &scaled, EEC1).is_none());
}

#[test]
fn decoding_of_a_truth_value() {
    let dbc = sample();
    let mut flag = signal("Flag", 5, 1);
    assert_code(
        &try_decode_signal_raw(&dbc, &flag, EEC1).unwrap(),
        "let frame_payload: u64 = LE::read_u64(frame.data());
         let flag_raw_value: bool = (((frame_payload >> 5) & 1)) == 1;",
    );
    flag.factor = number(2.0);
    assert_code(
        &try_decode_signal_raw(&dbc, &flag, EEC1).unwrap(),
        "let frame_payload: u64 = LE::read_u64(frame.data());
         let flag_raw_value: f64 = ((frame_payload >> 5) & 1) as f64 * 2.0;",
    );
}

#[test]
fn decoding_with_an_extended_value_type() {
    let mut dbc = sample();
    dbc.signal_extended_value_type_list.push(SignalExtendedValueTypeList {
        message_id: EEC1,
        signal_name: "Flag".to_string(),
        signal_extended_value_type: SignalExtendedValueType::IEEEfloat32Bit,
    });
    assert_code(
        &try_decode_signal_raw(&dbc, &signal("Flag", 0, 32), EEC1).unwrap(),
        "let frame_payload: u64 = LE::read_u64(frame.data());
         let flag_raw_value: f32 = (frame_payload & 4294967295) as f32;",
    );
}

#[test]
fn decoding_of_a_multiplexed_signal() {
    let mut dbc = sample();
    let mut multiplexed = signal("Part", 8, 8);
    multiplexed.multiplexer_indicator = MultiplexIndicator::MultiplexedSignal(1);
    // Without a switch there is nothing to tell the parts apart by.
    assert!(try_decode_signal_raw(&dbc, &multiplexed, EEC1).is_none());
    let mut switch = signal("Switch", 0, 8);
    switch.multiplexer_indicator = MultiplexIndicator::Multiplexor;
    dbc.messages[0].signals.push(switch);
    assert_code(
        &try_decode_signal_raw(&dbc, &multiplexed, EEC1).unwrap(),
        "let frame_payload: u64 = LE::read_u64(frame.data());
         let part_raw_value: Option<u8> = if (LE::read_u64(frame.data()) & 255) == 1 {
             Some(((frame_payload >> 8) & 255) as u8)
         } else {
             None
         };",
    );
    let enum_type = "PartKind".parse().unwrap();
    assert_code(
        &try_decode_signal_enum(&multiplexed, enum_type).unwrap(),
        "let part = todo!();",
    );
}

#[test]
fn multiplexed_signals_follow_their_switch() {
    let mut dbc = sample();
    let mut switch = signal("Switch", 7, 4);
    switch.byte_order = ByteOrder::BigEndian;
    switch.multiplexer_indicator = MultiplexIndicator::Multiplexor;
    let mut flag = signal("Flag", 8, 1);
    flag.multiplexer_indicator = MultiplexIndicator::MultiplexedSignal(2);
    let mut level = signal("Level", 8, 8);
    level.factor = number(0.5);
    level.multiplexer_indicator = MultiplexIndicator::MultiplexedSignal(3);
    dbc.messages[1].signals = vec![flag, switch, level];
    assert_code(
        &try_message_decoder(&opt(), &dbc, &dbc.messages[1]).unwrap(),
        "291u32 => {
             let frame_payload: u64 = LE::read_u64(frame.data());
             let flag_raw_value: Option<bool> =
                 if ((BE::read_u64(frame.data()) >> 59) & 15) == 2 {
                     Some((((frame_payload >> 8) & 1)) == 1)
                 } else {
                     None
                 };
             let frame_payload: u64 = BE::read_u64(frame.data());
             let switch_raw_value: u8 = ((frame_payload >> 59) & 15) as u8;
             let frame_payload: u64 = LE::read_u64(frame.data());
             let level_raw_value: Option<f64> =
                 if ((BE::read_u64(frame.data()) >> 59) & 15) == 3 {
                     Some(((frame_payload >> 8) & 255) as f64 * 0.5)
                 } else {
                     None
                 };
             DecodedFrame::EmptyMessage { flag_raw_value, switch_raw_value, level_raw_value, }
         },",
    );
}

#[test]
fn switch_values_are_told_apart() {
    let switch = signal("Switch", 0, 8);
    let mut part = signal("Part", 8, 8);
    let mut value_with = |switch_value: u64| {
        part.multiplexer_indicator = MultiplexIndicator::MultiplexedSignal(switch_value);
        let value = "x".parse().unwrap();
        wrap_multiplex_indicator_value(&part, Some(&switch), value).to_string()
    };
    assert_ne!(value_with(1), value_with(2));
    assert_eq!(
        value_with(u64::MAX),
        "if (LE :: read_u64 (frame . data ()) & 255) == 18446744073709551615 \
         { Some (x) } else { None }"
    );
}

#[test]
fn switches_that_cannot_be_read() {
    // A switch beyond the payload has no value, so it never lets a signal through.
    let mut part = signal("Part", 8, 8);
    let far = signal("Switch", 64, 8);
    let mut wide = signal("Switch", 7, 64);
    wide.byte_order = ByteOrder::BigEndian;
    let wrapped = |part: &Signal, switch: Option<&Signal>| {
        wrap_multiplex_indicator_value(part, switch, "x".parse().unwrap()).to_string()
    };
    for switch in [None, Some(&far), Some(&wide)] {
        assert_eq!(wrapped(&part, switch), "x");
    }
    part.multiplexer_indicator = MultiplexIndicator::MultiplexedSignal(1);
    for switch in [None, Some(&far), Some(&wide)] {
        assert_eq!(wrapped(&part, switch), "None");
    }
}

#[test]
fn skipped_signals_are_not_decoded() {
    let dbc = sample();
    let beyond = &dbc.messages[0].signals[2];
    assert!(try_decode_signal_raw(&dbc, beyond, EEC1).unwrap().is_empty());
    let mut shorter = dbc.messages[0].clone();
    shorter.signals.remove(2);
    assert_eq!(
        try_message_struct(&opt(), &dbc, &dbc.messages[0]).unwrap().to_string(),
        try_message_struct(&opt(), &dbc, &shorter).unwrap().to_string()
    );
    assert_eq!(
        try_message_decoder(&opt(), &dbc, &dbc.messages[0]).unwrap().to_string(),
        try_message_decoder(&opt(), &dbc, &shorter).unwrap().to_string()
    );
}

#[test]
fn misplaced_signals_are_refused() {
    let mut dbc = sample();
    let mut wide = signal("Wide", 7, 64);
    wide.byte_order = ByteOrder::BigEndian;
    assert!(try_decode_signal_raw(&dbc, &wide, EEC1).is_none());
    dbc.messages[0].signals.push(wide);
    assert!(try_message_struct(&opt(), &dbc, &dbc.messages[0]).is_none());
    assert!(try_message_decoder(&opt(), &dbc, &dbc.messages[0]).is_none());
    assert!(try_can_code_gen(&opt(), &dbc, "f", "h").is_none());
}

#[test]
fn decoding_into_an_enum() {
    let tokens = try_decode_signal_enum(&signal("EngMode", 0, 4), "EngMode7".parse().unwrap());
    assert_eq!(
        tokens.unwrap().to_string(),
        "let eng_mode = EngMode7 :: from (eng_mode_raw_value) ;"
    );
    assert!(try_decode_signal_enum(&signal("", 0, 4), TokenStream::new()).is_none());
}

const MODE_IMPL: &str = "
    impl From<u8> for EngTorqueMode2364540158 {
        #[allow(dead_code)]
        fn from(val: u8) -> Self {
            match val as u64 {
                0 => Self::LowIdleGovernorNoRequest,
                15 => Self::X2ndCanXtTell,
                _ => Self::XValue(val),
            }
        }
    }";

const MODE_ENUM: &str = "
    #[allow(dead_code)]
    #[derive(Debug, Clone, Copy, PartialEq)]
    #[repr(u64)]
    pub enum EngTorqueMode2364540158 {
        LowIdleGovernorNoRequest,
        X2ndCanXtTell,
        XValue(u8),
    }";

#[test]
fn enum_of_described_values() {
    let dbc = sample();
    let val_desc = &dbc.value_descriptions[1];
    assert_code(
        &try_signal_enum(&dbc, val_desc).unwrap(),
        &format!("{}{}", MODE_ENUM, MODE_IMPL),
    );
    assert_code(
        &try_signal_enum_impl_from(&dbc, val_desc).unwrap().unwrap(),
        MODE_IMPL,
    );
}

#[test]
fn enum_of_an_environment_variable() {
    let dbc = sample();
    let val_desc = &dbc.value_descriptions[0];
    assert!(signal_enum(&dbc, val_desc).is_empty());
    assert!(try_signal_enum(&dbc, val_desc).unwrap().is_empty());
    assert!(try_signal_enum_impl_from(&dbc, val_desc).unwrap().is_none());
}

#[test]
fn enum_without_values() {
    let dbc = sample();
    let val_desc = ValueDescription::Signal {
        message_id: EEC1,
        signal_name: "EngineSpeed".to_string(),
        value_descriptions: Vec::new(),
    };
    assert_code(
        &try_signal_enum(&dbc, &val_desc).unwrap(),
        "#[allow(dead_code)]
         #[derive(Debug, Clone, Copy, PartialEq)]
         #[repr(u64)]
         pub enum EngineSpeed2364540158 { , XValue(f64), }
         impl From<f64> for EngineSpeed2364540158 {
             #[allow(dead_code)]
             fn from(val: f64) -> Self {
                 match val as u64 { , _ => Self::XValue(val), }
             }
         }",
    );
}

#[test]
fn enums_that_cannot_be_written() {
    let mut dbc = sample();
    let unknown = ValueDescription::Signal {
        message_id: EEC1,
        signal_name: "Unknown".to_string(),
        value_descriptions: Vec::new(),
    };
    assert!(try_signal_enum(&dbc, &unknown).is_none());
    assert!(try_signal_enum_impl_from(&dbc, &unknown).is_none());
    let unnamed = ValueDescription::Signal {
        message_id: EEC1,
        signal_name: "EngineSpeed".to_string(),
        value_descriptions: vec![description(1.0, "...")],
    };
    assert!(try_signal_enum(&dbc, &unnamed).is_none());
    dbc.value_descriptions.push(unnamed);
    assert!(try_can_code_gen(&opt(), &dbc, "f", "h").is_none());
}

const EEC1_VARIANT: &str = "
    #[doc = \"Engine\"]
    Eec1 {
        #[doc = \"Read EngineSpeed signal from can frame\\nUnit: rpm\"]
        engine_speed_raw_value: f64,
        #[doc = \"Torque \\\"mode\\\"\"]
        eng_torque_mode_raw_value: u8,
        #[doc = \"Torque \\\"mode\\\"\"]
        eng_torque_mode: EngTorqueMode2364540158,
    }";

const EEC1_ARM: &str = "
    217056510u32 => {
        let frame_payload: u64 = LE::read_u64(frame.data());
        let engine_speed_raw_value: f64 = ((frame_payload >> 24) & 65535) as f64 * 0.125;
        let frame_payload: u64 = LE::read_u64(frame.data());
        let eng_torque_mode_raw_value: u8 = (frame_payload & 15) as u8;
        let eng_torque_mode = EngTorqueMode2364540158::from(eng_torque_mode_raw_value);
        DecodedFrame::Eec1 {
            engine_speed_raw_value,
            eng_torque_mode_raw_value,
            eng_torque_mode,
        }
    },";

#[test]
fn variant_of_a_message() {
    let dbc = sample();
    assert_code(
        &try_message_struct(&opt(), &dbc, &dbc.messages[0]).unwrap(),
        EEC1_VARIANT,
    );
    assert_eq!(
        try_message_struct(&opt(), &dbc, &dbc.messages[1]).unwrap().to_string(),
        "# [doc = \"\"] EmptyMessage { }"
    );
}

#[test]
fn arm_of_a_message() {
    let dbc = sample();
    assert_code(
        &try_message_decoder(&opt(), &dbc, &dbc.messages[0]).unwrap(),
        EEC1_ARM,
    );
    assert_eq!(
        try_message_decoder(&opt(), &dbc, &dbc.messages[1]).unwrap().to_string(),
        "291u32 => { DecodedFrame :: EmptyMessage { } } ,"
    );
}

#[test]
fn declared_fields_are_filled() {
    // Each field that the variant declares is listed at the end of the arm, in order.
    let dbc = sample();
    let variant = squeezed(&try_message_struct(&opt(), &dbc, &dbc.messages[0]).unwrap().to_string());
    let arm = squeezed(&try_message_decoder(&opt(), &dbc, &dbc.messages[0]).unwrap().to_string());
    for (name, ty) in [("engine_speed_raw_value", "f64"), ("eng_torque_mode_raw_value", "u8")] {
        assert!(variant.contains(&format!("{}:{},", name, ty)));
        assert!(arm.contains(&format!("let{}:{}=", name, ty)));
    }
    assert!(arm.ends_with("{engine_speed_raw_value,eng_torque_mode_raw_value,eng_torque_mode,}},"));
}

#[test]
fn enum_types_are_declared() {
    let code = try_can_code_gen(&opt(), &sample(), "f", "h").unwrap().to_string();
    assert!(code.contains("eng_torque_mode : EngTorqueMode2364540158 ,"));
    assert!(code.contains("pub enum EngTorqueMode2364540158 {"));
    assert!(code.contains("eng_torque_mode_raw_value : u8 ,"));
    assert!(code.contains("impl From < u8 > for EngTorqueMode2364540158 {"));
}

#[test]
fn messages_of_one_frame_id() {
    let dbc = sample();
    let mut flagged = dbc.messages[1].clone();
    flagged.message_id = MessageId(0x8000_0000 + 291);
    assert_eq!(
        try_message_decoder(&opt(), &dbc, &flagged).unwrap().to_string(),
        try_message_decoder(&opt(), &dbc, &dbc.messages[1]).unwrap().to_string()
    );
    flagged.message_id = MessageId(292);
    assert_eq!(
        try_message_decoder(&opt(), &dbc, &flagged).unwrap().to_string(),
        "292u32 => { DecodedFrame :: EmptyMessage { } } ,"
    );
}

#[test]
fn operators_keep_their_spacing() {
    let stream = try_message_stream(&sample().messages[0]).unwrap().to_string();
    assert!(stream.contains("std :: io :: Error >> > {"));
    assert!(stream.contains("-> std :: io :: Result < impl Stream < Item = Result < Self ,"));
}

#[test]
fn arm_with_given_names() {
    let dbc = sample();
    let mut names = message_names(&dbc.messages[0]);
    names.camel = "Renamed".to_string();
    names.signals[0].snake = "rpm".to_string();
    let tokens = message_decoder_named(&dbc, &dbc.messages[0], &names).unwrap().to_string();
    assert!(tokens.contains("let rpm_raw_value : f64"));
    assert!(tokens.contains("DecodedFrame :: Renamed { rpm_raw_value ,"));
    let bare = MessageNames {
        camel: "M".to_string(),
        shouty: String::new(),
        signals: vec![
            SignalNames { snake: "a".to_string(), camel: "A".to_string() },
            SignalNames { snake: "b".to_string(), camel: "B".to_string() },
            SignalNames { snake: "c".to_string(), camel: "C".to_string() },
        ],
    };
    let tokens = message_decoder_named(&dbc, &dbc.messages[0], &bare).unwrap().to_string();
    assert!(tokens.contains("let b = B2364540158 :: from (b_raw_value) ;"));
}

#[test]
fn stream_of_a_message() {
    let expected = |id: &str, name: &str| {
        format!(
            "#[allow(dead_code)]
            pub fn stream(can_interface: &str, ival1: &std::time::Duration, ival2: &std::time::Duration) -> std::io::Result<impl Stream<Item = Result<Self, std::io::Error>>> {{
                let socket = tokio_socketcan_bcm::BCMSocket::open_nb(&can_interface).unwrap();
                let message_id = tokio_socketcan_bcm::CANMessageId::{};
                let frame_stream = socket.filter_id_incoming_frames(message_id, *ival1, *ival2).unwrap();
                let f = frame_stream.map(|frame| frame.map(|frame| {}::new(frame.data().to_vec())));
                Ok(f)
            }}",
            id, name
        )
    };
    let dbc = sample();
    assert_code(
        &try_message_stream(&dbc.messages[0]).unwrap(),
        &expected("EFF(Self::ID & EFF_MASK)", "Eec1"),
    );
    assert_code(
        &try_message_stream(&dbc.messages[1]).unwrap(),
        &expected("SFF((Self::ID & SFF_MASK) as u16)", "EmptyMessage"),
    );
    let mut unnamed = dbc.messages[1].clone();
    unnamed.message_name = "2nd".to_string();
    assert!(try_message_stream(&unnamed).is_none());
}

/// What a generated stream function does to open its stream, for a message of either frame format.
#[allow(dead_code)]
fn opened(
    can_interface: &str,
    message_id: CANMessageId,
    ival1: &std::time::Duration,
    ival2: &std::time::Duration,
) -> tokio_socketcan_bcm::BcmFrameStream {
    let socket = tokio_socketcan_bcm::BCMSocket::open_nb(&can_interface).unwrap();
    socket.filter_id_incoming_frames(message_id, *ival1, *ival2).unwrap()
}

#[test]
fn stream_filters_by_the_id_of_the_message() {
    for id in [0, 291, 0x7ff, 0x800, 0x1fff_ffff, EEC1.0] {
        let message_id = if is_standard_id(MessageId(id)) {
            CANMessageId::SFF((id & SFF_MASK) as u16)
        } else {
            CANMessageId::EFF(id & EFF_MASK)
        };
        assert_eq!(u32::from(message_id), decoded_frame_id(MessageId(id)));
        assert_eq!(Ok(message_id), CANMessageId::try_from(id));
    }
}

fn expected_code(streams: bool) -> String {
    let origin = "#[doc = \"Generated based on\\nFile Name: j1939.dbc\\nDBC Version: 1.0\\nBlake2b: 00\"]
        use byteorder::{ByteOrder, LE, BE};";
    let messages = "
        #[allow(dead_code)]
        pub const MESSAGE_ID_EEC1: u32 = 2364540158u32;
        #[allow(dead_code)]
        pub const MESSAGE_ID_EMPTY_MESSAGE: u32 = 291u32;
        #[allow(dead_code)]
        pub struct Eec1;
        impl Eec1 {
            #[allow(dead_code)]
            pub const ID: u32 = 2364540158u32;
        }
        #[allow(dead_code)]
        pub struct EmptyMessage;
        impl EmptyMessage {
            #[allow(dead_code)]
            pub const ID: u32 = 291u32;
        }";
    let unknown = if streams {
        "#[doc = r\" Frame that is not listed in dbc\"]
         UnknownFrame(tokio_socketcan::CANFrame),"
    } else {
        ""
    };
    let frames = format!(
        "#[derive(Debug, Clone)]
        pub enum DecodedFrame {{
            {}
            {},
            #[doc = \"\"] EmptyMessage {{ }},
        }}",
        unknown, EEC1_VARIANT
    );
    let frame_stream = format!(
        "pub struct DecodedFrameStream {{
            can_socket: tokio_socketcan::CANSocket,
        }}
        impl DecodedFrameStream {{
            pub fn new(can_socket: tokio_socketcan::CANSocket) -> Self {{
                Self {{
                    can_socket
                }}
            }}
            pub fn stream(self) -> impl futures::Stream<Item = Result<DecodedFrame, std::io::Error>> {{
                self.can_socket.map_ok(|frame| {{
                    match frame.id() {{
                        {}
                        291u32 => {{ DecodedFrame::EmptyMessage {{ }} }},
                        _ => DecodedFrame::UnknownFrame(frame),
                    }}
                }})
            }}
        }}",
        EEC1_ARM
    );
    let (imports, frame_stream) = if streams {
        (TOKIO_IMPORTS, frame_stream.as_str())
    } else {
        ("", "")
    };
    [origin, imports, messages, MODE_ENUM, MODE_IMPL, frames.as_str(), frame_stream].concat()
}

const TOKIO_IMPORTS: &str = "
    use socketcan::{CANFilter, EFF_MASK, EFF_FLAG, SFF_MASK};
    use tokio_socketcan::CANSocket;
    use futures::stream::{Stream, StreamExt, TryStreamExt};";

#[test]
fn code_of_a_database() {
    let dbc = sample();
    let tokens = try_can_code_gen(&opt(), &dbc, "j1939.dbc", "Blake2b: 00").unwrap();
    assert_code(&tokens, &expected_code(false));
    let same = can_code_gen(&opt(), &dbc, "j1939.dbc", "Blake2b: 00").unwrap();
    assert_eq!(same.to_string(), tokens.to_string());
}

#[test]
fn streams_are_generated_on_demand() {
    let with_tokio = DbccOpt { with_tokio: true };
    let tokens = try_can_code_gen(&with_tokio, &sample(), "j1939.dbc", "Blake2b: 00").unwrap();
    assert_code(&tokens, &expected_code(true));
    assert!(tokens.to_string().contains("tokio_socketcan :: "));
    let tokens = try_can_code_gen(&opt(), &sample(), "j1939.dbc", "Blake2b: 00").unwrap();
    for name in ["tokio", "socketcan", "futures", "Stream", "UnknownFrame"] {
        assert!(!tokens.to_string().contains(name), "{}", name);
    }
}

#[test]
fn ids_are_associated_constants() {
    let message = &sample().messages[0];
    let mut names = message_names(message);
    names.camel = "Engine".to_string();
    assert_eq!(
        message_impl_named(message, &names).to_string(),
        "# [allow (dead_code)] pub struct Engine ; \
         impl Engine { # [allow (dead_code)] pub const ID : u32 = 2364540158u32 ; }"
    );
}

#[test]
fn databases_that_cannot_be_written() {
    let mut dbc = sample();
    dbc.messages[1].message_name = "...".to_string();
    assert!(try_can_code_gen(&opt(), &dbc, "f", "h").is_none());
    let mut dbc = sample();
    dbc.messages[1].signals.push(signal("1st", 0, 8));
    assert!(try_can_code_gen(&opt(), &dbc, "f", "h").is_none());
    let mut dbc = sample();
    let mut multiplexed = signal("Part", 0, 8);
    multiplexed.multiplexer_indicator = MultiplexIndicator::MultiplexedSignal(1);
    dbc.messages[1].signals.push(multiplexed);
    assert!(try_can_code_gen(&opt(), &dbc, "f", "h").is_none());
}

#[test]
fn lookups_take_the_first() {
    let mut dbc = sample();
    let mut again = dbc.messages[0].clone();
    again.signals[0].unit = "other".to_string();
    dbc.messages.push(again);
    assert_eq!(dbc.signal_by_name(EEC1, "EngineSpeed").unwrap().unit, "rpm");
    assert!(dbc.signal_by_name(EEC1, "Missing").is_none());
    assert!(dbc.signal_by_name(MessageId(1), "EngineSpeed").is_none());
    assert_eq!(dbc.message_comment(EEC1), Some("Engine"));
    assert_eq!(dbc.message_comment(MessageId(291)), None);
    assert_eq!(dbc.signal_comment(EEC1, "Eng_Torque_Mode"), Some("Torque \"mode\""));
    assert_eq!(dbc.signal_comment(EEC1, "EngineSpeed"), None);
    let found = dbc.value_descriptions_for_signal(EEC1, "Eng_Torque_Mode").unwrap();
    assert_eq!(found.len(), 2);
    assert!(dbc.value_descriptions_for_signal(EEC1, "Env").is_none());
    assert!(dbc.message_multiplexor_switch(EEC1).is_none());
    assert!(dbc.extended_value_type_for_signal(EEC1, "EngineSpeed").is_none());
}
