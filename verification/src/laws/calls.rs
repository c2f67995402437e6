//! What the results of calls satisfy, and how the results of two calls relate.
use crate::checked::{
    try_can_code_gen, try_decode_signal_enum, try_decode_signal_raw, try_message_const,
    try_message_decoder, try_message_stream, try_message_struct, try_signal_enum,
    try_signal_enum_impl_from, try_signal_field, try_to_enum_name,
};
use crate::database::{
    all_switches_present, can_code_gen, code_tokens, dbc_writable, origin_doc, origin_doc_text,
};
use crate::DbccOpt;
use crate::description::{
    enum_writable, signal_enum, signal_enum_impl_from, signal_enum_impl_from_tokens,
    signal_enum_tokens,
};
use crate::double::{real_to_u64, saturated, Real};
use crate::ident::{ident_text, is_ident, is_kept_char, is_prefixed, TypeName};
use crate::laws::bits::{
    big_endian_position, law_big_endian_shift_follows_start_bit_and_size,
    law_big_endian_signals_end_below_their_start_bit, law_frame_id_is_the_low_bits,
    law_mask_of_wide_signals, law_signals_within_the_payload_are_decoded,
};
use crate::laws::{describes, digits_value, law_mask_keeps_low_bits};
use crate::laws::doubles::digits;
use crate::laws::lookup::{
    comments_message, comments_signal, first_message, law_descriptions_are_the_first_ones,
    law_extended_type_is_that_of_the_first_entry, law_message_comment_is_the_first_one,
    law_signal_comment_is_the_first_one, law_signal_is_the_first_of_its_name,
    law_switch_is_the_first_multiplexor, types_signal, values_of,
};
use crate::laws::names::{alphabetic_char, law_decimal_stands_for_the_number, word_char};
use crate::layout::{
    bit_mask, decoded_type, decoded_type_of, is_kept, is_placed, is_readable, kept, shift_amount,
    DecodedType,
};
use crate::message::{
    decoded_frame_id, is_standard_id, message_const, message_const_tokens, message_declarable,
    message_decodable, message_decoder, message_decoder_tokens, message_impl_named,
    message_impl_tokens, message_struct, message_struct_tokens, switches_present,
};
use crate::model::{
    ByteOrder, DBC, Message, MessageId, Signal, SignalExtendedValueType, ValDescription,
    ValueDescription,
};
use crate::naming::{
    camel_case_of, const_name, dbc_names, dbc_words, decimal_text, enum_name, enum_names,
    enum_words, message_const_name, message_names, message_words, raw_field_name, raw_name,
    shouty_snake_case_of, signal_enum_name, signal_names, signal_words, snake_case_of, EnumNames,
    MessageNames, Names, SignalNames,
};
use crate::signal::{
    calc_raw, calc_tokens, decode_signal_enum, decode_signal_raw, enum_decoder_tokens,
    enum_name_tokens, field_tokens, raw_decodable, raw_decoder_tokens, raw_field, scale_writable,
    signal_decoded_type, signal_doc, signal_doc_text, signal_field, switch_present, to_enum_name,
    wrap_multiplex_indicator_type, wrap_multiplex_indicator_value, wrapped_type, wrapped_value,
};
use crate::stream::{message_stream, message_stream_tokens};
use crate::tokens::{stream_tokens, Token};
use proc_macro2::TokenStream;
use vstd::arithmetic::power2::pow2;
use vstd::prelude::*;

verus! {

/// Of two big endian signals of one size, the one a byte further is shifted by eight less.
pub proof fn law_next_byte_is_shifted_eight_less(
    start_bit: u64,
    next: u64,
    signal_size: u64,
    a: u64,
    b: u64,
)
    requires
        next == start_bit + 8,
        call_ensures(shift_amount, (ByteOrder::BigEndian, start_bit, signal_size), a),
        call_ensures(shift_amount, (ByteOrder::BigEndian, next, signal_size), b),
    ensures
        a == b + 8,
{
    law_big_endian_shift_follows_start_bit_and_size(start_bit as int, signal_size as int);
}

/// Of two big endian signals of one size, the one a bit lower in the same byte is shifted by one
/// less.
pub proof fn law_lower_bit_is_shifted_one_less(
    start_bit: u64,
    lower: u64,
    signal_size: u64,
    a: u64,
    b: u64,
)
    requires
        start_bit % 8 != 0,
        lower == start_bit - 1,
        call_ensures(shift_amount, (ByteOrder::BigEndian, start_bit, signal_size), a),
        call_ensures(shift_amount, (ByteOrder::BigEndian, lower, signal_size), b),
    ensures
        a == b + 1,
{
    law_big_endian_shift_follows_start_bit_and_size(start_bit as int, signal_size as int);
}

/// The shift of a little endian signal is its start bit; that of a big endian one and its size add
/// up to the position of its start bit.
pub proof fn law_shift_amount(byte_order: ByteOrder, start_bit: u64, signal_size: u64, r: u64)
    requires
        call_ensures(shift_amount, (byte_order, start_bit, signal_size), r),
    ensures
        byte_order is LittleEndian ==> r == start_bit,
        byte_order is BigEndian ==> r + signal_size == big_endian_position(start_bit as int),
{
    law_big_endian_signals_end_below_their_start_bit(start_bit as int, signal_size as int);
}

/// Little endian signals always have a place, and are kept and readable if they start within 64
/// bits; big endian ones have a place if their size fits below their start bit.
pub proof fn law_placed_kept_readable(signal: &Signal, p: bool, k: bool, r: bool)
    requires
        call_ensures(is_placed, (signal,), p),
        call_ensures(is_kept, (signal,), k),
        call_ensures(is_readable, (signal,), r),
    ensures
        signal.byte_order is LittleEndian ==> {
            &&& p
            &&& k <==> signal.start_bit < 64
            &&& r <==> signal.start_bit < 64
        },
        signal.byte_order is BigEndian ==> {
            &&& p <==> signal.signal_size <= big_endian_position(signal.start_bit as int)
            &&& k
            &&& r <==> p
        },
{
    law_signals_within_the_payload_are_decoded(*signal);
}

/// A mask has as many low bits as the signal, if these are fewer than 64, and only the low 32 bits
/// of the size count.
pub proof fn law_bit_mask(signal_size: u64, r: u64, x: u64)
    requires
        call_ensures(bit_mask, (signal_size,), r),
    ensures
        signal_size < 64 ==> r == pow2(signal_size as nat) - 1,
        signal_size < 64 ==> x & r == x as nat % pow2(signal_size as nat),
        64 <= signal_size < 0x1_0000_0000 ==> r == 0xffff_ffff_ffff_fffe,
{
    if signal_size < 64 {
        law_mask_keeps_low_bits(x, signal_size);
    }
    law_mask_of_wide_signals(signal_size as nat);
}

/// Sizes that agree in their low 32 bits have the same mask.
pub proof fn law_bit_masks_agree(signal_size: u64, a: u64, b: u64)
    requires
        signal_size + 0x1_0000_0000 <= u64::MAX,
        call_ensures(bit_mask, (signal_size,), a),
        call_ensures(bit_mask, ((signal_size + 0x1_0000_0000) as u64,), b),
    ensures
        a == b,
{
    law_mask_of_wide_signals(signal_size as nat);
}

/// The frame id is the id modulo 2^29, and it is standard if that is below 2^11.
pub proof fn law_decoded_frame_id(id: MessageId, r: u32, standard: bool)
    requires
        call_ensures(decoded_frame_id, (id,), r),
        call_ensures(is_standard_id, (id,), standard),
    ensures
        r == id.0 % 0x2000_0000,
        standard <==> id.0 % 0x2000_0000 < 0x800,
{
    law_frame_id_is_the_low_bits(id);
}

/// A double is converted to the integer its bits saturate to; it is one, zero or writable as its
/// bits and its text say.
pub proof fn law_reading_of_doubles(x: &Real, r: u64, one: bool, zero: bool, writable: bool)
    requires
        call_ensures(real_to_u64, (x.bits,), r),
        call_ensures(Real::is_one, (x,), one),
        call_ensures(Real::is_zero, (x,), zero),
        call_ensures(Real::is_writable, (x,), writable),
    ensures
        r == saturated(x.bits),
        one == x.one(),
        zero == x.zero(),
        writable == x.writable(),
{
}

/// A converted type name is as long as its text, and one longer exactly if the text starts with no
/// letter; its last characters are those of the text, with an `X` for each that cannot stand there.
pub proof fn law_to_type_name(s: &str, r: String, i: int)
    requires
        call_ensures(<str as TypeName>::to_type_name, (s,), r),
        0 <= i < s@.len(),
    ensures
        r@.len() == s@.len() + if alphabetic_char(s@[0]) {
            0int
        } else {
            1
        },
        !alphabetic_char(s@[0]) ==> r@[0] == 'X',
        r@[r@.len() - s@.len() + i] == if word_char(s@[i]) {
            s@[i]
        } else {
            'X'
        },
{
}

/// Prefix and replacement are decided by the character alone; identifiers by the text.
pub proof fn law_tests_of_characters(c: char, text: &str, p: bool, k: bool, ident: bool)
    requires
        call_ensures(is_prefixed, (c,), p),
        call_ensures(is_kept_char, (c,), k),
        call_ensures(is_ident, (text,), ident),
    ensures
        p <==> !alphabetic_char(c),
        k <==> word_char(c),
        ident == ident_text(text@),
{
}

/// A number in decimal is digits that stand for it, without a zero in front.
pub proof fn law_decimal_text(n: u32, r: String)
    requires
        call_ensures(decimal_text, (n,), r),
    ensures
        digits(r@),
        digits_value(r@) == n,
        n > 0 ==> r@[0] != '0',
{
    law_decimal_stands_for_the_number(n as nat);
}

/// The type of a signal is decided from the database, its message and itself.
pub proof fn law_decoded_type(dbc: &DBC, id: MessageId, signal: &Signal, r: DecodedType)
    requires
        call_ensures(decoded_type, (dbc, id, signal), r),
    ensures
        r == decoded_type_of(*dbc, id, *signal),
{
}

/// The extended value type that is found is that of the first entry with the id and the name.
pub proof fn law_extended_value_type_for_signal(
    dbc: &DBC,
    id: MessageId,
    name: &str,
    at: int,
    r: Option<&SignalExtendedValueType>,
)
    requires
        call_ensures(DBC::extended_value_type_for_signal, (dbc, id, name), r),
        0 <= at <= dbc.signal_extended_value_type_list@.len(),
        forall|j: int|
            0 <= j < at ==> !types_signal(
                #[trigger] dbc.signal_extended_value_type_list@[j],
                id,
                name@,
            ),
        at < dbc.signal_extended_value_type_list@.len() ==> types_signal(
            dbc.signal_extended_value_type_list@[at],
            id,
            name@,
        ),
    ensures
        r is Some <==> at < dbc.signal_extended_value_type_list@.len(),
        r matches Some(found) ==> *found
            == dbc.signal_extended_value_type_list@[at].signal_extended_value_type,
{
    law_extended_type_is_that_of_the_first_entry(*dbc, id, name@, at);
}

/// The signal that is found is the first of the name in the first message of the id.
pub proof fn law_signal_by_name(
    dbc: &DBC,
    id: MessageId,
    name: &str,
    m: int,
    k: int,
    r: Option<&Signal>,
)
    requires
        call_ensures(DBC::signal_by_name, (dbc, id, name), r),
        first_message(*dbc, id, m),
        m < dbc.messages@.len() ==> {
            &&& 0 <= k <= dbc.messages@[m].signals@.len()
            &&& forall|j: int|
                0 <= j < k ==> (#[trigger] dbc.messages@[m].signals@[j]).name@ != name@
            &&& k < dbc.messages@[m].signals@.len() ==> dbc.messages@[m].signals@[k].name@
                == name@
        },
    ensures
        r is Some <==> m < dbc.messages@.len() && k < dbc.messages@[m].signals@.len(),
        r matches Some(found) ==> *found == dbc.messages@[m].signals@[k],
{
    law_signal_is_the_first_of_its_name(*dbc, id, name@, m, k);
}

/// The switch that is found is the first multiplexor in the first message of the id.
pub proof fn law_message_multiplexor_switch(
    dbc: &DBC,
    id: MessageId,
    m: int,
    k: int,
    r: Option<&Signal>,
)
    requires
        call_ensures(DBC::message_multiplexor_switch, (dbc, id), r),
        first_message(*dbc, id, m),
        m < dbc.messages@.len() ==> {
            &&& 0 <= k <= dbc.messages@[m].signals@.len()
            &&& forall|j: int|
                0 <= j < k ==> !((
                #[trigger] dbc.messages@[m].signals@[j]).multiplexer_indicator is Multiplexor)
            &&& k < dbc.messages@[m].signals@.len()
                ==> dbc.messages@[m].signals@[k].multiplexer_indicator is Multiplexor
        },
    ensures
        r is Some <==> m < dbc.messages@.len() && k < dbc.messages@[m].signals@.len(),
        r matches Some(found) ==> *found == dbc.messages@[m].signals@[k],
{
    law_switch_is_the_first_multiplexor(*dbc, id, m, k);
}

/// The comment that is found is the first one on the message.
pub proof fn law_message_comment(dbc: &DBC, id: MessageId, at: int, r: Option<&str>)
    requires
        call_ensures(DBC::message_comment, (dbc, id), r),
        0 <= at <= dbc.comments@.len(),
        forall|j: int| 0 <= j < at ==> !comments_message(#[trigger] dbc.comments@[j], id),
        at < dbc.comments@.len() ==> comments_message(dbc.comments@[at], id),
    ensures
        r is Some <==> at < dbc.comments@.len(),
        r matches Some(found) ==> found@ == dbc.comments@[at]->Message_comment@,
{
    law_message_comment_is_the_first_one(*dbc, id, at);
}

/// The comment that is found is the first one on the signal.
pub proof fn law_signal_comment(dbc: &DBC, id: MessageId, name: &str, at: int, r: Option<&str>)
    requires
        call_ensures(DBC::signal_comment, (dbc, id, name), r),
        0 <= at <= dbc.comments@.len(),
        forall|j: int| 0 <= j < at ==> !comments_signal(#[trigger] dbc.comments@[j], id, name@),
        at < dbc.comments@.len() ==> comments_signal(dbc.comments@[at], id, name@),
    ensures
        r is Some <==> at < dbc.comments@.len(),
        r matches Some(found) ==> found@ == dbc.comments@[at]->Signal_comment@,
{
    law_signal_comment_is_the_first_one(*dbc, id, name@, at);
}

/// The value descriptions that are found are the first ones of the signal.
pub proof fn law_value_descriptions_for_signal(
    dbc: &DBC,
    id: MessageId,
    signal: Signal,
    name: &str,
    at: int,
    r: Option<&Vec<ValDescription>>,
)
    requires
        call_ensures(DBC::value_descriptions_for_signal, (dbc, id, name), r),
        signal.name@ == name@,
        0 <= at <= dbc.value_descriptions@.len(),
        forall|j: int|
            0 <= j < at ==> !describes(#[trigger] dbc.value_descriptions@[j], id, name@),
        at < dbc.value_descriptions@.len() ==> describes(dbc.value_descriptions@[at], id, name@),
    ensures
        r is Some <==> at < dbc.value_descriptions@.len(),
        r matches Some(found) ==> found@ == values_of(dbc.value_descriptions@[at]),
{
    law_descriptions_are_the_first_ones(*dbc, id, signal, at);
}

/// The name of a raw field is made from the given name.
pub proof fn law_raw_field_name(snake: &str, r: String)
    requires
        call_ensures(raw_field_name, (snake,), r),
    ensures
        r@ == raw_name(snake@),
{
}

/// The name of an enum is made from the given name and id.
pub proof fn law_signal_enum_name(camel: &str, id: MessageId, r: String)
    requires
        call_ensures(signal_enum_name, (camel, id), r),
    ensures
        r@ == enum_name(camel@, id),
{
}

/// The name of a constant is made from the given name.
pub proof fn law_message_const_name(shouty: &str, r: String)
    requires
        call_ensures(message_const_name, (shouty,), r),
    ensures
        r@ == const_name(shouty@),
{
}

/// A signal gets the snake case and the camel case of its own name.
pub proof fn law_signal_names(signal: &Signal, r: SignalNames)
    requires
        call_ensures(signal_names, (signal,), r),
    ensures
        r.snake@ == snake_case_of(signal.name@),
        r.camel@ == camel_case_of(signal.name@),
{
}

/// A message gets the camel case and the upper snake case of its own name, and each of its signals
/// its own names.
pub proof fn law_message_names(message: &Message, i: int, r: MessageNames)
    requires
        call_ensures(message_names, (message,), r),
        0 <= i < message.signals@.len(),
    ensures
        r.camel@ == camel_case_of(message.message_name@),
        r.shouty@ == shouty_snake_case_of(message.message_name@),
        r.signals@.len() == message.signals@.len(),
        r.signals@[i].snake@ == snake_case_of(message.signals@[i].name@),
        r.signals@[i].camel@ == camel_case_of(message.signals@[i].name@),
{
    assert(r@.signals.len() == r.signals@.len());
    assert(r@.signals[i] == r.signals@[i]@);
}

/// Value descriptions of a signal get the camel case of its name and, one by one, of their texts.
pub proof fn law_enum_names(val_desc: &ValueDescription, i: int, r: EnumNames)
    requires
        call_ensures(enum_names, (val_desc,), r),
        *val_desc is Signal,
        0 <= i < val_desc->Signal_value_descriptions@.len(),
    ensures
        r.camel@ == camel_case_of(val_desc->signal_name@),
        r.variants@.len() == val_desc->Signal_value_descriptions@.len(),
        r.variants@[i]@ == camel_case_of(val_desc->Signal_value_descriptions@[i].b@),
{
    assert(r@.variants.len() == r.variants@.len());
    assert(r@.variants[i] == r.variants@[i]@);
}

/// A database gets the names of its messages and of its value descriptions.
pub proof fn law_dbc_names(dbc: &DBC, r: Names)
    requires
        call_ensures(dbc_names, (dbc,), r),
    ensures
        r@ == dbc_words(*dbc),
{
}

/// The documentation of a signal is that of its message, its name and its unit.
pub proof fn law_signal_doc_text(dbc: &DBC, id: MessageId, signal: &Signal, r: String)
    requires
        call_ensures(signal_doc_text, (dbc, id, signal), r),
    ensures
        r@ == signal_doc(*dbc, id, *signal),
{
}

/// The origin is made from the database, the file name and the hash.
pub proof fn law_origin_doc_text(dbc: &DBC, file_name: &str, file_hash: &str, r: String)
    requires
        call_ensures(origin_doc_text, (dbc, file_name, file_hash), r),
    ensures
        r@ == origin_doc(*dbc, file_name@, file_hash@),
{
}

/// The type of a signal is written as one word.
pub proof fn law_signal_decoded_type(dbc: &DBC, id: MessageId, signal: &Signal, r: TokenStream)
    requires
        call_ensures(signal_decoded_type, (dbc, id, signal), r),
    ensures
        stream_tokens(r).len() == 1,
        stream_tokens(r)[0] == Token::Ident(decoded_type_of(*dbc, id, *signal).text()@),
{
}

/// A type is wrapped as the multiplexing of the signal asks.
pub proof fn law_wrap_multiplex_indicator_type(signal: &Signal, ty: TokenStream, r: TokenStream)
    requires
        call_ensures(wrap_multiplex_indicator_type, (signal, ty), r),
    ensures
        stream_tokens(r) == wrapped_type(*signal, stream_tokens(ty)),
{
}

/// A value is wrapped as the multiplexing of the signal asks, with the given switch.
pub proof fn law_wrap_multiplex_indicator_value(
    signal: &Signal,
    switch: &Signal,
    value: TokenStream,
    r: TokenStream,
)
    requires
        call_ensures(wrap_multiplex_indicator_value, (signal, Some(switch), value), r),
    ensures
        stream_tokens(r) == wrapped_value(*signal, Some(*switch), stream_tokens(value)),
{
}

/// The enum of a signal is written as one word, made from the name of the signal and the id.
pub proof fn law_to_enum_name(id: &MessageId, signal_name: &str, r: TokenStream)
    requires
        call_ensures(to_enum_name, (id, signal_name), r),
    ensures
        stream_tokens(r).len() == 1,
        stream_tokens(r)[0] == Token::Ident(enum_name(camel_case_of(signal_name@), *id)),
{
}

/// The field of a signal is always written, from the signal and its message.
pub proof fn law_signal_field(
    dbc: &DBC,
    signal: &Signal,
    id: MessageId,
    r: Result<TokenStream, std::fmt::Error>,
)
    requires
        call_ensures(signal_field, (dbc, signal, id), r),
    ensures
        r matches Ok(tokens) && stream_tokens(tokens) == field_tokens(
            raw_field(*dbc, id, *signal, signal_words(*signal)),
        ),
{
}

/// The value of a signal is always written, with the given type, shift and mask.
pub proof fn law_calc_raw(
    signal: &Signal,
    ty: &TokenStream,
    shift: u64,
    mask: u64,
    r: Result<TokenStream, std::fmt::Error>,
)
    requires
        call_ensures(calc_raw, (signal, ty, shift, mask), r),
    ensures
        r matches Ok(tokens) && stream_tokens(tokens) == calc_tokens(
            *signal,
            stream_tokens(*ty),
            shift,
            mask,
        ),
{
}

/// The statements that decode a signal are always written, from the signal and its message.
pub proof fn law_decode_signal_raw(
    dbc: &DBC,
    signal: &Signal,
    id: MessageId,
    r: Result<TokenStream, std::fmt::Error>,
)
    requires
        call_ensures(decode_signal_raw, (dbc, signal, id), r),
    ensures
        r matches Ok(tokens) && stream_tokens(tokens) == raw_decoder_tokens(
            *dbc,
            id,
            *signal,
            signal_words(*signal),
        ),
{
}

/// The statement that decodes a described value is always written, with the given enum.
pub proof fn law_decode_signal_enum(
    signal: &Signal,
    enum_type: TokenStream,
    r: Result<TokenStream, std::fmt::Error>,
)
    requires
        call_ensures(decode_signal_enum, (signal, enum_type), r),
    ensures
        r matches Ok(tokens) && stream_tokens(tokens) == enum_decoder_tokens(
            *signal,
            stream_tokens(enum_type),
            signal_words(*signal),
        ),
{
}

/// The enum for value descriptions is written with their own names.
pub proof fn law_signal_enum(dbc: &DBC, val_desc: &ValueDescription, r: TokenStream)
    requires
        call_ensures(signal_enum, (dbc, val_desc), r),
    ensures
        stream_tokens(r) == signal_enum_tokens(*dbc, *val_desc, enum_words(*val_desc)),
{
}

/// The conversion into the enum is written exactly for value descriptions of a signal, with their
/// own names.
pub proof fn law_signal_enum_impl_from(
    dbc: &DBC,
    val_desc: &ValueDescription,
    r: Option<TokenStream>,
)
    requires
        call_ensures(signal_enum_impl_from, (dbc, val_desc), r),
    ensures
        r is Some <==> *val_desc is Signal,
        r matches Some(tokens) ==> Some(stream_tokens(tokens)) == signal_enum_impl_from_tokens(
            *dbc,
            *val_desc,
            enum_words(*val_desc),
        ),
{
}

/// The variant of a message is always written, with its own names and whatever the options.
pub proof fn law_message_struct(
    opt: &DbccOpt,
    dbc: &DBC,
    message: &Message,
    r: Result<TokenStream, std::fmt::Error>,
)
    requires
        call_ensures(message_struct, (opt, dbc, message), r),
    ensures
        r matches Ok(tokens) && stream_tokens(tokens) == message_struct_tokens(
            *dbc,
            *message,
            message_words(*message),
        ),
{
}

/// The arm of a message is always written, with its own names and whatever the options.
pub proof fn law_message_decoder(
    opt: &DbccOpt,
    dbc: &DBC,
    message: &Message,
    r: Result<TokenStream, std::fmt::Error>,
)
    requires
        call_ensures(message_decoder, (opt, dbc, message), r),
    ensures
        r matches Ok(tokens) && stream_tokens(tokens) == message_decoder_tokens(
            *dbc,
            *message,
            message_words(*message),
        ),
{
}

/// The constant of a message is written with its own names.
pub proof fn law_message_const(message: &Message, r: TokenStream)
    requires
        call_ensures(message_const, (message,), r),
    ensures
        stream_tokens(r) == message_const_tokens(*message, message_words(*message)),
{
}

/// The struct of a message is written with the given names.
pub proof fn law_message_impl_named(message: &Message, names: &MessageNames, r: TokenStream)
    requires
        call_ensures(message_impl_named, (message, names), r),
    ensures
        stream_tokens(r) == message_impl_tokens(*message, names@),
{
}

/// The stream of a message is written with its own names.
pub proof fn law_message_stream(message: &Message, r: TokenStream)
    requires
        call_ensures(message_stream, (message,), r),
    ensures
        stream_tokens(r) == message_stream_tokens(*message, message_words(*message)),
{
}

/// The code for a database is always written, with its own names.
pub proof fn law_can_code_gen(
    opt: &DbccOpt,
    dbc: &DBC,
    file_name: &str,
    file_hash: &str,
    r: Result<TokenStream, std::fmt::Error>,
)
    requires
        call_ensures(can_code_gen, (opt, dbc, file_name, file_hash), r),
    ensures
        r matches Ok(tokens) && stream_tokens(tokens) == code_tokens(
            opt.with_tokio,
            *dbc,
            dbc_words(*dbc),
            file_name@,
            file_hash@,
        ),
{
}

/// The field of a signal can be asked for if its raw name is an identifier.
pub proof fn law_signal_field_is_accepted(dbc: &DBC, signal: &Signal, id: MessageId)
    requires
        ident_text(raw_name(snake_case_of(signal.name@))),
    ensures
        call_requires(signal_field, (dbc, signal, id)),
{
}

/// The value of a signal can be asked for if its numbers can be written.
pub proof fn law_calc_raw_is_accepted(signal: &Signal, ty: &TokenStream, shift: u64, mask: u64)
    requires
        scale_writable(*signal),
    ensures
        call_requires(calc_raw, (signal, ty, shift, mask)),
{
}

/// The statements of a signal can be asked for if they can be written and its switch is present.
pub proof fn law_decode_signal_raw_is_accepted(dbc: &DBC, signal: &Signal, id: MessageId)
    requires
        raw_decodable(*signal, signal_words(*signal)),
        switch_present(*dbc, id, *signal),
    ensures
        call_requires(decode_signal_raw, (dbc, signal, id)),
{
}

/// The described value of a signal can be asked for if its name is an identifier.
pub proof fn law_decode_signal_enum_is_accepted(signal: &Signal, enum_type: TokenStream)
    requires
        ident_text(snake_case_of(signal.name@)),
    ensures
        call_requires(decode_signal_enum, (signal, enum_type)),
{
}

/// The enum for value descriptions can be asked for if it can be written.
pub proof fn law_signal_enum_is_accepted(dbc: &DBC, val_desc: &ValueDescription)
    requires
        enum_writable(*dbc, *val_desc, enum_words(*val_desc)),
    ensures
        call_requires(signal_enum, (dbc, val_desc)),
{
}

/// The conversion into the enum can be asked for if it can be written.
pub proof fn law_signal_enum_impl_from_is_accepted(dbc: &DBC, val_desc: &ValueDescription)
    requires
        enum_writable(*dbc, *val_desc, enum_words(*val_desc)),
    ensures
        call_requires(signal_enum_impl_from, (dbc, val_desc)),
{
}

/// The variant of a message can be asked for if it can be declared.
pub proof fn law_message_struct_is_accepted(opt: &DbccOpt, dbc: &DBC, message: &Message)
    requires
        message_declarable(*dbc, *message, message_words(*message)),
    ensures
        call_requires(message_struct, (opt, dbc, message)),
{
}

/// The arm of a message can be asked for if it can be decoded and its switches are present.
pub proof fn law_message_decoder_is_accepted(opt: &DbccOpt, dbc: &DBC, message: &Message)
    requires
        message_decodable(*dbc, *message, message_words(*message)),
        switches_present(*dbc, *message),
    ensures
        call_requires(message_decoder, (opt, dbc, message)),
{
}

/// The constant of a message can be asked for if its name is an identifier.
pub proof fn law_message_const_is_accepted(message: &Message)
    requires
        ident_text(const_name(shouty_snake_case_of(message.message_name@))),
    ensures
        call_requires(message_const, (message,)),
{
}

/// The stream of a message can be asked for if its name is an identifier.
pub proof fn law_message_stream_is_accepted(message: &Message)
    requires
        ident_text(camel_case_of(message.message_name@)),
    ensures
        call_requires(message_stream, (message,)),
{
}

/// The code for a database can be asked for if it can be written and all switches are present.
pub proof fn law_can_code_gen_is_accepted(
    opt: &DbccOpt,
    dbc: &DBC,
    file_name: &str,
    file_hash: &str,
)
    requires
        dbc_writable(*dbc, dbc_words(*dbc)),
        all_switches_present(*dbc),
    ensures
        call_requires(can_code_gen, (opt, dbc, file_name, file_hash)),
{
}

/// A shift can be asked for if the signal is little endian, or if its size fits below its start
/// bit.
pub proof fn law_shift_amount_is_accepted(byte_order: ByteOrder, start_bit: u64, signal_size: u64)
    requires
        byte_order is BigEndian ==> signal_size <= big_endian_position(start_bit as int),
    ensures
        call_requires(shift_amount, (byte_order, start_bit, signal_size)),
{
}

/// The tested name of an enum is given exactly if it is an identifier.
pub proof fn law_try_to_enum_name(id: &MessageId, signal_name: &str, r: Option<TokenStream>)
    requires
        call_ensures(try_to_enum_name, (id, signal_name), r),
    ensures
        r is Some <==> ident_text(enum_name(camel_case_of(signal_name@), *id)),
        r matches Some(tokens) ==> stream_tokens(tokens) == enum_name_tokens(
            camel_case_of(signal_name@),
            *id,
        ),
{
}

/// The tested field is given exactly if its name is an identifier.
pub proof fn law_try_signal_field(dbc: &DBC, signal: &Signal, id: MessageId, r: Option<TokenStream>)
    requires
        call_ensures(try_signal_field, (dbc, signal, id), r),
    ensures
        r is Some <==> ident_text(raw_name(snake_case_of(signal.name@))),
        r matches Some(tokens) ==> stream_tokens(tokens) == field_tokens(
            raw_field(*dbc, id, *signal, signal_words(*signal)),
        ),
{
}

/// The tested statements are given exactly if they can be written and the switch is present.
pub proof fn law_try_decode_signal_raw(
    dbc: &DBC,
    signal: &Signal,
    id: MessageId,
    r: Option<TokenStream>,
)
    requires
        call_ensures(try_decode_signal_raw, (dbc, signal, id), r),
    ensures
        r is Some <==> raw_decodable(*signal, signal_words(*signal)) && switch_present(
            *dbc,
            id,
            *signal,
        ),
        r matches Some(tokens) ==> stream_tokens(tokens) == raw_decoder_tokens(
            *dbc,
            id,
            *signal,
            signal_words(*signal),
        ),
{
}

/// The tested statement is given exactly if its name is an identifier.
pub proof fn law_try_decode_signal_enum(
    signal: &Signal,
    enum_type: TokenStream,
    r: Option<TokenStream>,
)
    requires
        call_ensures(try_decode_signal_enum, (signal, enum_type), r),
    ensures
        r is Some <==> ident_text(snake_case_of(signal.name@)),
        r matches Some(tokens) ==> stream_tokens(tokens) == enum_decoder_tokens(
            *signal,
            stream_tokens(enum_type),
            signal_words(*signal),
        ),
{
}

/// The tested constant is given exactly if its name is an identifier.
pub proof fn law_try_message_const(message: &Message, r: Option<TokenStream>)
    requires
        call_ensures(try_message_const, (message,), r),
    ensures
        r is Some <==> ident_text(const_name(shouty_snake_case_of(message.message_name@))),
        r matches Some(tokens) ==> stream_tokens(tokens) == message_const_tokens(
            *message,
            message_words(*message),
        ),
{
}

/// The tested variant is given exactly if it can be declared.
pub proof fn law_try_message_struct(
    opt: &DbccOpt,
    dbc: &DBC,
    message: &Message,
    r: Option<TokenStream>,
)
    requires
        call_ensures(try_message_struct, (opt, dbc, message), r),
    ensures
        r is Some <==> message_declarable(*dbc, *message, message_words(*message)),
        r matches Some(tokens) ==> stream_tokens(tokens) == message_struct_tokens(
            *dbc,
            *message,
            message_words(*message),
        ),
{
}

/// The tested arm is given exactly if it can be decoded and all switches are present.
pub proof fn law_try_message_decoder(
    opt: &DbccOpt,
    dbc: &DBC,
    message: &Message,
    r: Option<TokenStream>,
)
    requires
        call_ensures(try_message_decoder, (opt, dbc, message), r),
    ensures
        r is Some <==> message_decodable(*dbc, *message, message_words(*message))
            && switches_present(*dbc, *message),
        r matches Some(tokens) ==> stream_tokens(tokens) == message_decoder_tokens(
            *dbc,
            *message,
            message_words(*message),
        ),
{
}

/// The tested stream is given exactly if the name of the message is an identifier.
pub proof fn law_try_message_stream(message: &Message, r: Option<TokenStream>)
    requires
        call_ensures(try_message_stream, (message,), r),
    ensures
        r is Some <==> ident_text(camel_case_of(message.message_name@)),
        r matches Some(tokens) ==> stream_tokens(tokens) == message_stream_tokens(
            *message,
            message_words(*message),
        ),
{
}

/// The tested enum is given exactly if it can be written.
pub proof fn law_try_signal_enum(dbc: &DBC, val_desc: &ValueDescription, r: Option<TokenStream>)
    requires
        call_ensures(try_signal_enum, (dbc, val_desc), r),
    ensures
        r is Some <==> enum_writable(*dbc, *val_desc, enum_words(*val_desc)),
        r matches Some(tokens) ==> stream_tokens(tokens) == signal_enum_tokens(
            *dbc,
            *val_desc,
            enum_words(*val_desc),
        ),
{
}

/// The tested conversion is given exactly if it can be written.
pub proof fn law_try_signal_enum_impl_from(
    dbc: &DBC,
    val_desc: &ValueDescription,
    r: Option<Option<TokenStream>>,
)
    requires
        call_ensures(try_signal_enum_impl_from, (dbc, val_desc), r),
    ensures
        r is Some <==> enum_writable(*dbc, *val_desc, enum_words(*val_desc)),
        r matches Some(tokens) ==> (match tokens {
            Some(tokens) => Some(stream_tokens(tokens)),
            None => None,
        }) == signal_enum_impl_from_tokens(*dbc, *val_desc, enum_words(*val_desc)),
{
}

/// The tested code is given exactly if it can be written and all switches are present.
pub proof fn law_try_can_code_gen(
    opt: &DbccOpt,
    dbc: &DBC,
    file_name: &str,
    file_hash: &str,
    r: Option<TokenStream>,
)
    requires
        call_ensures(try_can_code_gen, (opt, dbc, file_name, file_hash), r),
    ensures
        r is Some <==> dbc_writable(*dbc, dbc_words(*dbc)) && all_switches_present(*dbc),
        r matches Some(tokens) ==> stream_tokens(tokens) == code_tokens(
            opt.with_tokio,
            *dbc,
            dbc_words(*dbc),
            file_name@,
            file_hash@,
        ),
{
}

} // verus!
