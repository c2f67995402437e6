//! The code for one signal: its field in the decoded message, and the statements that decode it.
use crate::ident::{ident_continue, ident_text};
use crate::layout::{
    bit_mask, decoded_type, decoded_type_of, is_readable, kept, mask, placed, readable,
    shift_amount, signal_shift,
};
use crate::model::{ByteOrder, MessageId, MultiplexIndicator, Signal, DBC};
use crate::naming::{
    camel_case, camel_case_of, enum_name, raw_field_name, raw_name, signal_enum_name, signal_names,
    signal_words, snake_case_of, SignalNames, SignalWords,
};
use crate::tokens::{code, stream_tokens, Code, Token, Writing};
use crate::words::{lemma_signal_words, lemma_types_words};
use proc_macro2::TokenStream;
use vstd::prelude::*;

verus! {

/// The documentation of a signal: its comment, or a default one, and its unit, if it has one.
pub open spec fn signal_doc(dbc: DBC, id: MessageId, signal: Signal) -> Seq<char> {
    let comment = match dbc.comment_on_signal(id, signal.name@) {
        Some(comment) => comment,
        None => "Read "@ + signal.name@ + " signal from can frame"@,
    };
    if signal.unit@.len() > 0 {
        comment + "\nUnit: "@ + signal.unit@
    } else {
        comment
    }
}

/// Writes the documentation of a signal.
pub fn signal_doc_text(dbc: &DBC, message_id: MessageId, signal: &Signal) -> (r: String)
    ensures
        r@ == signal_doc(*dbc, message_id, *signal),
{
    let mut doc = match dbc.signal_comment(message_id, signal.name.as_str()) {
        Some(comment) => comment.to_owned(),
        None => {
            let mut default_comment = "Read ".to_owned();
            default_comment.append(signal.name.as_str());
            default_comment.append(" signal from can frame");
            default_comment
        },
    };
    if !signal.unit.as_str().is_empty() {
        doc.append("\nUnit: ");
        doc.append(signal.unit.as_str());
    }
    doc
}

/// The name of the type that a signal is decoded to.
pub open spec fn type_tokens(dbc: DBC, id: MessageId, signal: Signal) -> Seq<Token> {
    code().word(decoded_type_of(dbc, id, signal).text())
}

/// Names the type that a signal is decoded to.
pub fn signal_decoded_type(dbc: &DBC, message_id: MessageId, signal: &Signal) -> (r: TokenStream)
    ensures
        stream_tokens(r) == type_tokens(*dbc, message_id, *signal),
{
    proof {
        lemma_types_words();
    }
    Code::new().word(decoded_type(dbc, message_id, signal).name()).stream
}

/// A type, in an `Option` where the signal is multiplexed.
pub open spec fn wrapped_type(signal: Signal, ty: Seq<Token>) -> Seq<Token> {
    match signal.multiplexer_indicator {
        MultiplexIndicator::MultiplexedSignal(_) => code().word("Option").op('<').splice(ty).op(
            '>',
        ),
        _ => ty,
    }
}

/// This wraps multiplex indicators in Option types.
/// Multiplexed signals are only available when the multiplexer switch value matches
/// the multiplexed indicator value defined in the DBC.
pub fn wrap_multiplex_indicator_type(signal: &Signal, signal_type: TokenStream) -> (r: TokenStream)
    ensures
        stream_tokens(r) == wrapped_type(*signal, stream_tokens(signal_type)),
{
    proof {
        lemma_signal_words();
    }
    match signal.multiplexer_indicator {
        MultiplexIndicator::MultiplexedSignal(_) => Code::new().word("Option").op('<').splice(
            &signal_type,
        ).op('>').stream,
        _ => signal_type,
    }
}

/// The type of the field for the raw value of a signal.
pub open spec fn field_type(dbc: DBC, id: MessageId, signal: Signal) -> Seq<Token> {
    wrapped_type(signal, type_tokens(dbc, id, signal))
}

/// A field of a decoded message.
#[verifier::ext_equal]
pub struct Field {
    pub doc: Seq<char>,
    pub name: Seq<char>,
    pub ty: Seq<Token>,
}

/// The declaration of a field: its documentation, its name and its type.
pub open spec fn field_tokens(field: Field) -> Seq<Token> {
    code().op('#').brackets(code().word("doc").op('=').string(field.doc)).ident(field.name).op(
        ':',
    ).splice(field.ty).op(',')
}

/// Declares a field.
pub fn declare_field(doc: &str, name: &str, ty: &TokenStream) -> (r: TokenStream)
    requires
        ident_text(name@),
    ensures
        stream_tokens(r) == field_tokens(
            (Field { doc: doc@, name: name@, ty: stream_tokens(*ty) }),
        ),
{
    proof {
        lemma_signal_words();
    }
    Code::new().op('#').brackets(Code::new().word("doc").op('=').string(doc)).ident(name).op(
        ':',
    ).splice(ty).op(',').stream
}

/// The field for the raw value of a signal.
pub open spec fn raw_field(dbc: DBC, id: MessageId, signal: Signal, words: SignalWords) -> Field {
    Field {
        doc: signal_doc(dbc, id, signal),
        name: raw_name(words.snake),
        ty: field_type(dbc, id, signal),
    }
}

/// Declares the field for the raw value of a signal, whose converted names are given.
pub fn signal_field_named(
    dbc: &DBC,
    signal: &Signal,
    message_id: MessageId,
    names: &SignalNames,
) -> (r: Result<TokenStream, std::fmt::Error>)
    requires
        ident_text(raw_name(names@.snake)),
    ensures
        r matches Ok(tokens) && stream_tokens(tokens) == field_tokens(
            raw_field(*dbc, message_id, *signal, names@),
        ),
{
    let signal_name_raw = raw_field_name(names.snake.as_str());
    let signal_decoded_type = signal_decoded_type(dbc, message_id, signal);
    let ret_type = wrap_multiplex_indicator_type(signal, signal_decoded_type);
    let doc_msg = signal_doc_text(dbc, message_id, signal);
    Ok(declare_field(doc_msg.as_str(), signal_name_raw.as_str(), &ret_type))
}

/// Declares the field for the raw value of a signal.
pub fn signal_field(dbc: &DBC, signal: &Signal, message_id: MessageId) -> (r: Result<
    TokenStream,
    std::fmt::Error,
>)
    requires
        ident_text(raw_name(snake_case_of(signal.name@))),
    ensures
        r matches Ok(tokens) && stream_tokens(tokens) == field_tokens(
            raw_field(*dbc, message_id, *signal, signal_words(*signal)),
        ),
{
    signal_field_named(dbc, signal, message_id, &signal_names(signal))
}

/// The signal is a single bit that is neither scaled nor moved.
pub open spec fn boolean_signal(signal: Signal) -> bool {
    signal.signal_size == 1 && signal.factor.one() && signal.offset.zero()
}

/// The factor and the offset of a signal can be written, where they are written at all.
pub open spec fn scale_writable(signal: Signal) -> bool {
    &&& !signal.factor.one() ==> signal.factor.writable()
    &&& !signal.offset.zero() ==> signal.offset.writable()
}

/// The payload as one number, in the given byte order.
pub open spec fn payload_tokens(byte_order: ByteOrder) -> Seq<Token> {
    let order = match byte_order {
        ByteOrder::LittleEndian => "LE",
        ByteOrder::BigEndian => "BE",
    };
    code().word(order).op2(':', ':').word("read_u64").parens(
        code().word("frame").op('.').word("data").parens(code()),
    )
}

/// Writes the payload as one number.
fn payload(byte_order: ByteOrder) -> (r: Code)
    ensures
        r@ == payload_tokens(byte_order),
{
    proof {
        lemma_signal_words();
    }
    let order = match byte_order {
        ByteOrder::LittleEndian => "LE",
        ByteOrder::BigEndian => "BE",
    };
    Code::new().word(order).op2(':', ':').word("read_u64").parens(
        Code::new().word("frame").op('.').word("data").parens(Code::new()),
    )
}

/// The part of a payload that a signal occupies: shifted down and masked.
pub open spec fn cut_tokens(payload: Seq<Token>, shift: u64, mask: u64) -> Seq<Token> {
    let shifted = if shift != 0 {
        code().parens(payload.op2('>', '>').number(shift))
    } else {
        payload
    };
    code().parens(shifted.op('&').number(mask))
}

/// Cuts the part that a signal occupies out of a payload.
fn cut(payload: Code, shift: u64, mask: u64) -> (r: Code)
    ensures
        r@ == cut_tokens(payload@, shift, mask),
{
    // No shift required if start_bit == 0
    let shifted = if shift != 0 {
        Code::new().parens(payload.op2('>', '>').number(shift))
    } else {
        payload
    };
    Code::new().parens(shifted.op('&').number(mask))
}

/// The value of a signal: its part of the payload as a value of its type, scaled and moved; for a
/// boolean signal, whether its bit is set.
pub open spec fn calc_tokens(signal: Signal, ty: Seq<Token>, shift: u64, mask: u64) -> Seq<Token> {
    let cut = cut_tokens(code().word("frame_payload"), shift, mask);
    let cast = if boolean_signal(signal) {
        cut
    } else {
        cut.word("as").splice(ty)
    };
    let scaled = if signal.factor.one() {
        cast
    } else {
        cast.op('*').literal(signal.factor.literal@)
    };
    let moved = if signal.offset.zero() {
        scaled
    } else {
        scaled.op('+').literal(signal.offset.literal@)
    };
    if boolean_signal(signal) {
        code().parens(moved).op2('=', '=').number(1)
    } else {
        moved
    }
}

/// Writes the expression for the value of a signal.
pub fn calc_raw(
    signal: &Signal,
    signal_decoded_type: &TokenStream,
    signal_shift: u64,
    bit_msk_const: u64,
) -> (r: Result<TokenStream, std::fmt::Error>)
    requires
        scale_writable(*signal),
    ensures
        r matches Ok(tokens) && stream_tokens(tokens) == calc_tokens(
            *signal,
            stream_tokens(*signal_decoded_type),
            signal_shift,
            bit_msk_const,
        ),
{
    proof {
        lemma_signal_words();
    }
    let boolean_signal = signal.signal_size == 1 && signal.factor.is_one()
        && signal.offset.is_zero();
    let mut value = cut(Code::new().word("frame_payload"), signal_shift, bit_msk_const);
    if !boolean_signal {
        value = value.word("as").splice(signal_decoded_type);
    }
    if !signal.factor.is_one() {
        value = value.op('*').literal(signal.factor.literal.as_str());
    }
    if !signal.offset.is_zero() {
        value = value.op('+').literal(signal.offset.literal.as_str());
    }
    if boolean_signal {
        Ok(Code::new().parens(value).op2('=', '=').number(1).stream)
    } else {
        Ok(value.stream)
    }
}

/// Reads the payload as one number, in the byte order of the signal.
pub open spec fn read_tokens(byte_order: ByteOrder) -> Seq<Token> {
    code().word("let").word("frame_payload").op(':').word("u64").op('=').splice(
        payload_tokens(byte_order),
    ).op(';')
}

/// The raw value of a multiplexor switch, read from the payload in the byte order of the switch.
pub open spec fn switch_cut_tokens(switch: Signal) -> Seq<Token> {
    cut_tokens(
        payload_tokens(switch.byte_order),
        signal_shift(switch) as u64,
        mask(switch.signal_size as nat) as u64,
    )
}

/// A value that is there if the switch has the given value, and absent if it has any other.
pub open spec fn switched_value(switch: Signal, switch_value: u64, value: Seq<Token>) -> Seq<
    Token,
> {
    code().word("if").splice(switch_cut_tokens(switch)).op2('=', '=').number(switch_value).braces(
        code().word("Some").parens(value),
    ).word("else").braces(code().word("None"))
}

/// A value, in an `Option` where the signal is multiplexed: there only if the switch has the value
/// of the multiplex indicator. A switch that cannot be read never has it.
pub open spec fn wrapped_value(signal: Signal, switch: Option<Signal>, value: Seq<Token>) -> Seq<
    Token,
> {
    match signal.multiplexer_indicator {
        MultiplexIndicator::MultiplexedSignal(switch_value) => match switch {
            Some(switch) => if readable(switch) {
                switched_value(switch, switch_value, value)
            } else {
                code().word("None")
            },
            None => code().word("None"),
        },
        _ => value,
    }
}

/// This wraps multiplex indicators in Option types.
/// Multiplexed signals are only available when the multiplexer switch value matches
/// the multiplexed indicator value defined in the DBC.
pub fn wrap_multiplex_indicator_value(
    signal: &Signal,
    multiplexor_switch: Option<&Signal>,
    signal_value: TokenStream,
) -> (r: TokenStream)
    ensures
        stream_tokens(r) == wrapped_value(
            *signal,
            match multiplexor_switch {
                Some(switch) => Some(*switch),
                None => None,
            },
            stream_tokens(signal_value),
        ),
{
    proof {
        lemma_signal_words();
    }
    match signal.multiplexer_indicator {
        MultiplexIndicator::MultiplexedSignal(switch_value) => {
            if let Some(switch) = multiplexor_switch {
                if is_readable(switch) {
                    let switch_shift: u64 = shift_amount(
                        switch.byte_order,
                        switch.start_bit,
                        switch.signal_size,
                    );
                    let switch_cut = cut(
                        payload(switch.byte_order),
                        switch_shift,
                        bit_mask(switch.signal_size),
                    );
                    return Code::new().word("if").splice(&switch_cut.stream).op2('=', '=').number(
                        switch_value,
                    ).braces(Code::new().word("Some").parens(Code { stream: signal_value })).word(
                        "else",
                    ).braces(Code::new().word("None")).stream;
                }
            }
            Code::new().word("None").stream
        },
        _ => signal_value,
    }
}

/// Binds a name of the given type to a value.
pub open spec fn binding_tokens(name: Seq<char>, ty: Seq<Token>, value: Seq<Token>) -> Seq<Token> {
    code().word("let").ident(name).op(':').splice(ty).op('=').splice(value).op(';')
}

/// The expression for the raw value of a signal.
pub open spec fn raw_value_tokens(dbc: DBC, id: MessageId, signal: Signal) -> Seq<Token> {
    wrapped_value(
        signal,
        dbc.switch_of(id),
        calc_tokens(
            signal,
            type_tokens(dbc, id, signal),
            signal_shift(signal) as u64,
            mask(signal.signal_size as nat) as u64,
        ),
    )
}

/// The statements that bind the raw value of a signal to the name of its field; none for a
/// signal that is not kept.
pub open spec fn raw_decoder_tokens(
    dbc: DBC,
    id: MessageId,
    signal: Signal,
    words: SignalWords,
) -> Seq<Token> {
    if !kept(signal) {
        code()
    } else {
        read_tokens(signal.byte_order).splice(
            binding_tokens(
                raw_name(words.snake),
                field_type(dbc, id, signal),
                raw_value_tokens(dbc, id, signal),
            ),
        )
    }
}

/// The statements that decode a signal can be written with the given names.
pub open spec fn raw_decodable(signal: Signal, words: SignalWords) -> bool {
    &&& placed(signal)
    &&& ident_text(raw_name(words.snake))
    &&& kept(signal) ==> scale_writable(signal)
}

/// A multiplexed signal has a switch in its message, and the switch has a field.
pub open spec fn switch_present(dbc: DBC, id: MessageId, signal: Signal) -> bool {
    signal.multiplexer_indicator is MultiplexedSignal ==> match dbc.switch_of(id) {
        Some(switch) => ident_text(raw_name(snake_case_of(switch.name@))),
        None => false,
    }
}

/// Writes the statements that decode a signal, whose converted names are given.
pub fn decode_signal_raw_named(
    dbc: &DBC,
    signal: &Signal,
    message_id: MessageId,
    names: &SignalNames,
) -> (r: Result<TokenStream, std::fmt::Error>)
    requires
        raw_decodable(*signal, names@),
    ensures
        r matches Ok(tokens) && stream_tokens(tokens) == raw_decoder_tokens(
            *dbc,
            message_id,
            *signal,
            names@,
        ),
{
    proof {
        lemma_signal_words();
    }
    let signal_name_raw = raw_field_name(names.snake.as_str());
    let signal_decoded_type = signal_decoded_type(dbc, message_id, signal);
    let read_byte_order = Code::new().word("let").word("frame_payload").op(':').word("u64").op(
        '=',
    ).splice(&payload(signal.byte_order).stream).op(';');
    let bit_msk_const: u64 = bit_mask(signal.signal_size);
    let signal_shift: u64 = shift_amount(signal.byte_order, signal.start_bit, signal.signal_size);
    if signal_shift > 63 {
        return Ok(Code::new().stream);
    }
    let calc = calc_raw(signal, &signal_decoded_type, signal_shift, bit_msk_const)?;
    let multiplexor_switch = dbc.message_multiplexor_switch(message_id);
    let wrapped_calc = wrap_multiplex_indicator_value(signal, multiplexor_switch, calc);
    let ret_type = wrap_multiplex_indicator_type(signal, signal_decoded_type);
    let binding = Code::new().word("let").ident(signal_name_raw.as_str()).op(':').splice(
        &ret_type,
    ).op('=').splice(&wrapped_calc).op(';');
    Ok(read_byte_order.splice(&binding.stream).stream)
}

/// Writes the statements that decode a signal.
pub fn decode_signal_raw(dbc: &DBC, signal: &Signal, message_id: MessageId) -> (r: Result<
    TokenStream,
    std::fmt::Error,
>)
    requires
        raw_decodable(*signal, signal_words(*signal)),
        switch_present(*dbc, message_id, *signal),
    ensures
        r matches Ok(tokens) && stream_tokens(tokens) == raw_decoder_tokens(
            *dbc,
            message_id,
            *signal,
            signal_words(*signal),
        ),
{
    decode_signal_raw_named(dbc, signal, message_id, &signal_names(signal))
}

/// The name of an enum.
pub open spec fn enum_name_tokens(camel: Seq<char>, id: MessageId) -> Seq<Token> {
    code().ident(enum_name(camel, id))
}

/// Names the enum of a signal, whose camel case name is given.
pub fn to_enum_name_named(message_id: &MessageId, camel: &str) -> (r: TokenStream)
    requires
        ident_text(enum_name(camel@, *message_id)),
    ensures
        stream_tokens(r) == enum_name_tokens(camel@, *message_id),
{
    Code::new().ident(signal_enum_name(camel, *message_id).as_str()).stream
}

/// Names the enum of a signal.
pub fn to_enum_name(message_id: &MessageId, signal_name: &str) -> (r: TokenStream)
    requires
        ident_text(enum_name(camel_case_of(signal_name@), *message_id)),
    ensures
        stream_tokens(r) == enum_name_tokens(camel_case_of(signal_name@), *message_id),
{
    to_enum_name_named(message_id, camel_case(signal_name).as_str())
}

/// The statement that binds the described value of a signal, of the given enum, to the name of its
/// field.
pub open spec fn enum_decoder_tokens(
    signal: Signal,
    enum_type: Seq<Token>,
    words: SignalWords,
) -> Seq<Token> {
    let value = match signal.multiplexer_indicator {
        MultiplexIndicator::MultiplexedSignal(_) => code().word("todo").op('!').parens(code()),
        _ => code().splice(enum_type).op2(':', ':').word("from").parens(
            code().ident(raw_name(words.snake)),
        ),
    };
    code().word("let").ident(words.snake).op('=').splice(value).op(';')
}

/// A name stays an identifier when it is made the name of a raw value.
pub proof fn lemma_raw_name_is_ident(snake: Seq<char>)
    requires
        ident_text(snake),
    ensures
        ident_text(raw_name(snake)),
{
    reveal_strlit("raw_value");
    let name = raw_name(snake);
    assert(name[0] == snake[0]);
    assert forall|i: int| 1 <= i < name.len() implies ident_continue(
        #[trigger] name[i],
    ) by {
        if i < snake.len() {
            assert(name[i] == snake[i]);
        } else if i > snake.len() {
            assert(name[i] == "raw_value"@[i - snake.len() - 1]);
        }
    }
}

/// Writes the statement that decodes the described value of a signal, whose converted names are
/// given.
pub fn decode_signal_enum_named(signal: &Signal, enum_type: TokenStream, names: &SignalNames) -> (r:
    Result<TokenStream, std::fmt::Error>)
    requires
        ident_text(names@.snake),
    ensures
        r matches Ok(tokens) && stream_tokens(tokens) == enum_decoder_tokens(
            *signal,
            stream_tokens(enum_type),
            names@,
        ),
{
    proof {
        lemma_signal_words();
        lemma_raw_name_is_ident(names@.snake);
    }
    let field_name_raw = raw_field_name(names.snake.as_str());
    // Multiplexed signals are only available when the multiplexer switch value matches
    // the multiplexed indicator value defined in the DBC.
    let from = match signal.multiplexer_indicator {
        MultiplexIndicator::MultiplexedSignal(_) => Code::new().word("todo").op('!').parens(
            Code::new(),
        ),
        _ => Code::new().splice(&enum_type).op2(':', ':').word("from").parens(
            Code::new().ident(field_name_raw.as_str()),
        ),
    };
    Ok(
        Code::new().word("let").ident(names.snake.as_str()).op('=').splice(&from.stream).op(
            ';',
        ).stream,
    )
}

/// Writes the statement that decodes the described value of a signal.
pub fn decode_signal_enum(signal: &Signal, enum_type: TokenStream) -> (r: Result<
    TokenStream,
    std::fmt::Error,
>)
    requires
        ident_text(snake_case_of(signal.name@)),
    ensures
        r matches Ok(tokens) && stream_tokens(tokens) == enum_decoder_tokens(
            *signal,
            stream_tokens(enum_type),
            signal_words(*signal),
        ),
{
    decode_signal_enum_named(signal, enum_type, &signal_names(signal))
}

} // verus!
