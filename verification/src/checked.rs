//! The generating functions for any input: each first tests whether the code can be written, and
//! gives nothing where it cannot.
use crate::database::{
    all_switches_present, can_code_gen, code_tokens, dbc_writable, message_writable,
};
use crate::description::{
    enum_writable, signal_enum, signal_enum_impl_from, signal_enum_impl_from_tokens,
    signal_enum_tokens,
};
use crate::ident::{ident_text, is_ident, named_type, TypeName};
use crate::layout::{is_kept, is_placed, placed};
use crate::message::{
    enum_declarable, message_const, message_const_tokens, message_decodable, message_declarable,
    message_decoder, message_decoder_tokens, message_struct, message_struct_tokens,
    signal_declarable, switches_present,
};
use crate::model::{Message, MessageId, MultiplexIndicator, Signal, ValueDescription, DBC};
use crate::naming::{
    camel_case, camel_case_of, const_name, dbc_names, dbc_words, enum_name, enum_names, enum_words,
    message_const_name, message_names, message_words, raw_field_name, raw_name,
    shouty_snake_case_of, signal_enum_name, signal_names, signal_words, snake_case, snake_case_of,
    EnumNames, MessageNames, Names, SignalNames,
};
use crate::signal::{
    decode_signal_enum, decode_signal_raw, enum_decoder_tokens, enum_name_tokens, field_tokens,
    raw_decodable, raw_decoder_tokens, raw_field, scale_writable, signal_field, switch_present,
    to_enum_name,
};
use crate::stream::{message_stream, message_stream_tokens};
use crate::tokens::stream_tokens;
use crate::DbccOpt;
use proc_macro2::TokenStream;
use vstd::prelude::*;

verus! {

/// Tells whether the factor and the offset of a signal can be written.
pub fn is_scale_writable(signal: &Signal) -> (r: bool)
    ensures
        r == scale_writable(*signal),
{
    (signal.factor.is_one() || signal.factor.is_writable()) && (signal.offset.is_zero()
        || signal.offset.is_writable())
}

/// Tells whether the statements that decode a signal can be written with the given names.
pub fn is_raw_decodable(signal: &Signal, names: &SignalNames) -> (r: bool)
    ensures
        r == raw_decodable(*signal, names@),
{
    is_placed(signal) && is_ident(raw_field_name(names.snake.as_str()).as_str()) && (!is_kept(
        signal,
    ) || is_scale_writable(signal))
}

/// Tells whether a multiplexed signal has a switch in its message, and the switch a field.
pub fn is_switch_present(dbc: &DBC, message_id: MessageId, signal: &Signal) -> (r: bool)
    ensures
        r == switch_present(*dbc, message_id, *signal),
{
    match signal.multiplexer_indicator {
        MultiplexIndicator::MultiplexedSignal(_) => match dbc.message_multiplexor_switch(
            message_id,
        ) {
            Some(switch) => is_ident(
                raw_field_name(snake_case(switch.name.as_str()).as_str()).as_str(),
            ),
            None => false,
        },
        _ => true,
    }
}

/// Tells whether the described value of a signal can be declared with the given names.
pub fn is_enum_declarable(dbc: &DBC, message_id: MessageId, signal: &Signal, names: &SignalNames)
    -> (r: bool)
    requires
        placed(*signal),
    ensures
        r == enum_declarable(*dbc, message_id, *signal, names@),
{
    if is_kept(signal) && dbc.value_descriptions_for_signal(
        message_id,
        signal.name.as_str(),
    ).is_some() {
        is_ident(signal_enum_name(names.camel.as_str(), message_id).as_str()) && is_ident(
            names.snake.as_str(),
        )
    } else {
        true
    }
}

/// Tells whether the arm of a message can be written with the given names.
pub fn is_message_decodable(dbc: &DBC, message: &Message, names: &MessageNames) -> (r: bool)
    ensures
        r == message_decodable(*dbc, *message, names@),
{
    if !is_ident(names.camel.as_str()) || names.signals.len() != message.signals.len() {
        return false;
    }
    let mut i: usize = 0;
    while i < message.signals.len()
        invariant
            i <= message.signals.len(),
            names.signals@.len() == message.signals@.len(),
            ident_text(names@.camel),
            forall|j: int|
                0 <= j < i ==> raw_decodable(#[trigger] message.signals@[j], names@.signals[j])
                    && enum_declarable(
                    *dbc,
                    message.message_id,
                    message.signals@[j],
                    names@.signals[j],
                ),
        decreases message.signals.len() - i,
    {
        let signal = &message.signals[i];
        assert(names@.signals[i as int] == names.signals@[i as int]@);
        if !is_raw_decodable(signal, &names.signals[i]) || !is_enum_declarable(
            dbc,
            message.message_id,
            signal,
            &names.signals[i],
        ) {
            assert(message.signals@[i as int] == *signal);
            return false;
        }
        i += 1;
    }
    true
}

/// Tells whether the variant of a message can be written with the given names.
pub fn is_message_declarable(dbc: &DBC, message: &Message, names: &MessageNames) -> (r: bool)
    ensures
        r == message_declarable(*dbc, *message, names@),
{
    if !is_ident(names.camel.as_str()) || names.signals.len() != message.signals.len() {
        return false;
    }
    let mut i: usize = 0;
    while i < message.signals.len()
        invariant
            i <= message.signals.len(),
            names.signals@.len() == message.signals@.len(),
            ident_text(names@.camel),
            forall|j: int|
                0 <= j < i ==> signal_declarable(
                    *dbc,
                    message.message_id,
                    #[trigger] message.signals@[j],
                    names@.signals[j],
                ),
        decreases message.signals.len() - i,
    {
        let signal = &message.signals[i];
        let signal_names = &names.signals[i];
        assert(names@.signals[i as int] == signal_names@);
        if !is_placed(signal) || (is_kept(signal) && !is_ident(
            raw_field_name(signal_names.snake.as_str()).as_str(),
        )) || !is_enum_declarable(dbc, message.message_id, signal, signal_names) {
            assert(message.signals@[i as int] == *signal);
            return false;
        }
        i += 1;
    }
    true
}

/// Tells whether every multiplexed signal of a message has its switch.
pub fn are_switches_present(dbc: &DBC, message: &Message) -> (r: bool)
    ensures
        r == switches_present(*dbc, *message),
{
    let mut i: usize = 0;
    while i < message.signals.len()
        invariant
            i <= message.signals.len(),
            forall|j: int|
                0 <= j < i ==> switch_present(
                    *dbc,
                    message.message_id,
                    #[trigger] message.signals@[j],
                ),
        decreases message.signals.len() - i,
    {
        if !is_switch_present(dbc, message.message_id, &message.signals[i]) {
            return false;
        }
        i += 1;
    }
    true
}

/// Tells whether the code for value descriptions can be written with the given names.
pub fn is_enum_writable(dbc: &DBC, val_desc: &ValueDescription, names: &EnumNames) -> (r: bool)
    ensures
        r == enum_writable(*dbc, *val_desc, names@),
{
    if let ValueDescription::Signal { message_id, signal_name, value_descriptions } = val_desc {
        if dbc.signal_by_name(*message_id, signal_name.as_str()).is_none() || !is_ident(
            signal_enum_name(names.camel.as_str(), *message_id).as_str(),
        ) || names.variants.len() != value_descriptions.len() {
            return false;
        }
        let mut i: usize = 0;
        while i < names.variants.len()
            invariant
                i <= names.variants.len(),
                *val_desc is Signal,
                forall|j: int|
                    0 <= j < i ==> ident_text(named_type(#[trigger] names@.variants[j])),
            decreases names.variants.len() - i,
        {
            assert(names@.variants[i as int] == names.variants@[i as int]@);
            if !is_ident(names.variants[i].as_str().to_type_name().as_str()) {
                return false;
            }
            i += 1;
        }
    }
    true
}

/// Tells whether the code for a database can be written with the given names.
pub fn is_dbc_writable(dbc: &DBC, names: &Names) -> (r: bool)
    ensures
        r == dbc_writable(*dbc, names@),
{
    if names.messages.len() != dbc.messages.len() || names.enums.len()
        != dbc.value_descriptions.len() {
        return false;
    }
    let mut i: usize = 0;
    while i < dbc.messages.len()
        invariant
            i <= dbc.messages.len(),
            names.messages@.len() == dbc.messages@.len(),
            forall|j: int|
                0 <= j < i ==> message_writable(
                    *dbc,
                    #[trigger] dbc.messages@[j],
                    names@.messages[j],
                ),
        decreases dbc.messages.len() - i,
    {
        let message_names = &names.messages[i];
        assert(names@.messages[i as int] == message_names@);
        if !is_ident(message_const_name(message_names.shouty.as_str()).as_str())
            || !is_message_decodable(dbc, &dbc.messages[i], message_names) {
            assert(!message_writable(*dbc, dbc.messages@[i as int], names@.messages[i as int]));
            return false;
        }
        i += 1;
    }
    let mut k: usize = 0;
    while k < dbc.value_descriptions.len()
        invariant
            k <= dbc.value_descriptions.len(),
            names.enums@.len() == dbc.value_descriptions@.len(),
            forall|j: int|
                0 <= j < k ==> enum_writable(
                    *dbc,
                    #[trigger] dbc.value_descriptions@[j],
                    names@.enums[j],
                ),
        decreases dbc.value_descriptions.len() - k,
    {
        assert(names@.enums[k as int] == names.enums@[k as int]@);
        if !is_enum_writable(dbc, &dbc.value_descriptions[k], &names.enums[k]) {
            assert(!enum_writable(
                *dbc,
                dbc.value_descriptions@[k as int],
                names@.enums[k as int],
            ));
            return false;
        }
        k += 1;
    }
    true
}

/// Tells whether every multiplexed signal of a database has its switch.
pub fn are_all_switches_present(dbc: &DBC) -> (r: bool)
    ensures
        r == all_switches_present(*dbc),
{
    let mut i: usize = 0;
    while i < dbc.messages.len()
        invariant
            i <= dbc.messages.len(),
            forall|j: int| 0 <= j < i ==> switches_present(*dbc, #[trigger] dbc.messages@[j]),
        decreases dbc.messages.len() - i,
    {
        if !are_switches_present(dbc, &dbc.messages[i]) {
            assert(!switches_present(*dbc, dbc.messages@[i as int]));
            return false;
        }
        i += 1;
    }
    true
}

/// `to_enum_name` where the name is an identifier.
pub fn try_to_enum_name(message_id: &MessageId, signal_name: &str) -> (r: Option<TokenStream>)
    ensures
        r is Some <==> ident_text(enum_name(camel_case_of(signal_name@), *message_id)),
        r matches Some(tokens) ==> stream_tokens(tokens) == enum_name_tokens(
            camel_case_of(signal_name@),
            *message_id,
        ),
{
    if is_ident(signal_enum_name(camel_case(signal_name).as_str(), *message_id).as_str()) {
        Some(to_enum_name(message_id, signal_name))
    } else {
        None
    }
}

/// `signal_field` where the name of the field is an identifier.
pub fn try_signal_field(dbc: &DBC, signal: &Signal, message_id: MessageId) -> (r: Option<
    TokenStream,
>)
    ensures
        r is Some <==> ident_text(raw_name(snake_case_of(signal.name@))),
        r matches Some(tokens) ==> stream_tokens(tokens) == field_tokens(
            raw_field(*dbc, message_id, *signal, signal_words(*signal)),
        ),
{
    if is_ident(raw_field_name(snake_case(signal.name.as_str()).as_str()).as_str()) {
        signal_field(dbc, signal, message_id).ok()
    } else {
        None
    }
}

/// `decode_signal_raw` where the statements can be written.
pub fn try_decode_signal_raw(dbc: &DBC, signal: &Signal, message_id: MessageId) -> (r: Option<
    TokenStream,
>)
    ensures
        r is Some <==> raw_decodable(*signal, signal_words(*signal)) && switch_present(
            *dbc,
            message_id,
            *signal,
        ),
        r matches Some(tokens) ==> stream_tokens(tokens) == raw_decoder_tokens(
            *dbc,
            message_id,
            *signal,
            signal_words(*signal),
        ),
{
    if is_raw_decodable(signal, &signal_names(signal)) && is_switch_present(
        dbc,
        message_id,
        signal,
    ) {
        decode_signal_raw(dbc, signal, message_id).ok()
    } else {
        None
    }
}

/// `decode_signal_enum` where the name of the field is an identifier.
pub fn try_decode_signal_enum(signal: &Signal, enum_type: TokenStream) -> (r: Option<TokenStream>)
    ensures
        r is Some <==> ident_text(snake_case_of(signal.name@)),
        r matches Some(tokens) ==> stream_tokens(tokens) == enum_decoder_tokens(
            *signal,
            stream_tokens(enum_type),
            signal_words(*signal),
        ),
{
    if is_ident(snake_case(signal.name.as_str()).as_str()) {
        decode_signal_enum(signal, enum_type).ok()
    } else {
        None
    }
}

/// `message_const` where the name of the constant is an identifier.
pub fn try_message_const(message: &Message) -> (r: Option<TokenStream>)
    ensures
        r is Some <==> ident_text(const_name(shouty_snake_case_of(message.message_name@))),
        r matches Some(tokens) ==> stream_tokens(tokens) == message_const_tokens(
            *message,
            message_words(*message),
        ),
{
    if is_ident(message_const_name(message_names(message).shouty.as_str()).as_str()) {
        Some(message_const(message))
    } else {
        None
    }
}

/// `message_struct` where the variant can be written.
pub fn try_message_struct(opt: &DbccOpt, dbc: &DBC, message: &Message) -> (r: Option<TokenStream>)
    ensures
        r is Some <==> message_declarable(*dbc, *message, message_words(*message)),
        r matches Some(tokens) ==> stream_tokens(tokens) == message_struct_tokens(
            *dbc,
            *message,
            message_words(*message),
        ),
{
    if is_message_declarable(dbc, message, &message_names(message)) {
        message_struct(opt, dbc, message).ok()
    } else {
        None
    }
}

/// `message_decoder` where the arm can be written.
pub fn try_message_decoder(opt: &DbccOpt, dbc: &DBC, message: &Message) -> (r: Option<TokenStream>)
    ensures
        r is Some <==> message_decodable(*dbc, *message, message_words(*message))
            && switches_present(*dbc, *message),
        r matches Some(tokens) ==> stream_tokens(tokens) == message_decoder_tokens(
            *dbc,
            *message,
            message_words(*message),
        ),
{
    if is_message_decodable(dbc, message, &message_names(message)) && are_switches_present(
        dbc,
        message,
    ) {
        message_decoder(opt, dbc, message).ok()
    } else {
        None
    }
}

/// `message_stream` where the name of the message is an identifier.
pub fn try_message_stream(message: &Message) -> (r: Option<TokenStream>)
    ensures
        r is Some <==> ident_text(camel_case_of(message.message_name@)),
        r matches Some(tokens) ==> stream_tokens(tokens) == message_stream_tokens(
            *message,
            message_words(*message),
        ),
{
    if is_ident(camel_case(message.message_name.as_str()).as_str()) {
        Some(message_stream(message))
    } else {
        None
    }
}

/// `signal_enum_impl_from` where the conversion can be written.
pub fn try_signal_enum_impl_from(dbc: &DBC, val_desc: &ValueDescription) -> (r: Option<
    Option<TokenStream>,
>)
    ensures
        r is Some <==> enum_writable(*dbc, *val_desc, enum_words(*val_desc)),
        r matches Some(Some(tokens)) ==> signal_enum_impl_from_tokens(
            *dbc,
            *val_desc,
            enum_words(*val_desc),
        ) == Some(stream_tokens(tokens)),
        r == Some(None::<TokenStream>) ==> signal_enum_impl_from_tokens(
            *dbc,
            *val_desc,
            enum_words(*val_desc),
        ) is None,
{
    if is_enum_writable(dbc, val_desc, &enum_names(val_desc)) {
        Some(signal_enum_impl_from(dbc, val_desc))
    } else {
        None
    }
}

/// `signal_enum` where the enum can be written.
pub fn try_signal_enum(dbc: &DBC, val_desc: &ValueDescription) -> (r: Option<TokenStream>)
    ensures
        r is Some <==> enum_writable(*dbc, *val_desc, enum_words(*val_desc)),
        r matches Some(tokens) ==> stream_tokens(tokens) == signal_enum_tokens(
            *dbc,
            *val_desc,
            enum_words(*val_desc),
        ),
{
    if is_enum_writable(dbc, val_desc, &enum_names(val_desc)) {
        Some(signal_enum(dbc, val_desc))
    } else {
        None
    }
}

/// `can_code_gen` where all the code can be written.
pub fn try_can_code_gen(opt: &DbccOpt, dbc: &DBC, file_name: &str, file_hash: &str) -> (r: Option<
    TokenStream,
>)
    ensures
        r is Some <==> dbc_writable(*dbc, dbc_words(*dbc)) && all_switches_present(*dbc),
        r matches Some(tokens) ==> stream_tokens(tokens) == code_tokens(
            opt.with_tokio,
            *dbc,
            dbc_words(*dbc),
            file_name@,
            file_hash@,
        ),
{
    if is_dbc_writable(dbc, &dbc_names(dbc)) && are_all_switches_present(dbc) {
        can_code_gen(opt, dbc, file_name, file_hash).ok()
    } else {
        None
    }
}

} // verus!
