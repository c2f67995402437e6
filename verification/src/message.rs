//! The code for one message: its id, its struct, its variant among the decoded frames, and the arm
//! that decodes a frame into it.
use crate::ident::ident_text;
use crate::layout::{is_kept, kept, placed};
use crate::model::{Message, MessageId, Signal, DBC};
use crate::naming::{
    const_name, enum_name, message_const_name, message_names, message_words, raw_field_name,
    raw_name, shouty_snake_case_of, MessageNames, MessageWords, SignalWords,
};
use crate::signal::{
    declare_field, decode_signal_enum_named, decode_signal_raw_named, enum_decoder_tokens,
    enum_name_tokens, field_tokens, raw_decodable, raw_decoder_tokens, raw_field, signal_doc,
    signal_doc_text, signal_field_named, switch_present, to_enum_name_named, Field,
};
use crate::tokens::{attribute, attribute_tokens, code, stream_tokens, Code, Token, Writing};
use crate::words::lemma_message_words;
use crate::DbccOpt;
use proc_macro2::TokenStream;
use vstd::prelude::*;

verus! {

/// The signal has value descriptions, so its value is decoded into an enum too.
pub open spec fn described(dbc: DBC, id: MessageId, signal: Signal) -> bool {
    dbc.descriptions_of(id, signal.name@) is Some
}

/// The field for the described value of a signal.
pub open spec fn enum_field(dbc: DBC, id: MessageId, signal: Signal, words: SignalWords) -> Field {
    Field {
        doc: signal_doc(dbc, id, signal),
        name: words.snake,
        ty: enum_name_tokens(words.camel, id),
    }
}

/// The fields for the raw values of the first `n` signals.
pub open spec fn raw_fields(dbc: DBC, message: Message, words: MessageWords, n: int) -> Seq<Field>
    decreases n,
{
    if n <= 0 {
        Seq::empty()
    } else {
        let before = raw_fields(dbc, message, words, n - 1);
        let signal = message.signals@[n - 1];
        if kept(signal) {
            before.push(raw_field(dbc, message.message_id, signal, words.signals[n - 1]))
        } else {
            before
        }
    }
}

/// The fields for the described values of the first `n` signals.
pub open spec fn enum_fields(dbc: DBC, message: Message, words: MessageWords, n: int) -> Seq<Field>
    decreases n,
{
    if n <= 0 {
        Seq::empty()
    } else {
        let before = enum_fields(dbc, message, words, n - 1);
        let signal = message.signals@[n - 1];
        if kept(signal) && described(dbc, message.message_id, signal) {
            before.push(enum_field(dbc, message.message_id, signal, words.signals[n - 1]))
        } else {
            before
        }
    }
}

/// The declarations of fields, in order.
pub open spec fn fields_tokens(fields: Seq<Field>) -> Seq<Token>
    decreases fields.len(),
{
    if fields.len() == 0 {
        code()
    } else {
        fields_tokens(fields.drop_last()) + field_tokens(fields.last())
    }
}

proof fn lemma_fields_tokens_push(fields: Seq<Field>, field: Field)
    ensures
        fields_tokens(fields.push(field)) == fields_tokens(fields) + field_tokens(field),
{
    assert(fields.push(field).drop_last() == fields);
}

/// The documentation of a message.
pub open spec fn message_doc(dbc: DBC, message: Message) -> Seq<char> {
    match dbc.comment_on_message(message.message_id) {
        Some(comment) => comment,
        None => ""@,
    }
}

/// The variant of a message: its documentation, its name, the fields for the raw values of its
/// signals and those for the described values.
pub open spec fn message_struct_tokens(dbc: DBC, message: Message, words: MessageWords) -> Seq<
    Token,
> {
    let n = message.signals@.len() as int;
    code().op('#').brackets(
        code().word("doc").op('=').string(message_doc(dbc, message)),
    ).ident(words.camel).braces(
        code().splice(fields_tokens(raw_fields(dbc, message, words, n))).splice(
            fields_tokens(enum_fields(dbc, message, words, n)),
        ),
    )
}

/// The described value of a signal, if it has a field, can be declared with the given names.
pub open spec fn enum_declarable(
    dbc: DBC,
    id: MessageId,
    signal: Signal,
    words: SignalWords,
) -> bool {
    kept(signal) && described(dbc, id, signal) ==> {
        &&& ident_text(enum_name(words.camel, id))
        &&& ident_text(words.snake)
    }
}

/// The fields of a signal can be declared with the given names.
pub open spec fn signal_declarable(
    dbc: DBC,
    id: MessageId,
    signal: Signal,
    words: SignalWords,
) -> bool {
    &&& placed(signal)
    &&& kept(signal) ==> ident_text(raw_name(words.snake))
    &&& enum_declarable(dbc, id, signal, words)
}

/// The variant of a message can be written with the given names.
pub open spec fn message_declarable(dbc: DBC, message: Message, words: MessageWords) -> bool {
    &&& ident_text(words.camel)
    &&& words.signals.len() == message.signals@.len()
    &&& forall|i: int|
        0 <= i < message.signals@.len() ==> signal_declarable(
            dbc,
            message.message_id,
            #[trigger] message.signals@[i],
            words.signals[i],
        )
}

/// Writes the variant of a message, whose converted names are given.
pub fn message_struct_named(dbc: &DBC, message: &Message, names: &MessageNames) -> (r: Result<
    TokenStream,
    std::fmt::Error,
>)
    requires
        message_declarable(*dbc, *message, names@),
    ensures
        r matches Ok(tokens) && stream_tokens(tokens) == message_struct_tokens(
            *dbc,
            *message,
            names@,
        ),
{
    proof {
        lemma_message_words();
    }
    let doc_msg = match dbc.message_comment(message.message_id) {
        Some(message_comment) => message_comment,
        None => "",
    };
    let id = message.message_id;
    let mut signal_fields = Code::new();
    let mut i: usize = 0;
    while i < message.signals.len()
        invariant
            i <= message.signals.len(),
            id == message.message_id,
            message_declarable(*dbc, *message, names@),
            signal_fields@ == fields_tokens(raw_fields(*dbc, *message, names@, i as int)),
        decreases message.signals.len() - i,
    {
        let signal = &message.signals[i];
        let signal_names = &names.signals[i];
        assert(names@.signals[i as int] == signal_names@);
        if is_kept(signal) {
            let field = signal_field_named(dbc, signal, id, signal_names)?;
            signal_fields = signal_fields.splice(&field);
            proof {
                lemma_fields_tokens_push(
                    raw_fields(*dbc, *message, names@, i as int),
                    raw_field(*dbc, id, *signal, signal_names@),
                );
            }
        }
        i += 1;
    }
    let mut signal_enum_fields = Code::new();
    let mut k: usize = 0;
    while k < message.signals.len()
        invariant
            k <= message.signals.len(),
            id == message.message_id,
            message_declarable(*dbc, *message, names@),
            signal_enum_fields@ == fields_tokens(enum_fields(*dbc, *message, names@, k as int)),
        decreases message.signals.len() - k,
    {
        let signal = &message.signals[k];
        let signal_names = &names.signals[k];
        assert(names@.signals[k as int] == signal_names@);
        if is_kept(signal) && dbc.value_descriptions_for_signal(
            id,
            signal.name.as_str(),
        ).is_some() {
            let enum_type = to_enum_name_named(&id, signal_names.camel.as_str());
            let signal_doc_msg = signal_doc_text(dbc, id, signal);
            let field = declare_field(
                signal_doc_msg.as_str(),
                signal_names.snake.as_str(),
                &enum_type,
            );
            signal_enum_fields = signal_enum_fields.splice(&field);
            proof {
                lemma_fields_tokens_push(
                    enum_fields(*dbc, *message, names@, k as int),
                    enum_field(*dbc, id, *signal, signal_names@),
                );
            }
        }
        k += 1;
    }
    Ok(
        Code::new().op('#').brackets(Code::new().word("doc").op('=').string(doc_msg)).ident(
            names.camel.as_str(),
        ).braces(
            Code::new().splice(&signal_fields.stream).splice(&signal_enum_fields.stream),
        ).stream,
    )
}

/// Writes the variant of a message.
pub fn message_struct(_opt: &DbccOpt, dbc: &DBC, message: &Message) -> (r: Result<
    TokenStream,
    std::fmt::Error,
>)
    requires
        message_declarable(*dbc, *message, message_words(*message)),
    ensures
        r matches Ok(tokens) && stream_tokens(tokens) == message_struct_tokens(
            *dbc,
            *message,
            message_words(*message),
        ),
{
    message_struct_named(dbc, message, &message_names(message))
}

/// The statements that decode the raw values of the first `n` signals.
pub open spec fn raw_decoders_tokens(
    dbc: DBC,
    message: Message,
    words: MessageWords,
    n: int,
) -> Seq<Token>
    decreases n,
{
    if n <= 0 {
        code()
    } else {
        raw_decoders_tokens(dbc, message, words, n - 1) + raw_decoder_tokens(
            dbc,
            message.message_id,
            message.signals@[n - 1],
            words.signals[n - 1],
        )
    }
}

/// The statements that decode the described values of the first `n` signals.
pub open spec fn enum_decoders_tokens(
    dbc: DBC,
    message: Message,
    words: MessageWords,
    n: int,
) -> Seq<Token>
    decreases n,
{
    if n <= 0 {
        code()
    } else {
        let before = enum_decoders_tokens(dbc, message, words, n - 1);
        let signal = message.signals@[n - 1];
        if kept(signal) && described(dbc, message.message_id, signal) {
            before + enum_decoder_tokens(
                signal,
                enum_name_tokens(words.signals[n - 1].camel, message.message_id),
                words.signals[n - 1],
            )
        } else {
            before
        }
    }
}

/// The names that the raw values of the first `n` signals are put in by.
pub open spec fn raw_field_names(message: Message, words: MessageWords, n: int) -> Seq<Seq<char>>
    decreases n,
{
    if n <= 0 {
        Seq::empty()
    } else {
        let before = raw_field_names(message, words, n - 1);
        if kept(message.signals@[n - 1]) {
            before.push(raw_name(words.signals[n - 1].snake))
        } else {
            before
        }
    }
}

/// The names that the described values of the first `n` signals are put in by.
pub open spec fn enum_field_names(
    dbc: DBC,
    message: Message,
    words: MessageWords,
    n: int,
) -> Seq<Seq<char>>
    decreases n,
{
    if n <= 0 {
        Seq::empty()
    } else {
        let before = enum_field_names(dbc, message, words, n - 1);
        let signal = message.signals@[n - 1];
        if kept(signal) && described(dbc, message.message_id, signal) {
            before.push(words.signals[n - 1].snake)
        } else {
            before
        }
    }
}

/// Names, each followed by a comma.
pub open spec fn name_list_tokens(names: Seq<Seq<char>>) -> Seq<Token>
    decreases names.len(),
{
    if names.len() == 0 {
        code()
    } else {
        name_list_tokens(names.drop_last()).ident(names.last()).op(',')
    }
}

proof fn lemma_name_list_tokens_push(names: Seq<Seq<char>>, name: Seq<char>)
    ensures
        name_list_tokens(names.push(name)) == name_list_tokens(names).ident(name).op(','),
{
    assert(names.push(name).drop_last() == names);
}

/// The id that frames of a message carry: the 29 bits of an extended id.
pub open spec fn frame_id(id: MessageId) -> u32 {
    id.0 & 0x1fff_ffff
}

/// `socketcan::EFF_MASK`: the bits of an extended frame id.
#[verifier::external_body]
fn eff_mask() -> (r: u32)
    ensures
        r == 0x1fff_ffff,
{
    socketcan::EFF_MASK
}

/// `socketcan::SFF_MASK`: the bits of a standard frame id.
#[verifier::external_body]
fn sff_mask() -> (r: u32)
    ensures
        r == 0x7ff,
{
    socketcan::SFF_MASK
}

/// The id of the message is one of a standard frame.
pub open spec fn standard_id(id: MessageId) -> bool {
    frame_id(id) <= 0x7ff
}

/// Tells whether the id of a message is one of a standard frame.
pub fn is_standard_id(id: MessageId) -> (r: bool)
    ensures
        r == standard_id(id),
{
    id.0 & eff_mask() <= sff_mask()
}

/// The id that frames of a message carry.
pub fn decoded_frame_id(id: MessageId) -> (r: u32)
    ensures
        r == frame_id(id),
        r < 0x2000_0000,
{
    let bits: u32 = id.0;
    assert((bits & 0x1fff_ffff) <= 0x7ff ==> (bits & 0x7ff) == (bits & 0x1fff_ffff))
        by (bit_vector);
    assert((bits & 0x1fff_ffff) < 0x2000_0000) by (bit_vector);
    if is_standard_id(id) {
        bits & sff_mask()
    } else {
        bits & eff_mask()
    }
}

/// What the arm of a message does: the statements that decode the signals, and the variant with
/// their values.
pub open spec fn arm_body_tokens(dbc: DBC, message: Message, words: MessageWords) -> Seq<Token> {
    let n = message.signals@.len() as int;
    code().splice(raw_decoders_tokens(dbc, message, words, n)).splice(
        enum_decoders_tokens(dbc, message, words, n),
    ).word("DecodedFrame").op2(':', ':').ident(words.camel).braces(
        code().splice(name_list_tokens(raw_field_names(message, words, n))).splice(
            name_list_tokens(enum_field_names(dbc, message, words, n)),
        ),
    )
}

/// The arm that decodes a frame into a message: the id of the frame, and what to do with it.
pub open spec fn message_decoder_tokens(dbc: DBC, message: Message, words: MessageWords) -> Seq<
    Token,
> {
    code().number_u32(frame_id(message.message_id)).op2('=', '>').braces(
        arm_body_tokens(dbc, message, words),
    ).op(',')
}

/// The arm of a message can be written with the given names.
pub open spec fn message_decodable(dbc: DBC, message: Message, words: MessageWords) -> bool {
    &&& ident_text(words.camel)
    &&& words.signals.len() == message.signals@.len()
    &&& forall|i: int|
        0 <= i < message.signals@.len() ==> raw_decodable(
            #[trigger] message.signals@[i],
            words.signals[i],
        ) && enum_declarable(dbc, message.message_id, message.signals@[i], words.signals[i])
}

/// Every multiplexed signal of a message has its switch.
pub open spec fn switches_present(dbc: DBC, message: Message) -> bool {
    forall|i: int|
        0 <= i < message.signals@.len() ==> switch_present(
            dbc,
            message.message_id,
            #[trigger] message.signals@[i],
        )
}

/// Writes the statements that decode the described values of the signals.
fn enum_decoders(dbc: &DBC, message: &Message, names: &MessageNames) -> (r: Result<
    Code,
    std::fmt::Error,
>)
    requires
        message_decodable(*dbc, *message, names@),
    ensures
        r matches Ok(tokens) && tokens@ == enum_decoders_tokens(
            *dbc,
            *message,
            names@,
            message.signals@.len() as int,
        ),
{
    let id = message.message_id;
    let mut decoders = Code::new();
    let mut i: usize = 0;
    while i < message.signals.len()
        invariant
            i <= message.signals.len(),
            id == message.message_id,
            message_decodable(*dbc, *message, names@),
            decoders@ == enum_decoders_tokens(*dbc, *message, names@, i as int),
        decreases message.signals.len() - i,
    {
        let signal = &message.signals[i];
        let signal_names = &names.signals[i];
        assert(names@.signals[i as int] == signal_names@);
        // Check if this signal can be turned into an enum
        if is_kept(signal) && dbc.value_descriptions_for_signal(
            id,
            signal.name.as_str(),
        ).is_some() {
            let enum_type = to_enum_name_named(&id, signal_names.camel.as_str());
            let decoder = decode_signal_enum_named(signal, enum_type, signal_names)?;
            decoders = decoders.splice(&decoder);
        }
        i += 1;
    }
    Ok(decoders)
}

/// Lists the fields for the raw values of the signals.
fn raw_field_list(message: &Message, names: &MessageNames) -> (r: Code)
    requires
        names@.signals.len() == message.signals@.len(),
        forall|j: int|
            0 <= j < message.signals@.len() ==> raw_decodable(
                #[trigger] message.signals@[j],
                names@.signals[j],
            ),
    ensures
        r@ == name_list_tokens(
            raw_field_names(*message, names@, message.signals@.len() as int),
        ),
{
    let mut list = Code::new();
    let mut i: usize = 0;
    while i < message.signals.len()
        invariant
            i <= message.signals.len(),
            names@.signals.len() == message.signals@.len(),
            forall|j: int|
                0 <= j < message.signals@.len() ==> raw_decodable(
                    #[trigger] message.signals@[j],
                    names@.signals[j],
                ),
            list@ == name_list_tokens(raw_field_names(*message, names@, i as int)),
        decreases message.signals.len() - i,
    {
        let signal = &message.signals[i];
        let signal_names = &names.signals[i];
        assert(names@.signals[i as int] == signal_names@);
        if is_kept(signal) {
            list = list.ident(raw_field_name(signal_names.snake.as_str()).as_str()).op(',');
            proof {
                lemma_name_list_tokens_push(
                    raw_field_names(*message, names@, i as int),
                    raw_name(signal_names@.snake),
                );
            }
        }
        i += 1;
    }
    list
}

/// Lists the fields for the described values of the signals.
fn enum_field_list(dbc: &DBC, message: &Message, names: &MessageNames) -> (r: Code)
    requires
        message_decodable(*dbc, *message, names@),
    ensures
        r@ == name_list_tokens(
            enum_field_names(*dbc, *message, names@, message.signals@.len() as int),
        ),
{
    let id = message.message_id;
    let mut list = Code::new();
    let mut i: usize = 0;
    while i < message.signals.len()
        invariant
            i <= message.signals.len(),
            id == message.message_id,
            message_decodable(*dbc, *message, names@),
            list@ == name_list_tokens(enum_field_names(*dbc, *message, names@, i as int)),
        decreases message.signals.len() - i,
    {
        let signal = &message.signals[i];
        let signal_names = &names.signals[i];
        assert(names@.signals[i as int] == signal_names@);
        if is_kept(signal) && dbc.value_descriptions_for_signal(
            id,
            signal.name.as_str(),
        ).is_some() {
            list = list.ident(signal_names.snake.as_str()).op(',');
            proof {
                lemma_name_list_tokens_push(
                    enum_field_names(*dbc, *message, names@, i as int),
                    signal_names@.snake,
                );
            }
        }
        i += 1;
    }
    list
}

/// Writes the arm that decodes a frame into a message, whose converted names are given.
pub fn message_decoder_named(dbc: &DBC, message: &Message, names: &MessageNames) -> (r: Result<
    TokenStream,
    std::fmt::Error,
>)
    requires
        message_decodable(*dbc, *message, names@),
    ensures
        r matches Ok(tokens) && stream_tokens(tokens) == message_decoder_tokens(
            *dbc,
            *message,
            names@,
        ),
{
    proof {
        lemma_message_words();
    }
    let id = message.message_id;
    let mut raw_signal_decoder = Code::new();
    let mut i: usize = 0;
    while i < message.signals.len()
        invariant
            i <= message.signals.len(),
            id == message.message_id,
            message_decodable(*dbc, *message, names@),
            raw_signal_decoder@ == raw_decoders_tokens(*dbc, *message, names@, i as int),
        decreases message.signals.len() - i,
    {
        assert(names@.signals[i as int] == names.signals@[i as int]@);
        let decoder = decode_signal_raw_named(dbc, &message.signals[i], id, &names.signals[i])?;
        raw_signal_decoder = raw_signal_decoder.splice(&decoder);
        i += 1;
    }
    let signal_enum_decoder = enum_decoders(dbc, message, names)?;
    let signal_fields = raw_field_list(message, names);
    let signal_enum_fields = enum_field_list(dbc, message, names);
    let body = Code::new().splice(&raw_signal_decoder.stream).splice(
        &signal_enum_decoder.stream,
    ).word("DecodedFrame").op2(':', ':').ident(names.camel.as_str()).braces(
        Code::new().splice(&signal_fields.stream).splice(&signal_enum_fields.stream),
    );
    Ok(Code::new().number_u32(decoded_frame_id(id)).op2('=', '>').braces(body).op(',').stream)
}

/// Writes the arm that decodes a frame into a message.
pub fn message_decoder(_opt: &DbccOpt, dbc: &DBC, message: &Message) -> (r: Result<
    TokenStream,
    std::fmt::Error,
>)
    requires
        message_decodable(*dbc, *message, message_words(*message)),
        switches_present(*dbc, *message),
    ensures
        r matches Ok(tokens) && stream_tokens(tokens) == message_decoder_tokens(
            *dbc,
            *message,
            message_words(*message),
        ),
{
    message_decoder_named(dbc, message, &message_names(message))
}

/// The constant for the id of a message.
pub open spec fn message_const_tokens(message: Message, words: MessageWords) -> Seq<Token> {
    attribute_tokens("allow", "dead_code").word("pub").word("const").ident(
        const_name(words.shouty),
    ).op(':').word("u32").op('=').number_u32(message.message_id.0).op(';')
}

/// Writes the constant for the id of a message, whose converted names are given.
pub fn message_const_named(message: &Message, names: &MessageNames) -> (r: TokenStream)
    requires
        ident_text(const_name(names@.shouty)),
    ensures
        stream_tokens(r) == message_const_tokens(*message, names@),
{
    proof {
        lemma_message_words();
    }
    let message_name = message_const_name(names.shouty.as_str());
    attribute("allow", "dead_code").word("pub").word("const").ident(message_name.as_str()).op(
        ':',
    ).word("u32").op('=').number_u32(message.message_id.0).op(';').stream
}

/// The struct of a message and its implementation, with the id of the message as associated
/// constant.
pub open spec fn message_impl_tokens(message: Message, words: MessageWords) -> Seq<Token> {
    let constant = attribute_tokens("allow", "dead_code").word("pub").word("const").word("ID").op(
        ':',
    ).word("u32").op('=').number_u32(message.message_id.0).op(';');
    attribute_tokens("allow", "dead_code").word("pub").word("struct").ident(words.camel).op(
        ';',
    ).word("impl").ident(words.camel).braces(constant)
}

/// Writes the struct of a message, whose converted names are given, and its implementation.
pub fn message_impl_named(message: &Message, names: &MessageNames) -> (r: TokenStream)
    requires
        ident_text(names@.camel),
    ensures
        stream_tokens(r) == message_impl_tokens(*message, names@),
{
    proof {
        lemma_message_words();
    }
    let constant = attribute("allow", "dead_code").word("pub").word("const").word("ID").op(
        ':',
    ).word("u32").op('=').number_u32(message.message_id.0).op(';');
    attribute("allow", "dead_code").word("pub").word("struct").ident(names.camel.as_str()).op(
        ';',
    ).word("impl").ident(names.camel.as_str()).braces(constant).stream
}

/// Writes the constant for the id of a message.
pub fn message_const(message: &Message) -> (r: TokenStream)
    requires
        ident_text(const_name(shouty_snake_case_of(message.message_name@))),
    ensures
        stream_tokens(r) == message_const_tokens(*message, message_words(*message)),
{
    message_const_named(message, &message_names(message))
}

} // verus!
