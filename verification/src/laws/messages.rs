//! What the code for one message says.
use crate::laws::reading::{
    allow_dead_code, alone, brace, doc, joint, name, number_u32, row1, row2, row5, row7, row8,
};
use crate::layout::kept;
use crate::message::{
    arm_body_tokens, described, enum_decoders_tokens, enum_field, enum_field_names, enum_fields,
    fields_tokens, frame_id, message_const_tokens, message_decoder_tokens, message_doc,
    message_impl_tokens, message_struct_tokens, name_list_tokens, raw_decoders_tokens,
    raw_field_names, raw_fields,
};
use crate::model::{DBC, Message, MessageId, Signal};
use crate::naming::{const_name, enum_name, raw_name, MessageWords, SignalWords};
use crate::signal::{
    enum_decoder_tokens, field_tokens, raw_decoder_tokens, raw_field, signal_doc, Field,
};
use crate::tokens::Token;
use vstd::prelude::*;

verus! {

/// The constant of a message has the whole id of the message, as a 32 bit number.
pub proof fn law_constant_is_the_id(message: Message, words: MessageWords)
    ensures
        message_const_tokens(message, words) == allow_dead_code() + row8(
            name("pub"),
            name("const"),
            Token::Ident(const_name(words.shouty)),
            alone(':'),
            name("u32"),
            alone('='),
            number_u32(message.message_id.0),
            alone(';'),
        ),
{
    reveal_strlit("u32");
    assert("u32"@ =~= seq!['u', '3', '2']);
    assert(message_const_tokens(message, words) =~= allow_dead_code() + row8(
        name("pub"),
        name("const"),
        Token::Ident(const_name(words.shouty)),
        alone(':'),
        name("u32"),
        alone('='),
        number_u32(message.message_id.0),
        alone(';'),
    ));
}

/// The struct of a message has the whole id of the message as its associated constant `ID`.
pub proof fn law_struct_has_the_id(message: Message, words: MessageWords)
    ensures
        ({
            let constant = allow_dead_code() + row8(
                name("pub"),
                name("const"),
                name("ID"),
                alone(':'),
                name("u32"),
                alone('='),
                number_u32(message.message_id.0),
                alone(';'),
            );
            message_impl_tokens(message, words) == allow_dead_code() + row7(
                name("pub"),
                name("struct"),
                Token::Ident(words.camel),
                alone(';'),
                name("impl"),
                Token::Ident(words.camel),
                brace(constant),
            )
        }),
{
    reveal_strlit("u32");
    assert("u32"@ =~= seq!['u', '3', '2']);
    let constant = allow_dead_code() + row8(
        name("pub"),
        name("const"),
        name("ID"),
        alone(':'),
        name("u32"),
        alone('='),
        number_u32(message.message_id.0),
        alone(';'),
    );
    let all = message_impl_tokens(message, words);
    assert(all.last()->Group_1 =~= constant);
    assert(all =~= allow_dead_code() + row7(
        name("pub"),
        name("struct"),
        Token::Ident(words.camel),
        alone(';'),
        name("impl"),
        Token::Ident(words.camel),
        brace(constant),
    ));
}

/// The field of a described value has the documentation of the signal, its snake case name and its
/// enum as type.
pub proof fn law_described_field(dbc: DBC, id: MessageId, signal: Signal, words: SignalWords)
    ensures
        enum_field(dbc, id, signal, words).doc == signal_doc(dbc, id, signal),
        enum_field(dbc, id, signal, words).name == words.snake,
        enum_field(dbc, id, signal, words).ty == row1(Token::Ident(enum_name(words.camel, id))),
{
}

/// Each further signal of a message adds, at the end, its field for the raw value if it is kept,
/// and its field for the described value if it is described too. Nothing comes before the first
/// signal.
pub proof fn law_each_signal_adds_its_fields(
    dbc: DBC,
    message: Message,
    words: MessageWords,
    n: int,
)
    requires
        0 <= n,
    ensures
        ({
            let id = message.message_id;
            let signal = message.signals@[n];
            let raw = raw_fields(dbc, message, words, n);
            let enums = enum_fields(dbc, message, words, n);
            let raw_after = raw_fields(dbc, message, words, n + 1);
            let enums_after = enum_fields(dbc, message, words, n + 1);
            &&& n == 0 ==> raw.len() == 0 && enums.len() == 0
            &&& kept(signal) ==> raw_after == raw.push(raw_field(dbc, id, signal, words.signals[n]))
            &&& !kept(signal) ==> raw_after == raw && enums_after == enums
            &&& kept(signal) && described(dbc, id, signal) ==> enums_after == enums.push(
                enum_field(dbc, id, signal, words.signals[n]),
            )
            &&& !described(dbc, id, signal) ==> enums_after == enums
        }),
{
}

/// Each further signal of a message adds, at the end, the statements that decode its raw value and,
/// if it is kept and described, the one that decodes its described value.
pub proof fn law_each_signal_adds_its_statements(
    dbc: DBC,
    message: Message,
    words: MessageWords,
    n: int,
)
    requires
        0 <= n,
    ensures
        ({
            let id = message.message_id;
            let signal = message.signals@[n];
            let raw = raw_decoders_tokens(dbc, message, words, n);
            let enums = enum_decoders_tokens(dbc, message, words, n);
            let raw_after = raw_decoders_tokens(dbc, message, words, n + 1);
            let enums_after = enum_decoders_tokens(dbc, message, words, n + 1);
            &&& n == 0 ==> raw.len() == 0 && enums.len() == 0
            &&& raw_after == raw + raw_decoder_tokens(dbc, id, signal, words.signals[n])
            &&& enums_after == if kept(signal) && described(dbc, id, signal) {
                enums + enum_decoder_tokens(
                    signal,
                    row1(Token::Ident(enum_name(words.signals[n].camel, id))),
                    words.signals[n],
                )
            } else {
                enums
            }
        }),
{
}

/// Each further signal of a message adds, at the end, the names that its values are put in by: its
/// raw name if it is kept, and its snake case name if it is described too.
pub proof fn law_each_signal_adds_its_names(
    dbc: DBC,
    message: Message,
    words: MessageWords,
    n: int,
)
    requires
        0 <= n,
    ensures
        ({
            let id = message.message_id;
            let signal = message.signals@[n];
            let raw = raw_field_names(message, words, n);
            let enums = enum_field_names(dbc, message, words, n);
            &&& n == 0 ==> raw.len() == 0 && enums.len() == 0
            &&& raw_field_names(message, words, n + 1) == if kept(signal) {
                raw.push(raw_name(words.signals[n].snake))
            } else {
                raw
            }
            &&& enum_field_names(dbc, message, words, n + 1) == if kept(signal) && described(
                dbc,
                id,
                signal,
            ) {
                enums.push(words.signals[n].snake)
            } else {
                enums
            }
        }),
{
}

/// The declarations of fields follow one another.
pub proof fn law_declarations_follow_one_another(fields: Seq<Field>, field: Field)
    ensures
        fields_tokens(Seq::empty()).len() == 0,
        fields_tokens(fields.push(field)) == fields_tokens(fields) + field_tokens(field),
{
    assert(fields.push(field).drop_last() =~= fields);
}

/// A list of names has each name in order, and a comma behind each.
pub proof fn law_names_are_listed(names: Seq<Seq<char>>, i: int)
    ensures
        name_list_tokens(names).len() == 2 * names.len(),
        0 <= i < names.len() ==> {
            &&& name_list_tokens(names)[2 * i] == Token::Ident(names[i])
            &&& name_list_tokens(names)[2 * i + 1] == alone(',')
        },
    decreases names.len(),
{
    if names.len() > 0 {
        law_names_are_listed(names.drop_last(), i);
        if 0 <= i < names.len() - 1 {
            assert(names.drop_last()[i] == names[i]);
        }
    }
}

/// The variant of a message has its documentation, its name, and the fields of all its signals:
/// first those of the raw values, then those of the described values.
pub proof fn law_variant_declares_all_fields(dbc: DBC, message: Message, words: MessageWords)
    ensures
        ({
            let n = message.signals@.len() as int;
            let fields = fields_tokens(raw_fields(dbc, message, words, n)) + fields_tokens(
                enum_fields(dbc, message, words, n),
            );
            message_struct_tokens(dbc, message, words) == doc(message_doc(dbc, message)) + row2(
                Token::Ident(words.camel),
                brace(fields),
            )
        }),
{
    let n = message.signals@.len() as int;
    let fields = fields_tokens(raw_fields(dbc, message, words, n)) + fields_tokens(
        enum_fields(dbc, message, words, n),
    );
    let all = message_struct_tokens(dbc, message, words);
    assert(all.last()->Group_1 =~= fields);
    assert(all =~= doc(message_doc(dbc, message)) + row2(Token::Ident(words.camel), brace(fields)));
}

/// The arm of a message is matched by its frame id. It decodes all signals, the raw values first
/// and the described ones after them, and puts all values into the variant of the message.
pub proof fn law_arm_decodes_all_signals(dbc: DBC, message: Message, words: MessageWords)
    ensures
        ({
            let n = message.signals@.len() as int;
            let names = name_list_tokens(raw_field_names(message, words, n)) + name_list_tokens(
                enum_field_names(dbc, message, words, n),
            );
            let body = raw_decoders_tokens(dbc, message, words, n) + enum_decoders_tokens(
                dbc,
                message,
                words,
                n,
            ) + row5(
                name("DecodedFrame"),
                joint(':'),
                alone(':'),
                Token::Ident(words.camel),
                brace(names),
            );
            &&& arm_body_tokens(dbc, message, words) == body
            &&& message_decoder_tokens(dbc, message, words) == row5(
                number_u32(frame_id(message.message_id)),
                joint('='),
                alone('>'),
                brace(body),
                alone(','),
            )
        }),
{
    reveal_strlit("u32");
    assert("u32"@ =~= seq!['u', '3', '2']);
    let n = message.signals@.len() as int;
    let names = name_list_tokens(raw_field_names(message, words, n)) + name_list_tokens(
        enum_field_names(dbc, message, words, n),
    );
    let body = arm_body_tokens(dbc, message, words);
    assert(body.last()->Group_1 =~= names);
    assert(body =~= raw_decoders_tokens(dbc, message, words, n) + enum_decoders_tokens(
        dbc,
        message,
        words,
        n,
    ) + row5(
        name("DecodedFrame"),
        joint(':'),
        alone(':'),
        Token::Ident(words.camel),
        brace(names),
    ));
}

} // verus!
