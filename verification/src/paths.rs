//! Which names the paths in generated code start with.
use crate::database::{
    code_tokens, consts_tokens, decoders_tokens, enums_tokens, frame_enum_tokens,
    frame_stream_struct_tokens, frame_stream_tokens, impls_tokens, imports_tokens, socket_type,
    structs_tokens,
};
use crate::description::{
    arm_tokens, arms_tokens, described_type, described_values, enum_tokens, impl_from_tokens,
    signal_enum_tokens, variants_tokens, Described,
};
use crate::message::{
    enum_fields, fields_tokens, message_const_tokens, message_impl_tokens, message_struct_tokens,
    raw_fields,
};
use crate::model::{Message, ValueDescription, DBC};
use crate::naming::{EnumWords, MessageWords, Words};
use crate::signal::{enum_name_tokens, field_tokens, field_type, Field};
use crate::tokens::{attribute_tokens, code, Delim, Gap, Token, Writing};
use vstd::prelude::*;

verus! {

/// A name stands before a path separator in the tokens, or in a group among them.
pub open spec fn leads_path(tokens: Seq<Token>, name: Seq<char>) -> bool
    decreases tokens,
{
    tokens.len() > 0 && {
        let before = tokens.drop_last();
        ||| leads_path(before, name)
        ||| match tokens.last() {
            Token::Punct(c, gap) => c == ':' && gap == Gap::Joint && before.len() > 0
                && before.last() == Token::Ident(name),
            Token::Group(_, inner) => leads_path(inner, name),
            _ => false,
        }
    }
}

/// The name leads no path in the tokens, and none in any tokens that they follow.
spec fn clear(tokens: Seq<Token>, name: Seq<char>) -> bool {
    &&& !leads_path(tokens, name)
    &&& tokens.len() > 0 ==> tokens[0] != Token::Punct(':', Gap::Joint)
}

/// The name leads no path in the token.
spec fn clear_token(token: Token, name: Seq<char>) -> bool {
    match token {
        Token::Group(_, inner) => !leads_path(inner, name),
        _ => true,
    }
}

broadcast proof fn lemma_clear_push(tokens: Seq<Token>, token: Token, name: Seq<char>)
    requires
        clear(tokens, name),
        clear_token(token, name),
        token == Token::Punct(':', Gap::Joint) ==> tokens.len() > 0 && tokens.last()
            != Token::Ident(name),
    ensures
        #[trigger] clear(tokens.push(token), name),
{
    assert(tokens.push(token).drop_last() == tokens);
}

broadcast proof fn lemma_clear_sum(a: Seq<Token>, b: Seq<Token>, name: Seq<char>)
    requires
        clear(a, name),
        clear(b, name),
    ensures
        #[trigger] clear(a + b, name),
    decreases b.len(),
{
    if b.len() == 0 {
        assert(a + b == a);
    } else {
        let start = b.drop_last();
        assert(a + b == (a + start).push(b.last()));
        assert(b == start.push(b.last()));
        lemma_clear_sum(a, start, name);
        lemma_clear_push(a + start, b.last(), name);
    }
}

broadcast proof fn lemma_clear_group(token: Token, name: Seq<char>)
    requires
        token matches Token::Group(_, inner) ==> clear(inner, name),
    ensures
        #[trigger] clear_token(token, name),
{
}

broadcast proof fn lemma_clear_start(name: Seq<char>)
    ensures
        #[trigger] clear(code(), name),
{
}

broadcast group group_clear {
    lemma_clear_push,
    lemma_clear_sum,
    lemma_clear_group,
    lemma_clear_start,
}

proof fn lemma_clear_variants(values: Seq<Described>, name: Seq<char>)
    ensures
        clear(variants_tokens(values), name),
    decreases values.len(),
{
    broadcast use group_clear;

    if values.len() > 1 {
        lemma_clear_variants(values.drop_last(), name);
    }
}

proof fn lemma_clear_arms(values: Seq<Described>, name: Seq<char>)
    requires
        name != "Self"@,
    ensures
        clear(arms_tokens(values), name),
    decreases values.len(),
{
    broadcast use group_clear;

    assert forall|value: Described| clear(#[trigger] arm_tokens(value), name) by {}
    if values.len() > 1 {
        lemma_clear_arms(values.drop_last(), name);
    }
}

proof fn lemma_clear_attribute(attribute: &str, argument: &str, name: Seq<char>)
    ensures
        clear(attribute_tokens(attribute, argument), name),
{
    broadcast use group_clear;

}

proof fn lemma_clear_enum(
    enum_type: Seq<Token>,
    ty: Seq<Token>,
    values: Seq<Described>,
    name: Seq<char>,
)
    requires
        clear(enum_type, name),
        clear(ty, name),
    ensures
        clear(enum_tokens(enum_type, ty, values), name),
{
    broadcast use group_clear;

    lemma_clear_variants(values, name);
    lemma_clear_attribute("allow", "dead_code", name);
    lemma_clear_attribute("repr", "u64", name);
}

proof fn lemma_clear_conversion(
    enum_type: Seq<Token>,
    ty: Seq<Token>,
    values: Seq<Described>,
    name: Seq<char>,
)
    requires
        clear(enum_type, name),
        clear(ty, name),
        name != "Self"@,
    ensures
        clear(impl_from_tokens(enum_type, ty, values), name),
{
    broadcast use group_clear;

    lemma_clear_arms(values, name);
    lemma_clear_attribute("allow", "dead_code", name);
}

proof fn lemma_clear_signal_enum(
    dbc: DBC,
    val_desc: ValueDescription,
    words: EnumWords,
    name: Seq<char>,
)
    requires
        name != "Self"@,
    ensures
        clear(signal_enum_tokens(dbc, val_desc, words), name),
{
    broadcast use group_clear;

    if let ValueDescription::Signal { message_id, signal_name, value_descriptions } = val_desc {
        let enum_type = enum_name_tokens(words.camel, message_id);
        let ty = described_type(dbc, message_id, signal_name@);
        let values = described_values(value_descriptions@, words.variants);
        lemma_clear_enum(enum_type, ty, values, name);
        lemma_clear_conversion(enum_type, ty, values, name);
    }
}

/// The name leads no path in the types of the fields.
spec fn clear_types(fields: Seq<Field>, name: Seq<char>) -> bool {
    forall|i: int| 0 <= i < fields.len() ==> clear((#[trigger] fields[i]).ty, name)
}

proof fn lemma_clear_fields(fields: Seq<Field>, name: Seq<char>)
    requires
        clear_types(fields, name),
    ensures
        clear(fields_tokens(fields), name),
    decreases fields.len(),
{
    broadcast use group_clear;

    if fields.len() > 0 {
        assert(clear(field_tokens(fields.last()), name));
        lemma_clear_fields(fields.drop_last(), name);
    }
}

proof fn lemma_clear_field_types(
    dbc: DBC,
    message: Message,
    words: MessageWords,
    n: int,
    name: Seq<char>,
)
    ensures
        clear_types(raw_fields(dbc, message, words, n), name),
        clear_types(enum_fields(dbc, message, words, n), name),
    decreases n,
{
    if n > 0 {
        let id = message.message_id;
        let signal = message.signals@[n - 1];
        assert(clear(field_type(dbc, id, signal), name) && clear(
            enum_name_tokens(words.signals[n - 1].camel, id),
            name,
        )) by {
            broadcast use group_clear;

        }
        lemma_clear_field_types(dbc, message, words, n - 1, name);
    }
}

proof fn lemma_clear_struct(dbc: DBC, message: Message, words: MessageWords, name: Seq<char>)
    ensures
        clear(message_struct_tokens(dbc, message, words), name),
{
    broadcast use group_clear;

    let n = message.signals@.len() as int;
    lemma_clear_field_types(dbc, message, words, n, name);
    lemma_clear_fields(raw_fields(dbc, message, words, n), name);
    lemma_clear_fields(enum_fields(dbc, message, words, n), name);
}

proof fn lemma_clear_messages(dbc: DBC, words: Words, n: int, name: Seq<char>)
    ensures
        clear(consts_tokens(dbc, words, n), name),
        clear(impls_tokens(dbc, words, n), name),
        clear(structs_tokens(dbc, words, n), name),
    decreases n,
{
    broadcast use group_clear;

    if n > 0 {
        let message = dbc.messages@[n - 1];
        lemma_clear_messages(dbc, words, n - 1, name);
        lemma_clear_attribute("allow", "dead_code", name);
        assert(clear(message_const_tokens(message, words.messages[n - 1]), name));
        assert(clear(message_impl_tokens(message, words.messages[n - 1]), name));
        lemma_clear_struct(dbc, message, words.messages[n - 1], name);
    }
}

proof fn lemma_clear_enums(dbc: DBC, words: Words, n: int, name: Seq<char>)
    requires
        name != "Self"@,
    ensures
        clear(enums_tokens(dbc, words, n), name),
    decreases n,
{
    broadcast use group_clear;

    if n > 0 {
        lemma_clear_enums(dbc, words, n - 1, name);
        lemma_clear_signal_enum(dbc, dbc.value_descriptions@[n - 1], words.enums[n - 1], name);
    }
}

/// In code without streams, no other name than `byteorder` and `Self` leads a path.
pub proof fn lemma_paths_without_streams(
    dbc: DBC,
    words: Words,
    file_name: Seq<char>,
    file_hash: Seq<char>,
    name: Seq<char>,
)
    requires
        name != "byteorder"@,
        name != "Self"@,
    ensures
        !leads_path(code_tokens(false, dbc, words, file_name, file_hash), name),
{
    broadcast use group_clear;

    let n = dbc.messages@.len() as int;
    lemma_clear_messages(dbc, words, n, name);
    lemma_clear_enums(dbc, words, dbc.value_descriptions@.len() as int, name);
    assert(clear(imports_tokens(), name));
    assert(clear(frame_enum_tokens(false, structs_tokens(dbc, words, n)), name));
    assert(clear(code_tokens(false, dbc, words, file_name, file_hash), name));
}

broadcast proof fn lemma_leads_path_push(tokens: Seq<Token>, token: Token, name: Seq<char>)
    requires
        leads_path(tokens, name),
    ensures
        #[trigger] leads_path(tokens.push(token), name),
{
    assert(tokens.push(token).drop_last() == tokens);
}

broadcast proof fn lemma_leads_path_sum(a: Seq<Token>, b: Seq<Token>, name: Seq<char>)
    requires
        leads_path(a, name) || leads_path(b, name),
    ensures
        #[trigger] leads_path(a + b, name),
    decreases b.len(),
{
    if b.len() == 0 {
        assert(a + b == a);
    } else {
        let start = b.drop_last();
        assert((a + b).drop_last() == a + start);
        if leads_path(a, name) || leads_path(start, name) {
            lemma_leads_path_sum(a, start, name);
        }
    }
}

/// In code with streams, `tokio_socketcan` leads a path.
pub proof fn lemma_paths_with_streams(
    dbc: DBC,
    words: Words,
    file_name: Seq<char>,
    file_hash: Seq<char>,
)
    ensures
        leads_path(
            code_tokens(true, dbc, words, file_name, file_hash),
            "tokio_socketcan"@,
        ),
{
    broadcast use {lemma_leads_path_push, lemma_leads_path_sum};

    let name = "tokio_socketcan"@;
    let before = code().word("tokio_socketcan").push(Token::Punct(':', Gap::Joint));
    assert(before.drop_last() == code().word("tokio_socketcan"));
    assert(leads_path(before, name));
    assert(leads_path(socket_type(), name));
    let field = code().word("can_socket").op(':').splice(socket_type()).op(',');
    let declaration = frame_stream_struct_tokens();
    assert(leads_path(field, name));
    assert(declaration.last() == Token::Group(Delim::Brace, field));
    assert(leads_path(declaration, name));
    let n = dbc.messages@.len() as int;
    assert(leads_path(frame_stream_tokens(decoders_tokens(dbc, words, n)), name));
}

} // verus!
