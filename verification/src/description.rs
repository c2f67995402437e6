//! The enum for the described values of a signal, and the conversion into it.
use crate::double::{real_to_u64, saturated};
use crate::ident::{ident_text, named_type, TypeName};
use crate::model::{MessageId, ValDescription, ValueDescription, DBC};
use crate::naming::{enum_name, enum_names, enum_words, EnumNames, EnumWords};
use crate::signal::{enum_name_tokens, signal_decoded_type, to_enum_name_named, type_tokens};
use crate::tokens::{attribute, attribute_tokens, code, stream_tokens, Code, Token, Writing};
use crate::words::lemma_enum_words;
use proc_macro2::TokenStream;
use vstd::prelude::*;

verus! {

/// One described value: the raw value as an integer, and the variant for it.
pub struct Described {
    pub value: u64,
    pub variant: Seq<char>,
}

/// The described values, whose converted texts are given.
pub open spec fn described_values(
    descriptions: Seq<ValDescription>,
    variants: Seq<Seq<char>>,
) -> Seq<Described> {
    Seq::new(
        descriptions.len(),
        |i: int|
            Described {
                value: saturated(descriptions[i].a) as u64,
                variant: named_type(variants[i]),
            },
    )
}

/// The variants, with a comma between each two.
pub open spec fn variants_tokens(values: Seq<Described>) -> Seq<Token>
    decreases values.len(),
{
    if values.len() == 0 {
        code()
    } else if values.len() == 1 {
        code().ident(values[0].variant)
    } else {
        variants_tokens(values.drop_last()).op(',').ident(values.last().variant)
    }
}

/// The arms from each value to its variant, with a comma between each two.
pub open spec fn arms_tokens(values: Seq<Described>) -> Seq<Token>
    decreases values.len(),
{
    if values.len() == 0 {
        code()
    } else if values.len() == 1 {
        code().splice(arm_tokens(values[0]))
    } else {
        arms_tokens(values.drop_last()).op(',').splice(arm_tokens(values.last()))
    }
}

/// The arm from a value to its variant.
pub open spec fn arm_tokens(described: Described) -> Seq<Token> {
    code().number(described.value).op2('=', '>').word("Self").op2(':', ':').ident(described.variant)
}

/// The conversion of a raw value, of the given type, into the enum of its signal.
pub open spec fn impl_from_tokens(
    enum_type: Seq<Token>,
    ty: Seq<Token>,
    values: Seq<Described>,
) -> Seq<Token> {
    let arms = code().splice(arms_tokens(values)).op(',').word("_").op2('=', '>').word("Self").op2(
        ':',
        ':',
    ).word("XValue").parens(code().word("val")).op(',');
    let from = code().splice(attribute_tokens("allow", "dead_code")).word("fn").word("from").parens(
        code().word("val").op(':').splice(ty),
    ).op2('-', '>').word("Self").braces(
        code().word("match").word("val").word("as").word("u64").braces(arms),
    );
    code().word("impl").word("From").op('<').splice(ty).op('>').word("for").splice(
        enum_type,
    ).braces(from)
}

/// The enum of a signal, whose raw value is of the given type: the described values, and one
/// variant for every other value.
pub open spec fn enum_tokens(
    enum_type: Seq<Token>,
    ty: Seq<Token>,
    values: Seq<Described>,
) -> Seq<Token> {
    let derives = code().op('#').brackets(
        code().word("derive").parens(
            code().word("Debug").op(',').word("Clone").op(',').word("Copy").op(',').word(
                "PartialEq",
            ),
        ),
    );
    code().splice(attribute_tokens("allow", "dead_code")).splice(derives).splice(
        attribute_tokens("repr", "u64"),
    ).word("pub").word("enum").splice(enum_type).braces(
        code().splice(variants_tokens(values)).op(',').word("XValue").parens(ty).op(','),
    )
}

/// The type of the raw value of the signal that descriptions belong to.
pub open spec fn described_type(dbc: DBC, id: MessageId, signal_name: Seq<char>) -> Seq<Token> {
    match dbc.signal_named(id, signal_name) {
        Some(signal) => type_tokens(dbc, id, signal),
        None => code().word("u64"),
    }
}

/// The code for value descriptions can be written with the given names: the signal that they
/// belong to exists, and the names of its enum and of the variants are identifiers.
pub open spec fn enum_writable(dbc: DBC, val_desc: ValueDescription, words: EnumWords) -> bool {
    match val_desc {
        ValueDescription::Signal { message_id, signal_name, value_descriptions } => {
            &&& dbc.signal_named(message_id, signal_name@) is Some
            &&& ident_text(enum_name(words.camel, message_id))
            &&& words.variants.len() == value_descriptions@.len()
            &&& forall|i: int|
                0 <= i < words.variants.len() ==> ident_text(
                    named_type(#[trigger] words.variants[i]),
                )
        },
        _ => true,
    }
}

/// The conversion into the enum for value descriptions; none for those of an environment
/// variable.
pub open spec fn signal_enum_impl_from_tokens(
    dbc: DBC,
    val_desc: ValueDescription,
    words: EnumWords,
) -> Option<Seq<Token>> {
    match val_desc {
        ValueDescription::Signal { message_id, signal_name, value_descriptions } => Some(
            impl_from_tokens(
                enum_name_tokens(words.camel, message_id),
                described_type(dbc, message_id, signal_name@),
                described_values(value_descriptions@, words.variants),
            ),
        ),
        _ => None,
    }
}

/// The enum for value descriptions and the conversion into it; nothing for those of an
/// environment variable.
pub open spec fn signal_enum_tokens(
    dbc: DBC,
    val_desc: ValueDescription,
    words: EnumWords,
) -> Seq<Token> {
    match val_desc {
        ValueDescription::Signal { message_id, signal_name, value_descriptions } => {
            let enum_type = enum_name_tokens(words.camel, message_id);
            let ty = described_type(dbc, message_id, signal_name@);
            let values = described_values(value_descriptions@, words.variants);
            enum_tokens(enum_type, ty, values).splice(impl_from_tokens(enum_type, ty, values))
        },
        _ => code(),
    }
}

/// Writes the variants, with a comma between each two.
fn variants(descriptions: &Vec<ValDescription>, names: &EnumNames) -> (r: Code)
    requires
        names.variants@.len() == descriptions@.len(),
        forall|i: int|
            0 <= i < names@.variants.len() ==> ident_text(
                named_type(#[trigger] names@.variants[i]),
            ),
    ensures
        r@ == variants_tokens(described_values(descriptions@, names@.variants)),
{
    let ghost values = described_values(descriptions@, names@.variants);
    let mut list = Code::new();
    let mut i: usize = 0;
    while i < names.variants.len()
        invariant
            i <= names.variants.len(),
            names.variants@.len() == descriptions@.len(),
            forall|j: int|
                0 <= j < names@.variants.len() ==> ident_text(
                    named_type(#[trigger] names@.variants[j]),
                ),
            values == described_values(descriptions@, names@.variants),
            list@ == variants_tokens(values.take(i as int)),
        decreases names.variants.len() - i,
    {
        assert(names@.variants[i as int] == names.variants@[i as int]@);
        let name = names.variants[i].as_str().to_type_name();
        if i > 0 {
            list = list.op(',');
        }
        list = list.ident(name.as_str());
        proof {
            let next = values.take(i + 1);
            assert(next.drop_last() == values.take(i as int));
            assert(next.last() == values[i as int]);
        }
        i += 1;
    }
    assert(values.take(i as int) == values);
    list
}

/// Writes the arms from each value to its variant, with a comma between each two.
fn arms(descriptions: &Vec<ValDescription>, names: &EnumNames) -> (r: Code)
    requires
        names.variants@.len() == descriptions@.len(),
        forall|i: int|
            0 <= i < names@.variants.len() ==> ident_text(
                named_type(#[trigger] names@.variants[i]),
            ),
    ensures
        r@ == arms_tokens(described_values(descriptions@, names@.variants)),
{
    proof {
        lemma_enum_words();
    }
    let ghost values = described_values(descriptions@, names@.variants);
    let mut list = Code::new();
    let mut i: usize = 0;
    while i < descriptions.len()
        invariant
            i <= descriptions.len(),
            names.variants@.len() == descriptions@.len(),
            forall|j: int|
                0 <= j < names@.variants.len() ==> ident_text(
                    named_type(#[trigger] names@.variants[j]),
                ),
            values == described_values(descriptions@, names@.variants),
            ident_text("Self"@),
            list@ == arms_tokens(values.take(i as int)),
        decreases descriptions.len() - i,
    {
        assert(names@.variants[i as int] == names.variants@[i as int]@);
        let match_left: u64 = real_to_u64(descriptions[i].a);
        let match_right = names.variants[i].as_str().to_type_name();
        let arm = Code::new().number(match_left).op2('=', '>').word("Self").op2(':', ':').ident(
            match_right.as_str(),
        );
        if i > 0 {
            list = list.op(',');
        }
        list = list.splice(&arm.stream);
        proof {
            let next = values.take(i + 1);
            assert(next.drop_last() == values.take(i as int));
            assert(next.last() == values[i as int]);
        }
        i += 1;
    }
    assert(values.take(i as int) == values);
    list
}

/// Writes the conversion into the enum for value descriptions, whose converted names are given.
pub fn signal_enum_impl_from_named(
    dbc: &DBC,
    val_desc: &ValueDescription,
    names: &EnumNames,
) -> (r: Option<TokenStream>)
    requires
        enum_writable(*dbc, *val_desc, names@),
    ensures
        match r {
            Some(tokens) => signal_enum_impl_from_tokens(*dbc, *val_desc, names@) == Some(
                stream_tokens(tokens),
            ),
            None => signal_enum_impl_from_tokens(*dbc, *val_desc, names@) is None,
        },
{
    if let ValueDescription::Signal { message_id, signal_name, value_descriptions } = val_desc {
        proof {
            lemma_enum_words();
        }
        let enum_name = to_enum_name_named(message_id, names.camel.as_str());
        let signal_type = match dbc.signal_by_name(*message_id, signal_name.as_str()) {
            Some(signal) => signal_decoded_type(dbc, *message_id, signal),
            None => return None,
        };
        let arms = Code::new().splice(&arms(value_descriptions, names).stream).op(',').word(
            "_",
        ).op2('=', '>').word("Self").op2(':', ':').word("XValue").parens(
            Code::new().word("val"),
        ).op(',');
        let from = Code::new().splice(&attribute("allow", "dead_code").stream).word("fn").word(
            "from",
        ).parens(Code::new().word("val").op(':').splice(&signal_type)).op2('-', '>').word(
            "Self",
        ).braces(Code::new().word("match").word("val").word("as").word("u64").braces(arms));
        Some(
            Code::new().word("impl").word("From").op('<').splice(&signal_type).op('>').word(
                "for",
            ).splice(&enum_name).braces(from).stream,
        )
    } else {
        None
    }
}

/// Writes the conversion into the enum for value descriptions.
pub fn signal_enum_impl_from(dbc: &DBC, val_desc: &ValueDescription) -> (r: Option<TokenStream>)
    requires
        enum_writable(*dbc, *val_desc, enum_words(*val_desc)),
    ensures
        match r {
            Some(tokens) => signal_enum_impl_from_tokens(
                *dbc,
                *val_desc,
                enum_words(*val_desc),
            ) == Some(stream_tokens(tokens)),
            None => signal_enum_impl_from_tokens(*dbc, *val_desc, enum_words(*val_desc)) is None,
        },
{
    signal_enum_impl_from_named(dbc, val_desc, &enum_names(val_desc))
}

/// Writes the enum for value descriptions, whose converted names are given, and the conversion
/// into it.
pub fn signal_enum_named(dbc: &DBC, val_desc: &ValueDescription, names: &EnumNames) -> (r:
    TokenStream)
    requires
        enum_writable(*dbc, *val_desc, names@),
    ensures
        stream_tokens(r) == signal_enum_tokens(*dbc, *val_desc, names@),
{
    if let ValueDescription::Signal { message_id, signal_name, value_descriptions } = val_desc {
        proof {
            lemma_enum_words();
        }
        let enum_name = to_enum_name_named(message_id, names.camel.as_str());
        let enum_variants = variants(value_descriptions, names);
        let signal_enum_impl_from = match signal_enum_impl_from_named(dbc, val_desc, names) {
            Some(tokens) => tokens,
            None => Code::new().stream,
        };
        let decoded_type = match dbc.signal_by_name(*message_id, signal_name.as_str()) {
            Some(signal) => signal_decoded_type(dbc, *message_id, signal),
            None => Code::new().word("u64").stream,
        };
        let derives = Code::new().op('#').brackets(
            Code::new().word("derive").parens(
                Code::new().word("Debug").op(',').word("Clone").op(',').word("Copy").op(',').word(
                    "PartialEq",
                ),
            ),
        );
        Code::new().splice(&attribute("allow", "dead_code").stream).splice(
            &derives.stream,
        ).splice(&attribute("repr", "u64").stream).word("pub").word("enum").splice(
            &enum_name,
        ).braces(
            Code::new().splice(&enum_variants.stream).op(',').word("XValue").parens(
                Code { stream: decoded_type },
            ).op(','),
        ).splice(&signal_enum_impl_from).stream
    } else {
        Code::new().stream
    }
}

/// Writes the enum for value descriptions and the conversion into it.
pub fn signal_enum(dbc: &DBC, val_desc: &ValueDescription) -> (r: TokenStream)
    requires
        enum_writable(*dbc, *val_desc, enum_words(*val_desc)),
    ensures
        stream_tokens(r) == signal_enum_tokens(*dbc, *val_desc, enum_words(*val_desc)),
{
    signal_enum_named(dbc, val_desc, &enum_names(val_desc))
}

} // verus!
