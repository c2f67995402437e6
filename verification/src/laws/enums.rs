//! What the enum of a signal and the conversion into it say.
use crate::description::{
    arm_tokens, arms_tokens, described_type, described_values, enum_tokens, impl_from_tokens,
    signal_enum_impl_from_tokens, signal_enum_tokens, variants_tokens, Described,
};
use crate::double::saturated;
use crate::ident::named_type;
use crate::laws::reading::{
    allow_dead_code, alone, brace, bracket, joint, name, number, paren, row1, row10, row2, row3,
    row4, row5, row6, row7,
};
use crate::layout::decoded_type_of;
use crate::model::{DBC, MessageId, ValDescription, ValueDescription};
use crate::naming::{enum_name, EnumWords};
use crate::tokens::Token;
use vstd::prelude::*;

verus! {

/// Every described value has the integer that its number converts to and the type name of its
/// converted text, and there is one for each description.
pub proof fn law_every_description_is_a_value(
    descriptions: Seq<ValDescription>,
    variants: Seq<Seq<char>>,
    i: int,
)
    requires
        0 <= i < descriptions.len(),
    ensures
        described_values(descriptions, variants).len() == descriptions.len(),
        described_values(descriptions, variants)[i].value == saturated(descriptions[i].a),
        described_values(descriptions, variants)[i].variant == named_type(variants[i]),
{
    assert(saturated(descriptions[i].a) <= u64::MAX);
}

/// The enum has a variant for each described value, in order and with commas between them.
pub proof fn law_every_value_has_a_variant(values: Seq<Described>, i: int)
    requires
        0 <= i < values.len(),
    ensures
        variants_tokens(values).len() == 2 * values.len() - 1,
        variants_tokens(values)[2 * i] == Token::Ident(values[i].variant),
        i > 0 ==> variants_tokens(values)[2 * i - 1] == alone(','),
    decreases values.len(),
{
    let before = values.drop_last();
    if values.len() > 1 {
        law_every_value_has_a_variant(
            before,
            if i < before.len() {
                i
            } else {
                0
            },
        );
        if i < before.len() {
            assert(before[i] == values[i]);
        }
    }
}

proof fn lemma_appended(earlier: Seq<Token>, comma: Token, item: Seq<Token>, from: int, to: int)
    requires
        0 <= from <= to <= earlier.len(),
    ensures
        ({
            let all = earlier.push(comma) + item;
            &&& all.len() == earlier.len() + 1 + item.len()
            &&& all.subrange(from, to) == earlier.subrange(from, to)
            &&& all.subrange(earlier.len() as int + 1, all.len() as int) == item
            &&& all[earlier.len() as int] == comma
            &&& forall|i: int| 0 <= i < earlier.len() ==> all[i] == earlier[i]
        }),
{
    let all = earlier.push(comma) + item;
    assert(all.subrange(from, to) =~= earlier.subrange(from, to));
    assert(all.subrange(earlier.len() as int + 1, all.len() as int) =~= item);
}

/// The arm `value => Self::Variant`.
pub open spec fn value_arm(described: Described) -> Seq<Token> {
    row7(
        number(described.value),
        joint('='),
        alone('>'),
        name("Self"),
        joint(':'),
        alone(':'),
        Token::Ident(described.variant),
    )
}

/// The match of a conversion has the arm `value => Self::Variant` for each described value, in
/// order and with commas between them.
pub proof fn law_every_value_has_an_arm(values: Seq<Described>, i: int)
    requires
        0 <= i < values.len(),
    ensures
        arms_tokens(values).len() == 8 * values.len() - 1,
        arms_tokens(values).subrange(8 * i, 8 * i + 7) == value_arm(values[i]),
        i > 0 ==> arms_tokens(values)[8 * i - 1] == alone(','),
    decreases values.len(),
{
    let before = values.drop_last();
    let all = arms_tokens(values);
    let last = arm_tokens(values.last());
    assert(last == value_arm(values.last()));
    assert(last.len() == 7);
    if values.len() > 1 {
        let earlier = arms_tokens(before);
        assert(all == earlier.push(alone(',')) + last);
        if i < before.len() {
            law_every_value_has_an_arm(before, i);
            lemma_appended(earlier, alone(','), last, 8 * i, 8 * i + 7);
        } else {
            law_every_value_has_an_arm(before, 0);
            lemma_appended(earlier, alone(','), last, 0, 0);
        }
    } else {
        assert(all =~= last);
        assert(all.subrange(0, 7) =~= last);
    }
}

/// Without described values there are no variants and no arms.
pub proof fn law_no_values_no_variants_no_arms()
    ensures
        variants_tokens(Seq::<Described>::empty()).len() == 0,
        arms_tokens(Seq::<Described>::empty()).len() == 0,
{
}

/// The type that value descriptions speak of: that of the raw value of their signal, as it is
/// looked up by message and name.
pub proof fn law_descriptions_speak_of_the_type_of_their_signal(
    dbc: DBC,
    id: MessageId,
    signal_name: Seq<char>,
)
    ensures
        dbc.signal_named(id, signal_name) matches Some(signal) ==> described_type(
            dbc,
            id,
            signal_name,
        ) == row1(Token::Ident(decoded_type_of(dbc, id, signal).text()@)),
        dbc.signal_named(id, signal_name) is None ==> described_type(dbc, id, signal_name) == row1(
            name("u64"),
        ),
{
}

/// The conversion is `impl From<type> for Enum`, whose function `from` matches its argument, as an
/// unsigned integer, with the arms of the described values and, after them, with an arm that keeps
/// any other value.
pub proof fn law_conversion_matches_the_value(
    enum_type: Seq<Token>,
    ty: Seq<Token>,
    values: Seq<Described>,
)
    ensures
        ({
            let arms = arms_tokens(values) + row10(
                alone(','),
                name("_"),
                joint('='),
                alone('>'),
                name("Self"),
                joint(':'),
                alone(':'),
                name("XValue"),
                paren(row1(name("val"))),
                alone(','),
            );
            let from = allow_dead_code() + row7(
                name("fn"),
                name("from"),
                paren(row2(name("val"), alone(':')) + ty),
                joint('-'),
                alone('>'),
                name("Self"),
                brace(row5(name("match"), name("val"), name("as"), name("u64"), brace(arms))),
            );
            impl_from_tokens(enum_type, ty, values) == row3(name("impl"), name("From"), alone('<'))
                + ty + row2(alone('>'), name("for")) + enum_type + row1(brace(from))
        }),
{
    let arms = arms_tokens(values) + row10(
        alone(','),
        name("_"),
        joint('='),
        alone('>'),
        name("Self"),
        joint(':'),
        alone(':'),
        name("XValue"),
        paren(row1(name("val"))),
        alone(','),
    );
    let from = allow_dead_code() + row7(
        name("fn"),
        name("from"),
        paren(row2(name("val"), alone(':')) + ty),
        joint('-'),
        alone('>'),
        name("Self"),
        brace(row5(name("match"), name("val"), name("as"), name("u64"), brace(arms))),
    );
    let all = impl_from_tokens(enum_type, ty, values);
    let body = all.last()->Group_1;
    let choice = body.last()->Group_1;
    assert(choice.last()->Group_1 =~= arms);
    assert(choice =~= row5(name("match"), name("val"), name("as"), name("u64"), brace(arms)));
    let parameter = body[body.len() - 5]->Group_1;
    assert(parameter =~= row2(name("val"), alone(':')) + ty);
    assert(body =~= from);
    assert(all =~= row3(name("impl"), name("From"), alone('<')) + ty + row2(
        alone('>'),
        name("for"),
    ) + enum_type + row1(brace(from)));
}

/// The enum of a signal is public and can be compared and copied; after the variants of the
/// described values, it has one that keeps any other value in its type.
pub proof fn law_enum_keeps_other_values(
    enum_type: Seq<Token>,
    ty: Seq<Token>,
    values: Seq<Described>,
)
    ensures
        ({
            let derived = row7(
                name("Debug"),
                alone(','),
                name("Clone"),
                alone(','),
                name("Copy"),
                alone(','),
                name("PartialEq"),
            );
            let body = variants_tokens(values) + row4(
                alone(','),
                name("XValue"),
                paren(ty),
                alone(','),
            );
            enum_tokens(enum_type, ty, values) == allow_dead_code() + row6(
                alone('#'),
                bracket(row2(name("derive"), paren(derived))),
                alone('#'),
                bracket(row2(name("repr"), paren(row1(name("u64"))))),
                name("pub"),
                name("enum"),
            ) + enum_type + row1(brace(body))
        }),
{
    let derived = row7(
        name("Debug"),
        alone(','),
        name("Clone"),
        alone(','),
        name("Copy"),
        alone(','),
        name("PartialEq"),
    );
    let body = variants_tokens(values) + row4(alone(','), name("XValue"), paren(ty), alone(','));
    let all = enum_tokens(enum_type, ty, values);
    assert(all.last()->Group_1 =~= body);
    assert(all =~= allow_dead_code() + row6(
        alone('#'),
        bracket(row2(name("derive"), paren(derived))),
        alone('#'),
        bracket(row2(name("repr"), paren(row1(name("u64"))))),
        name("pub"),
        name("enum"),
    ) + enum_type + row1(brace(body)));
}

/// Value descriptions of a signal give the enum named by signal and message with its values, and
/// the conversion into that enum; those of an environment variable give neither.
pub proof fn law_descriptions_give_enum_and_conversion(
    dbc: DBC,
    val_desc: ValueDescription,
    words: EnumWords,
)
    ensures
        val_desc is Signal ==> {
            let id = val_desc->message_id;
            let enum_type = row1(Token::Ident(enum_name(words.camel, id)));
            let ty = described_type(dbc, id, val_desc->signal_name@);
            let values = described_values(val_desc->Signal_value_descriptions@, words.variants);
            &&& signal_enum_impl_from_tokens(dbc, val_desc, words) == Some(
                impl_from_tokens(enum_type, ty, values),
            )
            &&& signal_enum_tokens(dbc, val_desc, words) == enum_tokens(enum_type, ty, values)
                + impl_from_tokens(enum_type, ty, values)
        },
        !(val_desc is Signal) ==> {
            &&& signal_enum_impl_from_tokens(dbc, val_desc, words) is None
            &&& signal_enum_tokens(dbc, val_desc, words).len() == 0
        },
{
}

} // verus!
