//! What names and documentation are made of.
use crate::database::origin_doc;
use crate::ident::{alphabetic, ident_text, named_type, xid_continue, xid_start};
use crate::laws::{digits_value, lemma_decimal_value};
use crate::laws::doubles::digits;
use crate::message::message_doc;
use crate::model::{DBC, Message, MessageId, Signal, ValueDescription};
use crate::naming::{
    camel_case_of, const_name, dbc_words, enum_name, enum_words, message_words, raw_name,
    shouty_snake_case_of, signal_words, snake_case_of,
};
use crate::signal::signal_doc;
use crate::tokens::{decimal, digit};
use vstd::prelude::*;

verus! {

/// A number in decimal is digits that stand for it, without a zero in front.
pub proof fn law_decimal_stands_for_the_number(n: nat)
    ensures
        digits(decimal(n)),
        digits_value(decimal(n)) == n,
        n > 0 ==> decimal(n)[0] != '0',
        n < 10 ==> decimal(n).len() == 1,
    decreases n,
{
    lemma_decimal_value(n);
    if n >= 10 {
        law_decimal_stands_for_the_number(n / 10);
        assert(decimal(n)[0] == decimal(n / 10)[0]);
        assert(decimal(n) =~= decimal(n / 10).push(digit(n % 10)));
    } else {
        assert(decimal(n) =~= seq![digit(n)]);
    }
}

/// A letter of any script, a digit or an underscore.
pub open spec fn word_char(c: char) -> bool {
    alphabetic_char(c) || '0' <= c <= '9' || c == '_'
}

/// A letter of any script.
pub open spec fn alphabetic_char(c: char) -> bool {
    'a' <= c <= 'z' || 'A' <= c <= 'Z' || (c as u32 >= 128 && alphabetic(c))
}

/// A type name holds the text it is made from, character by character: letters, digits and
/// underscores as they are, an `X` for any other. Before them it holds one more `X` exactly if the
/// text starts with no letter.
pub proof fn law_type_name_keeps_the_text(s: Seq<char>)
    ensures
        ({
            let prefix = if s.len() > 0 && !alphabetic_char(s[0]) {
                1int
            } else {
                0
            };
            let name = named_type(s);
            &&& name.len() == s.len() + prefix
            &&& prefix == 1 ==> name[0] == 'X'
            &&& forall|i: int|
                0 <= i < s.len() ==> #[trigger] name[prefix + i] == if word_char(s[i]) {
                    s[i]
                } else {
                    'X'
                }
        }),
{
}

/// An identifier starts with an underscore or a character that may start one, and goes on with
/// characters that may stand in one; every such text is an identifier.
pub proof fn law_identifiers(s: Seq<char>)
    ensures
        ident_text(s) <==> {
            &&& s.len() > 0
            &&& s[0] == '_' || 'a' <= s[0] <= 'z' || 'A' <= s[0] <= 'Z' || (s[0] as u32 >= 128
                && xid_start(s[0]))
            &&& forall|i: int|
                0 < i < s.len() ==> {
                    let c = #[trigger] s[i];
                    c == '_' || 'a' <= c <= 'z' || 'A' <= c <= 'Z' || '0' <= c <= '9' || (c as u32
                        >= 128 && xid_continue(c))
                }
        },
{
}

/// The field of a raw value is named by the signal, an underscore and `raw_value`.
pub proof fn law_raw_name_is_built_on_the_signal(snake: Seq<char>)
    ensures
        raw_name(snake).len() == snake.len() + 10,
        raw_name(snake).take(snake.len() as int) == snake,
        raw_name(snake).skip(snake.len() as int) == "_raw_value"@,
{
    reveal_strlit("_raw_value");
    reveal_strlit("raw_value");
    assert(raw_name(snake).take(snake.len() as int) =~= snake);
    assert(raw_name(snake).skip(snake.len() as int) =~= "_raw_value"@);
}

/// An enum is named by its signal and, in decimal, by the whole id of its message.
pub proof fn law_enum_name_is_built_on_signal_and_id(camel: Seq<char>, id: MessageId)
    ensures
        ({
            let name = enum_name(camel, id);
            let number = name.skip(camel.len() as int);
            &&& name.take(camel.len() as int) == camel
            &&& digits(number)
            &&& digits_value(number) == id.0
            &&& id.0 > 0 ==> number[0] != '0'
        }),
{
    law_decimal_stands_for_the_number(id.0 as nat);
    assert(enum_name(camel, id).take(camel.len() as int) =~= camel);
    assert(enum_name(camel, id).skip(camel.len() as int) =~= decimal(id.0 as nat));
}

/// Signals of one name in messages of different ids have different enums.
pub proof fn law_enum_names_are_told_apart(camel: Seq<char>, a: MessageId, b: MessageId)
    ensures
        enum_name(camel, a) == enum_name(camel, b) <==> a.0 == b.0,
{
    law_enum_name_is_built_on_signal_and_id(camel, a);
    law_enum_name_is_built_on_signal_and_id(camel, b);
}

/// The constant of a message is named by `MESSAGE_ID_` and the message.
pub proof fn law_const_name_is_built_on_the_message(shouty: Seq<char>)
    ensures
        const_name(shouty).take(11) == "MESSAGE_ID_"@,
        const_name(shouty).skip(11) == shouty,
{
    reveal_strlit("MESSAGE_ID_");
    assert(const_name(shouty).take(11) =~= "MESSAGE_ID_"@);
    assert(const_name(shouty).skip(11) =~= shouty);
}

/// Every name of a message is converted from the name of that message, and every name of a signal
/// from the name of that signal.
pub proof fn law_names_are_converted_in_place(message: Message, i: int)
    ensures
        message_words(message).camel == camel_case_of(message.message_name@),
        message_words(message).shouty == shouty_snake_case_of(message.message_name@),
        message_words(message).signals.len() == message.signals@.len(),
        0 <= i < message.signals@.len() ==> {
            let words = message_words(message).signals[i];
            &&& words.snake == snake_case_of(message.signals@[i].name@)
            &&& words.camel == camel_case_of(message.signals@[i].name@)
            &&& words == signal_words(message.signals@[i])
        },
{
}

/// The names for value descriptions are converted from the name of their signal and from their
/// texts.
pub proof fn law_description_names_are_converted_in_place(val_desc: ValueDescription, i: int)
    ensures
        val_desc is Signal ==> {
            let words = enum_words(val_desc);
            let descriptions = val_desc->Signal_value_descriptions@;
            &&& words.camel == camel_case_of(val_desc->signal_name@)
            &&& words.variants.len() == descriptions.len()
            &&& 0 <= i < descriptions.len() ==> words.variants[i] == camel_case_of(
                descriptions[i].b@,
            )
        },
{
}

/// The names of a database are those of its messages and of its value descriptions, in order.
pub proof fn law_database_names_are_converted_in_place(dbc: DBC, i: int)
    ensures
        dbc_words(dbc).messages.len() == dbc.messages@.len(),
        dbc_words(dbc).enums.len() == dbc.value_descriptions@.len(),
        0 <= i < dbc.messages@.len() ==> dbc_words(dbc).messages[i] == message_words(
            dbc.messages@[i],
        ),
        0 <= i < dbc.value_descriptions@.len() ==> dbc_words(dbc).enums[i] == enum_words(
            dbc.value_descriptions@[i],
        ),
{
}

/// The documentation of a signal starts with the comment on it, or with a sentence that names it
/// where there is none, and ends with its unit; nothing is said of a unit that is empty.
pub proof fn law_signal_doc_gives_comment_and_unit(dbc: DBC, id: MessageId, signal: Signal)
    ensures
        ({
            let doc = signal_doc(dbc, id, signal);
            let comment = dbc.comment_on_signal(id, signal.name@);
            let named = "Read "@ + signal.name@ + " signal from can frame"@;
            let unit = "\nUnit: "@ + signal.unit@;
            &&& comment matches Some(text) ==> text.is_prefix_of(doc)
            &&& comment is None ==> named.is_prefix_of(doc)
            &&& signal.unit@.len() > 0 ==> unit.is_suffix_of(doc)
            &&& doc.len() == (match comment {
                Some(text) => text.len(),
                None => named.len(),
            }) + (if signal.unit@.len() > 0 {
                unit.len()
            } else {
                0
            })
        }),
{
    let doc = signal_doc(dbc, id, signal);
    let named = "Read "@ + signal.name@ + " signal from can frame"@;
    let unit = "\nUnit: "@ + signal.unit@;
    let first = match dbc.comment_on_signal(id, signal.name@) {
        Some(text) => text,
        None => named,
    };
    assert(doc.subrange(0, first.len() as int) =~= first);
    if signal.unit@.len() > 0 {
        assert(doc.subrange(doc.len() - unit.len(), doc.len() as int) =~= unit);
    }
}

/// The documentation of a message is the comment on it, and empty where there is none.
pub proof fn law_message_doc_is_the_comment(dbc: DBC, message: Message)
    ensures
        dbc.comment_on_message(message.message_id) matches Some(text) ==> message_doc(dbc, message)
            == text,
        dbc.comment_on_message(message.message_id) is None ==> message_doc(dbc, message).len()
            == 0,
{
    reveal_strlit("");
}

/// The code says which file, version and hash it was generated from, in this order and each on a
/// line of its own.
pub proof fn law_origin_names_file_version_and_hash(
    dbc: DBC,
    file_name: Seq<char>,
    file_hash: Seq<char>,
)
    ensures
        ({
            let doc = origin_doc(dbc, file_name, file_hash);
            let file = "Generated based on\nFile Name: "@ + file_name;
            let version = "\nDBC Version: "@ + dbc.version.0@;
            let hash = seq!['\n'] + file_hash;
            doc == file + (version + hash)
        }),
{
    reveal_strlit("\n");
    let doc = origin_doc(dbc, file_name, file_hash);
    let file = "Generated based on\nFile Name: "@ + file_name;
    let version = "\nDBC Version: "@ + dbc.version.0@;
    let hash = seq!['\n'] + file_hash;
    assert(doc =~= file + (version + hash));
}

} // verus!
