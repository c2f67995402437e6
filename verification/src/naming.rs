//! The names of the generated items, and the case conversions they are made with.
use crate::model::{Message, MessageId, Signal, ValDescription, ValueDescription, DBC};
use crate::tokens::{decimal, digit};
use heck::{CamelCase, ShoutySnakeCase, SnakeCase};
use vstd::prelude::*;

verus! {

/// Suffix that is appended to the raw signal fields
pub const RAW_FN_SUFFIX: &'static str = "raw_value";

/// A text in camel case, as `heck` divides it into words.
pub uninterp spec fn camel_case_of(text: Seq<char>) -> Seq<char>;

/// A text in snake case, as `heck` divides it into words.
pub uninterp spec fn snake_case_of(text: Seq<char>) -> Seq<char>;

/// A text in upper snake case, as `heck` divides it into words.
pub uninterp spec fn shouty_snake_case_of(text: Seq<char>) -> Seq<char>;

/// `heck::CamelCase::to_camel_case`, a function of the text alone.
#[verifier::external_body]
pub(crate) fn camel_case(text: &str) -> (r: String)
    ensures
        r@ == camel_case_of(text@),
{
    text.to_camel_case()
}

/// `heck::SnakeCase::to_snake_case`, a function of the text alone.
#[verifier::external_body]
pub(crate) fn snake_case(text: &str) -> (r: String)
    ensures
        r@ == snake_case_of(text@),
{
    text.to_snake_case()
}

/// `heck::ShoutySnakeCase::to_shouty_snake_case`, a function of the text alone.
#[verifier::external_body]
pub(crate) fn shouty_snake_case(text: &str) -> (r: String)
    ensures
        r@ == shouty_snake_case_of(text@),
{
    text.to_shouty_snake_case()
}

/// A number in decimal.
pub fn decimal_text(n: u32) -> (r: String)
    ensures
        r@ == decimal(n as nat),
    decreases n,
{
    let mut text = if n < 10 {
        String::new()
    } else {
        decimal_text(n / 10)
    };
    let last: char = match n % 10 {
        0 => '0',
        1 => '1',
        2 => '2',
        3 => '3',
        4 => '4',
        5 => '5',
        6 => '6',
        7 => '7',
        8 => '8',
        _ => '9',
    };
    assert(last == digit((n % 10) as nat));
    text.push(last);
    text
}

/// The field that holds the raw value of a signal whose snake case name is given.
pub open spec fn raw_name(snake: Seq<char>) -> Seq<char> {
    snake.push('_') + RAW_FN_SUFFIX@
}

/// The enum of a signal whose camel case name is given.
pub open spec fn enum_name(camel: Seq<char>, id: MessageId) -> Seq<char> {
    camel + decimal(id.0 as nat)
}

/// The constant for the id of a message whose upper snake case name is given.
pub open spec fn const_name(shouty: Seq<char>) -> Seq<char> {
    "MESSAGE_ID_"@ + shouty
}

/// Makes the name of the field that holds the raw value of a signal.
pub fn raw_field_name(snake: &str) -> (r: String)
    ensures
        r@ == raw_name(snake@),
{
    let mut name = snake.to_owned();
    name.push('_');
    name.append(RAW_FN_SUFFIX);
    name
}

/// Makes the name of the enum of a signal.
pub fn signal_enum_name(camel: &str, message_id: MessageId) -> (r: String)
    ensures
        r@ == enum_name(camel@, message_id),
{
    let mut name = camel.to_owned();
    name.append(decimal_text(message_id.0).as_str());
    name
}

/// Makes the name of the constant for the id of a message.
pub fn message_const_name(shouty: &str) -> (r: String)
    ensures
        r@ == const_name(shouty@),
{
    let mut name = "MESSAGE_ID_".to_owned();
    name.append(shouty);
    name
}

/// The converted names of a signal.
#[derive(Clone, Debug)]
pub struct SignalNames {
    pub snake: String,
    pub camel: String,
}

/// The converted names of a message and of its signals.
#[derive(Clone, Debug)]
pub struct MessageNames {
    pub camel: String,
    pub shouty: String,
    pub signals: Vec<SignalNames>,
}

/// The converted names of the signal that value descriptions belong to, and of their texts.
#[derive(Clone, Debug)]
pub struct EnumNames {
    pub camel: String,
    pub variants: Vec<String>,
}

/// The converted names of a whole database.
#[derive(Clone, Debug)]
pub struct Names {
    pub messages: Vec<MessageNames>,
    pub enums: Vec<EnumNames>,
}

/// The texts of `SignalNames`.
#[verifier::ext_equal]
pub struct SignalWords {
    pub snake: Seq<char>,
    pub camel: Seq<char>,
}

/// The texts of `MessageNames`.
#[verifier::ext_equal]
pub struct MessageWords {
    pub camel: Seq<char>,
    pub shouty: Seq<char>,
    pub signals: Seq<SignalWords>,
}

/// The texts of `EnumNames`.
#[verifier::ext_equal]
pub struct EnumWords {
    pub camel: Seq<char>,
    pub variants: Seq<Seq<char>>,
}

/// The texts of `Names`.
#[verifier::ext_equal]
pub struct Words {
    pub messages: Seq<MessageWords>,
    pub enums: Seq<EnumWords>,
}

impl View for SignalNames {
    type V = SignalWords;

    open spec fn view(&self) -> SignalWords {
        SignalWords { snake: self.snake@, camel: self.camel@ }
    }
}

impl View for MessageNames {
    type V = MessageWords;

    open spec fn view(&self) -> MessageWords {
        MessageWords {
            camel: self.camel@,
            shouty: self.shouty@,
            signals: Seq::new(self.signals@.len(), |i: int| self.signals@[i]@),
        }
    }
}

impl View for EnumNames {
    type V = EnumWords;

    open spec fn view(&self) -> EnumWords {
        EnumWords {
            camel: self.camel@,
            variants: Seq::new(self.variants@.len(), |i: int| self.variants@[i]@),
        }
    }
}

impl View for Names {
    type V = Words;

    open spec fn view(&self) -> Words {
        Words {
            messages: Seq::new(self.messages@.len(), |i: int| self.messages@[i]@),
            enums: Seq::new(self.enums@.len(), |i: int| self.enums@[i]@),
        }
    }
}

/// The names that the case conversions give to a signal.
pub open spec fn signal_words(signal: Signal) -> SignalWords {
    SignalWords { snake: snake_case_of(signal.name@), camel: camel_case_of(signal.name@) }
}

/// The names that the case conversions give to a message.
pub open spec fn message_words(message: Message) -> MessageWords {
    MessageWords {
        camel: camel_case_of(message.message_name@),
        shouty: shouty_snake_case_of(message.message_name@),
        signals: Seq::new(message.signals@.len(), |i: int| signal_words(message.signals@[i])),
    }
}

/// The names that the case conversions give to the descriptions of a signal.
pub open spec fn description_words(
    signal_name: Seq<char>,
    descriptions: Seq<ValDescription>,
) -> EnumWords {
    EnumWords {
        camel: camel_case_of(signal_name),
        variants: Seq::new(descriptions.len(), |i: int| camel_case_of(descriptions[i].b@)),
    }
}

/// The names that the case conversions give to value descriptions; those that belong to no
/// signal get none.
pub open spec fn enum_words(val_desc: ValueDescription) -> EnumWords {
    match val_desc {
        ValueDescription::Signal { message_id, signal_name, value_descriptions } =>
            description_words(signal_name@, value_descriptions@),
        _ => EnumWords { camel: Seq::empty(), variants: Seq::empty() },
    }
}

/// The names that the case conversions give to a database.
pub open spec fn dbc_words(dbc: DBC) -> Words {
    Words {
        messages: Seq::new(dbc.messages@.len(), |i: int| message_words(dbc.messages@[i])),
        enums: Seq::new(
            dbc.value_descriptions@.len(),
            |i: int| enum_words(dbc.value_descriptions@[i]),
        ),
    }
}

/// Converts the name of a signal.
pub fn signal_names(signal: &Signal) -> (r: SignalNames)
    ensures
        r@ == signal_words(*signal),
{
    SignalNames {
        snake: snake_case(signal.name.as_str()),
        camel: camel_case(signal.name.as_str()),
    }
}

/// Converts the names of a message and of its signals.
pub fn message_names(message: &Message) -> (r: MessageNames)
    ensures
        r@ == message_words(*message),
{
    let mut signals: Vec<SignalNames> = Vec::new();
    let mut i: usize = 0;
    while i < message.signals.len()
        invariant
            i <= message.signals.len(),
            signals.len() == i,
            forall|j: int|
                0 <= j < i ==> #[trigger] signals@[j]@ == signal_words(message.signals@[j]),
        decreases message.signals.len() - i,
    {
        signals.push(signal_names(&message.signals[i]));
        i += 1;
    }
    let names = MessageNames {
        camel: camel_case(message.message_name.as_str()),
        shouty: shouty_snake_case(message.message_name.as_str()),
        signals,
    };
    assert(names@.signals =~= message_words(*message).signals);
    names
}

/// Converts the names for value descriptions.
pub fn enum_names(val_desc: &ValueDescription) -> (r: EnumNames)
    ensures
        r@ == enum_words(*val_desc),
{
    if let ValueDescription::Signal { message_id: _, signal_name, value_descriptions } = val_desc {
        let mut variants: Vec<String> = Vec::new();
        let mut i: usize = 0;
        while i < value_descriptions.len()
            invariant
                i <= value_descriptions.len(),
                variants.len() == i,
                forall|j: int|
                    0 <= j < i ==> #[trigger] variants@[j]@ == camel_case_of(
                        value_descriptions@[j].b@,
                    ),
            decreases value_descriptions.len() - i,
        {
            variants.push(camel_case(value_descriptions[i].b.as_str()));
            i += 1;
        }
        let names = EnumNames { camel: camel_case(signal_name.as_str()), variants };
        assert(names@.variants =~= enum_words(*val_desc).variants);
        names
    } else {
        let names = EnumNames { camel: String::new(), variants: Vec::new() };
        assert(names@.variants =~= enum_words(*val_desc).variants);
        names
    }
}

/// Converts the names of a database.
pub fn dbc_names(dbc: &DBC) -> (r: Names)
    ensures
        r@ == dbc_words(*dbc),
{
    let mut messages: Vec<MessageNames> = Vec::new();
    let mut i: usize = 0;
    while i < dbc.messages.len()
        invariant
            i <= dbc.messages.len(),
            messages.len() == i,
            forall|j: int|
                0 <= j < i ==> #[trigger] messages@[j]@ == message_words(dbc.messages@[j]),
        decreases dbc.messages.len() - i,
    {
        messages.push(message_names(&dbc.messages[i]));
        i += 1;
    }
    let mut enums: Vec<EnumNames> = Vec::new();
    let mut k: usize = 0;
    while k < dbc.value_descriptions.len()
        invariant
            k <= dbc.value_descriptions.len(),
            enums.len() == k,
            forall|j: int|
                0 <= j < k ==> #[trigger] enums@[j]@ == enum_words(dbc.value_descriptions@[j]),
        decreases dbc.value_descriptions.len() - k,
    {
        enums.push(enum_names(&dbc.value_descriptions[k]));
        k += 1;
    }
    let names = Names { messages, enums };
    assert(names@.messages =~= dbc_words(*dbc).messages);
    assert(names@.enums =~= dbc_words(*dbc).enums);
    names
}

} // verus!
