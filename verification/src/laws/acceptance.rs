//! For which databases code can be written.
use crate::database::{all_switches_present, dbc_writable, message_writable};
use crate::description::enum_writable;
use crate::ident::{ident_text, named_type};
use crate::layout::{kept, placed};
use crate::message::{
    described, enum_declarable, message_declarable, message_decodable, signal_declarable,
    switches_present,
};
use crate::model::{DBC, Message, MessageId, Signal, ValueDescription};
use crate::naming::{
    const_name, enum_name, raw_name, snake_case_of, EnumWords, MessageWords, SignalWords, Words,
};
use crate::signal::{lemma_raw_name_is_ident, raw_decodable, scale_writable, switch_present};
use crate::tokens::real_text;
use vstd::prelude::*;

verus! {

/// A factor and an offset of decimal text that are finite numbers can be written.
pub proof fn law_finite_scales_can_be_written(signal: Signal)
    requires
        signal.factor.bits % 0x8000_0000_0000_0000 < 0x7ff0_0000_0000_0000,
        signal.offset.bits % 0x8000_0000_0000_0000 < 0x7ff0_0000_0000_0000,
        real_text(signal.factor.literal@),
        real_text(signal.offset.literal@),
    ensures
        scale_writable(signal),
{
    lemma_finite(signal.factor.bits);
    lemma_finite(signal.offset.bits);
}

proof fn lemma_finite(bits: u64)
    requires
        bits % 0x8000_0000_0000_0000 < 0x7ff0_0000_0000_0000,
    ensures
        (bits / 0x10_0000_0000_0000) % 0x800 != 0x7ff,
{
    assert((bits / 0x10_0000_0000_0000u64) % 0x800u64 != 0x7ffu64) by (bit_vector)
        requires
            bits % 0x8000_0000_0000_0000u64 < 0x7ff0_0000_0000_0000u64,
    ;
}

/// A factor of one and an offset of zero need no text, and nothing of a skipped signal does.
pub proof fn law_what_is_not_written_needs_no_text(signal: Signal, words: SignalWords)
    requires
        placed(signal),
        ident_text(raw_name(words.snake)),
        !kept(signal) || (signal.factor.one() && signal.offset.zero()),
    ensures
        raw_decodable(signal, words),
{
}

/// A signal whose name is an identifier, that has its place in the payload and whose numbers can be
/// written can be decoded and declared, unless the name of its enum is no identifier.
pub proof fn law_named_signals_can_be_decoded(
    dbc: DBC,
    id: MessageId,
    signal: Signal,
    words: SignalWords,
)
    requires
        ident_text(words.snake),
        placed(signal),
        scale_writable(signal),
    ensures
        raw_decodable(signal, words),
        ident_text(enum_name(words.camel, id)) || !described(dbc, id, signal) ==> {
            &&& enum_declarable(dbc, id, signal, words)
            &&& signal_declarable(dbc, id, signal, words)
        },
{
    lemma_raw_name_is_ident(words.snake);
}

/// A signal that is not multiplexed needs no switch; a multiplexed one has it where any signal of
/// the first message with its id is a multiplexor with a name.
pub proof fn law_switch_is_present(dbc: DBC, id: MessageId, signal: Signal)
    requires
        signal.multiplexer_indicator is MultiplexedSignal ==> dbc.switch_of(id) is Some
            && ident_text(raw_name(snake_case_of(dbc.switch_of(id)->0.name@))),
    ensures
        switch_present(dbc, id, signal),
{
}

/// A message can be declared and decoded if its name is an identifier and all its signals can.
pub proof fn law_messages_can_be_decoded(dbc: DBC, message: Message, words: MessageWords)
    requires
        ident_text(words.camel),
        words.signals.len() == message.signals@.len(),
        forall|i: int|
            0 <= i < message.signals@.len() ==> {
                let signal = #[trigger] message.signals@[i];
                &&& raw_decodable(signal, words.signals[i])
                &&& enum_declarable(dbc, message.message_id, signal, words.signals[i])
            },
    ensures
        message_decodable(dbc, message, words),
        message_declarable(dbc, message, words),
        ident_text(const_name(words.shouty)) ==> message_writable(dbc, message, words),
{
}

/// Descriptions of a signal that exists can be written if the names of the enum and of all variants
/// are identifiers; those of an environment variable always can.
pub proof fn law_descriptions_can_be_written(
    dbc: DBC,
    val_desc: ValueDescription,
    words: EnumWords,
)
    requires
        val_desc is Signal ==> {
            &&& dbc.signal_named(val_desc->message_id, val_desc->signal_name@) is Some
            &&& ident_text(enum_name(words.camel, val_desc->message_id))
            &&& words.variants.len() == val_desc->Signal_value_descriptions@.len()
            &&& forall|i: int|
                0 <= i < words.variants.len() ==> ident_text(
                    named_type(#[trigger] words.variants[i]),
                )
        },
    ensures
        enum_writable(dbc, val_desc, words),
{
}

/// A database can be written if all its messages and value descriptions can; every multiplexed
/// signal of it has its switch if that holds message by message.
pub proof fn law_databases_can_be_written(dbc: DBC, words: Words)
    requires
        words.messages.len() == dbc.messages@.len(),
        words.enums.len() == dbc.value_descriptions@.len(),
        forall|i: int|
            0 <= i < dbc.messages@.len() ==> {
                let message = #[trigger] dbc.messages@[i];
                &&& ident_text(const_name(words.messages[i].shouty))
                &&& message_decodable(dbc, message, words.messages[i])
            },
        forall|i: int|
            0 <= i < dbc.value_descriptions@.len() ==> enum_writable(
                dbc,
                #[trigger] dbc.value_descriptions@[i],
                words.enums[i],
            ),
    ensures
        dbc_writable(dbc, words),
{
}

/// Where every signal of a message has its switch, the message has them all; and so has a database
/// where every message has them.
pub proof fn law_all_switches_are_present(dbc: DBC)
    requires
        forall|m: int, i: int|
            0 <= m < dbc.messages@.len() && 0 <= i < dbc.messages@[m].signals@.len()
                ==> switch_present(
                dbc,
                dbc.messages@[m].message_id,
                #[trigger] dbc.messages@[m].signals@[i],
            ),
    ensures
        all_switches_present(dbc),
        forall|m: int|
            0 <= m < dbc.messages@.len() ==> switches_present(dbc, #[trigger] dbc.messages@[m]),
{
    assert forall|m: int| 0 <= m < dbc.messages@.len() implies switches_present(
        dbc,
        #[trigger] dbc.messages@[m],
    ) by {
        let message = dbc.messages@[m];
        assert forall|i: int| 0 <= i < message.signals@.len() implies switch_present(
            dbc,
            message.message_id,
            #[trigger] message.signals@[i],
        ) by {
            assert(dbc.messages@[m].signals@[i] == message.signals@[i]);
        }
    }
}

} // verus!
