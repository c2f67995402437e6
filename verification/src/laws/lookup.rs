//! What the look-ups in a database find.
use crate::laws::describes;
use crate::message::described;
use crate::model::{
    descriptions_from, extended_type_from, message_comment_from, message_from, signal_comment_from,
    signal_from, switch_from, Comment, DBC, Message, MessageId, Signal, SignalExtendedValueTypeList,
    ValDescription, ValueDescription,
};
use vstd::prelude::*;

verus! {

/// The entry is on the signal of that name in the message of that id.
pub open spec fn types_signal(
    entry: SignalExtendedValueTypeList,
    id: MessageId,
    name: Seq<char>,
) -> bool {
    entry.message_id.0 == id.0 && entry.signal_name@ == name
}

proof fn lemma_extended_type(
    all: Seq<SignalExtendedValueTypeList>,
    id: MessageId,
    name: Seq<char>,
    from: int,
    at: int,
)
    requires
        0 <= from <= at <= all.len(),
        forall|j: int| from <= j < at ==> !types_signal(#[trigger] all[j], id, name),
        at < all.len() ==> types_signal(all[at], id, name),
    ensures
        extended_type_from(all, id, name, from) == if at < all.len() {
            Some(all[at].signal_extended_value_type)
        } else {
            None
        },
    decreases at - from,
{
    if from < at {
        assert(!types_signal(all[from], id, name));
        lemma_extended_type(all, id, name, from + 1, at);
    }
}

/// The extended value type of a signal is that of the first entry with both the id of its message
/// and its name; a signal without such an entry has none.
pub proof fn law_extended_type_is_that_of_the_first_entry(
    dbc: DBC,
    id: MessageId,
    name: Seq<char>,
    at: int,
)
    requires
        0 <= at <= dbc.signal_extended_value_type_list@.len(),
        forall|j: int|
            0 <= j < at ==> !types_signal(
                #[trigger] dbc.signal_extended_value_type_list@[j],
                id,
                name,
            ),
        at < dbc.signal_extended_value_type_list@.len() ==> types_signal(
            dbc.signal_extended_value_type_list@[at],
            id,
            name,
        ),
    ensures
        dbc.extended_type_of(id, name) == if at < dbc.signal_extended_value_type_list@.len() {
            Some(dbc.signal_extended_value_type_list@[at].signal_extended_value_type)
        } else {
            None
        },
{
    lemma_extended_type(dbc.signal_extended_value_type_list@, id, name, 0, at);
}

/// The described values, of whatever the descriptions belong to.
pub open spec fn values_of(val_desc: ValueDescription) -> Seq<ValDescription> {
    match val_desc {
        ValueDescription::Signal { message_id, signal_name, value_descriptions } =>
            value_descriptions@,
        ValueDescription::EnvironmentVariable { env_var_name, value_descriptions } =>
            value_descriptions@,
    }
}

proof fn lemma_descriptions(
    all: Seq<ValueDescription>,
    id: MessageId,
    name: Seq<char>,
    from: int,
    at: int,
)
    requires
        0 <= from <= at <= all.len(),
        forall|j: int| from <= j < at ==> !describes(#[trigger] all[j], id, name),
        at < all.len() ==> describes(all[at], id, name),
    ensures
        descriptions_from(all, id, name, from) == if at < all.len() {
            Some(values_of(all[at]))
        } else {
            None
        },
    decreases at - from,
{
    if from < at {
        assert(!describes(all[from], id, name));
        lemma_descriptions(all, id, name, from + 1, at);
    }
}

/// The value descriptions of a signal are the first ones with both the id of its message and its
/// name; a signal is described exactly if there are such ones.
pub proof fn law_descriptions_are_the_first_ones(dbc: DBC, id: MessageId, signal: Signal, at: int)
    requires
        0 <= at <= dbc.value_descriptions@.len(),
        forall|j: int|
            0 <= j < at ==> !describes(
                #[trigger] dbc.value_descriptions@[j],
                id,
                signal.name@,
            ),
        at < dbc.value_descriptions@.len() ==> describes(
            dbc.value_descriptions@[at],
            id,
            signal.name@,
        ),
    ensures
        dbc.descriptions_of(id, signal.name@) == if at < dbc.value_descriptions@.len() {
            Some(values_of(dbc.value_descriptions@[at]))
        } else {
            None
        },
        described(dbc, id, signal) <==> at < dbc.value_descriptions@.len(),
{
    lemma_descriptions(dbc.value_descriptions@, id, signal.name@, 0, at);
}

proof fn lemma_message(messages: Seq<Message>, id: MessageId, from: int, at: int)
    requires
        0 <= from <= at <= messages.len(),
        forall|j: int| from <= j < at ==> (#[trigger] messages[j]).message_id.0 != id.0,
        at < messages.len() ==> messages[at].message_id.0 == id.0,
    ensures
        message_from(messages, id, from) == if at < messages.len() {
            Some(messages[at])
        } else {
            None
        },
    decreases at - from,
{
    if from < at {
        assert(messages[from].message_id.0 != id.0);
        lemma_message(messages, id, from + 1, at);
    }
}

proof fn lemma_signal(signals: Seq<Signal>, name: Seq<char>, from: int, at: int)
    requires
        0 <= from <= at <= signals.len(),
        forall|j: int| from <= j < at ==> (#[trigger] signals[j]).name@ != name,
        at < signals.len() ==> signals[at].name@ == name,
    ensures
        signal_from(signals, name, from) == if at < signals.len() {
            Some(signals[at])
        } else {
            None
        },
    decreases at - from,
{
    if from < at {
        assert(signals[from].name@ != name);
        lemma_signal(signals, name, from + 1, at);
    }
}

/// The index is that of the first message with the id, or one past the last where there is none.
pub open spec fn first_message(dbc: DBC, id: MessageId, m: int) -> bool {
    &&& 0 <= m <= dbc.messages@.len()
    &&& forall|j: int| 0 <= j < m ==> (#[trigger] dbc.messages@[j]).message_id.0 != id.0
    &&& m < dbc.messages@.len() ==> dbc.messages@[m].message_id.0 == id.0
}

/// A signal is looked up in the first message of the id, and there it is the first one of the name.
pub proof fn law_signal_is_the_first_of_its_name(
    dbc: DBC,
    id: MessageId,
    name: Seq<char>,
    m: int,
    k: int,
)
    requires
        first_message(dbc, id, m),
        m < dbc.messages@.len() ==> {
            &&& 0 <= k <= dbc.messages@[m].signals@.len()
            &&& forall|j: int|
                0 <= j < k ==> (#[trigger] dbc.messages@[m].signals@[j]).name@ != name
            &&& k < dbc.messages@[m].signals@.len() ==> dbc.messages@[m].signals@[k].name@ == name
        },
    ensures
        dbc.signal_named(id, name) == if m < dbc.messages@.len() && k
            < dbc.messages@[m].signals@.len() {
            Some(dbc.messages@[m].signals@[k])
        } else {
            None
        },
{
    lemma_message(dbc.messages@, id, 0, m);
    if m < dbc.messages@.len() {
        lemma_signal(dbc.messages@[m].signals@, name, 0, k);
    }
}

proof fn lemma_switch(signals: Seq<Signal>, from: int, at: int)
    requires
        0 <= from <= at <= signals.len(),
        forall|j: int|
            from <= j < at ==> !((#[trigger] signals[j]).multiplexer_indicator is Multiplexor),
        at < signals.len() ==> signals[at].multiplexer_indicator is Multiplexor,
    ensures
        switch_from(signals, from) == if at < signals.len() {
            Some(signals[at])
        } else {
            None
        },
    decreases at - from,
{
    if from < at {
        assert(!(signals[from].multiplexer_indicator is Multiplexor));
        lemma_switch(signals, from + 1, at);
    }
}

/// The switch of a message is the first multiplexor among the signals of the first message of the
/// id.
pub proof fn law_switch_is_the_first_multiplexor(dbc: DBC, id: MessageId, m: int, k: int)
    requires
        first_message(dbc, id, m),
        m < dbc.messages@.len() ==> {
            &&& 0 <= k <= dbc.messages@[m].signals@.len()
            &&& forall|j: int|
                0 <= j < k ==> !((
                #[trigger] dbc.messages@[m].signals@[j]).multiplexer_indicator is Multiplexor)
            &&& k < dbc.messages@[m].signals@.len()
                ==> dbc.messages@[m].signals@[k].multiplexer_indicator is Multiplexor
        },
    ensures
        dbc.switch_of(id) == if m < dbc.messages@.len() && k < dbc.messages@[m].signals@.len() {
            Some(dbc.messages@[m].signals@[k])
        } else {
            None
        },
{
    lemma_message(dbc.messages@, id, 0, m);
    if m < dbc.messages@.len() {
        lemma_switch(dbc.messages@[m].signals@, 0, k);
    }
}

/// The comment is on the message of that id.
pub open spec fn comments_message(comment: Comment, id: MessageId) -> bool {
    comment is Message && comment->Message_message_id.0 == id.0
}

proof fn lemma_message_comment(comments: Seq<Comment>, id: MessageId, from: int, at: int)
    requires
        0 <= from <= at <= comments.len(),
        forall|j: int| from <= j < at ==> !comments_message(#[trigger] comments[j], id),
        at < comments.len() ==> comments_message(comments[at], id),
    ensures
        message_comment_from(comments, id, from) == if at < comments.len() {
            Some(comments[at]->Message_comment@)
        } else {
            None
        },
    decreases at - from,
{
    if from < at {
        assert(!comments_message(comments[from], id));
        lemma_message_comment(comments, id, from + 1, at);
    }
}

/// The comment of a message is the first one on the message of its id.
pub proof fn law_message_comment_is_the_first_one(dbc: DBC, id: MessageId, at: int)
    requires
        0 <= at <= dbc.comments@.len(),
        forall|j: int| 0 <= j < at ==> !comments_message(#[trigger] dbc.comments@[j], id),
        at < dbc.comments@.len() ==> comments_message(dbc.comments@[at], id),
    ensures
        dbc.comment_on_message(id) == if at < dbc.comments@.len() {
            Some(dbc.comments@[at]->Message_comment@)
        } else {
            None
        },
{
    lemma_message_comment(dbc.comments@, id, 0, at);
}

/// The comment is on the signal of that name in the message of that id.
pub open spec fn comments_signal(comment: Comment, id: MessageId, name: Seq<char>) -> bool {
    comment is Signal && comment->Signal_message_id.0 == id.0 && comment->signal_name@ == name
}

proof fn lemma_signal_comment(
    comments: Seq<Comment>,
    id: MessageId,
    name: Seq<char>,
    from: int,
    at: int,
)
    requires
        0 <= from <= at <= comments.len(),
        forall|j: int| from <= j < at ==> !comments_signal(#[trigger] comments[j], id, name),
        at < comments.len() ==> comments_signal(comments[at], id, name),
    ensures
        signal_comment_from(comments, id, name, from) == if at < comments.len() {
            Some(comments[at]->Signal_comment@)
        } else {
            None
        },
    decreases at - from,
{
    if from < at {
        assert(!comments_signal(comments[from], id, name));
        lemma_signal_comment(comments, id, name, from + 1, at);
    }
}

/// The comment of a signal is the first one with both the id of its message and its name.
pub proof fn law_signal_comment_is_the_first_one(
    dbc: DBC,
    id: MessageId,
    name: Seq<char>,
    at: int,
)
    requires
        0 <= at <= dbc.comments@.len(),
        forall|j: int| 0 <= j < at ==> !comments_signal(#[trigger] dbc.comments@[j], id, name),
        at < dbc.comments@.len() ==> comments_signal(dbc.comments@[at], id, name),
    ensures
        dbc.comment_on_signal(id, name) == if at < dbc.comments@.len() {
            Some(dbc.comments@[at]->Signal_comment@)
        } else {
            None
        },
{
    lemma_signal_comment(dbc.comments@, id, name, 0, at);
}

} // verus!
