//! A CAN database: its messages, their signals, and what is said about them.
use crate::double::Real;
use vstd::prelude::*;

verus! {

/// CAN id in header of CAN frame.
#[derive(Clone, Copy, Debug, PartialEq, Eq, Structural)]
pub struct MessageId(pub u32);

/// How a signal takes part in the multiplexing of its message.
#[derive(Clone, Copy, Debug, PartialEq, Eq, Structural)]
pub enum MultiplexIndicator {
    /// Multiplexor switch
    Multiplexor,
    /// Signal is being multiplexed by the multiplexor switch.
    MultiplexedSignal(u64),
    /// Normal signal
    Plain,
}

#[derive(Clone, Copy, Debug, PartialEq, Eq, Structural)]
pub enum ByteOrder {
    LittleEndian,
    BigEndian,
}

#[derive(Clone, Copy, Debug, PartialEq, Eq, Structural)]
pub enum ValueType {
    Signed,
    Unsigned,
}

#[derive(Clone, Copy, Debug, PartialEq, Eq, Structural)]
pub enum SignalExtendedValueType {
    SignedOrUnsignedInteger,
    IEEEfloat32Bit,
    IEEEdouble64bit,
}

/// One or multiple signals are the payload of a CAN frame. The actual value of a signal is its
/// raw value times `factor` plus `offset`.
#[derive(Clone, Debug)]
pub struct Signal {
    pub name: String,
    pub multiplexer_indicator: MultiplexIndicator,
    pub start_bit: u64,
    pub signal_size: u64,
    pub byte_order: ByteOrder,
    pub value_type: ValueType,
    pub factor: Real,
    pub offset: Real,
    pub unit: String,
}

/// CAN message (frame) details including signal details
#[derive(Clone, Debug)]
pub struct Message {
    pub message_id: MessageId,
    pub message_name: String,
    pub signals: Vec<Signal>,
}

/// Meaning of one raw value: `a` holds the bits of the value, a double, and `b` its description.
#[derive(Clone, Debug)]
pub struct ValDescription {
    pub a: u64,
    pub b: String,
}

/// Encoding for signal raw values.
#[derive(Clone, Debug)]
pub enum ValueDescription {
    Signal {
        message_id: MessageId,
        signal_name: String,
        value_descriptions: Vec<ValDescription>,
    },
    EnvironmentVariable { env_var_name: String, value_descriptions: Vec<ValDescription> },
}

/// Object comments
#[derive(Clone, Debug)]
pub enum Comment {
    Node { node_name: String, comment: String },
    Message { message_id: MessageId, comment: String },
    Signal { message_id: MessageId, signal_name: String, comment: String },
    EnvVar { env_var_name: String, comment: String },
    Plain { comment: String },
}

/// The extended value type of one signal.
#[derive(Clone, Debug)]
pub struct SignalExtendedValueTypeList {
    pub message_id: MessageId,
    pub signal_name: String,
    pub signal_extended_value_type: SignalExtendedValueType,
}

/// Version generated by DB editor
#[derive(Clone, Debug)]
pub struct Version(pub String);

/// A CAN database, as far as code is generated from it.
#[derive(Clone, Debug)]
pub struct DBC {
    /// Version generated by DB editor
    pub version: Version,
    /// CAN message (frame) details including signal details
    pub messages: Vec<Message>,
    /// Object comments
    pub comments: Vec<Comment>,
    /// Encoding for signal raw values
    pub value_descriptions: Vec<ValueDescription>,
    pub signal_extended_value_type_list: Vec<SignalExtendedValueTypeList>,
}

/// The first message with the given id, from index `i` on.
pub open spec fn message_from(messages: Seq<Message>, id: MessageId, i: int) -> Option<Message>
    decreases messages.len() - i,
{
    if i < 0 || i >= messages.len() {
        None
    } else if messages[i].message_id == id {
        Some(messages[i])
    } else {
        message_from(messages, id, i + 1)
    }
}

/// The first signal with the given name, from index `i` on.
pub open spec fn signal_from(signals: Seq<Signal>, name: Seq<char>, i: int) -> Option<Signal>
    decreases signals.len() - i,
{
    if i < 0 || i >= signals.len() {
        None
    } else if signals[i].name@ == name {
        Some(signals[i])
    } else {
        signal_from(signals, name, i + 1)
    }
}

/// The first multiplexor switch, from index `i` on.
pub open spec fn switch_from(signals: Seq<Signal>, i: int) -> Option<Signal>
    decreases signals.len() - i,
{
    if i < 0 || i >= signals.len() {
        None
    } else if signals[i].multiplexer_indicator == MultiplexIndicator::Multiplexor {
        Some(signals[i])
    } else {
        switch_from(signals, i + 1)
    }
}

/// The first comment on the given message, from index `i` on.
pub open spec fn message_comment_from(comments: Seq<Comment>, id: MessageId, i: int) -> Option<
    Seq<char>,
>
    decreases comments.len() - i,
{
    if i < 0 || i >= comments.len() {
        None
    } else {
        match comments[i] {
            Comment::Message { message_id, comment } if message_id == id => Some(comment@),
            _ => message_comment_from(comments, id, i + 1),
        }
    }
}

/// The first comment on the given signal, from index `i` on.
pub open spec fn signal_comment_from(
    comments: Seq<Comment>,
    id: MessageId,
    name: Seq<char>,
    i: int,
) -> Option<Seq<char>>
    decreases comments.len() - i,
{
    if i < 0 || i >= comments.len() {
        None
    } else {
        match comments[i] {
            Comment::Signal { message_id, signal_name, comment } if message_id == id
                && signal_name@ == name => Some(comment@),
            _ => signal_comment_from(comments, id, name, i + 1),
        }
    }
}

/// The value descriptions of the given signal where they stand first, from index `i` on.
pub open spec fn descriptions_from(
    all: Seq<ValueDescription>,
    id: MessageId,
    name: Seq<char>,
    i: int,
) -> Option<Seq<ValDescription>>
    decreases all.len() - i,
{
    if i < 0 || i >= all.len() {
        None
    } else {
        match all[i] {
            ValueDescription::Signal { message_id, signal_name, value_descriptions } if message_id
                == id && signal_name@ == name => Some(value_descriptions@),
            _ => descriptions_from(all, id, name, i + 1),
        }
    }
}

/// The first extended value type of the given signal, from index `i` on.
pub open spec fn extended_type_from(
    all: Seq<SignalExtendedValueTypeList>,
    id: MessageId,
    name: Seq<char>,
    i: int,
) -> Option<SignalExtendedValueType>
    decreases all.len() - i,
{
    if i < 0 || i >= all.len() {
        None
    } else if all[i].message_id == id && all[i].signal_name@ == name {
        Some(all[i].signal_extended_value_type)
    } else {
        extended_type_from(all, id, name, i + 1)
    }
}

impl DBC {
    /// The first signal of that name in the first message of that id.
    pub open spec fn signal_named(self, id: MessageId, name: Seq<char>) -> Option<Signal> {
        match message_from(self.messages@, id, 0) {
            Some(message) => signal_from(message.signals@, name, 0),
            None => None,
        }
    }

    /// The first multiplexor switch in the first message of that id.
    pub open spec fn switch_of(self, id: MessageId) -> Option<Signal> {
        match message_from(self.messages@, id, 0) {
            Some(message) => switch_from(message.signals@, 0),
            None => None,
        }
    }

    /// The first comment on that message.
    pub open spec fn comment_on_message(self, id: MessageId) -> Option<Seq<char>> {
        message_comment_from(self.comments@, id, 0)
    }

    /// The first comment on that signal.
    pub open spec fn comment_on_signal(self, id: MessageId, name: Seq<char>) -> Option<Seq<char>> {
        signal_comment_from(self.comments@, id, name, 0)
    }

    /// The first value descriptions of that signal.
    pub open spec fn descriptions_of(self, id: MessageId, name: Seq<char>) -> Option<
        Seq<ValDescription>,
    > {
        descriptions_from(self.value_descriptions@, id, name, 0)
    }

    /// The first extended value type of that signal.
    pub open spec fn extended_type_of(self, id: MessageId, name: Seq<char>) -> Option<
        SignalExtendedValueType,
    > {
        extended_type_from(self.signal_extended_value_type_list@, id, name, 0)
    }

    fn message_by_id(&self, message_id: MessageId) -> (r: Option<&Message>)
        ensures
            match r {
                Some(message) => message_from(self.messages@, message_id, 0) == Some(*message),
                None => message_from(self.messages@, message_id, 0) is None,
            },
    {
        let mut i: usize = 0;
        while i < self.messages.len()
            invariant
                i <= self.messages.len(),
                message_from(self.messages@, message_id, 0) == message_from(
                    self.messages@,
                    message_id,
                    i as int,
                ),
            decreases self.messages.len() - i,
        {
            if self.messages[i].message_id == message_id {
                return Some(&self.messages[i]);
            }
            i += 1;
        }
        None
    }

    /// Lookup a signal by its message and its name
    pub fn signal_by_name(&self, message_id: MessageId, signal_name: &str) -> (r: Option<&Signal>)
        ensures
            match r {
                Some(signal) => self.signal_named(message_id, signal_name@) == Some(*signal),
                None => self.signal_named(message_id, signal_name@) is None,
            },
    {
        let message = match self.message_by_id(message_id) {
            Some(message) => message,
            None => return None,
        };
        let name = signal_name.to_owned();
        let mut i: usize = 0;
        while i < message.signals.len()
            invariant
                i <= message.signals.len(),
                name@ == signal_name@,
                signal_from(message.signals@, name@, 0) == signal_from(
                    message.signals@,
                    name@,
                    i as int,
                ),
                self.signal_named(message_id, signal_name@) == signal_from(
                    message.signals@,
                    name@,
                    0,
                ),
            decreases message.signals.len() - i,
        {
            if message.signals[i].name == name {
                return Some(&message.signals[i]);
            }
            i += 1;
        }
        None
    }

    /// Lookup the message multiplexor switch signal for a given message
    pub fn message_multiplexor_switch(&self, message_id: MessageId) -> (r: Option<&Signal>)
        ensures
            match r {
                Some(signal) => self.switch_of(message_id) == Some(*signal),
                None => self.switch_of(message_id) is None,
            },
    {
        let message = match self.message_by_id(message_id) {
            Some(message) => message,
            None => return None,
        };
        let mut i: usize = 0;
        while i < message.signals.len()
            invariant
                i <= message.signals.len(),
                self.switch_of(message_id) == switch_from(message.signals@, i as int),
            decreases message.signals.len() - i,
        {
            if message.signals[i].multiplexer_indicator == MultiplexIndicator::Multiplexor {
                return Some(&message.signals[i]);
            }
            i += 1;
        }
        None
    }

    /// Lookup a message comment
    pub fn message_comment(&self, message_id: MessageId) -> (r: Option<&str>)
        ensures
            match r {
                Some(comment) => self.comment_on_message(message_id) == Some(comment@),
                None => self.comment_on_message(message_id) is None,
            },
    {
        let mut i: usize = 0;
        while i < self.comments.len()
            invariant
                i <= self.comments.len(),
                self.comment_on_message(message_id) == message_comment_from(
                    self.comments@,
                    message_id,
                    i as int,
                ),
            decreases self.comments.len() - i,
        {
            if let Comment::Message { message_id: id, comment } = &self.comments[i] {
                if *id == message_id {
                    return Some(comment.as_str());
                }
            }
            i += 1;
        }
        None
    }

    /// Lookup a signal comment
    pub fn signal_comment(&self, message_id: MessageId, signal_name: &str) -> (r: Option<&str>)
        ensures
            match r {
                Some(comment) => self.comment_on_signal(message_id, signal_name@) == Some(comment@),
                None => self.comment_on_signal(message_id, signal_name@) is None,
            },
    {
        let wanted = signal_name.to_owned();
        let mut i: usize = 0;
        while i < self.comments.len()
            invariant
                i <= self.comments.len(),
                wanted@ == signal_name@,
                self.comment_on_signal(message_id, signal_name@) == signal_comment_from(
                    self.comments@,
                    message_id,
                    wanted@,
                    i as int,
                ),
            decreases self.comments.len() - i,
        {
            if let Comment::Signal { message_id: id, signal_name: name, comment } =
                &self.comments[i] {
                if *id == message_id && *name == wanted {
                    return Some(comment.as_str());
                }
            }
            i += 1;
        }
        None
    }

    /// Lookup value descriptions for signal
    pub fn value_descriptions_for_signal(&self, message_id: MessageId, signal_name: &str) -> (r:
        Option<&Vec<ValDescription>>)
        ensures
            match r {
                Some(found) => self.descriptions_of(message_id, signal_name@) == Some(found@),
                None => self.descriptions_of(message_id, signal_name@) is None,
            },
    {
        let wanted = signal_name.to_owned();
        let mut i: usize = 0;
        while i < self.value_descriptions.len()
            invariant
                i <= self.value_descriptions.len(),
                wanted@ == signal_name@,
                self.descriptions_of(message_id, signal_name@) == descriptions_from(
                    self.value_descriptions@,
                    message_id,
                    wanted@,
                    i as int,
                ),
            decreases self.value_descriptions.len() - i,
        {
            if let ValueDescription::Signal {
                message_id: id,
                signal_name: name,
                value_descriptions,
            } = &self.value_descriptions[i] {
                if *id == message_id && *name == wanted {
                    return Some(value_descriptions);
                }
            }
            i += 1;
        }
        None
    }

    /// Lookup the extended value for a given signal
    pub fn extended_value_type_for_signal(&self, message_id: MessageId, signal_name: &str) -> (r:
        Option<&SignalExtendedValueType>)
        ensures
            match r {
                Some(found) => self.extended_type_of(message_id, signal_name@) == Some(*found),
                None => self.extended_type_of(message_id, signal_name@) is None,
            },
    {
        let wanted = signal_name.to_owned();
        let mut i: usize = 0;
        while i < self.signal_extended_value_type_list.len()
            invariant
                i <= self.signal_extended_value_type_list.len(),
                wanted@ == signal_name@,
                self.extended_type_of(message_id, signal_name@) == extended_type_from(
                    self.signal_extended_value_type_list@,
                    message_id,
                    wanted@,
                    i as int,
                ),
            decreases self.signal_extended_value_type_list.len() - i,
        {
            let entry = &self.signal_extended_value_type_list[i];
            if entry.message_id == message_id && entry.signal_name == wanted {
                return Some(&entry.signal_extended_value_type);
            }
            i += 1;
        }
        None
    }
}

} // verus!
