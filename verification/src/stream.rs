//! The function that opens a stream of one message, filtered by the Broadcast Manager.
use crate::ident::ident_text;
use crate::message::{is_standard_id, standard_id};
use crate::model::{Message, MessageId};
use crate::naming::{camel_case_of, message_names, message_words, MessageNames, MessageWords};
use crate::tokens::{attribute, attribute_tokens, code, stream_tokens, Code, Token, Writing};
use crate::words::lemma_stream_words;
use proc_macro2::TokenStream;
use vstd::prelude::*;

verus! {

/// The path of the given words, which `::` separates.
pub open spec fn path3(a: &str, b: &str, c: &str) -> Seq<Token> {
    code().word(a).op2(':', ':').word(b).op2(':', ':').word(c)
}

fn write_path3(a: &str, b: &str, c: &str) -> (r: Code)
    requires
        ident_text(a@),
        ident_text(b@),
        ident_text(c@),
    ensures
        r@ == path3(a, b, c),
{
    Code::new().word(a).op2(':', ':').word(b).op2(':', ':').word(c)
}

/// The declaration of the function that opens a stream of one message, up to its body.
pub open spec fn stream_header_tokens() -> Seq<Token> {
    let parameters = code().word("can_interface").op(':').op('&').word("str").op(',').word(
        "ival1",
    ).op(':').op('&').splice(path3("std", "time", "Duration")).op(',').word("ival2").op(':').op(
        '&',
    ).splice(path3("std", "time", "Duration"));
    let result = path3("std", "io", "Result").op('<').word("impl").word("Stream").op('<').word(
        "Item",
    ).op('=').word("Result").op('<').word("Self").op(',').splice(path3("std", "io", "Error")).op2(
        '>',
        '>',
    ).op('>');
    attribute_tokens("allow", "dead_code").word("pub").word("fn").word("stream").parens(
        parameters,
    ).op2('-', '>').splice(result)
}

fn stream_header() -> (r: Code)
    ensures
        r@ == stream_header_tokens(),
{
    proof {
        lemma_stream_words();
    }
    let duration = write_path3("std", "time", "Duration");
    let parameters = Code::new().word("can_interface").op(':').op('&').word("str").op(',').word(
        "ival1",
    ).op(':').op('&').splice(&duration.stream).op(',').word("ival2").op(':').op('&').splice(
        &duration.stream,
    );
    let result = write_path3("std", "io", "Result").op('<').word("impl").word("Stream").op(
        '<',
    ).word("Item").op('=').word("Result").op('<').word("Self").op(',').splice(
        &write_path3("std", "io", "Error").stream,
    ).op2('>', '>').op('>');
    attribute("allow", "dead_code").word("pub").word("fn").word("stream").parens(parameters).op2(
        '-',
        '>',
    ).splice(&result.stream)
}

/// The statement that opens a socket of the Broadcast Manager.
pub open spec fn stream_open_tokens() -> Seq<Token> {
    code().word("let").word("socket").op('=').splice(
        path3("tokio_socketcan_bcm", "BCMSocket", "open_nb"),
    ).parens(code().op('&').word("can_interface")).op('.').word("unwrap").parens(code()).op(';')
}

fn stream_open() -> (r: Code)
    ensures
        r@ == stream_open_tokens(),
{
    proof {
        lemma_stream_words();
    }
    Code::new().word("let").word("socket").op('=').splice(
        &write_path3("tokio_socketcan_bcm", "BCMSocket", "open_nb").stream,
    ).parens(Code::new().op('&').word("can_interface")).op('.').word("unwrap").parens(
        Code::new(),
    ).op(';')
}

/// The statement that binds the id of a message: that of a standard or of an extended frame.
pub open spec fn stream_id_tokens(id: MessageId) -> Seq<Token> {
    let own = code().word("Self").op2(':', ':').word("ID").op('&');
    let variant = if standard_id(id) {
        path3("tokio_socketcan_bcm", "CANMessageId", "SFF").parens(
            code().parens(own.word("SFF_MASK")).word("as").word("u16"),
        )
    } else {
        path3("tokio_socketcan_bcm", "CANMessageId", "EFF").parens(own.word("EFF_MASK"))
    };
    code().word("let").word("message_id").op('=').splice(variant).op(';')
}

fn stream_id(id: MessageId) -> (r: Code)
    ensures
        r@ == stream_id_tokens(id),
{
    proof {
        lemma_stream_words();
    }
    let own = Code::new().word("Self").op2(':', ':').word("ID").op('&');
    let variant = if is_standard_id(id) {
        write_path3("tokio_socketcan_bcm", "CANMessageId", "SFF").parens(
            Code::new().parens(own.word("SFF_MASK")).word("as").word("u16"),
        )
    } else {
        write_path3("tokio_socketcan_bcm", "CANMessageId", "EFF").parens(own.word("EFF_MASK"))
    };
    Code::new().word("let").word("message_id").op('=').splice(&variant.stream).op(';')
}

/// The statement that has the Broadcast Manager filter the frames by the id of a message, with the
/// two intervals.
pub open spec fn stream_filter_tokens() -> Seq<Token> {
    code().word("let").word("frame_stream").op('=').word("socket").op('.').word(
        "filter_id_incoming_frames",
    ).parens(
        code().word("message_id").op(',').op('*').word("ival1").op(',').op('*').word("ival2"),
    ).op('.').word("unwrap").parens(code()).op(';')
}

fn stream_filter() -> (r: Code)
    ensures
        r@ == stream_filter_tokens(),
{
    proof {
        lemma_stream_words();
    }
    Code::new().word("let").word("frame_stream").op('=').word("socket").op('.').word(
        "filter_id_incoming_frames",
    ).parens(
        Code::new().word("message_id").op(',').op('*').word("ival1").op(',').op('*').word("ival2"),
    ).op('.').word("unwrap").parens(Code::new()).op(';')
}

/// The closure of one parameter named `frame`.
pub open spec fn frame_closure(body: Seq<Token>) -> Seq<Token> {
    code().op('|').word("frame").op('|').splice(body)
}

/// The statement that turns the filtered frames into messages.
pub open spec fn stream_map_tokens(camel: Seq<char>) -> Seq<Token> {
    let decode = code().ident(camel).op2(':', ':').word("new").parens(
        code().word("frame").op('.').word("data").parens(code()).op('.').word("to_vec").parens(
            code(),
        ),
    );
    let inner = code().word("frame").op('.').word("map").parens(frame_closure(decode));
    code().word("let").word("f").op('=').word("frame_stream").op('.').word("map").parens(
        frame_closure(inner),
    ).op(';')
}

/// The function that opens a stream of one message.
pub open spec fn message_stream_tokens(message: Message, words: MessageWords) -> Seq<Token> {
    stream_header_tokens().braces(
        code().splice(stream_open_tokens()).splice(stream_id_tokens(message.message_id)).splice(
            stream_filter_tokens(),
        ).splice(stream_map_tokens(words.camel)).word("Ok").parens(code().word("f")),
    )
}

/// Generate message stream using socketcan's Broadcast Manager filters via socketcan-tokio, for a
/// message whose converted names are given.
pub fn message_stream_named(message: &Message, names: &MessageNames) -> (r: TokenStream)
    requires
        ident_text(names@.camel),
    ensures
        stream_tokens(r) == message_stream_tokens(*message, names@),
{
    proof {
        lemma_stream_words();
    }
    let decode = Code::new().ident(names.camel.as_str()).op2(':', ':').word("new").parens(
        Code::new().word("frame").op('.').word("data").parens(Code::new()).op('.').word(
            "to_vec",
        ).parens(Code::new()),
    );
    let inner = Code::new().word("frame").op('.').word("map").parens(
        Code::new().op('|').word("frame").op('|').splice(&decode.stream),
    );
    let map = Code::new().word("let").word("f").op('=').word("frame_stream").op('.').word(
        "map",
    ).parens(Code::new().op('|').word("frame").op('|').splice(&inner.stream)).op(';');
    stream_header().braces(
        Code::new().splice(&stream_open().stream).splice(
            &stream_id(message.message_id).stream,
        ).splice(&stream_filter().stream).splice(&map.stream).word("Ok").parens(
            Code::new().word("f"),
        ),
    ).stream
}

/// Generate message stream using socketcan's Broadcast Manager filters via socketcan-tokio.
pub fn message_stream(message: &Message) -> (r: TokenStream)
    requires
        ident_text(camel_case_of(message.message_name@)),
    ensures
        stream_tokens(r) == message_stream_tokens(*message, message_words(*message)),
{
    message_stream_named(message, &message_names(message))
}

} // verus!
