//! The fixed words of the generated code.
use crate::ident::ident_text;
use vstd::prelude::*;

verus! {

/// The words of the code that decodes one signal are identifiers.
pub proof fn lemma_signal_words()
    ensures
        ident_text("Option"@),
        ident_text("Some"@),
        ident_text("None"@),
        ident_text("if"@),
        ident_text("else"@),
        ident_text("let"@),
        ident_text("frame_payload"@),
        ident_text("u64"@),
        ident_text("LE"@),
        ident_text("BE"@),
        ident_text("read_u64"@),
        ident_text("frame"@),
        ident_text("data"@),
        ident_text("todo"@),
        ident_text("as"@),
        ident_text("from"@),
        ident_text("doc"@),
{
    reveal_strlit("Option");
    reveal_strlit("Some");
    reveal_strlit("None");
    reveal_strlit("if");
    reveal_strlit("else");
    reveal_strlit("let");
    reveal_strlit("frame_payload");
    reveal_strlit("u64");
    reveal_strlit("LE");
    reveal_strlit("BE");
    reveal_strlit("read_u64");
    reveal_strlit("frame");
    reveal_strlit("data");
    reveal_strlit("todo");
    reveal_strlit("as");
    reveal_strlit("from");
    reveal_strlit("doc");
}

/// The names of the decoded types are identifiers.
pub proof fn lemma_types_words()
    ensures
        ident_text("f32"@),
        ident_text("f64"@),
        ident_text("bool"@),
        ident_text("i8"@),
        ident_text("u8"@),
        ident_text("i16"@),
        ident_text("u16"@),
        ident_text("i32"@),
        ident_text("u32"@),
        ident_text("i64"@),
        ident_text("u64"@),
{
    reveal_strlit("f32");
    reveal_strlit("f64");
    reveal_strlit("bool");
    reveal_strlit("i8");
    reveal_strlit("u8");
    reveal_strlit("i16");
    reveal_strlit("u16");
    reveal_strlit("i32");
    reveal_strlit("u32");
    reveal_strlit("i64");
    reveal_strlit("u64");
}

/// The words of the enum of a signal are identifiers.
pub proof fn lemma_enum_words()
    ensures
        ident_text("allow"@),
        ident_text("dead_code"@),
        ident_text("derive"@),
        ident_text("Debug"@),
        ident_text("Clone"@),
        ident_text("Copy"@),
        ident_text("PartialEq"@),
        ident_text("repr"@),
        ident_text("u64"@),
        ident_text("pub"@),
        ident_text("enum"@),
        ident_text("XValue"@),
        ident_text("impl"@),
        ident_text("From"@),
        ident_text("for"@),
        ident_text("fn"@),
        ident_text("from"@),
        ident_text("val"@),
        ident_text("Self"@),
        ident_text("match"@),
        ident_text("as"@),
        ident_text("_"@),
{
    reveal_strlit("allow");
    reveal_strlit("dead_code");
    reveal_strlit("derive");
    reveal_strlit("Debug");
    reveal_strlit("Clone");
    reveal_strlit("Copy");
    reveal_strlit("PartialEq");
    reveal_strlit("repr");
    reveal_strlit("u64");
    reveal_strlit("pub");
    reveal_strlit("enum");
    reveal_strlit("XValue");
    reveal_strlit("impl");
    reveal_strlit("From");
    reveal_strlit("for");
    reveal_strlit("fn");
    reveal_strlit("from");
    reveal_strlit("val");
    reveal_strlit("Self");
    reveal_strlit("match");
    reveal_strlit("as");
    reveal_strlit("_");
}

/// The words of the code for one message are identifiers.
pub proof fn lemma_message_words()
    ensures
        ident_text("doc"@),
        ident_text("DecodedFrame"@),
        ident_text("allow"@),
        ident_text("dead_code"@),
        ident_text("pub"@),
        ident_text("const"@),
        ident_text("u32"@),
        ident_text("ID"@),
        ident_text("struct"@),
        ident_text("impl"@),
{
    reveal_strlit("doc");
    reveal_strlit("DecodedFrame");
    reveal_strlit("allow");
    reveal_strlit("dead_code");
    reveal_strlit("pub");
    reveal_strlit("const");
    reveal_strlit("u32");
    reveal_strlit("ID");
    reveal_strlit("struct");
    reveal_strlit("impl");
}

/// The words of the stream of one message are identifiers.
pub proof fn lemma_stream_words()
    ensures
        ident_text("let"@),
        ident_text("message_id"@),
        ident_text("Self"@),
        ident_text("ID"@),
        ident_text("allow"@),
        ident_text("dead_code"@),
        ident_text("pub"@),
        ident_text("fn"@),
        ident_text("stream"@),
        ident_text("can_interface"@),
        ident_text("str"@),
        ident_text("ival1"@),
        ident_text("ival2"@),
        ident_text("std"@),
        ident_text("time"@),
        ident_text("Duration"@),
        ident_text("io"@),
        ident_text("Result"@),
        ident_text("impl"@),
        ident_text("Stream"@),
        ident_text("Item"@),
        ident_text("Error"@),
        ident_text("socket"@),
        ident_text("tokio_socketcan_bcm"@),
        ident_text("BCMSocket"@),
        ident_text("open_nb"@),
        ident_text("CANMessageId"@),
        ident_text("SFF"@),
        ident_text("EFF"@),
        ident_text("SFF_MASK"@),
        ident_text("EFF_MASK"@),
        ident_text("u16"@),
        ident_text("frame_stream"@),
        ident_text("filter_id_incoming_frames"@),
        ident_text("unwrap"@),
        ident_text("as"@),
        ident_text("new"@),
        ident_text("f"@),
        ident_text("map"@),
        ident_text("frame"@),
        ident_text("data"@),
        ident_text("to_vec"@),
        ident_text("Ok"@),
{
    reveal_strlit("let");
    reveal_strlit("message_id");
    reveal_strlit("Self");
    reveal_strlit("ID");
    reveal_strlit("allow");
    reveal_strlit("dead_code");
    reveal_strlit("pub");
    reveal_strlit("fn");
    reveal_strlit("stream");
    reveal_strlit("can_interface");
    reveal_strlit("str");
    reveal_strlit("ival1");
    reveal_strlit("ival2");
    reveal_strlit("std");
    reveal_strlit("time");
    reveal_strlit("Duration");
    reveal_strlit("io");
    reveal_strlit("Result");
    reveal_strlit("impl");
    reveal_strlit("Stream");
    reveal_strlit("Item");
    reveal_strlit("Error");
    reveal_strlit("socket");
    reveal_strlit("tokio_socketcan_bcm");
    reveal_strlit("BCMSocket");
    reveal_strlit("open_nb");
    reveal_strlit("CANMessageId");
    reveal_strlit("SFF");
    reveal_strlit("EFF");
    reveal_strlit("SFF_MASK");
    reveal_strlit("EFF_MASK");
    reveal_strlit("u16");
    reveal_strlit("frame_stream");
    reveal_strlit("filter_id_incoming_frames");
    reveal_strlit("unwrap");
    reveal_strlit("as");
    reveal_strlit("new");
    reveal_strlit("f");
    reveal_strlit("map");
    reveal_strlit("frame");
    reveal_strlit("data");
    reveal_strlit("to_vec");
    reveal_strlit("Ok");
}

/// The words of the code for a whole database are identifiers.
pub proof fn lemma_file_words()
    ensures
        ident_text("use"@),
        ident_text("byteorder"@),
        ident_text("ByteOrder"@),
        ident_text("LE"@),
        ident_text("BE"@),
        ident_text("socketcan"@),
        ident_text("CANFilter"@),
        ident_text("EFF_MASK"@),
        ident_text("EFF_FLAG"@),
        ident_text("SFF_MASK"@),
        ident_text("tokio_socketcan"@),
        ident_text("CANSocket"@),
        ident_text("futures"@),
        ident_text("stream"@),
        ident_text("Stream"@),
        ident_text("StreamExt"@),
        ident_text("TryStreamExt"@),
        ident_text("doc"@),
        ident_text("derive"@),
        ident_text("Debug"@),
        ident_text("Clone"@),
        ident_text("pub"@),
        ident_text("enum"@),
        ident_text("DecodedFrame"@),
        ident_text("UnknownFrame"@),
        ident_text("CANFrame"@),
        ident_text("struct"@),
        ident_text("DecodedFrameStream"@),
        ident_text("can_socket"@),
        ident_text("impl"@),
        ident_text("fn"@),
        ident_text("new"@),
        ident_text("Self"@),
        ident_text("self"@),
        ident_text("Item"@),
        ident_text("Result"@),
        ident_text("std"@),
        ident_text("io"@),
        ident_text("Error"@),
        ident_text("map_ok"@),
        ident_text("frame"@),
        ident_text("match"@),
        ident_text("id"@),
        ident_text("_"@),
{
    reveal_strlit("use");
    reveal_strlit("byteorder");
    reveal_strlit("ByteOrder");
    reveal_strlit("LE");
    reveal_strlit("BE");
    reveal_strlit("socketcan");
    reveal_strlit("CANFilter");
    reveal_strlit("EFF_MASK");
    reveal_strlit("EFF_FLAG");
    reveal_strlit("SFF_MASK");
    reveal_strlit("tokio_socketcan");
    reveal_strlit("CANSocket");
    reveal_strlit("futures");
    reveal_strlit("stream");
    reveal_strlit("Stream");
    reveal_strlit("StreamExt");
    reveal_strlit("TryStreamExt");
    reveal_strlit("doc");
    reveal_strlit("derive");
    reveal_strlit("Debug");
    reveal_strlit("Clone");
    reveal_strlit("pub");
    reveal_strlit("enum");
    reveal_strlit("DecodedFrame");
    reveal_strlit("UnknownFrame");
    reveal_strlit("CANFrame");
    reveal_strlit("struct");
    reveal_strlit("DecodedFrameStream");
    reveal_strlit("can_socket");
    reveal_strlit("impl");
    reveal_strlit("fn");
    reveal_strlit("new");
    reveal_strlit("Self");
    reveal_strlit("self");
    reveal_strlit("Item");
    reveal_strlit("Result");
    reveal_strlit("std");
    reveal_strlit("io");
    reveal_strlit("Error");
    reveal_strlit("map_ok");
    reveal_strlit("frame");
    reveal_strlit("match");
    reveal_strlit("id");
    reveal_strlit("_");
}

} // verus!
