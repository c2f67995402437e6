//! The code for a whole database.
use crate::description::{enum_writable, signal_enum_named, signal_enum_tokens};
use crate::ident::ident_text;
use crate::message::{
    message_const_named, message_const_tokens, message_decodable, message_decoder_named,
    message_decoder_tokens, message_declarable, message_impl_named, message_impl_tokens,
    message_struct_named, message_struct_tokens,
    switches_present,
};
use crate::model::{Message, DBC};
use crate::naming::{const_name, dbc_names, dbc_words, MessageWords, Names, Words};
use crate::tokens::{code, stream_tokens, Code, Token, Writing};
use crate::words::lemma_file_words;
use crate::DbccOpt;
use proc_macro2::TokenStream;
use vstd::prelude::*;

verus! {

/// The constants for the ids of the first `n` messages.
pub open spec fn consts_tokens(dbc: DBC, words: Words, n: int) -> Seq<Token>
    decreases n,
{
    if n <= 0 {
        code()
    } else {
        consts_tokens(dbc, words, n - 1) + message_const_tokens(
            dbc.messages@[n - 1],
            words.messages[n - 1],
        )
    }
}

/// The structs of the first `n` messages and their implementations.
pub open spec fn impls_tokens(dbc: DBC, words: Words, n: int) -> Seq<Token>
    decreases n,
{
    if n <= 0 {
        code()
    } else {
        impls_tokens(dbc, words, n - 1) + message_impl_tokens(
            dbc.messages@[n - 1],
            words.messages[n - 1],
        )
    }
}

/// The enums for the first `n` value descriptions.
pub open spec fn enums_tokens(dbc: DBC, words: Words, n: int) -> Seq<Token>
    decreases n,
{
    if n <= 0 {
        code()
    } else {
        enums_tokens(dbc, words, n - 1) + signal_enum_tokens(
            dbc,
            dbc.value_descriptions@[n - 1],
            words.enums[n - 1],
        )
    }
}

/// The variants of the first `n` messages, each followed by a comma.
pub open spec fn structs_tokens(dbc: DBC, words: Words, n: int) -> Seq<Token>
    decreases n,
{
    if n <= 0 {
        code()
    } else {
        structs_tokens(dbc, words, n - 1).splice(
            message_struct_tokens(dbc, dbc.messages@[n - 1], words.messages[n - 1]),
        ).op(',')
    }
}

/// The arms that decode the first `n` messages.
pub open spec fn decoders_tokens(dbc: DBC, words: Words, n: int) -> Seq<Token>
    decreases n,
{
    if n <= 0 {
        code()
    } else {
        decoders_tokens(dbc, words, n - 1) + message_decoder_tokens(
            dbc,
            dbc.messages@[n - 1],
            words.messages[n - 1],
        )
    }
}

/// The imports that the code always needs.
pub open spec fn imports_tokens() -> Seq<Token> {
    code().word("use").word("byteorder").op2(':', ':').braces(
        code().word("ByteOrder").op(',').word("LE").op(',').word("BE"),
    ).op(';')
}

fn imports() -> (r: Code)
    ensures
        r@ == imports_tokens(),
{
    proof {
        lemma_file_words();
    }
    Code::new().word("use").word("byteorder").op2(':', ':').braces(
        Code::new().word("ByteOrder").op(',').word("LE").op(',').word("BE"),
    ).op(';')
}

/// The imports that streams need.
pub open spec fn tokio_imports_tokens() -> Seq<Token> {
    code().word("use").word("socketcan").op2(':', ':').braces(
        code().word("CANFilter").op(',').word("EFF_MASK").op(',').word("EFF_FLAG").op(',').word(
            "SFF_MASK",
        ),
    ).op(';').word("use").word("tokio_socketcan").op2(':', ':').word("CANSocket").op(';').word(
        "use",
    ).word("futures").op2(':', ':').word("stream").op2(':', ':').braces(
        code().word("Stream").op(',').word("StreamExt").op(',').word("TryStreamExt"),
    ).op(';')
}

fn tokio_imports() -> (r: Code)
    ensures
        r@ == tokio_imports_tokens(),
{
    proof {
        lemma_file_words();
    }
    Code::new().word("use").word("socketcan").op2(':', ':').braces(
        Code::new().word("CANFilter").op(',').word("EFF_MASK").op(',').word("EFF_FLAG").op(
            ',',
        ).word("SFF_MASK"),
    ).op(';').word("use").word("tokio_socketcan").op2(':', ':').word("CANSocket").op(';').word(
        "use",
    ).word("futures").op2(':', ':').word("stream").op2(':', ':').braces(
        Code::new().word("Stream").op(',').word("StreamExt").op(',').word("TryStreamExt"),
    ).op(';')
}

/// What the code was generated from.
pub open spec fn origin_doc(dbc: DBC, file_name: Seq<char>, file_hash: Seq<char>) -> Seq<char> {
    "Generated based on\nFile Name: "@ + file_name + "\nDBC Version: "@ + dbc.version.0@ + "\n"@
        + file_hash
}

/// Says what the code was generated from.
pub fn origin_doc_text(dbc: &DBC, file_name: &str, file_hash: &str) -> (r: String)
    ensures
        r@ == origin_doc(*dbc, file_name@, file_hash@),
{
    let mut doc = "Generated based on\nFile Name: ".to_owned();
    doc.append(file_name);
    doc.append("\nDBC Version: ");
    doc.append(dbc.version.0.as_str());
    doc.append("\n");
    doc.append(file_hash);
    doc
}

/// The enum of the decoded frames, with the given variants; where streams are generated, one for
/// the unknown frames of a stream goes first.
pub open spec fn frame_enum_tokens(with_tokio: bool, variants: Seq<Token>) -> Seq<Token> {
    let derives = code().op('#').brackets(
        code().word("derive").parens(code().word("Debug").op(',').word("Clone")),
    );
    let doc = code().op('#').brackets(
        code().word("doc").op('=').literal("r\" Frame that is not listed in dbc\""@),
    );
    let unknown = code().word("UnknownFrame").parens(
        code().word("tokio_socketcan").op2(':', ':').word("CANFrame"),
    ).op(',');
    derives.word("pub").word("enum").word("DecodedFrame").braces(
        if with_tokio {
            doc.splice(unknown).splice(variants)
        } else {
            variants
        },
    )
}

fn frame_enum(with_tokio: bool, variants: Code) -> (r: Code)
    ensures
        r@ == frame_enum_tokens(with_tokio, variants@),
{
    proof {
        lemma_file_words();
        reveal_strlit("r\" Frame that is not listed in dbc\"");
    }
    let derives = Code::new().op('#').brackets(
        Code::new().word("derive").parens(Code::new().word("Debug").op(',').word("Clone")),
    );
    let frames = if with_tokio {
        let doc = Code::new().op('#').brackets(
            Code::new().word("doc").op('=').literal("r\" Frame that is not listed in dbc\""),
        );
        let unknown = Code::new().word("UnknownFrame").parens(
            Code::new().word("tokio_socketcan").op2(':', ':').word("CANFrame"),
        ).op(',');
        doc.splice(&unknown.stream).splice(&variants.stream)
    } else {
        variants
    };
    derives.word("pub").word("enum").word("DecodedFrame").braces(frames)
}

/// The type of a socket.
pub open spec fn socket_type() -> Seq<Token> {
    code().word("tokio_socketcan").op2(':', ':').word("CANSocket")
}

/// The struct of the stream of decoded frames.
pub open spec fn frame_stream_struct_tokens() -> Seq<Token> {
    code().word("pub").word("struct").word("DecodedFrameStream").braces(
        code().word("can_socket").op(':').splice(socket_type()).op(','),
    )
}

/// The constructor of the stream of decoded frames.
pub open spec fn frame_stream_new_tokens() -> Seq<Token> {
    code().word("pub").word("fn").word("new").parens(
        code().word("can_socket").op(':').splice(socket_type()),
    ).op2('-', '>').word("Self").braces(code().word("Self").braces(code().word("can_socket")))
}

/// The function that decodes the frames on the socket, with the given arms before that for any
/// other frame.
pub open spec fn frame_stream_fn_tokens(arms: Seq<Token>) -> Seq<Token> {
    let result = code().word("impl").word("futures").op2(':', ':').word("Stream").op('<').word(
        "Item",
    ).op('=').word("Result").op('<').word("DecodedFrame").op(',').word("std").op2(':', ':').word(
        "io",
    ).op2(':', ':').word("Error").op2('>', '>');
    let choice = code().word("match").word("frame").op('.').word("id").parens(code()).braces(
        code().splice(arms).word("_").op2('=', '>').word("DecodedFrame").op2(':', ':').word(
            "UnknownFrame",
        ).parens(code().word("frame")).op(','),
    );
    code().word("pub").word("fn").word("stream").parens(code().word("self")).op2('-', '>').splice(
        result,
    ).braces(
        code().word("self").op('.').word("can_socket").op('.').word("map_ok").parens(
            code().op('|').word("frame").op('|').braces(choice),
        ),
    )
}

/// The stream of decoded frames.
pub open spec fn frame_stream_tokens(arms: Seq<Token>) -> Seq<Token> {
    code().splice(frame_stream_struct_tokens()).word("impl").word("DecodedFrameStream").braces(
        code().splice(frame_stream_new_tokens()).splice(frame_stream_fn_tokens(arms)),
    )
}

fn frame_stream(arms: &TokenStream) -> (r: Code)
    ensures
        r@ == frame_stream_tokens(stream_tokens(*arms)),
{
    proof {
        lemma_file_words();
    }
    let socket = Code::new().word("tokio_socketcan").op2(':', ':').word("CANSocket");
    let declaration = Code::new().word("pub").word("struct").word("DecodedFrameStream").braces(
        Code::new().word("can_socket").op(':').splice(&socket.stream).op(','),
    );
    let constructor = Code::new().word("pub").word("fn").word("new").parens(
        Code::new().word("can_socket").op(':').splice(&socket.stream),
    ).op2('-', '>').word("Self").braces(
        Code::new().word("Self").braces(Code::new().word("can_socket")),
    );
    let result = Code::new().word("impl").word("futures").op2(':', ':').word("Stream").op(
        '<',
    ).word("Item").op('=').word("Result").op('<').word("DecodedFrame").op(',').word("std").op2(
        ':',
        ':',
    ).word("io").op2(':', ':').word("Error").op2('>', '>');
    let choice = Code::new().word("match").word("frame").op('.').word("id").parens(
        Code::new(),
    ).braces(
        Code::new().splice(arms).word("_").op2('=', '>').word("DecodedFrame").op2(':', ':').word(
            "UnknownFrame",
        ).parens(Code::new().word("frame")).op(','),
    );
    let stream = Code::new().word("pub").word("fn").word("stream").parens(
        Code::new().word("self"),
    ).op2('-', '>').splice(&result.stream).braces(
        Code::new().word("self").op('.').word("can_socket").op('.').word("map_ok").parens(
            Code::new().op('|').word("frame").op('|').braces(choice),
        ),
    );
    Code::new().splice(&declaration.stream).word("impl").word("DecodedFrameStream").braces(
        Code::new().splice(&constructor.stream).splice(&stream.stream),
    )
}

/// The code for a whole database: what it was generated from, the imports, the ids and the structs
/// of the messages, the enums of the signals and the enum of the decoded frames; and, if asked
/// for, the stream of them with its imports.
pub open spec fn code_tokens(
    with_tokio: bool,
    dbc: DBC,
    words: Words,
    file_name: Seq<char>,
    file_hash: Seq<char>,
) -> Seq<Token> {
    let n = dbc.messages@.len() as int;
    let stream_imports = if with_tokio {
        tokio_imports_tokens()
    } else {
        code()
    };
    let frame_stream = if with_tokio {
        frame_stream_tokens(decoders_tokens(dbc, words, n))
    } else {
        code()
    };
    code().op('#').brackets(
        code().word("doc").op('=').string(origin_doc(dbc, file_name, file_hash)),
    ).splice(imports_tokens()).splice(stream_imports).splice(consts_tokens(dbc, words, n)).splice(
        impls_tokens(dbc, words, n),
    ).splice(enums_tokens(dbc, words, dbc.value_descriptions@.len() as int)).splice(
        frame_enum_tokens(with_tokio, structs_tokens(dbc, words, n)),
    ).splice(frame_stream)
}

/// The code for a message can be written with the given names.
pub open spec fn message_writable(dbc: DBC, message: Message, words: MessageWords) -> bool {
    &&& ident_text(const_name(words.shouty))
    &&& message_decodable(dbc, message, words)
}

/// The code for a database can be written with the given names.
pub open spec fn dbc_writable(dbc: DBC, words: Words) -> bool {
    &&& words.messages.len() == dbc.messages@.len()
    &&& words.enums.len() == dbc.value_descriptions@.len()
    &&& forall|i: int|
        0 <= i < dbc.messages@.len() ==> message_writable(
            dbc,
            #[trigger] dbc.messages@[i],
            words.messages[i],
        )
    &&& forall|i: int|
        0 <= i < dbc.value_descriptions@.len() ==> enum_writable(
            dbc,
            #[trigger] dbc.value_descriptions@[i],
            words.enums[i],
        )
}

/// Every multiplexed signal of a database has its switch.
pub open spec fn all_switches_present(dbc: DBC) -> bool {
    forall|i: int|
        0 <= i < dbc.messages@.len() ==> switches_present(dbc, #[trigger] dbc.messages@[i])
}

/// Where a message can be decoded, its variant can be declared.
pub proof fn lemma_decodable_is_declarable(dbc: DBC, message: Message, words: MessageWords)
    requires
        message_decodable(dbc, message, words),
    ensures
        message_declarable(dbc, message, words),
{
}

/// Writes the constants for the ids of the messages.
fn message_constants(dbc: &DBC, names: &Names) -> (r: Code)
    requires
        dbc_writable(*dbc, names@),
    ensures
        r@ == consts_tokens(*dbc, names@, dbc.messages@.len() as int),
{
    let mut constants = Code::new();
    let mut i: usize = 0;
    while i < dbc.messages.len()
        invariant
            i <= dbc.messages.len(),
            dbc_writable(*dbc, names@),
            constants@ == consts_tokens(*dbc, names@, i as int),
        decreases dbc.messages.len() - i,
    {
        assert(names@.messages[i as int] == names.messages@[i as int]@);
        assert(message_writable(*dbc, dbc.messages@[i as int], names@.messages[i as int]));
        constants = constants.splice(&message_const_named(&dbc.messages[i], &names.messages[i]));
        i += 1;
    }
    constants
}

/// Writes the structs of the messages and their implementations.
fn message_impls(dbc: &DBC, names: &Names) -> (r: Code)
    requires
        dbc_writable(*dbc, names@),
    ensures
        r@ == impls_tokens(*dbc, names@, dbc.messages@.len() as int),
{
    let mut impls = Code::new();
    let mut i: usize = 0;
    while i < dbc.messages.len()
        invariant
            i <= dbc.messages.len(),
            dbc_writable(*dbc, names@),
            impls@ == impls_tokens(*dbc, names@, i as int),
        decreases dbc.messages.len() - i,
    {
        assert(names@.messages[i as int] == names.messages@[i as int]@);
        assert(message_writable(*dbc, dbc.messages@[i as int], names@.messages[i as int]));
        impls = impls.splice(&message_impl_named(&dbc.messages[i], &names.messages[i]));
        i += 1;
    }
    impls
}

/// Writes the enums of the signals.
fn signal_enums(dbc: &DBC, names: &Names) -> (r: Code)
    requires
        dbc_writable(*dbc, names@),
    ensures
        r@ == enums_tokens(*dbc, names@, dbc.value_descriptions@.len() as int),
{
    let mut enums = Code::new();
    let mut i: usize = 0;
    while i < dbc.value_descriptions.len()
        invariant
            i <= dbc.value_descriptions.len(),
            dbc_writable(*dbc, names@),
            enums@ == enums_tokens(*dbc, names@, i as int),
        decreases dbc.value_descriptions.len() - i,
    {
        assert(names@.enums[i as int] == names.enums@[i as int]@);
        assert(enum_writable(*dbc, dbc.value_descriptions@[i as int], names@.enums[i as int]));
        enums = enums.splice(
            &signal_enum_named(dbc, &dbc.value_descriptions[i], &names.enums[i]),
        );
        i += 1;
    }
    enums
}

/// Writes the variants of the messages.
fn message_enums(dbc: &DBC, names: &Names) -> (r: Result<Code, std::fmt::Error>)
    requires
        dbc_writable(*dbc, names@),
    ensures
        r matches Ok(tokens) && tokens@ == structs_tokens(
            *dbc,
            names@,
            dbc.messages@.len() as int,
        ),
{
    let mut variants = Code::new();
    let mut i: usize = 0;
    while i < dbc.messages.len()
        invariant
            i <= dbc.messages.len(),
            dbc_writable(*dbc, names@),
            variants@ == structs_tokens(*dbc, names@, i as int),
        decreases dbc.messages.len() - i,
    {
        assert(names@.messages[i as int] == names.messages@[i as int]@);
        proof {
            assert(message_writable(*dbc, dbc.messages@[i as int], names@.messages[i as int]));
            lemma_decodable_is_declarable(
                *dbc,
                dbc.messages@[i as int],
                names@.messages[i as int],
            );
        }
        let variant = message_struct_named(dbc, &dbc.messages[i], &names.messages[i])?;
        variants = variants.splice(&variant).op(',');
        i += 1;
    }
    Ok(variants)
}

/// Writes the arms that decode the messages.
fn message_decoders(dbc: &DBC, names: &Names) -> (r: Result<Code, std::fmt::Error>)
    requires
        dbc_writable(*dbc, names@),
    ensures
        r matches Ok(tokens) && tokens@ == decoders_tokens(
            *dbc,
            names@,
            dbc.messages@.len() as int,
        ),
{
    let mut arms = Code::new();
    let mut i: usize = 0;
    while i < dbc.messages.len()
        invariant
            i <= dbc.messages.len(),
            dbc_writable(*dbc, names@),
            arms@ == decoders_tokens(*dbc, names@, i as int),
        decreases dbc.messages.len() - i,
    {
        assert(names@.messages[i as int] == names.messages@[i as int]@);
        assert(message_writable(*dbc, dbc.messages@[i as int], names@.messages[i as int]));
        let arm = message_decoder_named(dbc, &dbc.messages[i], &names.messages[i])?;
        arms = arms.splice(&arm);
        i += 1;
    }
    Ok(arms)
}

/// Generate code for reading CAN signals, of a database whose converted names are given.
pub fn can_code_gen_named(
    opt: &DbccOpt,
    dbc: &DBC,
    file_name: &str,
    file_hash: &str,
    names: &Names,
) -> (r: Result<TokenStream, std::fmt::Error>)
    requires
        dbc_writable(*dbc, names@),
    ensures
        r matches Ok(tokens) && stream_tokens(tokens) == code_tokens(
            opt.with_tokio,
            *dbc,
            names@,
            file_name@,
            file_hash@,
        ),
{
    proof {
        lemma_file_words();
    }
    let imports = imports();
    let tokio_imports = if opt.with_tokio {
        tokio_imports()
    } else {
        Code::new()
    };
    let message_constants = message_constants(dbc, names);
    let message_impls = message_impls(dbc, names);
    let signal_enums = signal_enums(dbc, names);
    let message_enums = message_enums(dbc, names)?;
    let doc_msg = origin_doc_text(dbc, file_name, file_hash);
    let frame_enum = frame_enum(opt.with_tokio, message_enums);
    let frame_stream = if opt.with_tokio {
        frame_stream(&message_decoders(dbc, names)?.stream)
    } else {
        Code::new()
    };
    Ok(
        Code::new().op('#').brackets(
            Code::new().word("doc").op('=').string(doc_msg.as_str()),
        ).splice(&imports.stream).splice(&tokio_imports.stream).splice(
            &message_constants.stream,
        ).splice(&message_impls.stream).splice(&signal_enums.stream).splice(
            &frame_enum.stream,
        ).splice(&frame_stream.stream).stream,
    )
}

/// Generate code for reading CAN signals
pub fn can_code_gen(opt: &DbccOpt, dbc: &DBC, file_name: &str, file_hash: &str) -> (r: Result<
    TokenStream,
    std::fmt::Error,
>)
    requires
        dbc_writable(*dbc, dbc_words(*dbc)),
        all_switches_present(*dbc),
    ensures
        r matches Ok(tokens) && stream_tokens(tokens) == code_tokens(
            opt.with_tokio,
            *dbc,
            dbc_words(*dbc),
            file_name@,
            file_hash@,
        ),
{
    can_code_gen_named(opt, dbc, file_name, file_hash, &dbc_names(dbc))
}

} // verus!
