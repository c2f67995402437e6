//! What the code for a whole database says, and the function that opens a stream of one message.
use crate::database::{
    code_tokens, consts_tokens, decoders_tokens, enums_tokens, frame_enum_tokens,
    frame_stream_fn_tokens, frame_stream_new_tokens, frame_stream_struct_tokens,
    frame_stream_tokens, impls_tokens, imports_tokens, origin_doc, socket_type, structs_tokens,
    tokio_imports_tokens,
};
use crate::description::signal_enum_tokens;
use crate::laws::reading::{
    alone, brace, bracket, doc, joint, name, paren, row1, row10, row2, row3, row4, row5, row6, row7,
    row8, row9,
};
use crate::message::{
    message_const_tokens, message_decoder_tokens, message_impl_tokens, message_struct_tokens,
};
use crate::model::DBC;
use crate::naming::Words;
use crate::tokens::{code, Token};
use vstd::prelude::*;

verus! {

/// Each further message adds, at the end of each list, its constant, its struct, its variant with a
/// comma, and its arm. Nothing comes before the first message.
pub proof fn law_each_message_adds_its_code(dbc: DBC, words: Words, n: int)
    requires
        0 <= n,
    ensures
        ({
            let message = dbc.messages@[n];
            let own = words.messages[n];
            &&& consts_tokens(dbc, words, 0).len() == 0
            &&& impls_tokens(dbc, words, 0).len() == 0
            &&& structs_tokens(dbc, words, 0).len() == 0
            &&& decoders_tokens(dbc, words, 0).len() == 0
            &&& consts_tokens(dbc, words, n + 1) == consts_tokens(dbc, words, n)
                + message_const_tokens(message, own)
            &&& impls_tokens(dbc, words, n + 1) == impls_tokens(dbc, words, n)
                + message_impl_tokens(message, own)
            &&& structs_tokens(dbc, words, n + 1) == structs_tokens(dbc, words, n)
                + message_struct_tokens(dbc, message, own) + row1(alone(','))
            &&& decoders_tokens(dbc, words, n + 1) == decoders_tokens(dbc, words, n)
                + message_decoder_tokens(dbc, message, own)
        }),
{
    let before = structs_tokens(dbc, words, n) + message_struct_tokens(
        dbc,
        dbc.messages@[n],
        words.messages[n],
    );
    assert(structs_tokens(dbc, words, n + 1) =~= before + row1(alone(',')));
}

/// Further value descriptions add their enum and conversion at the end.
pub proof fn law_all_descriptions_add_their_code(dbc: DBC, words: Words, n: int)
    requires
        0 <= n,
    ensures
        enums_tokens(dbc, words, 0).len() == 0,
        enums_tokens(dbc, words, n + 1) == enums_tokens(dbc, words, n) + signal_enum_tokens(
            dbc,
            dbc.value_descriptions@[n],
            words.enums[n],
        ),
{
}

/// The code for a database is its origin, the imports, the code for all messages and all value
/// descriptions, and the enum of decoded frames; with streams, their imports come after the other
/// imports, and the stream of decoded frames comes last.
pub proof fn law_code_has_all_parts_in_order(
    with_tokio: bool,
    dbc: DBC,
    words: Words,
    file_name: Seq<char>,
    file_hash: Seq<char>,
)
    ensures
        ({
            let n = dbc.messages@.len() as int;
            let before = doc(origin_doc(dbc, file_name, file_hash)) + imports_tokens();
            let middle = consts_tokens(dbc, words, n) + impls_tokens(dbc, words, n) + enums_tokens(
                dbc,
                words,
                dbc.value_descriptions@.len() as int,
            ) + frame_enum_tokens(with_tokio, structs_tokens(dbc, words, n));
            code_tokens(with_tokio, dbc, words, file_name, file_hash) == if with_tokio {
                before + tokio_imports_tokens() + middle + frame_stream_tokens(
                    decoders_tokens(dbc, words, n),
                )
            } else {
                before + middle
            }
        }),
{
    let n = dbc.messages@.len() as int;
    let first = doc(origin_doc(dbc, file_name, file_hash));
    let consts = consts_tokens(dbc, words, n);
    let impls = impls_tokens(dbc, words, n);
    let enums = enums_tokens(dbc, words, dbc.value_descriptions@.len() as int);
    let frames = frame_enum_tokens(with_tokio, structs_tokens(dbc, words, n));
    let tokio = if with_tokio {
        tokio_imports_tokens()
    } else {
        code()
    };
    let streams = if with_tokio {
        frame_stream_tokens(decoders_tokens(dbc, words, n))
    } else {
        code()
    };
    let all = code_tokens(with_tokio, dbc, words, file_name, file_hash);
    assert(all == first + imports_tokens() + tokio + consts + impls + enums + frames + streams);
    lemma_regrouped(first + imports_tokens() + tokio, consts, impls, enums, frames);
    let middle = consts + impls + enums + frames;
    assert(all == first + imports_tokens() + tokio + middle + streams);
    if !with_tokio {
        assert(first + imports_tokens() + code() =~= first + imports_tokens());
        assert(first + imports_tokens() + middle + code() =~= first + imports_tokens() + middle);
    }
}

proof fn lemma_regrouped(
    first: Seq<Token>,
    a: Seq<Token>,
    b: Seq<Token>,
    c: Seq<Token>,
    d: Seq<Token>,
)
    ensures
        first + (a + b + c + d) == first + a + b + c + d,
{
    assert(first + (a + b) =~= first + a + b);
    assert(first + (a + b + c) =~= first + (a + b) + c);
    assert(first + (a + b + c + d) =~= first + (a + b + c) + d);
}

/// The imports are those of `byteorder` that decoding needs; with streams, those of the socket
/// crates and of `futures`.
pub proof fn law_imports()
    ensures
        imports_tokens() == row6(
            name("use"),
            name("byteorder"),
            joint(':'),
            alone(':'),
            brace(row5(name("ByteOrder"), alone(','), name("LE"), alone(','), name("BE"))),
            alone(';'),
        ),
        tokio_imports_tokens() == row6(
            name("use"),
            name("socketcan"),
            joint(':'),
            alone(':'),
            brace(
                row7(
                    name("CANFilter"),
                    alone(','),
                    name("EFF_MASK"),
                    alone(','),
                    name("EFF_FLAG"),
                    alone(','),
                    name("SFF_MASK"),
                ),
            ),
            alone(';'),
        ) + row6(
            name("use"),
            name("tokio_socketcan"),
            joint(':'),
            alone(':'),
            name("CANSocket"),
            alone(';'),
        ) + row9(
            name("use"),
            name("futures"),
            joint(':'),
            alone(':'),
            name("stream"),
            joint(':'),
            alone(':'),
            brace(
                row5(
                    name("Stream"),
                    alone(','),
                    name("StreamExt"),
                    alone(','),
                    name("TryStreamExt"),
                ),
            ),
            alone(';'),
        ),
{
    assert(tokio_imports_tokens() =~= row6(
        name("use"),
        name("socketcan"),
        joint(':'),
        alone(':'),
        brace(
            row7(
                name("CANFilter"),
                alone(','),
                name("EFF_MASK"),
                alone(','),
                name("EFF_FLAG"),
                alone(','),
                name("SFF_MASK"),
            ),
        ),
        alone(';'),
    ) + row6(
        name("use"),
        name("tokio_socketcan"),
        joint(':'),
        alone(':'),
        name("CANSocket"),
        alone(';'),
    ) + row9(
        name("use"),
        name("futures"),
        joint(':'),
        alone(':'),
        name("stream"),
        joint(':'),
        alone(':'),
        brace(
            row5(
                name("Stream"),
                alone(','),
                name("StreamExt"),
                alone(','),
                name("TryStreamExt"),
            ),
        ),
        alone(';'),
    ));
}

/// The enum of decoded frames has the variants of the messages; with streams, one that keeps a
/// frame that is not listed in the database comes before them.
pub proof fn law_frame_enum_has_the_variants(with_tokio: bool, variants: Seq<Token>)
    ensures
        ({
            let unknown = row5(
                alone('#'),
                bracket(
                    row3(
                        name("doc"),
                        alone('='),
                        Token::Literal("r\" Frame that is not listed in dbc\""@),
                    ),
                ),
                name("UnknownFrame"),
                paren(row4(name("tokio_socketcan"), joint(':'), alone(':'), name("CANFrame"))),
                alone(','),
            );
            let body = if with_tokio {
                unknown + variants
            } else {
                variants
            };
            frame_enum_tokens(with_tokio, variants) == row6(
                alone('#'),
                bracket(
                    row2(name("derive"), paren(row3(name("Debug"), alone(','), name("Clone")))),
                ),
                name("pub"),
                name("enum"),
                name("DecodedFrame"),
                brace(body),
            )
        }),
{
    let unknown = row5(
        alone('#'),
        bracket(
            row3(
                name("doc"),
                alone('='),
                Token::Literal("r\" Frame that is not listed in dbc\""@),
            ),
        ),
        name("UnknownFrame"),
        paren(row4(name("tokio_socketcan"), joint(':'), alone(':'), name("CANFrame"))),
        alone(','),
    );
    reveal_strlit("r\" Frame that is not listed in dbc\"");
    let text = "r\" Frame that is not listed in dbc\""@;
    let body = frame_enum_tokens(with_tokio, variants).last()->Group_1;
    if with_tokio {
        let documentation = body[1]->Group_1;
        assert(documentation =~= row3(name("doc"), alone('='), Token::Literal(text)));
        assert(body =~= unknown + variants);
    }
}

/// The stream of decoded frames has a socket, a constructor that takes it, and a function that
/// turns each frame on it into a decoded one: by the arm of its id, or as an unknown frame.
pub proof fn law_frame_stream_decodes_each_frame(arms: Seq<Token>)
    ensures
        ({
            let socket = row4(name("tokio_socketcan"), joint(':'), alone(':'), name("CANSocket"));
            let declaration = row4(
                name("pub"),
                name("struct"),
                name("DecodedFrameStream"),
                brace(row2(name("can_socket"), alone(':')) + socket + row1(alone(','))),
            );
            let constructor = row8(
                name("pub"),
                name("fn"),
                name("new"),
                paren(row2(name("can_socket"), alone(':')) + socket),
                joint('-'),
                alone('>'),
                name("Self"),
                brace(row2(name("Self"), brace(row1(name("can_socket"))))),
            );
            &&& socket_type() == socket
            &&& frame_stream_struct_tokens() == declaration
            &&& frame_stream_new_tokens() == constructor
            &&& frame_stream_tokens(arms) == declaration + row3(
                name("impl"),
                name("DecodedFrameStream"),
                brace(constructor + frame_stream_fn_tokens(arms)),
            )
        }),
{
    let socket = row4(name("tokio_socketcan"), joint(':'), alone(':'), name("CANSocket"));
    let field = row2(name("can_socket"), alone(':')) + socket + row1(alone(','));
    let parameter = row2(name("can_socket"), alone(':')) + socket;
    let declaration = frame_stream_struct_tokens();
    assert(declaration.last()->Group_1 =~= field);
    let constructor = frame_stream_new_tokens();
    assert(constructor[3]->Group_1 =~= parameter);
    let all = frame_stream_tokens(arms);
    assert(all.last()->Group_1 =~= constructor + frame_stream_fn_tokens(arms));
    assert(all =~= declaration + row3(
        name("impl"),
        name("DecodedFrameStream"),
        brace(constructor + frame_stream_fn_tokens(arms)),
    ));
}

/// The function of the stream matches the id of each frame with the given arms and, after them,
/// with one that keeps the frame as it is.
pub proof fn law_frames_are_matched_by_id(arms: Seq<Token>)
    ensures
        ({
            let choice = row6(
                name("match"),
                name("frame"),
                alone('.'),
                name("id"),
                paren(Seq::empty()),
                brace(
                    arms + row9(
                        name("_"),
                        joint('='),
                        alone('>'),
                        name("DecodedFrame"),
                        joint(':'),
                        alone(':'),
                        name("UnknownFrame"),
                        paren(row1(name("frame"))),
                        alone(','),
                    ),
                ),
            );
            frame_stream_fn_tokens(arms) == row6(
                name("pub"),
                name("fn"),
                name("stream"),
                paren(row1(name("self"))),
                joint('-'),
                alone('>'),
            ) + row8(
                name("impl"),
                name("futures"),
                joint(':'),
                alone(':'),
                name("Stream"),
                alone('<'),
                name("Item"),
                alone('='),
            ) + row10(
                name("Result"),
                alone('<'),
                name("DecodedFrame"),
                alone(','),
                name("std"),
                joint(':'),
                alone(':'),
                name("io"),
                joint(':'),
                alone(':'),
            ) + row4(
                name("Error"),
                joint('>'),
                alone('>'),
                brace(
                    row6(
                        name("self"),
                        alone('.'),
                        name("can_socket"),
                        alone('.'),
                        name("map_ok"),
                        paren(row4(alone('|'), name("frame"), alone('|'), brace(choice))),
                    ),
                ),
            )
        }),
{
    let other = row9(
        name("_"),
        joint('='),
        alone('>'),
        name("DecodedFrame"),
        joint(':'),
        alone(':'),
        name("UnknownFrame"),
        paren(row1(name("frame"))),
        alone(','),
    );
    let choice = row6(
        name("match"),
        name("frame"),
        alone('.'),
        name("id"),
        paren(Seq::empty()),
        brace(arms + other),
    );
    let body = row6(
        name("self"),
        alone('.'),
        name("can_socket"),
        alone('.'),
        name("map_ok"),
        paren(row4(alone('|'), name("frame"), alone('|'), brace(choice))),
    );
    let all = frame_stream_fn_tokens(arms);
    let closure = all.last()->Group_1.last()->Group_1;
    assert(closure.last()->Group_1.last()->Group_1 =~= arms + other);
    assert(closure.last()->Group_1 == choice);
    assert(all.last()->Group_1 == body);
    assert(all =~= row6(
        name("pub"),
        name("fn"),
        name("stream"),
        paren(row1(name("self"))),
        joint('-'),
        alone('>'),
    ) + row8(
        name("impl"),
        name("futures"),
        joint(':'),
        alone(':'),
        name("Stream"),
        alone('<'),
        name("Item"),
        alone('='),
    ) + row10(
        name("Result"),
        alone('<'),
        name("DecodedFrame"),
        alone(','),
        name("std"),
        joint(':'),
        alone(':'),
        name("io"),
        joint(':'),
        alone(':'),
    ) + row4(name("Error"), joint('>'), alone('>'), brace(body)));
}

} // verus!
