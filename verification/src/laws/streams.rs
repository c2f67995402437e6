//! What the function that opens a stream of one message says.
use crate::laws::bits::law_frame_id_is_the_low_bits;
use crate::laws::reading::{
    allow_dead_code, alone, brace, joint, name, paren, row1, row10, row2, row3, row4, row5, row6,
    row7, row8,
};
use crate::model::{Message, MessageId};
use crate::naming::MessageWords;
use crate::stream::{
    message_stream_tokens, path3, stream_filter_tokens, stream_header_tokens, stream_id_tokens,
    stream_map_tokens, stream_open_tokens,
};
use crate::tokens::Token;
use vstd::prelude::*;

verus! {

/// The words of a path, with separators between them.
pub open spec fn three_words(a: &str, b: &str, c: &str) -> Seq<Token> {
    row7(name(a), joint(':'), alone(':'), name(b), joint(':'), alone(':'), name(c))
}

/// A call without arguments of the method `unwrap`, and the end of the statement.
pub open spec fn unwrapped() -> Seq<Token> {
    row4(alone('.'), name("unwrap"), paren(Seq::empty()), alone(';'))
}

/// A path of three words is made of them and separators.
pub proof fn law_paths_have_separators(a: &str, b: &str, c: &str)
    ensures
        path3(a, b, c) == three_words(a, b, c),
{
}

/// The function takes the name of an interface and two intervals, and gives a stream of messages or
/// an error.
pub proof fn law_stream_takes_interface_and_intervals()
    ensures
        ({
            let duration = three_words("std", "time", "Duration");
            let parameters = row8(
                name("can_interface"),
                alone(':'),
                alone('&'),
                name("str"),
                alone(','),
                name("ival1"),
                alone(':'),
                alone('&'),
            ) + duration + row4(alone(','), name("ival2"), alone(':'), alone('&')) + duration;
            let result = three_words("std", "io", "Result") + row10(
                alone('<'),
                name("impl"),
                name("Stream"),
                alone('<'),
                name("Item"),
                alone('='),
                name("Result"),
                alone('<'),
                name("Self"),
                alone(','),
            ) + three_words("std", "io", "Error") + row3(joint('>'), alone('>'), alone('>'));
            stream_header_tokens() == allow_dead_code() + row6(
                name("pub"),
                name("fn"),
                name("stream"),
                paren(parameters),
                joint('-'),
                alone('>'),
            ) + result
        }),
{
    let duration = three_words("std", "time", "Duration");
    let parameters = row8(
        name("can_interface"),
        alone(':'),
        alone('&'),
        name("str"),
        alone(','),
        name("ival1"),
        alone(':'),
        alone('&'),
    ) + duration + row4(alone(','), name("ival2"), alone(':'), alone('&')) + duration;
    let result = three_words("std", "io", "Result") + row10(
        alone('<'),
        name("impl"),
        name("Stream"),
        alone('<'),
        name("Item"),
        alone('='),
        name("Result"),
        alone('<'),
        name("Self"),
        alone(','),
    ) + three_words("std", "io", "Error") + row3(joint('>'), alone('>'), alone('>'));
    law_paths_have_separators("std", "time", "Duration");
    law_paths_have_separators("std", "io", "Result");
    law_paths_have_separators("std", "io", "Error");
    let all = stream_header_tokens();
    assert(all[5]->Group_1 =~= parameters);
    assert(all =~= allow_dead_code() + row6(
        name("pub"),
        name("fn"),
        name("stream"),
        paren(parameters),
        joint('-'),
        alone('>'),
    ) + result);
}

/// The function opens a socket of the Broadcast Manager on the interface, has it filter by the id
/// of the message with both intervals, and turns each frame that passes into a message. The id goes
/// in as that of a standard frame exactly if its low 29 bits fit into 11 bits.
pub proof fn law_stream_is_filtered_by_the_broadcast_manager(message: Message, words: MessageWords)
    ensures
        ({
            let open = row3(name("let"), name("socket"), alone('=')) + three_words(
                "tokio_socketcan_bcm",
                "BCMSocket",
                "open_nb",
            ) + row1(paren(row2(alone('&'), name("can_interface")))) + unwrapped();
            let filter = row7(
                name("let"),
                name("frame_stream"),
                alone('='),
                name("socket"),
                alone('.'),
                name("filter_id_incoming_frames"),
                paren(
                    row7(
                        name("message_id"),
                        alone(','),
                        alone('*'),
                        name("ival1"),
                        alone(','),
                        alone('*'),
                        name("ival2"),
                    ),
                ),
            ) + unwrapped();
            let body = open + stream_id_tokens(message.message_id) + filter + stream_map_tokens(
                words.camel,
            ) + row2(name("Ok"), paren(row1(name("f"))));
            &&& stream_open_tokens() == open
            &&& stream_filter_tokens() == filter
            &&& message_stream_tokens(message, words) == stream_header_tokens() + row1(brace(body))
        }),
{
    law_paths_have_separators("tokio_socketcan_bcm", "BCMSocket", "open_nb");
    let open = stream_open_tokens();
    assert(open =~= row3(name("let"), name("socket"), alone('=')) + three_words(
        "tokio_socketcan_bcm",
        "BCMSocket",
        "open_nb",
    ) + row1(paren(row2(alone('&'), name("can_interface")))) + unwrapped());
    let filter = stream_filter_tokens();
    assert(filter =~= row7(
        name("let"),
        name("frame_stream"),
        alone('='),
        name("socket"),
        alone('.'),
        name("filter_id_incoming_frames"),
        paren(
            row7(
                name("message_id"),
                alone(','),
                alone('*'),
                name("ival1"),
                alone(','),
                alone('*'),
                name("ival2"),
            ),
        ),
    ) + unwrapped());
    let all = message_stream_tokens(message, words);
    let body = open + stream_id_tokens(message.message_id) + filter + stream_map_tokens(
        words.camel,
    ) + row2(name("Ok"), paren(row1(name("f"))));
    assert(all.last()->Group_1 =~= body);
    assert(all =~= stream_header_tokens() + row1(brace(body)));
}

/// The id of the message goes into the filter with its own bits: 11 of them as a standard id if the
/// low 29 bits of the id have no more, else 29 of them as an extended one.
pub proof fn law_stream_id_is_standard_or_extended(id: MessageId)
    ensures
        ({
            let own = row5(name("Self"), joint(':'), alone(':'), name("ID"), alone('&'));
            let variant = if id.0 % 0x2000_0000 < 0x800 {
                three_words("tokio_socketcan_bcm", "CANMessageId", "SFF") + row1(
                    paren(
                        row3(paren(own + row1(name("SFF_MASK"))), name("as"), name("u16")),
                    ),
                )
            } else {
                three_words("tokio_socketcan_bcm", "CANMessageId", "EFF") + row1(
                    paren(own + row1(name("EFF_MASK"))),
                )
            };
            stream_id_tokens(id) == row3(name("let"), name("message_id"), alone('=')) + variant
                + row1(alone(';'))
        }),
{
    law_frame_id_is_the_low_bits(id);
    law_paths_have_separators("tokio_socketcan_bcm", "CANMessageId", "SFF");
    law_paths_have_separators("tokio_socketcan_bcm", "CANMessageId", "EFF");
    let own = row5(name("Self"), joint(':'), alone(':'), name("ID"), alone('&'));
    assert(own + row1(name("SFF_MASK")) =~= own.push(name("SFF_MASK")));
    assert(own + row1(name("EFF_MASK")) =~= own.push(name("EFF_MASK")));
    let variant = if id.0 % 0x2000_0000 < 0x800 {
        three_words("tokio_socketcan_bcm", "CANMessageId", "SFF") + row1(
            paren(row3(paren(own + row1(name("SFF_MASK"))), name("as"), name("u16"))),
        )
    } else {
        three_words("tokio_socketcan_bcm", "CANMessageId", "EFF") + row1(
            paren(own + row1(name("EFF_MASK"))),
        )
    };
    assert(stream_id_tokens(id) =~= row3(name("let"), name("message_id"), alone('=')) + variant
        + row1(alone(';')));
}

/// Each frame that passes the filter becomes a message made from its data; an error stays one.
pub proof fn law_frames_become_messages(camel: Seq<char>)
    ensures
        ({
            let decode = row8(
                alone('|'),
                name("frame"),
                alone('|'),
                Token::Ident(camel),
                joint(':'),
                alone(':'),
                name("new"),
                paren(
                    row7(
                        name("frame"),
                        alone('.'),
                        name("data"),
                        paren(Seq::empty()),
                        alone('.'),
                        name("to_vec"),
                        paren(Seq::empty()),
                    ),
                ),
            );
            let each = row7(
                alone('|'),
                name("frame"),
                alone('|'),
                name("frame"),
                alone('.'),
                name("map"),
                paren(decode),
            );
            stream_map_tokens(camel) == row8(
                name("let"),
                name("f"),
                alone('='),
                name("frame_stream"),
                alone('.'),
                name("map"),
                paren(each),
                alone(';'),
            )
        }),
{
    let decode = row8(
        alone('|'),
        name("frame"),
        alone('|'),
        Token::Ident(camel),
        joint(':'),
        alone(':'),
        name("new"),
        paren(
            row7(
                name("frame"),
                alone('.'),
                name("data"),
                paren(Seq::empty()),
                alone('.'),
                name("to_vec"),
                paren(Seq::empty()),
            ),
        ),
    );
    let each = stream_map_tokens(camel)[6]->Group_1;
    assert(each.last()->Group_1 =~= decode);
    assert(each =~= row7(
        alone('|'),
        name("frame"),
        alone('|'),
        name("frame"),
        alone('.'),
        name("map"),
        paren(decode),
    ));
}

} // verus!
