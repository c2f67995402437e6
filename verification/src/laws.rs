//! What holds of the generated code as a whole.
pub mod acceptance;
pub mod bits;
pub mod calls;
pub mod doubles;
pub mod enums;
pub mod files;
pub mod lookup;
pub mod messages;
pub mod names;
pub mod reading;
pub mod signals;
pub mod streams;

use crate::database::{
    code_tokens, consts_tokens, decoders_tokens, enums_tokens, frame_enum_tokens,
    frame_stream_tokens, impls_tokens, imports_tokens, origin_doc, structs_tokens,
    tokio_imports_tokens,
};
use crate::description::{described_type, signal_enum_impl_from_tokens, signal_enum_tokens};
use crate::ident::{beyond_ascii, ident_text, kept_char, letter, named_type, named_type_rest};
use crate::layout::{decoded_type_of, kept, mask, readable, signal_shift, DecodedType};
use crate::message::{
    arm_body_tokens, described, enum_decoders_tokens, enum_field, enum_field_names, enum_fields,
    frame_id, message_const_tokens, message_decoder_tokens, message_impl_tokens,
    message_struct_tokens,
    raw_decoders_tokens, raw_field_names, raw_fields,
};
use crate::model::{
    descriptions_from, Message, MessageId, MultiplexIndicator, Signal, SignalExtendedValueType,
    ValueDescription, DBC,
};
use crate::naming::{dbc_words, raw_name, EnumWords, MessageWords, Words, RAW_FN_SUFFIX};
use crate::paths::{leads_path, lemma_paths_with_streams, lemma_paths_without_streams};
use crate::signal::{
    binding_tokens, boolean_signal, calc_tokens, enum_decoder_tokens, enum_name_tokens, field_type,
    raw_decoder_tokens, raw_field, raw_value_tokens, read_tokens, switch_cut_tokens, switched_value,
    type_tokens, Field,
};
use crate::tokens::{code, decimal, digit, Token, Writing};
use vstd::arithmetic::power2::{lemma2_to64, lemma2_to64_rest, lemma_pow2_strictly_increases, pow2};
use vstd::bits::{lemma_u64_low_bits_mask_is_mod, lemma_u64_shr_is_div};
use vstd::prelude::*;

verus! {

/// The tokens `run` stand somewhere in `tokens`, one after another.
pub open spec fn holds_run(tokens: Seq<Token>, run: Seq<Token>) -> bool {
    exists|at: int|
        0 <= at <= tokens.len() - run.len() && #[trigger] tokens.subrange(at, at + run.len())
            == run
}

proof fn lemma_run_in_sum(
    before: Seq<Token>,
    middle: Seq<Token>,
    after: Seq<Token>,
    run: Seq<Token>,
)
    requires
        holds_run(middle, run),
    ensures
        holds_run(before + middle + after, run),
{
    let at = choose|at: int|
        0 <= at <= middle.len() - run.len() && #[trigger] middle.subrange(at, at + run.len())
            == run;
    let tokens = before + middle + after;
    let there = before.len() + at;
    assert(tokens.subrange(there, there + run.len()) =~= middle.subrange(at, at + run.len()));
}

proof fn lemma_run_in_itself(run: Seq<Token>)
    ensures
        holds_run(run, run),
{
    assert(run.subrange(0int, 0int + run.len()) =~= run);
}

proof fn lemma_run_at_start(first: Seq<Token>, rest: Seq<Token>, run: Seq<Token>)
    requires
        holds_run(first, run),
    ensures
        holds_run(first + rest, run),
{
    lemma_run_in_sum(code(), first, rest, run);
    assert(code() + first + rest =~= first + rest);
}

proof fn lemma_run_at_end(first: Seq<Token>, run: Seq<Token>)
    ensures
        holds_run(first + run, run),
{
    lemma_run_in_itself(run);
    lemma_run_in_sum(first, run, code(), run);
    assert(first + run + code() =~= first + run);
}

proof fn lemma_sum_is_associative(a: Seq<Token>, b: Seq<Token>, c: Seq<Token>)
    ensures
        a + (b + c) == a + b + c,
{
    assert(a + (b + c) =~= a + b + c);
}

proof fn lemma_run_in_run(tokens: Seq<Token>, middle: Seq<Token>, run: Seq<Token>)
    requires
        holds_run(tokens, middle),
        holds_run(middle, run),
    ensures
        holds_run(tokens, run),
{
    let at = choose|at: int|
        0 <= at <= tokens.len() - middle.len() && #[trigger] tokens.subrange(
            at,
            at + middle.len(),
        ) == middle;
    let before = tokens.subrange(0, at);
    let after = tokens.skip((at + middle.len()) as int);
    lemma_run_in_sum(before, middle, after, run);
    assert(before + middle + after =~= tokens);
}

/// The variant of a message declares exactly the fields that the arm of the message fills in, in
/// the same order.
pub proof fn law_declared_fields_are_filled(dbc: DBC, message: Message, words: MessageWords, n: int)
    ensures
        raw_field_names(message, words, n) == raw_fields(dbc, message, words, n).map_values(
            |field: Field| field.name,
        ),
        enum_field_names(dbc, message, words, n) == enum_fields(
            dbc,
            message,
            words,
            n,
        ).map_values(|field: Field| field.name),
    decreases n,
{
    if n > 0 {
        law_declared_fields_are_filled(dbc, message, words, n - 1);
    }
    assert(raw_field_names(message, words, n) =~= raw_fields(dbc, message, words, n).map_values(
        |field: Field| field.name,
    ));
    assert(enum_field_names(dbc, message, words, n) =~= enum_fields(
        dbc,
        message,
        words,
        n,
    ).map_values(|field: Field| field.name));
}

proof fn lemma_raw_value_is_bound(dbc: DBC, message: Message, words: MessageWords, n: int, i: int)
    requires
        0 <= i < n,
        kept(message.signals@[i]),
    ensures
        holds_run(
            raw_decoders_tokens(dbc, message, words, n),
            binding_tokens(
                raw_name(words.signals[i].snake),
                field_type(dbc, message.message_id, message.signals@[i]),
                raw_value_tokens(dbc, message.message_id, message.signals@[i]),
            ),
        ),
    decreases n,
{
    let id = message.message_id;
    let run = binding_tokens(
        raw_name(words.signals[i].snake),
        field_type(dbc, id, message.signals@[i]),
        raw_value_tokens(dbc, id, message.signals@[i]),
    );
    let earlier = raw_decoders_tokens(dbc, message, words, n - 1);
    let here = raw_decoder_tokens(dbc, id, message.signals@[n - 1], words.signals[n - 1]);
    if i < n - 1 {
        lemma_raw_value_is_bound(dbc, message, words, n - 1, i);
        lemma_run_at_start(earlier, here, run);
    } else {
        let first = read_tokens(message.signals@[i].byte_order);
        assert(here == first + run);
        lemma_sum_is_associative(earlier, first, run);
        lemma_run_at_end(earlier + first, run);
    }
}

proof fn lemma_raw_field_origin(dbc: DBC, message: Message, words: MessageWords, n: int, k: int)
    -> (s: int)
    requires
        0 <= k < raw_fields(dbc, message, words, n).len(),
    ensures
        0 <= s < n,
        kept(message.signals@[s]),
        raw_fields(dbc, message, words, n)[k] == raw_field(
            dbc,
            message.message_id,
            message.signals@[s],
            words.signals[s],
        ),
    decreases n,
{
    if k < raw_fields(dbc, message, words, n - 1).len() {
        lemma_raw_field_origin(dbc, message, words, n - 1, k)
    } else {
        n - 1
    }
}

/// Every field that a message declares for a raw value is bound in the arm of the message, with
/// the type that it is declared with.
pub proof fn law_raw_fields_are_bound(dbc: DBC, message: Message, words: MessageWords, k: int)
    requires
        0 <= k < raw_fields(dbc, message, words, message.signals@.len() as int).len(),
    ensures
        ({
            let field = raw_fields(dbc, message, words, message.signals@.len() as int)[k];
            exists|value: Seq<Token>|
                holds_run(
                    arm_body_tokens(dbc, message, words),
                    #[trigger] binding_tokens(field.name, field.ty, value),
                )
        }),
{
    let n = message.signals@.len() as int;
    let field = raw_fields(dbc, message, words, n)[k];
    let origin = lemma_raw_field_origin(dbc, message, words, n, k);
    lemma_raw_value_is_bound(dbc, message, words, n, origin);
    let value = raw_value_tokens(dbc, message.message_id, message.signals@[origin]);
    let body = arm_body_tokens(dbc, message, words);
    let raw = raw_decoders_tokens(dbc, message, words, n);
    let rest = body.skip(raw.len() as int);
    lemma_run_in_sum(code(), raw, rest, binding_tokens(field.name, field.ty, value));
    assert(code() + raw + rest =~= body);
}

/// The arm of a message binds every multiplexed signal of it by a test of the switch of the
/// message: the signal is there if the switch has the value of its multiplex indicator, and absent
/// if it has any other.
pub proof fn law_multiplexed_signals_follow_their_switch(
    dbc: DBC,
    message: Message,
    words: MessageWords,
    i: int,
    switch: Signal,
    switch_value: u64,
)
    requires
        0 <= i < message.signals@.len(),
        kept(message.signals@[i]),
        message.signals@[i].multiplexer_indicator == MultiplexIndicator::MultiplexedSignal(
            switch_value,
        ),
        dbc.switch_of(message.message_id) == Some(switch),
        readable(switch),
    ensures
        ({
            let signal = message.signals@[i];
            let ty = type_tokens(dbc, message.message_id, signal);
            exists|value: Seq<Token>|
                holds_run(
                    arm_body_tokens(dbc, message, words),
                    binding_tokens(
                        raw_name(words.signals[i].snake),
                        code().word("Option").op('<').splice(ty).op('>'),
                        #[trigger] switched_value(switch, switch_value, value),
                    ),
                )
        }),
{
    let n = message.signals@.len() as int;
    let signal = message.signals@[i];
    let id = message.message_id;
    lemma_raw_value_is_bound(dbc, message, words, n, i);
    let value = calc_tokens(
        signal,
        type_tokens(dbc, id, signal),
        signal_shift(signal) as u64,
        mask(signal.signal_size as nat) as u64,
    );
    assert(raw_value_tokens(dbc, id, signal) == switched_value(switch, switch_value, value));
    let run = binding_tokens(
        raw_name(words.signals[i].snake),
        field_type(dbc, id, signal),
        raw_value_tokens(dbc, id, signal),
    );
    let body = arm_body_tokens(dbc, message, words);
    let raw = raw_decoders_tokens(dbc, message, words, n);
    let rest = body.skip(raw.len() as int);
    lemma_run_in_sum(code(), raw, rest, run);
    assert(code() + raw + rest =~= body);
}

/// Signals of different multiplex indicator values are bound by different tests of their switch.
pub proof fn law_switch_values_are_told_apart(
    switch: Signal,
    a: u64,
    b: u64,
    a_value: Seq<Token>,
    b_value: Seq<Token>,
)
    requires
        switched_value(switch, a, a_value) == switched_value(switch, b, b_value),
    ensures
        a == b,
{
    let at = switch_cut_tokens(switch).len() as int + 3;
    assert(switched_value(switch, a, a_value)[at] == Token::Literal(decimal(a as nat)));
    assert(switched_value(switch, b, b_value)[at] == Token::Literal(decimal(b as nat)));
    lemma_decimal_value(a as nat);
    lemma_decimal_value(b as nat);
}

proof fn lemma_enum_field_is_bound(dbc: DBC, message: Message, words: MessageWords, n: int, k: int)
    requires
        0 <= k < enum_fields(dbc, message, words, n).len(),
    ensures
        ({
            let field = enum_fields(dbc, message, words, n)[k];
            exists|i: int|
                0 <= i < n && field.name == words.signals[i].snake && holds_run(
                    enum_decoders_tokens(dbc, message, words, n),
                    #[trigger] enum_decoder_tokens(
                        message.signals@[i],
                        field.ty,
                        words.signals[i],
                    ),
                )
        }),
    decreases n,
{
    let signal = message.signals@[n - 1];
    let earlier = enum_decoders_tokens(dbc, message, words, n - 1);
    let before = enum_fields(dbc, message, words, n - 1);
    let field = enum_fields(dbc, message, words, n)[k];
    let all = enum_decoders_tokens(dbc, message, words, n);
    if k < before.len() {
        lemma_enum_field_is_bound(dbc, message, words, n - 1, k);
        let i = choose|i: int|
            0 <= i < n - 1 && field.name == words.signals[i].snake && holds_run(
                earlier,
                #[trigger] enum_decoder_tokens(message.signals@[i], field.ty, words.signals[i]),
            );
        let run = enum_decoder_tokens(message.signals@[i], field.ty, words.signals[i]);
        if all != earlier {
            lemma_run_at_start(
                earlier,
                enum_decoder_tokens(
                    signal,
                    enum_name_tokens(words.signals[n - 1].camel, message.message_id),
                    words.signals[n - 1],
                ),
                run,
            );
        }
    } else {
        let run = enum_decoder_tokens(signal, field.ty, words.signals[n - 1]);
        lemma_run_at_end(earlier, run);
    }
}

/// Every field that a message declares for a described value is bound in the arm of the message,
/// to a value of the enum that it is declared with.
pub proof fn law_enum_fields_are_bound(dbc: DBC, message: Message, words: MessageWords, k: int)
    requires
        0 <= k < enum_fields(dbc, message, words, message.signals@.len() as int).len(),
    ensures
        ({
            let field = enum_fields(dbc, message, words, message.signals@.len() as int)[k];
            exists|i: int|
                0 <= i < message.signals@.len() && field.name == words.signals[i].snake
                    && holds_run(
                    arm_body_tokens(dbc, message, words),
                    #[trigger] enum_decoder_tokens(
                        message.signals@[i],
                        field.ty,
                        words.signals[i],
                    ),
                )
        }),
{
    let n = message.signals@.len() as int;
    let field = enum_fields(dbc, message, words, n)[k];
    lemma_enum_field_is_bound(dbc, message, words, n, k);
    let enums = enum_decoders_tokens(dbc, message, words, n);
    let i = choose|i: int|
        0 <= i < n && field.name == words.signals[i].snake && holds_run(
            enums,
            #[trigger] enum_decoder_tokens(message.signals@[i], field.ty, words.signals[i]),
        );
    let run = enum_decoder_tokens(message.signals@[i], field.ty, words.signals[i]);
    let body = arm_body_tokens(dbc, message, words);
    let raw = raw_decoders_tokens(dbc, message, words, n);
    let rest = body.skip((raw.len() + enums.len()) as int);
    lemma_run_in_sum(raw, enums, rest, run);
    assert(raw + enums + rest =~= body);
}

/// `shorter` is `message` without the signal at `k`, and so are their names.
pub open spec fn without_signal(
    message: Message,
    words: MessageWords,
    shorter: Message,
    shorter_words: MessageWords,
    k: int,
) -> bool {
    &&& 0 <= k < message.signals@.len()
    &&& words.signals.len() == message.signals@.len()
    &&& shorter.message_id == message.message_id
    &&& shorter.signals@ == message.signals@.remove(k)
    &&& shorter_words.camel == words.camel
    &&& shorter_words.signals == words.signals.remove(k)
}

proof fn lemma_skipped_signal(
    dbc: DBC,
    message: Message,
    words: MessageWords,
    shorter: Message,
    shorter_words: MessageWords,
    k: int,
    n: int,
)
    requires
        without_signal(message, words, shorter, shorter_words, k),
        !kept(message.signals@[k]),
        0 <= n <= message.signals@.len(),
    ensures
        ({
            let m = if n <= k {
                n
            } else {
                n - 1
            };
            &&& raw_fields(dbc, message, words, n) == raw_fields(dbc, shorter, shorter_words, m)
            &&& enum_fields(dbc, message, words, n) == enum_fields(dbc, shorter, shorter_words, m)
            &&& raw_field_names(message, words, n) == raw_field_names(shorter, shorter_words, m)
            &&& enum_field_names(dbc, message, words, n) == enum_field_names(
                dbc,
                shorter,
                shorter_words,
                m,
            )
            &&& raw_decoders_tokens(dbc, message, words, n) == raw_decoders_tokens(
                dbc,
                shorter,
                shorter_words,
                m,
            )
            &&& enum_decoders_tokens(dbc, message, words, n) == enum_decoders_tokens(
                dbc,
                shorter,
                shorter_words,
                m,
            )
        }),
    decreases n,
{
    if n > 0 {
        lemma_skipped_signal(dbc, message, words, shorter, shorter_words, k, n - 1);
        if n - 1 < k {
            assert(shorter.signals@[n - 1] == message.signals@[n - 1]);
            assert(shorter_words.signals[n - 1] == words.signals[n - 1]);
        } else if n - 1 > k {
            assert(shorter.signals@[n - 2] == message.signals@[n - 1]);
            assert(shorter_words.signals[n - 2] == words.signals[n - 1]);
        } else {
            assert(raw_decoders_tokens(dbc, message, words, n - 1) + code()
                =~= raw_decoders_tokens(dbc, message, words, n - 1));
        }
    }
}

/// A signal that does not start within 8 bytes is skipped: the code for its message is the one
/// for the message without it.
pub proof fn law_skipped_signals_leave_no_trace(
    dbc: DBC,
    message: Message,
    words: MessageWords,
    shorter: Message,
    shorter_words: MessageWords,
    k: int,
)
    requires
        without_signal(message, words, shorter, shorter_words, k),
        !kept(message.signals@[k]),
    ensures
        message_struct_tokens(dbc, message, words) == message_struct_tokens(
            dbc,
            shorter,
            shorter_words,
        ),
        message_decoder_tokens(dbc, message, words) == message_decoder_tokens(
            dbc,
            shorter,
            shorter_words,
        ),
{
    let n = message.signals@.len() as int;
    lemma_skipped_signal(dbc, message, words, shorter, shorter_words, k, n);
}

proof fn lemma_message_is_listed(dbc: DBC, words: Words, i: int, n: int)
    requires
        0 <= i < n,
    ensures
        holds_run(
            consts_tokens(dbc, words, n),
            message_const_tokens(dbc.messages@[i], words.messages[i]),
        ),
        holds_run(
            impls_tokens(dbc, words, n),
            message_impl_tokens(dbc.messages@[i], words.messages[i]),
        ),
        holds_run(
            structs_tokens(dbc, words, n),
            message_struct_tokens(dbc, dbc.messages@[i], words.messages[i]).op(','),
        ),
        holds_run(
            decoders_tokens(dbc, words, n),
            message_decoder_tokens(dbc, dbc.messages@[i], words.messages[i]),
        ),
    decreases n,
{
    let constant = message_const_tokens(dbc.messages@[i], words.messages[i]);
    let implementation = message_impl_tokens(dbc.messages@[i], words.messages[i]);
    let variant = message_struct_tokens(dbc, dbc.messages@[i], words.messages[i]).op(',');
    let arm = message_decoder_tokens(dbc, dbc.messages@[i], words.messages[i]);
    let consts = consts_tokens(dbc, words, n - 1);
    let impls = impls_tokens(dbc, words, n - 1);
    let variants = structs_tokens(dbc, words, n - 1);
    let arms = decoders_tokens(dbc, words, n - 1);
    let last_const = message_const_tokens(dbc.messages@[n - 1], words.messages[n - 1]);
    let last_impl = message_impl_tokens(dbc.messages@[n - 1], words.messages[n - 1]);
    let last_variant = message_struct_tokens(
        dbc,
        dbc.messages@[n - 1],
        words.messages[n - 1],
    ).op(',');
    let last_arm = message_decoder_tokens(dbc, dbc.messages@[n - 1], words.messages[n - 1]);
    assert(structs_tokens(dbc, words, n) == variants + last_variant) by {
        let body = message_struct_tokens(dbc, dbc.messages@[n - 1], words.messages[n - 1]);
        lemma_sum_is_associative(variants, body, code().op(','));
        assert(body + code().op(',') =~= body.op(','));
        assert((variants + body) + code().op(',') =~= (variants + body).op(','));
    }
    if i < n - 1 {
        lemma_message_is_listed(dbc, words, i, n - 1);
        lemma_run_at_start(consts, last_const, constant);
        lemma_run_at_start(impls, last_impl, implementation);
        lemma_run_at_start(variants, last_variant, variant);
        lemma_run_at_start(arms, last_arm, arm);
    } else {
        lemma_run_at_end(consts, constant);
        lemma_run_at_end(impls, implementation);
        lemma_run_at_end(variants, variant);
        lemma_run_at_end(arms, arm);
    }
}

proof fn lemma_runs_of_a_sum(
    first: Seq<Token>,
    a: Seq<Token>,
    b: Seq<Token>,
    c: Seq<Token>,
    d: Seq<Token>,
    e: Seq<Token>,
)
    ensures
        holds_run(first + a + b + c + d + e, a),
        holds_run(first + a + b + c + d + e, b),
        holds_run(first + a + b + c + d + e, c),
        holds_run(first + a + b + c + d + e, d),
        holds_run(first + a + b + c + d + e, e),
{
    lemma_run_at_end(first, a);
    lemma_run_at_start(first + a, b, a);
    lemma_run_at_end(first + a, b);
    lemma_run_at_start(first + a + b, c, a);
    lemma_run_at_start(first + a + b, c, b);
    lemma_run_at_end(first + a + b, c);
    lemma_run_at_start(first + a + b + c, d, a);
    lemma_run_at_start(first + a + b + c, d, b);
    lemma_run_at_start(first + a + b + c, d, c);
    lemma_run_at_end(first + a + b + c, d);
    lemma_run_at_start(first + a + b + c + d, e, a);
    lemma_run_at_start(first + a + b + c + d, e, b);
    lemma_run_at_start(first + a + b + c + d, e, c);
    lemma_run_at_start(first + a + b + c + d, e, d);
    lemma_run_at_end(first + a + b + c + d, e);
}

proof fn lemma_parts_of_the_code(
    with_tokio: bool,
    dbc: DBC,
    words: Words,
    file_name: Seq<char>,
    file_hash: Seq<char>,
)
    ensures
        ({
            let all = code_tokens(with_tokio, dbc, words, file_name, file_hash);
            let n = dbc.messages@.len() as int;
            &&& holds_run(all, consts_tokens(dbc, words, n))
            &&& holds_run(all, impls_tokens(dbc, words, n))
            &&& holds_run(all, enums_tokens(dbc, words, dbc.value_descriptions@.len() as int))
            &&& holds_run(all, frame_enum_tokens(with_tokio, structs_tokens(dbc, words, n)))
            &&& with_tokio ==> holds_run(
                all,
                frame_stream_tokens(decoders_tokens(dbc, words, n)),
            )
        }),
{
    let all = code_tokens(with_tokio, dbc, words, file_name, file_hash);
    let n = dbc.messages@.len() as int;
    let consts = consts_tokens(dbc, words, n);
    let impls = impls_tokens(dbc, words, n);
    let enums = enums_tokens(dbc, words, dbc.value_descriptions@.len() as int);
    let frames = frame_enum_tokens(with_tokio, structs_tokens(dbc, words, n));
    let streams = if with_tokio {
        frame_stream_tokens(decoders_tokens(dbc, words, n))
    } else {
        code()
    };
    let tokio = if with_tokio {
        tokio_imports_tokens()
    } else {
        code()
    };
    let first = code().op('#').brackets(
        code().word("doc").op('=').string(origin_doc(dbc, file_name, file_hash)),
    ).splice(imports_tokens()).splice(tokio);
    assert(all == first + consts + impls + enums + frames + streams);
    lemma_runs_of_a_sum(first, consts, impls, enums, frames, streams);
}

/// The code for a database holds the id of every message, its struct with the id as associated
/// constant, and the enum of decoded frames with a variant for every message; if streams are asked
/// for, also the stream of decoded frames with an arm for every message.
pub proof fn law_every_message_is_generated(
    with_tokio: bool,
    dbc: DBC,
    words: Words,
    file_name: Seq<char>,
    file_hash: Seq<char>,
    i: int,
)
    requires
        0 <= i < dbc.messages@.len(),
    ensures
        ({
            let all = code_tokens(with_tokio, dbc, words, file_name, file_hash);
            let n = dbc.messages@.len() as int;
            let message = dbc.messages@[i];
            let variants = structs_tokens(dbc, words, n);
            let arms = decoders_tokens(dbc, words, n);
            &&& holds_run(all, message_const_tokens(message, words.messages[i]))
            &&& holds_run(all, message_impl_tokens(message, words.messages[i]))
            &&& holds_run(all, frame_enum_tokens(with_tokio, variants))
            &&& holds_run(
                variants,
                message_struct_tokens(dbc, message, words.messages[i]).op(','),
            )
            &&& with_tokio ==> holds_run(all, frame_stream_tokens(arms))
            &&& holds_run(arms, message_decoder_tokens(dbc, message, words.messages[i]))
        }),
{
    let all = code_tokens(with_tokio, dbc, words, file_name, file_hash);
    let n = dbc.messages@.len() as int;
    let constant = message_const_tokens(dbc.messages@[i], words.messages[i]);
    let implementation = message_impl_tokens(dbc.messages@[i], words.messages[i]);
    lemma_parts_of_the_code(with_tokio, dbc, words, file_name, file_hash);
    lemma_message_is_listed(dbc, words, i, n);
    lemma_run_in_run(all, consts_tokens(dbc, words, n), constant);
    lemma_run_in_run(all, impls_tokens(dbc, words, n), implementation);
}

proof fn lemma_enum_is_listed(dbc: DBC, words: Words, j: int, n: int)
    requires
        0 <= j < n,
    ensures
        holds_run(
            enums_tokens(dbc, words, n),
            signal_enum_tokens(dbc, dbc.value_descriptions@[j], words.enums[j]),
        ),
    decreases n,
{
    let run = signal_enum_tokens(dbc, dbc.value_descriptions@[j], words.enums[j]);
    let earlier = enums_tokens(dbc, words, n - 1);
    let last = signal_enum_tokens(dbc, dbc.value_descriptions@[n - 1], words.enums[n - 1]);
    if j < n - 1 {
        lemma_enum_is_listed(dbc, words, j, n - 1);
        lemma_run_at_start(earlier, last, run);
    } else {
        lemma_run_at_end(earlier, run);
    }
}

/// Value descriptions belong to the signal of that message and that name.
pub open spec fn describes(val_desc: ValueDescription, id: MessageId, name: Seq<char>) -> bool {
    match val_desc {
        ValueDescription::Signal { message_id, signal_name, value_descriptions } => message_id == id
            && signal_name@ == name,
        _ => false,
    }
}

proof fn lemma_descriptions_stand_somewhere(
    all: Seq<ValueDescription>,
    id: MessageId,
    name: Seq<char>,
    from: int,
) -> (j: int)
    requires
        0 <= from,
        descriptions_from(all, id, name, from) is Some,
    ensures
        from <= j < all.len(),
        describes(all[j], id, name),
    decreases all.len() - from,
{
    if describes(all[from], id, name) {
        from
    } else {
        lemma_descriptions_stand_somewhere(all, id, name, from + 1)
    }
}

proof fn lemma_enum_field_origin(dbc: DBC, message: Message, words: MessageWords, n: int, k: int)
    -> (s: int)
    requires
        0 <= k < enum_fields(dbc, message, words, n).len(),
    ensures
        0 <= s < n,
        described(dbc, message.message_id, message.signals@[s]),
        enum_fields(dbc, message, words, n)[k] == enum_field(
            dbc,
            message.message_id,
            message.signals@[s],
            words.signals[s],
        ),
    decreases n,
{
    if k < enum_fields(dbc, message, words, n - 1).len() {
        lemma_enum_field_origin(dbc, message, words, n - 1, k)
    } else {
        n - 1
    }
}

/// The enum that a field of a message is declared with is itself declared by the code for the
/// database.
pub proof fn law_enum_types_are_declared(
    with_tokio: bool,
    dbc: DBC,
    file_name: Seq<char>,
    file_hash: Seq<char>,
    i: int,
    k: int,
)
    requires
        0 <= i < dbc.messages@.len(),
        0 <= k < enum_fields(
            dbc,
            dbc.messages@[i],
            dbc_words(dbc).messages[i],
            dbc.messages@[i].signals@.len() as int,
        ).len(),
    ensures
        ({
            let words = dbc_words(dbc);
            let message = dbc.messages@[i];
            let n = message.signals@.len() as int;
            let field = enum_fields(dbc, message, words.messages[i], n)[k];
            exists|j: int|
                {
                    &&& 0 <= j < dbc.value_descriptions@.len()
                    &&& #[trigger] dbc.value_descriptions@[j] is Signal
                    &&& field.ty == enum_name_tokens(words.enums[j].camel, message.message_id)
                    &&& dbc.value_descriptions@[j]->message_id == message.message_id
                    &&& holds_run(
                        code_tokens(with_tokio, dbc, words, file_name, file_hash),
                        signal_enum_tokens(dbc, dbc.value_descriptions@[j], words.enums[j]),
                    )
                }
        }),
{
    let words = dbc_words(dbc);
    let message = dbc.messages@[i];
    let n = message.signals@.len() as int;
    let s = lemma_enum_field_origin(dbc, message, words.messages[i], n, k);
    let signal = message.signals@[s];
    let j = lemma_descriptions_stand_somewhere(
        dbc.value_descriptions@,
        message.message_id,
        signal.name@,
        0,
    );
    let m = dbc.value_descriptions@.len() as int;
    lemma_enum_is_listed(dbc, words, j, m);
    lemma_parts_of_the_code(with_tokio, dbc, words, file_name, file_hash);
    lemma_run_in_run(
        code_tokens(with_tokio, dbc, words, file_name, file_hash),
        enums_tokens(dbc, words, m),
        signal_enum_tokens(dbc, dbc.value_descriptions@[j], words.enums[j]),
    );
    assert(dbc.value_descriptions@[j] is Signal);
}

/// The conversion into the enum of a signal takes the type that the signal is decoded to.
pub proof fn law_conversion_takes_the_decoded_type(dbc: DBC, id: MessageId, signal: Signal)
    requires
        dbc.signal_named(id, signal.name@) == Some(signal),
    ensures
        described_type(dbc, id, signal.name@) == type_tokens(dbc, id, signal),
{
}

/// The option decides whether streams are generated: with it the code holds the stream of decoded
/// frames, without it no path of the code leads into another crate than `byteorder`.
pub proof fn law_option_decides_on_streams(
    with_tokio: bool,
    dbc: DBC,
    words: Words,
    file_name: Seq<char>,
    file_hash: Seq<char>,
    name: Seq<char>,
)
    ensures
        ({
            let all = code_tokens(with_tokio, dbc, words, file_name, file_hash);
            let arms = decoders_tokens(dbc, words, dbc.messages@.len() as int);
            &&& leads_path(all, "tokio_socketcan"@) <==> with_tokio
            &&& with_tokio ==> holds_run(all, frame_stream_tokens(arms))
            &&& !with_tokio && leads_path(all, name) ==> name == "byteorder"@ || name == "Self"@
        }),
{
    if with_tokio {
        lemma_parts_of_the_code(true, dbc, words, file_name, file_hash);
        lemma_paths_with_streams(dbc, words, file_name, file_hash);
    } else {
        reveal_strlit("tokio_socketcan");
        reveal_strlit("byteorder");
        reveal_strlit("Self");
        let stream_crate = "tokio_socketcan"@;
        assert(stream_crate.len() != "byteorder"@.len() && stream_crate.len() != "Self"@.len());
        lemma_paths_without_streams(dbc, words, file_name, file_hash, stream_crate);
        if name != "byteorder"@ && name != "Self"@ {
            lemma_paths_without_streams(dbc, words, file_name, file_hash, name);
        }
    }
}

/// The enum of a signal comes with the conversion into it.
pub proof fn law_enum_comes_with_conversion(dbc: DBC, val_desc: ValueDescription, words: EnumWords)
    ensures
        match signal_enum_impl_from_tokens(dbc, val_desc, words) {
            Some(conversion) => conversion.is_suffix_of(signal_enum_tokens(dbc, val_desc, words)),
            None => signal_enum_tokens(dbc, val_desc, words) == code(),
        },
{
    if let Some(conversion) = signal_enum_impl_from_tokens(dbc, val_desc, words) {
        let all = signal_enum_tokens(dbc, val_desc, words);
        assert(all.subrange(all.len() - conversion.len(), all.len() as int) =~= conversion);
    }
}

/// Signals whose snake case names differ have different fields for their raw values.
pub proof fn law_raw_names_are_told_apart(a: Seq<char>, b: Seq<char>)
    requires
        raw_name(a) == raw_name(b),
    ensures
        a == b,
{
    assert(raw_name(a).len() == a.len() + 1 + RAW_FN_SUFFIX@.len());
    assert(raw_name(b).len() == b.len() + 1 + RAW_FN_SUFFIX@.len());
    assert(raw_name(a).take(a.len() as int) =~= a);
    assert(raw_name(b).take(b.len() as int) =~= b);
}

/// The mask of a signal of fewer than 64 bits keeps as many low bits as the signal has.
pub proof fn law_mask_keeps_low_bits(x: u64, signal_size: u64)
    requires
        signal_size < 64,
    ensures
        mask(signal_size as nat) == pow2(signal_size as nat) - 1,
        mask(signal_size as nat) <= u64::MAX,
        x & (mask(signal_size as nat) as u64) == x as nat % pow2(signal_size as nat),
{
    lemma2_to64();
    lemma2_to64_rest();
    lemma_pow2_strictly_increases(signal_size as nat, 64);
    if signal_size > 0 {
        lemma_pow2_strictly_increases(0, signal_size as nat);
    }
    lemma_u64_low_bits_mask_is_mod(x, signal_size as nat);
}

/// What the code cuts out of a payload for a signal of fewer than 64 bits is the part of the
/// payload that starts at the shift and is as long as the signal.
pub proof fn law_cut_is_the_signal(payload: u64, shift: u64, signal_size: u64)
    requires
        shift < 64,
        signal_size < 64,
    ensures
        (payload >> shift) & (mask(signal_size as nat) as u64) == (payload as nat / pow2(
            shift as nat,
        )) % pow2(signal_size as nat),
{
    lemma_u64_shr_is_div(payload, shift);
    law_mask_keeps_low_bits(payload >> shift, signal_size);
}

/// The integer type that a signal is decoded to has room for all bits of the signal.
pub proof fn law_decoded_type_is_wide_enough(dbc: DBC, id: MessageId, signal: Signal)
    requires
        signal.signal_size <= 64,
    ensures
        decoded_type_of(dbc, id, signal).width() matches Some(width) ==> signal.signal_size
            <= width,
{
}

/// Except where an extended value type makes it a floating point number, a signal is decoded to a
/// truth value exactly if its value is computed as one.
pub proof fn law_truth_values_are_boolean_signals(dbc: DBC, id: MessageId, signal: Signal)
    requires
        dbc.extended_type_of(id, signal.name@) matches Some(extended) ==> extended
            == SignalExtendedValueType::SignedOrUnsignedInteger,
    ensures
        decoded_type_of(dbc, id, signal) == DecodedType::Bool <==> boolean_signal(signal),
{
}

/// A type name starts with a letter, and holds only characters that can stand in one; the empty
/// text alone gives an empty name.
pub proof fn law_type_name_is_clean(s: Seq<char>)
    ensures
        s.len() == 0 <==> named_type(s).len() == 0,
        s.len() > 0 ==> letter(named_type(s)[0]),
        forall|i: int| 0 <= i < named_type(s).len() ==> kept_char(#[trigger] named_type(s)[i]),
{
}

/// A type name is left as it is when it is converted again.
pub proof fn law_type_name_is_stable(s: Seq<char>)
    ensures
        named_type(named_type(s)) == named_type(s),
{
    law_type_name_is_clean(s);
    let name = named_type(s);
    assert(named_type(name) =~= name);
}

/// A type name made from an ASCII text that is not empty is an identifier.
pub proof fn law_ascii_type_name_is_ident(s: Seq<char>)
    requires
        s.len() > 0,
        forall|i: int| 0 <= i < s.len() ==> !beyond_ascii(#[trigger] s[i]),
    ensures
        ident_text(named_type(s)),
{
    law_type_name_is_clean(s);
    let name = named_type(s);
    assert forall|i: int| 0 <= i < name.len() implies !beyond_ascii(#[trigger] name[i]) by {
        let k = i - (name.len() - s.len());
        if k >= 0 {
            assert(name[i] == named_type_rest(s)[k]);
        }
    }
}

/// The number that decimal digits stand for.
pub open spec fn digits_value(s: Seq<char>) -> int
    decreases s.len(),
{
    if s.len() == 0 {
        0
    } else {
        digits_value(s.drop_last()) * 10 + (s.last() as u32 - '0' as u32)
    }
}

proof fn lemma_decimal_value(n: nat)
    ensures
        digits_value(decimal(n)) == n,
    decreases n,
{
    if n < 10 {
        assert(decimal(n).drop_last() =~= Seq::<char>::empty());
        assert(decimal(n).last() == digit(n));
        assert(digits_value(Seq::<char>::empty()) == 0);
    } else {
        lemma_decimal_value(n / 10);
        assert(decimal(n).drop_last() =~= decimal(n / 10));
        assert(decimal(n).last() == digit(n % 10));
    }
}

/// Messages whose frame ids differ are decoded by arms with different patterns, and messages of
/// the same frame id by arms with the same.
pub proof fn law_arms_are_told_apart_by_frame_id(a: MessageId, b: MessageId)
    ensures
        code().number_u32(frame_id(a)) == code().number_u32(frame_id(b)) <==> frame_id(a)
            == frame_id(b),
{
    let x = frame_id(a);
    let y = frame_id(b);
    let p = code().number_u32(x);
    let q = code().number_u32(y);
    if p == q {
        let suffix = "u32"@;
        assert(p[0] == q[0]);
        assert(decimal(x as nat) + suffix == decimal(y as nat) + suffix);
        assert((decimal(x as nat) + suffix).take(decimal(x as nat).len() as int) =~= decimal(
            x as nat,
        ));
        assert((decimal(x as nat) + suffix).len() == (decimal(y as nat) + suffix).len());
        assert((decimal(y as nat) + suffix).take(decimal(y as nat).len() as int) =~= decimal(
            y as nat,
        ));
        lemma_decimal_value(x as nat);
        lemma_decimal_value(y as nat);
    }
}

/// The frame id of a message is its id without the bits that flag the kind of frame; the id of a
/// standard frame is kept whole.
pub proof fn law_frame_id_drops_flags(id: MessageId)
    ensures
        frame_id(id) < 0x2000_0000,
        id.0 < 0x2000_0000 ==> frame_id(id) == id.0,
        frame_id(MessageId(frame_id(id))) == frame_id(id),
{
    let bits = id.0;
    assert((bits & 0x1fff_ffff) < 0x2000_0000) by (bit_vector);
    assert(bits < 0x2000_0000 ==> (bits & 0x1fff_ffff) == bits) by (bit_vector);
    assert(((bits & 0x1fff_ffff) & 0x1fff_ffff) == (bits & 0x1fff_ffff)) by (bit_vector);
}

} // verus!
