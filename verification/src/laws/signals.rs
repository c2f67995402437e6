//! What the code for one signal says.
use crate::laws::bits::big_endian_position;
use crate::laws::{digits_value, law_cut_is_the_signal, lemma_decimal_value};
use crate::laws::reading::{
    alone, brace, doc, joint, name, number, paren, row1, row2, row3, row4, row5, row6, row7,
};
use crate::layout::{decoded_type_of, kept, mask, readable, signal_shift};
use crate::model::{ByteOrder, DBC, MessageId, MultiplexIndicator, Signal};
use crate::naming::{enum_name, raw_name, SignalWords};
use crate::signal::{
    binding_tokens, boolean_signal, calc_tokens, cut_tokens, enum_decoder_tokens, enum_name_tokens,
    field_tokens, field_type, payload_tokens, raw_decoder_tokens, raw_field, read_tokens,
    signal_doc, switch_cut_tokens, switched_value, type_tokens, wrapped_type, wrapped_value, Field,
};
use crate::tokens::{literal_tokens, Delim, Token};
use vstd::arithmetic::power2::pow2;
use vstd::prelude::*;

verus! {

/// A type is wrapped into `Option<..>` exactly if the signal is multiplexed.
pub proof fn law_multiplexed_types_are_optional(signal: Signal, ty: Seq<Token>)
    ensures
        signal.multiplexer_indicator is MultiplexedSignal ==> wrapped_type(signal, ty) == row2(
            name("Option"),
            alone('<'),
        ) + ty + row1(alone('>')),
        !(signal.multiplexer_indicator is MultiplexedSignal) ==> wrapped_type(signal, ty) == ty,
{
    if signal.multiplexer_indicator is MultiplexedSignal {
        assert(wrapped_type(signal, ty) =~= row2(name("Option"), alone('<')) + ty + row1(
            alone('>'),
        ));
    }
}

/// The field of a raw value is declared with the documentation of the signal, the raw name and the
/// decoded type.
pub proof fn law_field_declares_documentation_name_and_type(
    dbc: DBC,
    id: MessageId,
    signal: Signal,
    words: SignalWords,
)
    ensures
        field_tokens(raw_field(dbc, id, signal, words)) == doc(signal_doc(dbc, id, signal)) + row2(
            Token::Ident(raw_name(words.snake)),
            alone(':'),
        ) + field_type(dbc, id, signal) + row1(alone(',')),
        field_type(dbc, id, signal) == wrapped_type(
            signal,
            row1(Token::Ident(decoded_type_of(dbc, id, signal).text()@)),
        ),
        type_tokens(dbc, id, signal) == row1(
            Token::Ident(decoded_type_of(dbc, id, signal).text()@),
        ),
{
    law_any_field_declares_documentation_name_and_type(raw_field(dbc, id, signal, words));
}

/// Any field is declared with its documentation, its name and its type.
pub proof fn law_any_field_declares_documentation_name_and_type(field: Field)
    ensures
        field_tokens(field) == doc(field.doc) + row2(Token::Ident(field.name), alone(':'))
            + field.ty + row1(alone(',')),
{
    assert(field_tokens(field) =~= doc(field.doc) + row2(Token::Ident(field.name), alone(':'))
        + field.ty + row1(alone(',')));
}

/// A signal is boolean exactly if it is one bit wide and neither scaled nor moved.
pub proof fn law_boolean_signals(signal: Signal)
    ensures
        boolean_signal(signal) <==> signal.signal_size == 1 && signal.factor.one()
            && signal.offset.zero(),
{
}

/// The number that a cut expression evaluates to, where `source` stands for `payload`: the part in
/// the parentheses, shifted right if it says so, masked by the last number.
pub open spec fn cut_value(cut: Token, source: Seq<Token>, payload: u64) -> Option<u64> {
    match cut {
        Token::Group(Delim::Parenthesis, inner) => {
            let n = inner.len() as int;
            if n < 3 || inner[n - 2] != alone('&') {
                None
            } else {
                match (shifted_value(inner.take(n - 2), source, payload), inner[n - 1]) {
                    (Some(shifted), Token::Literal(text)) => Some(
                        shifted & (digits_value(text) as u64),
                    ),
                    _ => None,
                }
            }
        },
        _ => None,
    }
}

/// The number that the operand of a mask evaluates to: the source itself, or the source shifted.
pub open spec fn shifted_value(operand: Seq<Token>, source: Seq<Token>, payload: u64) -> Option<
    u64,
> {
    if operand == source {
        Some(payload)
    } else if operand.len() == 1 {
        match operand[0] {
            Token::Group(Delim::Parenthesis, inner) => {
                let n = inner.len() as int;
                if n >= 3 && inner.take(n - 3) == source && inner[n - 3] == joint('>') && inner[n
                    - 2] == alone('>') {
                    match inner[n - 1] {
                        Token::Literal(text) => Some(payload >> (digits_value(text) as u64)),
                        _ => None,
                    }
                } else {
                    None
                }
            },
            _ => None,
        }
    } else {
        None
    }
}

/// A source of some tokens that is not itself one group.
pub open spec fn plain_source(source: Seq<Token>) -> bool {
    source.len() > 1 || (source.len() == 1 && !(source[0] is Group))
}

/// A cut expression is one group that evaluates to the payload, shifted right and masked.
pub proof fn law_cut_shifts_and_masks(source: Seq<Token>, shift: u64, mask: u64, payload: u64)
    requires
        plain_source(source),
    ensures
        cut_tokens(source, shift, mask).len() == 1,
        cut_value(cut_tokens(source, shift, mask)[0], source, payload) == Some(
            (payload >> shift) & mask,
        ),
{
    lemma_decimal_value(shift as nat);
    lemma_decimal_value(mask as nat);
    let cut = cut_tokens(source, shift, mask)[0];
    let inner = cut->Group_1;
    let n = inner.len() as int;
    assert(cut == paren(inner));
    assert(inner[n - 2] == alone('&'));
    assert(inner[n - 1] == number(mask));
    if shift == 0 {
        assert(inner.take(n - 2) =~= source);
        assert(payload >> 0u64 == payload) by (bit_vector);
    } else {
        let operand = inner.take(n - 2);
        let shifted = operand[0]->Group_1;
        assert(shifted.take(shifted.len() - 3) =~= source);
        assert(operand.len() == 1);
        assert(operand[0] == paren(shifted));
        assert(shifted[shifted.len() - 1] == number(shift));
        if operand == source {
            assert(!(source[0] is Group));
        }
    }
}

/// For a signal of fewer than 64 bits that can be read, the cut in its value expression evaluates
/// to its bits of the payload: as many as it has, from its start bit up for a little endian signal,
/// and from just below its start bit down for a big endian one.
pub proof fn law_value_is_cut_from_the_bits_of_the_signal(signal: Signal, payload: u64)
    requires
        readable(signal),
        signal.signal_size < 64,
    ensures
        ({
            let source = row1(name("frame_payload"));
            let cut = cut_tokens(
                source,
                signal_shift(signal) as u64,
                mask(signal.signal_size as nat) as u64,
            );
            let lowest = match signal.byte_order {
                ByteOrder::LittleEndian => signal.start_bit as int,
                ByteOrder::BigEndian => big_endian_position(signal.start_bit as int)
                    - signal.signal_size,
            };
            &&& cut.len() == 1
            &&& cut_value(cut[0], source, payload) matches Some(bits) && bits == (payload as nat
                / pow2(lowest as nat)) % pow2(signal.signal_size as nat)
        }),
{
    let source = row1(name("frame_payload"));
    law_cut_shifts_and_masks(
        source,
        signal_shift(signal) as u64,
        mask(signal.signal_size as nat) as u64,
        payload,
    );
    law_cut_is_the_signal(payload, signal_shift(signal) as u64, signal.signal_size);
}

/// What a number written as source text stands for, given what texts without sign stand for.
pub open spec fn signed_meaning(text: Seq<char>, meaning: spec_fn(Seq<char>) -> int) -> int {
    if text.len() > 0 && text[0] == '-' {
        -meaning(text.skip(1))
    } else {
        meaning(text)
    }
}

/// The number at the start of the tokens, and how many tokens it takes.
pub open spec fn operand(tokens: Seq<Token>, meaning: spec_fn(Seq<char>) -> int) -> Option<
    (int, int),
> {
    if tokens.len() >= 1 && tokens[0] is Literal {
        Some((meaning(tokens[0]->Literal_0), 1))
    } else if tokens.len() >= 2 && tokens[0] == alone('-') && tokens[1] is Literal {
        Some((-meaning(tokens[1]->Literal_0), 2))
    } else {
        None
    }
}

/// What a value becomes by the operations in the tokens: products first, then sums.
pub open spec fn applied(
    value: int,
    summing: bool,
    tokens: Seq<Token>,
    meaning: spec_fn(Seq<char>) -> int,
) -> Option<int>
    decreases tokens.len(),
{
    if tokens.len() == 0 {
        Some(value)
    } else {
        match operand(tokens.skip(1), meaning) {
            Some((n, used)) => if tokens[0] == alone('*') && !summing {
                applied(value * n, false, tokens.skip(1 + used), meaning)
            } else if tokens[0] == alone('+') {
                applied(value + n, true, tokens.skip(1 + used), meaning)
            } else {
                None
            },
            None => None,
        }
    }
}

proof fn lemma_literal_operand(
    text: Seq<char>,
    after: Seq<Token>,
    meaning: spec_fn(Seq<char>) -> int,
)
    ensures
        operand(literal_tokens(text) + after, meaning) == Some(
            (signed_meaning(text, meaning), literal_tokens(text).len() as int),
        ),
        (literal_tokens(text) + after).skip(literal_tokens(text).len() as int) == after,
{
    let tokens = literal_tokens(text) + after;
    assert(tokens[0] == literal_tokens(text)[0]);
    assert(tokens.skip(literal_tokens(text).len() as int) =~= after);
}

/// The tokens `op` and a number, or none where the operation changes nothing.
pub open spec fn operation(needed: bool, op: char, text: Seq<char>) -> Seq<Token> {
    if needed {
        row1(alone(op)) + literal_tokens(text)
    } else {
        Seq::empty()
    }
}

/// The value of a signal that is not boolean is its cut, cast to its type, then times its factor
/// unless that is one, then plus its offset unless that is zero. The value of a boolean signal is
/// whether its cut equals one.
pub proof fn law_value_is_cast_scaled_and_moved(
    signal: Signal,
    ty: Seq<Token>,
    shift: u64,
    mask: u64,
)
    ensures
        ({
            let value = calc_tokens(signal, ty, shift, mask);
            let cut = cut_tokens(row1(name("frame_payload")), shift, mask);
            &&& boolean_signal(signal) ==> value == row4(
                paren(cut),
                joint('='),
                alone('='),
                number(1),
            )
            &&& !boolean_signal(signal) ==> value == cut + row1(name("as")) + ty + operation(
                !signal.factor.one(),
                '*',
                signal.factor.literal@,
            ) + operation(!signal.offset.zero(), '+', signal.offset.literal@)
        }),
{
    let value = calc_tokens(signal, ty, shift, mask);
    let cut = cut_tokens(row1(name("frame_payload")), shift, mask);
    assert(row1(name("frame_payload")) =~= crate::tokens::code().push(name("frame_payload")));
    if !boolean_signal(signal) {
        assert(value =~= cut + row1(name("as")) + ty + operation(
            !signal.factor.one(),
            '*',
            signal.factor.literal@,
        ) + operation(!signal.offset.zero(), '+', signal.offset.literal@));
    } else {
        assert(value =~= row4(paren(cut), joint('='), alone('='), number(1)));
    }
}

/// Evaluated on a raw value, the operations after the cast give the raw value times the factor plus
/// the offset of the signal, whatever the texts of numbers mean; a factor of one and an offset of
/// zero are left out.
pub proof fn law_value_is_raw_times_factor_plus_offset(
    signal: Signal,
    ty: Seq<Token>,
    shift: u64,
    mask: u64,
    raw: int,
    meaning: spec_fn(Seq<char>) -> int,
)
    requires
        !boolean_signal(signal),
    ensures
        ({
            let value = calc_tokens(signal, ty, shift, mask);
            let cut = cut_tokens(row1(name("frame_payload")), shift, mask);
            let factor = if signal.factor.one() {
                1
            } else {
                signed_meaning(signal.factor.literal@, meaning)
            };
            let offset = if signal.offset.zero() {
                0
            } else {
                signed_meaning(signal.offset.literal@, meaning)
            };
            let operations = value.skip((cut.len() + 1 + ty.len()) as int);
            applied(raw, false, operations, meaning) == Some(raw * factor + offset)
        }),
{
    let value = calc_tokens(signal, ty, shift, mask);
    let cut = cut_tokens(row1(name("frame_payload")), shift, mask);
    law_value_is_cast_scaled_and_moved(signal, ty, shift, mask);
    let scale = operation(!signal.factor.one(), '*', signal.factor.literal@);
    let moved = operation(!signal.offset.zero(), '+', signal.offset.literal@);
    let operations = value.skip((cut.len() + 1 + ty.len()) as int);
    assert(operations =~= scale + moved);
    let none = Seq::<Token>::empty();
    let offset_text = signal.offset.literal@;
    let factor_text = signal.factor.literal@;
    let scaled = if signal.factor.one() {
        raw
    } else {
        raw * signed_meaning(factor_text, meaning)
    };
    assert(raw * 1 == raw);
    // The sum comes last.
    assert forall|summing: bool| #[trigger]
        applied(scaled, summing, moved, meaning) == Some(
            scaled + if signal.offset.zero() {
                0
            } else {
                signed_meaning(offset_text, meaning)
            },
        ) by {
        if !signal.offset.zero() {
            lemma_literal_operand(offset_text, none, meaning);
            assert(literal_tokens(offset_text) + none =~= literal_tokens(offset_text));
            assert(moved.skip(1) =~= literal_tokens(offset_text));
            let used = literal_tokens(offset_text).len() as int;
            assert(moved.skip(1 + used) =~= none);
            let sum = scaled + signed_meaning(offset_text, meaning);
            assert(applied(sum, true, none, meaning) == Some(sum));
        }
    }
    if signal.factor.one() {
        assert(operations =~= moved);
        assert(applied(scaled, false, moved, meaning) is Some);
    } else {
        lemma_literal_operand(factor_text, moved, meaning);
        assert(operations.skip(1) =~= literal_tokens(factor_text) + moved);
        let used = literal_tokens(factor_text).len() as int;
        assert(operations.skip(1 + used) =~= moved);
        assert(applied(scaled, false, moved, meaning) is Some);
    }
}

/// The payload is read as one number of 64 bits, in the byte order of the signal.
pub proof fn law_payload_is_read_in_byte_order(byte_order: ByteOrder)
    ensures
        ({
            let read = row5(
                if byte_order is LittleEndian {
                    name("LE")
                } else {
                    name("BE")
                },
                joint(':'),
                alone(':'),
                name("read_u64"),
                paren(row4(name("frame"), alone('.'), name("data"), paren(Seq::empty()))),
            );
            &&& payload_tokens(byte_order) == read
            &&& read_tokens(byte_order) == row5(
                name("let"),
                name("frame_payload"),
                alone(':'),
                name("u64"),
                alone('='),
            ) + read + row1(alone(';'))
        }),
{
    let read = payload_tokens(byte_order);
    assert(read =~= row5(
        if byte_order is LittleEndian {
            name("LE")
        } else {
            name("BE")
        },
        joint(':'),
        alone(':'),
        name("read_u64"),
        paren(row4(name("frame"), alone('.'), name("data"), paren(Seq::empty()))),
    ));
    assert(read_tokens(byte_order) =~= row5(
        name("let"),
        name("frame_payload"),
        alone(':'),
        name("u64"),
        alone('='),
    ) + read + row1(alone(';')));
}

/// A name is bound to a value with its type by a `let` statement.
pub proof fn law_binding_is_a_let_statement(
    field_name: Seq<char>,
    ty: Seq<Token>,
    value: Seq<Token>,
)
    ensures
        binding_tokens(field_name, ty, value) == row3(
            name("let"),
            Token::Ident(field_name),
            alone(':'),
        ) + ty + row1(alone('=')) + value + row1(alone(';')),
{
    assert(binding_tokens(field_name, ty, value) =~= row3(
        name("let"),
        Token::Ident(field_name),
        alone(':'),
    ) + ty + row1(alone('=')) + value + row1(alone(';')));
}

/// The test of a switch compares, with the value of the multiplex indicator, what is cut from the
/// payload as the switch lies in it: the bits of the switch, read in the byte order of the switch.
pub proof fn law_switch_is_compared_with_the_indicator(
    switch: Signal,
    switch_value: u64,
    value: Seq<Token>,
    payload: u64,
)
    requires
        readable(switch),
        switch.signal_size < 64,
    ensures
        ({
            let test = switched_value(switch, switch_value, value);
            let lowest = match switch.byte_order {
                ByteOrder::LittleEndian => switch.start_bit as int,
                ByteOrder::BigEndian => big_endian_position(switch.start_bit as int)
                    - switch.signal_size,
            };
            &&& test.len() == 8
            &&& test[0] == name("if")
            &&& cut_value(test[1], payload_tokens(switch.byte_order), payload) matches Some(bits)
                && bits == (payload as nat / pow2(lowest as nat)) % pow2(
                switch.signal_size as nat,
            )
            &&& test.skip(2) == row6(
                joint('='),
                alone('='),
                number(switch_value),
                brace(row2(name("Some"), paren(value))),
                name("else"),
                brace(row1(name("None"))),
            )
        }),
{
    let test = switched_value(switch, switch_value, value);
    let shift = signal_shift(switch) as u64;
    let bits = mask(switch.signal_size as nat) as u64;
    law_payload_is_read_in_byte_order(switch.byte_order);
    law_cut_shifts_and_masks(payload_tokens(switch.byte_order), shift, bits, payload);
    law_cut_is_the_signal(payload, shift, switch.signal_size);
    assert(test[1] == switch_cut_tokens(switch)[0]);
    assert(test.skip(2) =~= row6(
        joint('='),
        alone('='),
        number(switch_value),
        brace(row2(name("Some"), paren(value))),
        name("else"),
        brace(row1(name("None"))),
    ));
}

/// The switch is cut from the payload by its own shift and mask, the payload being read in its own
/// byte order; nothing is shifted where the shift is zero.
pub proof fn law_switch_is_cut_by_its_own_place(switch: Signal)
    ensures
        switch_cut_tokens(switch) == cut_tokens(
            payload_tokens(switch.byte_order),
            signal_shift(switch) as u64,
            mask(switch.signal_size as nat) as u64,
        ),
{
}

/// The operand of a mask is shifted, in parentheses, exactly if the shift is not zero.
pub proof fn law_cut_leaves_out_a_shift_by_zero(source: Seq<Token>, shift: u64, mask: u64)
    ensures
        ({
            let operand = if shift == 0 {
                source
            } else {
                row1(paren(source + row3(joint('>'), alone('>'), number(shift))))
            };
            cut_tokens(source, shift, mask) == row1(
                paren(operand + row2(alone('&'), number(mask))),
            )
        }),
{
    let shifted = source + row3(joint('>'), alone('>'), number(shift));
    assert(shifted =~= source.push(joint('>')).push(alone('>')).push(number(shift)));
    let operand = if shift == 0 {
        source
    } else {
        row1(paren(shifted))
    };
    assert(operand + row2(alone('&'), number(mask)) =~= operand.push(alone('&')).push(
        number(mask),
    ));
}

/// A value is tested by the switch exactly if the signal is multiplexed; without a switch that can
/// be read, the value of a multiplexed signal is absent.
pub proof fn law_only_multiplexed_values_are_tested(
    signal: Signal,
    switch: Option<Signal>,
    value: Seq<Token>,
)
    ensures
        !(signal.multiplexer_indicator is MultiplexedSignal) ==> wrapped_value(
            signal,
            switch,
            value,
        ) == value,
        signal.multiplexer_indicator matches MultiplexIndicator::MultiplexedSignal(indicator) ==> {
            &&& switch is Some && readable(switch->0) ==> wrapped_value(
                signal,
                switch,
                value,
            ) == switched_value(switch->0, indicator, value)
            &&& !(switch is Some && readable(switch->0)) ==> wrapped_value(signal, switch, value)
                == row1(name("None"))
        },
{
    assert(crate::tokens::code().push(name("None")) =~= row1(name("None")));
}

/// The code that decodes a signal reads the payload and binds the value of the signal, tested by
/// the switch of its message, to its raw name; there is no code for a signal that is not kept.
pub proof fn law_signal_is_read_and_bound(
    dbc: DBC,
    id: MessageId,
    signal: Signal,
    words: SignalWords,
)
    ensures
        !kept(signal) ==> raw_decoder_tokens(dbc, id, signal, words).len() == 0,
        kept(signal) ==> raw_decoder_tokens(dbc, id, signal, words) == read_tokens(
            signal.byte_order,
        ) + binding_tokens(
            raw_name(words.snake),
            field_type(dbc, id, signal),
            wrapped_value(
                signal,
                dbc.switch_of(id),
                calc_tokens(
                    signal,
                    row1(Token::Ident(decoded_type_of(dbc, id, signal).text()@)),
                    signal_shift(signal) as u64,
                    mask(signal.signal_size as nat) as u64,
                ),
            ),
        ),
{
    assert(type_tokens(dbc, id, signal) =~= row1(
        Token::Ident(decoded_type_of(dbc, id, signal).text()@),
    ));
}

/// The described value of a signal is bound to its snake case name: converted from its raw value,
/// or left open where the signal is multiplexed.
pub proof fn law_described_value_is_converted_from_the_raw_one(
    signal: Signal,
    enum_type: Seq<Token>,
    words: SignalWords,
)
    ensures
        signal.multiplexer_indicator is MultiplexedSignal ==> enum_decoder_tokens(
            signal,
            enum_type,
            words,
        ) == row7(
            name("let"),
            Token::Ident(words.snake),
            alone('='),
            name("todo"),
            alone('!'),
            paren(Seq::empty()),
            alone(';'),
        ),
        !(signal.multiplexer_indicator is MultiplexedSignal) ==> enum_decoder_tokens(
            signal,
            enum_type,
            words,
        ) == row3(name("let"), Token::Ident(words.snake), alone('=')) + enum_type + row5(
            joint(':'),
            alone(':'),
            name("from"),
            paren(row1(Token::Ident(raw_name(words.snake)))),
            alone(';'),
        ),
{
    let tokens = enum_decoder_tokens(signal, enum_type, words);
    if signal.multiplexer_indicator is MultiplexedSignal {
        assert(tokens =~= row7(
            name("let"),
            Token::Ident(words.snake),
            alone('='),
            name("todo"),
            alone('!'),
            paren(Seq::empty()),
            alone(';'),
        ));
    } else {
        assert(tokens =~= row3(name("let"), Token::Ident(words.snake), alone('=')) + enum_type
            + row5(
            joint(':'),
            alone(':'),
            name("from"),
            paren(row1(Token::Ident(raw_name(words.snake)))),
            alone(';'),
        ));
    }
}

/// The type of an enum is its name.
pub proof fn law_enum_type_is_its_name(camel: Seq<char>, id: MessageId)
    ensures
        enum_name_tokens(camel, id) == row1(Token::Ident(enum_name(camel, id))),
{
}

} // verus!
