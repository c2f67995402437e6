//! Tokens, as the laws write them down.
use crate::tokens::{decimal, string_literal, Delim, Gap, Token};
use vstd::prelude::*;

verus! {

/// An identifier or keyword.
pub open spec fn name(text: &str) -> Token {
    Token::Ident(text@)
}

/// An operator of one character, or the last character of a longer one.
pub open spec fn alone(c: char) -> Token {
    Token::Punct(c, Gap::Alone)
}

/// A character of an operator that goes on.
pub open spec fn joint(c: char) -> Token {
    Token::Punct(c, Gap::Joint)
}

/// One token.
pub open spec fn row1(a: Token) -> Seq<Token> {
    Seq::empty().push(a)
}

/// Two tokens in a row.
pub open spec fn row2(a: Token, b: Token) -> Seq<Token> {
    row1(a).push(b)
}

/// Three tokens in a row.
pub open spec fn row3(a: Token, b: Token, c: Token) -> Seq<Token> {
    row2(a, b).push(c)
}

/// Four tokens in a row.
pub open spec fn row4(a: Token, b: Token, c: Token, d: Token) -> Seq<Token> {
    row3(a, b, c).push(d)
}

/// Five tokens in a row.
pub open spec fn row5(a: Token, b: Token, c: Token, d: Token, e: Token) -> Seq<Token> {
    row4(a, b, c, d).push(e)
}

/// Six tokens in a row.
pub open spec fn row6(a: Token, b: Token, c: Token, d: Token, e: Token, f: Token) -> Seq<Token> {
    row5(a, b, c, d, e).push(f)
}

/// Seven tokens in a row.
pub open spec fn row7(
    a: Token,
    b: Token,
    c: Token,
    d: Token,
    e: Token,
    f: Token,
    g: Token,
) -> Seq<Token> {
    row6(a, b, c, d, e, f).push(g)
}

/// Eight tokens in a row.
pub open spec fn row8(
    a: Token,
    b: Token,
    c: Token,
    d: Token,
    e: Token,
    f: Token,
    g: Token,
    h: Token,
) -> Seq<Token> {
    row7(a, b, c, d, e, f, g).push(h)
}

/// Nine tokens in a row.
pub open spec fn row9(
    a: Token,
    b: Token,
    c: Token,
    d: Token,
    e: Token,
    f: Token,
    g: Token,
    h: Token,
    i: Token,
) -> Seq<Token> {
    row8(a, b, c, d, e, f, g, h).push(i)
}

/// Ten tokens in a row.
pub open spec fn row10(
    a: Token,
    b: Token,
    c: Token,
    d: Token,
    e: Token,
    f: Token,
    g: Token,
    h: Token,
    i: Token,
    j: Token,
) -> Seq<Token> {
    row9(a, b, c, d, e, f, g, h, i).push(j)
}

/// Tokens in parentheses.
pub open spec fn paren(inner: Seq<Token>) -> Token {
    Token::Group(Delim::Parenthesis, inner)
}

/// Tokens in braces.
pub open spec fn brace(inner: Seq<Token>) -> Token {
    Token::Group(Delim::Brace, inner)
}

/// Tokens in square brackets.
pub open spec fn bracket(inner: Seq<Token>) -> Token {
    Token::Group(Delim::Bracket, inner)
}

/// A number without suffix.
pub open spec fn number(n: u64) -> Token {
    Token::Literal(decimal(n as nat))
}

/// A number with the suffix `u32`.
pub open spec fn number_u32(n: u32) -> Token {
    Token::Literal(decimal(n as nat) + seq!['u', '3', '2'])
}

/// The attribute `#[doc = "..."]`.
pub open spec fn doc(text: Seq<char>) -> Seq<Token> {
    row2(
        alone('#'),
        bracket(row3(name("doc"), alone('='), Token::Literal(string_literal(text)))),
    )
}

/// The attribute `#[allow(dead_code)]`.
pub open spec fn allow_dead_code() -> Seq<Token> {
    row2(alone('#'), bracket(row2(name("allow"), paren(row1(name("dead_code"))))))
}

} // verus!
