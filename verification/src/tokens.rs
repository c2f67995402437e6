//! What a token stream holds, and a builder that fills one.
use crate::ident::{ascii_digit, ident_text};
use proc_macro2::{Group, Ident, Literal, Punct, Span, TokenStream};
use quote::{ToTokens, TokenStreamExt};
use std::str::FromStr;
use vstd::prelude::*;

verus! {

/// The token stream of `proc_macro2`, known here only through `stream_tokens`.
#[verifier::external_type_specification]
#[verifier::external_body]
pub struct ExTokenStream(proc_macro2::TokenStream);

/// The error type of the generating functions. None of them fails with it.
#[verifier::external_type_specification]
#[verifier::external_body]
pub struct ExFmtError(std::fmt::Error);

/// The bracket pair round a group of tokens.
#[derive(Clone, Copy, Debug, PartialEq, Eq, Structural)]
pub enum Delim {
    Parenthesis,
    Brace,
    Bracket,
}

/// Whether a punctuation character is read as one operator with the next one.
#[derive(Clone, Copy, Debug, PartialEq, Eq, Structural)]
pub enum Gap {
    Alone,
    Joint,
}

/// A token of Rust source, without its source location.
#[verifier::ext_equal]
pub enum Token {
    Ident(Seq<char>),
    Punct(char, Gap),
    Literal(Seq<char>),
    Group(Delim, Seq<Token>),
}

/// The tokens that a stream holds, in order.
pub uninterp spec fn stream_tokens(stream: TokenStream) -> Seq<Token>;

/// The source text of the string literal whose value is the given text.
pub uninterp spec fn string_literal(text: Seq<char>) -> Seq<char>;

/// The punctuation characters of the language.
pub open spec fn punct_char(c: char) -> bool {
    ||| c == '!' || c == '#' || c == '$' || c == '%' || c == '&' || c == '\'' || c == '*'
    ||| c == '+' || c == ',' || c == '-' || c == '.' || c == '/' || c == ':' || c == ';'
    ||| c == '<' || c == '=' || c == '>' || c == '?' || c == '@' || c == '^' || c == '|'
    ||| c == '~'
}

/// The decimal digits of a number, most significant first.
pub open spec fn decimal(n: nat) -> Seq<char>
    decreases n,
{
    if n < 10 {
        seq![digit(n)]
    } else {
        decimal(n / 10).push(digit(n % 10))
    }
}

/// The digit character of a number below ten.
pub open spec fn digit(n: nat) -> char {
    ('0' as u32 + n) as char
}

/// Digits, a point, digits.
pub open spec fn fraction_text(s: Seq<char>) -> bool {
    exists|point: int|
        0 < point < s.len() - 1 && #[trigger] s[point] == '.' && forall|i: int|
            0 <= i < s.len() && i != point ==> ascii_digit(#[trigger] s[i])
}

/// A text with its leading minus sign, if any, taken off.
pub open spec fn magnitude(s: Seq<char>) -> Seq<char> {
    if s.len() > 0 && s[0] == '-' {
        s.skip(1)
    } else {
        s
    }
}

/// A real number in decimal notation without exponent or suffix: `0.5`, `-40.0`.
pub open spec fn real_text(s: Seq<char>) -> bool {
    fraction_text(magnitude(s))
}

/// A raw string literal without hashes whose value holds neither a quote nor a carriage return.
pub open spec fn raw_string_text(s: Seq<char>) -> bool {
    &&& s.len() >= 3
    &&& s[0] == 'r' && s[1] == '"' && s[s.len() - 1] == '"'
    &&& forall|i: int| 2 <= i < s.len() - 1 ==> #[trigger] s[i] != '"' && s[i] != '\r'
}

/// The tokens of a literal text: a leading minus sign is a token of its own.
pub open spec fn literal_tokens(s: Seq<char>) -> Seq<Token> {
    if s.len() > 0 && s[0] == '-' {
        seq![Token::Punct('-', Gap::Alone), Token::Literal(s.skip(1))]
    } else {
        seq![Token::Literal(s)]
    }
}

/// `TokenStream::new`: a stream without tokens.
#[verifier::external_body]
fn new_stream() -> (r: TokenStream)
    ensures
        stream_tokens(r) == Seq::<Token>::empty(),
{
    TokenStream::new()
}

/// `TokenStreamExt::append` of an `Ident::new`, which panics on a text that is no identifier:
/// the identifier becomes the last token.
#[verifier::external_body]
fn push_ident(stream: &mut TokenStream, text: &str)
    requires
        ident_text(text@),
    ensures
        stream_tokens(*final(stream)) == stream_tokens(*old(stream)).push(Token::Ident(text@)),
{
    stream.append(Ident::new(text, Span::call_site()));
}

/// `TokenStreamExt::append` of a `Punct::new`, which panics on a character that is no
/// punctuation: the character becomes the last token.
#[verifier::external_body]
fn push_punct(stream: &mut TokenStream, c: char, gap: Gap)
    requires
        punct_char(c),
    ensures
        stream_tokens(*final(stream)) == stream_tokens(*old(stream)).push(Token::Punct(c, gap)),
{
    let spacing = match gap {
        Gap::Alone => proc_macro2::Spacing::Alone,
        Gap::Joint => proc_macro2::Spacing::Joint,
    };
    stream.append(Punct::new(c, spacing));
}

/// `TokenStreamExt::append` of a `Group::new`: a group of the tokens of `inner` becomes the last
/// token.
#[verifier::external_body]
fn push_group(stream: &mut TokenStream, delim: Delim, inner: TokenStream)
    ensures
        stream_tokens(*final(stream)) == stream_tokens(*old(stream)).push(
            Token::Group(delim, stream_tokens(inner)),
        ),
{
    let delimiter = match delim {
        Delim::Parenthesis => proc_macro2::Delimiter::Parenthesis,
        Delim::Brace => proc_macro2::Delimiter::Brace,
        Delim::Bracket => proc_macro2::Delimiter::Bracket,
    };
    stream.append(Group::new(delimiter, inner));
}

/// `TokenStreamExt::append` of a `Literal::u64_unsuffixed`: the number in decimal becomes the
/// last token.
#[verifier::external_body]
fn push_u64(stream: &mut TokenStream, n: u64)
    ensures
        stream_tokens(*final(stream)) == stream_tokens(*old(stream)).push(
            Token::Literal(decimal(n as nat)),
        ),
{
    stream.append(Literal::u64_unsuffixed(n));
}

/// `<u32 as ToTokens>::to_tokens`: the number in decimal, with its type as suffix, becomes the
/// last token.
#[verifier::external_body]
fn push_u32(stream: &mut TokenStream, n: u32)
    ensures
        stream_tokens(*final(stream)) == stream_tokens(*old(stream)).push(
            Token::Literal(decimal(n as nat) + "u32"@),
        ),
{
    n.to_tokens(stream);
}

/// `<str as ToTokens>::to_tokens`: one string literal becomes the last token. How it escapes the
/// text is left to the name `string_literal`.
#[verifier::external_body]
fn push_string(stream: &mut TokenStream, text: &str)
    ensures
        stream_tokens(*final(stream)) == stream_tokens(*old(stream)).push(
            Token::Literal(string_literal(text@)),
        ),
{
    text.to_tokens(stream);
}

/// `TokenStreamExt::append` of a `Literal::from_str`, which takes the text as it stands where it
/// is one literal: the literal is appended, its minus sign, if any, as a token before it.
#[verifier::external_body]
fn push_literal(stream: &mut TokenStream, text: &str)
    requires
        real_text(text@) || raw_string_text(text@),
    ensures
        stream_tokens(*final(stream)) == stream_tokens(*old(stream)) + literal_tokens(text@),
{
    stream.append(Literal::from_str(text).unwrap());
}

/// `<TokenStream as ToTokens>::to_tokens`: the tokens of `other` follow those of `stream`.
#[verifier::external_body]
fn push_stream(stream: &mut TokenStream, other: &TokenStream)
    ensures
        stream_tokens(*final(stream)) == stream_tokens(*old(stream)) + stream_tokens(*other),
{
    other.to_tokens(stream);
}

/// Tokens written one after another.
pub trait Writing: Sized {
    /// A fixed identifier or keyword follows.
    spec fn word(self, text: &str) -> Self;

    /// An identifier follows.
    spec fn ident(self, text: Seq<char>) -> Self;

    /// An operator of one character follows.
    spec fn op(self, c: char) -> Self;

    /// An operator of two characters follows.
    spec fn op2(self, a: char, b: char) -> Self;

    /// A literal follows, in the tokens of its text.
    spec fn literal(self, text: Seq<char>) -> Self;

    /// An unsuffixed integer follows.
    spec fn number(self, n: u64) -> Self;

    /// An integer with the suffix `u32` follows.
    spec fn number_u32(self, n: u32) -> Self;

    /// A string literal follows.
    spec fn string(self, text: Seq<char>) -> Self;

    /// A group in parentheses follows.
    spec fn parens(self, inner: Seq<Token>) -> Self;

    /// A group in braces follows.
    spec fn braces(self, inner: Seq<Token>) -> Self;

    /// A group in square brackets follows.
    spec fn brackets(self, inner: Seq<Token>) -> Self;

    /// The given tokens follow.
    spec fn splice(self, tokens: Seq<Token>) -> Self;
}

impl Writing for Seq<Token> {
    open spec fn word(self, text: &str) -> Self {
        self.push(Token::Ident(text@))
    }

    open spec fn ident(self, text: Seq<char>) -> Self {
        self.push(Token::Ident(text))
    }

    open spec fn op(self, c: char) -> Self {
        self.push(Token::Punct(c, Gap::Alone))
    }

    open spec fn op2(self, a: char, b: char) -> Self {
        self.push(Token::Punct(a, Gap::Joint)).push(Token::Punct(b, Gap::Alone))
    }

    open spec fn literal(self, text: Seq<char>) -> Self {
        self + literal_tokens(text)
    }

    open spec fn number(self, n: u64) -> Self {
        self.push(Token::Literal(decimal(n as nat)))
    }

    open spec fn number_u32(self, n: u32) -> Self {
        self.push(Token::Literal(decimal(n as nat) + "u32"@))
    }

    open spec fn string(self, text: Seq<char>) -> Self {
        self.push(Token::Literal(string_literal(text)))
    }

    open spec fn parens(self, inner: Seq<Token>) -> Self {
        self.push(Token::Group(Delim::Parenthesis, inner))
    }

    open spec fn braces(self, inner: Seq<Token>) -> Self {
        self.push(Token::Group(Delim::Brace, inner))
    }

    open spec fn brackets(self, inner: Seq<Token>) -> Self {
        self.push(Token::Group(Delim::Bracket, inner))
    }

    open spec fn splice(self, tokens: Seq<Token>) -> Self {
        self + tokens
    }
}

/// No tokens.
pub open spec fn code() -> Seq<Token> {
    Seq::empty()
}

/// A token stream in the making.
pub struct Code {
    pub stream: TokenStream,
}

impl View for Code {
    type V = Seq<Token>;

    open spec fn view(&self) -> Seq<Token> {
        stream_tokens(self.stream)
    }
}

impl Code {
    /// Starts without tokens.
    pub fn new() -> (r: Code)
        ensures
            r@ == code(),
    {
        Code { stream: new_stream() }
    }

    /// Writes a fixed identifier or keyword.
    pub fn word(self, text: &str) -> (r: Code)
        requires
            ident_text(text@),
        ensures
            r@ == self@.word(text),
    {
        let mut stream = self.stream;
        push_ident(&mut stream, text);
        Code { stream }
    }

    /// Writes an identifier.
    pub fn ident(self, text: &str) -> (r: Code)
        requires
            ident_text(text@),
        ensures
            r@ == self@.ident(text@),
    {
        let mut stream = self.stream;
        push_ident(&mut stream, text);
        Code { stream }
    }

    /// Writes an operator of one character.
    pub fn op(self, c: char) -> (r: Code)
        requires
            punct_char(c),
        ensures
            r@ == self@.op(c),
    {
        let mut stream = self.stream;
        push_punct(&mut stream, c, Gap::Alone);
        Code { stream }
    }

    /// Writes an operator of two characters.
    pub fn op2(self, a: char, b: char) -> (r: Code)
        requires
            punct_char(a),
            punct_char(b),
        ensures
            r@ == self@.op2(a, b),
    {
        let mut stream = self.stream;
        push_punct(&mut stream, a, Gap::Joint);
        push_punct(&mut stream, b, Gap::Alone);
        Code { stream }
    }

    /// Writes a literal.
    pub fn literal(self, text: &str) -> (r: Code)
        requires
            real_text(text@) || raw_string_text(text@),
        ensures
            r@ == self@.literal(text@),
    {
        let mut stream = self.stream;
        push_literal(&mut stream, text);
        Code { stream }
    }

    /// Writes an unsuffixed integer.
    pub fn number(self, n: u64) -> (r: Code)
        ensures
            r@ == self@.number(n),
    {
        let mut stream = self.stream;
        push_u64(&mut stream, n);
        Code { stream }
    }

    /// Writes an integer with the suffix `u32`.
    pub fn number_u32(self, n: u32) -> (r: Code)
        ensures
            r@ == self@.number_u32(n),
    {
        let mut stream = self.stream;
        push_u32(&mut stream, n);
        Code { stream }
    }

    /// Writes a string literal.
    pub fn string(self, text: &str) -> (r: Code)
        ensures
            r@ == self@.string(text@),
    {
        let mut stream = self.stream;
        push_string(&mut stream, text);
        Code { stream }
    }

    /// Writes a group in parentheses.
    pub fn parens(self, inner: Code) -> (r: Code)
        ensures
            r@ == self@.parens(inner@),
    {
        let mut stream = self.stream;
        push_group(&mut stream, Delim::Parenthesis, inner.stream);
        Code { stream }
    }

    /// Writes a group in braces.
    pub fn braces(self, inner: Code) -> (r: Code)
        ensures
            r@ == self@.braces(inner@),
    {
        let mut stream = self.stream;
        push_group(&mut stream, Delim::Brace, inner.stream);
        Code { stream }
    }

    /// Writes a group in square brackets.
    pub fn brackets(self, inner: Code) -> (r: Code)
        ensures
            r@ == self@.brackets(inner@),
    {
        let mut stream = self.stream;
        push_group(&mut stream, Delim::Bracket, inner.stream);
        Code { stream }
    }

    /// Writes the given tokens.
    pub fn splice(self, tokens: &TokenStream) -> (r: Code)
        ensures
            r@ == self@.splice(stream_tokens(*tokens)),
    {
        let mut stream = self.stream;
        push_stream(&mut stream, tokens);
        Code { stream }
    }
}

/// An attribute with one word in parentheses.
pub open spec fn attribute_tokens(name: &str, argument: &str) -> Seq<Token> {
    code().op('#').brackets(code().word(name).parens(code().word(argument)))
}

/// Writes an attribute with one word in parentheses.
pub fn attribute(name: &str, argument: &str) -> (r: Code)
    requires
        ident_text(name@),
        ident_text(argument@),
    ensures
        r@ == attribute_tokens(name, argument),
{
    Code::new().op('#').brackets(Code::new().word(name).parens(Code::new().word(argument)))
}

} // verus!
