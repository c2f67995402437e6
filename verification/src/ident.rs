//! Which texts are Rust identifiers, and how free text becomes a type name.
use vstd::prelude::*;

verus! {

/// Character that is prefixed before type names that are
/// not starting with an alphabetic char.
pub const PREFIX_CHAR: char = 'X';

/// Character that is used to replace invalid characters
/// in type names.
pub const REPLACEMENT_CHAR: char = 'X';

pub open spec fn ascii_letter(c: char) -> bool {
    ('a' <= c && c <= 'z') || ('A' <= c && c <= 'Z')
}

pub open spec fn ascii_digit(c: char) -> bool {
    '0' <= c && c <= '9'
}

pub open spec fn beyond_ascii(c: char) -> bool {
    c as u32 >= 128
}

/// Whether a character beyond ASCII has the Unicode property `XID_Start`.
pub uninterp spec fn xid_start(c: char) -> bool;

/// Whether a character beyond ASCII has the Unicode property `XID_Continue`.
pub uninterp spec fn xid_continue(c: char) -> bool;

/// Whether a character beyond ASCII has the Unicode property `Alphabetic`.
pub uninterp spec fn alphabetic(c: char) -> bool;

/// `unicode_ident::is_xid_start`: among the ASCII characters exactly the letters have the
/// property; beyond ASCII the answer is a fixed table look-up.
#[verifier::external_body]
fn is_xid_start(c: char) -> (r: bool)
    ensures
        r == (ascii_letter(c) || (beyond_ascii(c) && xid_start(c))),
{
    unicode_ident::is_xid_start(c)
}

/// `unicode_ident::is_xid_continue`: among the ASCII characters exactly the letters, the digits
/// and the underscore have the property; beyond ASCII the answer is a fixed table look-up.
#[verifier::external_body]
fn is_xid_continue(c: char) -> (r: bool)
    ensures
        r == (ascii_letter(c) || ascii_digit(c) || c == '_' || (beyond_ascii(c) && xid_continue(
            c,
        ))),
{
    unicode_ident::is_xid_continue(c)
}

/// `char::is_alphabetic`: among the ASCII characters exactly the letters are alphabetic; beyond
/// ASCII the answer is a fixed property of the character.
pub assume_specification[ char::is_alphabetic ](c: char) -> (r: bool)
    ensures
        r == (ascii_letter(c) || (beyond_ascii(c) && alphabetic(c))),
;

/// `String::push`: appends one character.
pub assume_specification[ String::push ](s: &mut String, c: char)
    ensures
        final(s)@ == old(s)@.push(c),
;

/// A character that an identifier may start with.
pub open spec fn ident_start(c: char) -> bool {
    c == '_' || ascii_letter(c) || (beyond_ascii(c) && xid_start(c))
}

/// A character that an identifier may hold after its first one.
pub open spec fn ident_continue(c: char) -> bool {
    c == '_' || ascii_letter(c) || ascii_digit(c) || (beyond_ascii(c) && xid_continue(c))
}

/// The texts that are identifiers (keywords and the lone underscore are among them).
pub open spec fn ident_text(s: Seq<char>) -> bool {
    &&& s.len() > 0
    &&& ident_start(s[0])
    &&& forall|i: int| 1 <= i < s.len() ==> ident_continue(#[trigger] s[i])
}

/// Tells whether `text` is an identifier.
pub fn is_ident(text: &str) -> (r: bool)
    ensures
        r == ident_text(text@),
{
    let mut first: bool = true;
    for c in it: text.chars()
        invariant
            it.seq() == text@,
            first == (it.index() == 0),
            !first ==> ident_start(text@[0]),
            forall|i: int| 1 <= i < it.index() ==> ident_continue(#[trigger] text@[i]),
    {
        if first {
            if c != '_' && !is_xid_start(c) {
                return false;
            }
        } else if !is_xid_continue(c) {
            return false;
        }
        first = false;
    }
    !first
}

/// A letter, in any script.
pub open spec fn letter(c: char) -> bool {
    ascii_letter(c) || (beyond_ascii(c) && alphabetic(c))
}

/// A character that can stand in a type name.
pub open spec fn kept_char(c: char) -> bool {
    ascii_digit(c) || letter(c) || c == '_'
}

/// Tells whether a type name made from a text that starts with the character gets the prefix.
pub fn is_prefixed(first: char) -> (r: bool)
    ensures
        r == !letter(first),
{
    !first.is_alphabetic()
}

/// Tells whether the character can stand in a type name.
pub fn is_kept_char(c: char) -> (r: bool)
    ensures
        r == kept_char(c),
{
    ('0' <= c && c <= '9') || c.is_alphabetic() || c == '_'
}

/// A text in which what cannot stand in a type name is replaced.
pub open spec fn named_type_rest(s: Seq<char>) -> Seq<char> {
    s.map_values(|c: char| if kept_char(c) { c } else { REPLACEMENT_CHAR })
}

/// The type name made from a text: what cannot stand in it is replaced, and a prefix goes before
/// a text that does not start with a letter.
pub open spec fn named_type(s: Seq<char>) -> Seq<char> {
    if s.len() > 0 && !letter(s[0]) {
        seq![PREFIX_CHAR] + named_type_rest(s)
    } else {
        named_type_rest(s)
    }
}

/// Conversion of a text into the name of a type or of an enum variant.
pub trait TypeName: ToOwned {
    fn to_type_name(&self) -> Self::Owned;
}

impl TypeName for str {
    fn to_type_name(&self) -> (r: String)
        ensures
            r@ == named_type(self@),
    {
        let mut out = String::new();
        let mut first: bool = true;
        let ghost prefix = if self@.len() > 0 && !letter(self@[0]) {
            seq![PREFIX_CHAR]
        } else {
            Seq::empty()
        };
        for c in it: self.chars()
            invariant
                it.seq() == self@,
                first == (it.index() == 0),
                prefix == (if self@.len() > 0 && !letter(self@[0]) {
                    seq![PREFIX_CHAR]
                } else {
                    Seq::empty()
                }),
                first ==> out@ == Seq::<char>::empty(),
                !first ==> out@ == prefix + named_type_rest(self@.take(it.index() as int)),
        {
            let ghost before = self@.take(it.index() as int);
            assert(self@.take(it.index() + 1) == before.push(c));
            if first && is_prefixed(c) {
                out.push(PREFIX_CHAR);
            }
            assert(out@ == prefix + named_type_rest(before));
            first = false;
            if is_kept_char(c) {
                out.push(c);
            } else {
                out.push(REPLACEMENT_CHAR);
            }
            assert(out@ == prefix + named_type_rest(before.push(c)));
        }
        assert(self@.take(self@.len() as int) == self@);
        assert(out@ == named_type(self@));
        out
    }
}

} // verus!
