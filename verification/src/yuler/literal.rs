use vstd::prelude::*;
use vstd::string::*;
use vstd::utf8::*;

use crate::text::{decimal, decimal_string};
use crate::yuler::error::YulError;

verus! {

/// Whether `c` is one of `0-9`, `a-f`, `A-F`.
pub open spec fn is_hex_digit(c: char) -> bool {
    ('0' <= c && c <= '9') || ('a' <= c && c <= 'f') || ('A' <= c && c <= 'F')
}

/// Whether every character of `s` from position `from` on is a hexadecimal digit.
pub open spec fn all_hex_digits(s: Seq<char>, from: int) -> bool {
    forall|i: int| from <= i < s.len() ==> is_hex_digit(#[trigger] s[i])
}

/// The grammar of the bare hexadecimal text of a data segment: one
/// hexadecimal digit or more, and nothing else.
pub open spec fn is_hex_text(s: Seq<char>) -> bool {
    s.len() > 0 && all_hex_digits(s, 0)
}

/// The grammar of a hexadecimal number: `0x`, then one hexadecimal digit or
/// more, and nothing else.
pub open spec fn is_hex_number(s: Seq<char>) -> bool {
    s.len() > 2 && s[0] == '0' && s[1] == 'x' && all_hex_digits(s, 2)
}

fn hex_digit(c: char) -> (r: bool)
    ensures
        r == is_hex_digit(c),
{
    ('0' <= c && c <= '9') || ('a' <= c && c <= 'f') || ('A' <= c && c <= 'F')
}

/// Whether `s` is a hexadecimal number with its `0x` in front.
pub fn check_hex_number(s: &str) -> (r: bool)
    ensures
        r == is_hex_number(s@),
{
    let mut stage: u8 = 0;
    let mut good = true;
    for c in it: s.chars()
        invariant
            it.seq() == s@,
            stage <= 3,
            stage < 3 ==> stage == it.index(),
            stage == 3 ==> it.index() >= 3,
            good == (forall|i: int|
                0 <= i < it.index() ==> (if i == 0 {
                    s@[i] == '0'
                } else if i == 1 {
                    s@[i] == 'x'
                } else {
                    is_hex_digit(#[trigger] s@[i])
                })),
    {
        let ok = if stage == 0 {
            c == '0'
        } else if stage == 1 {
            c == 'x'
        } else {
            hex_digit(c)
        };
        if !ok {
            good = false;
        }
        if stage < 3 {
            stage += 1;
        }
    }
    good && stage == 3
}

/// Whether `s` is hexadecimal digits alone, and at least one.
pub fn check_hex_text(s: &str) -> (r: bool)
    ensures
        r == is_hex_text(s@),
{
    let mut seen = false;
    let mut good = true;
    for c in it: s.chars()
        invariant
            it.seq() == s@,
            seen == (it.index() > 0),
            good == (forall|i: int| 0 <= i < it.index() ==> is_hex_digit(#[trigger] s@[i])),
    {
        if !hex_digit(c) {
            good = false;
        }
        seen = true;
    }
    good && seen
}

/// A decimal number.
#[derive(Debug)]
pub struct NumberLiteral(pub u64);

/// A hexadecimal number, with its `0x`.
#[derive(Debug)]
pub struct HexNumberLiteral(pub(crate) String);

/// A string between double quotes.
#[derive(Debug)]
pub struct ASCIILiteral(pub String);

/// The hexadecimal text of a data segment.
#[derive(Debug)]
pub struct HexLiteral(pub(crate) String);

/// A literal of the target language.
#[derive(Debug)]
pub enum Literal {
    Number(NumberLiteral),
    HexNumber(HexNumberLiteral),
    ASCII(ASCIILiteral),
}

/// What a literal holds.
pub enum LiteralView {
    Number(u64),
    HexNumber(Seq<char>),
    ASCII(Seq<char>),
}

impl LiteralView {
    /// The bytes that stand for the literal in the output.
    pub open spec fn bytes(self) -> Seq<u8> {
        match self {
            LiteralView::Number(n) => encode_utf8(decimal(n as nat)),
            LiteralView::HexNumber(s) => encode_utf8(s),
            LiteralView::ASCII(s) => encode_utf8("\""@) + encode_utf8(s) + encode_utf8("\""@),
        }
    }
}

/// The bytes that stand for a data segment's text in the output.
pub open spec fn hex_literal_bytes(s: Seq<char>) -> Seq<u8> {
    encode_utf8("hex\""@) + encode_utf8(s) + encode_utf8("\""@)
}

impl View for NumberLiteral {
    type V = u64;

    open spec fn view(&self) -> u64 {
        self.0
    }
}

impl View for HexNumberLiteral {
    type V = Seq<char>;

    closed spec fn view(&self) -> Seq<char> {
        self.0@
    }
}

impl View for ASCIILiteral {
    type V = Seq<char>;

    open spec fn view(&self) -> Seq<char> {
        self.0@
    }
}

impl View for HexLiteral {
    type V = Seq<char>;

    closed spec fn view(&self) -> Seq<char> {
        self.0@
    }
}

impl View for Literal {
    type V = LiteralView;

    open spec fn view(&self) -> LiteralView {
        match self {
            Literal::Number(n) => LiteralView::Number(n@),
            Literal::HexNumber(h) => LiteralView::HexNumber(h@),
            Literal::ASCII(a) => LiteralView::ASCII(a@),
        }
    }
}

impl NumberLiteral {
    /// Appends the decimal numeral to `w`.
    pub fn write(&self, w: &mut Vec<u8>) -> (r: Result<(), YulError>)
        ensures
            r is Ok,
            final(w)@ == old(w)@ + encode_utf8(decimal(self@ as nat)),
    {
        let text = decimal_string(self.0);
        w.extend_from_slice(text.as_str().as_bytes());
        assert(w@ =~= old(w)@ + encode_utf8(decimal(self@ as nat)));
        Ok(())
    }
}

impl Clone for NumberLiteral {
    fn clone(&self) -> (r: Self)
        ensures
            r@ == self@,
    {
        NumberLiteral(self.0)
    }
}

impl HexNumberLiteral {
    #[verifier::type_invariant]
    spec fn well_formed(self) -> bool {
        is_hex_number(self.0@)
    }

    /// The text of the number, which is a hexadecimal number with its `0x`.
    pub fn as_str(&self) -> (r: &str)
        ensures
            r@ == self@,
            is_hex_number(self@),
    {
        proof {
            use_type_invariant(self);
        }
        self.0.as_str()
    }

    /// Appends the text to `w`.
    pub fn write(&self, w: &mut Vec<u8>) -> (r: Result<(), YulError>)
        ensures
            r is Ok,
            final(w)@ == old(w)@ + encode_utf8(self@),
    {
        w.extend_from_slice(self.0.as_str().as_bytes());
        assert(w@ =~= old(w)@ + encode_utf8(self@));
        Ok(())
    }
}

impl Clone for HexNumberLiteral {
    fn clone(&self) -> (r: Self)
        ensures
            r@ == self@,
    {
        proof {
            use_type_invariant(self);
        }
        HexNumberLiteral(self.0.clone())
    }
}

impl ASCIILiteral {
    /// Appends the text, between double quotes, to `w`.
    pub fn write(&self, w: &mut Vec<u8>) -> (r: Result<(), YulError>)
        ensures
            r is Ok,
            final(w)@ == old(w)@ + LiteralView::ASCII(self@).bytes(),
    {
        w.extend_from_slice("\"".as_bytes());
        w.extend_from_slice(self.0.as_str().as_bytes());
        w.extend_from_slice("\"".as_bytes());
        assert(w@ =~= old(w)@ + LiteralView::ASCII(self@).bytes());
        Ok(())
    }
}

impl Clone for ASCIILiteral {
    fn clone(&self) -> (r: Self)
        ensures
            r@ == self@,
    {
        ASCIILiteral(self.0.clone())
    }
}

impl HexLiteral {
    #[verifier::type_invariant]
    spec fn well_formed(self) -> bool {
        is_hex_text(self.0@)
    }

    /// The data segment text `s`, where `s` is hexadecimal digits alone and
    /// at least one; any other text is refused.
    pub fn new(s: &str) -> (r: Result<HexLiteral, YulError>)
        ensures
            match r {
                Ok(h) => is_hex_text(s@) && h@ == s@,
                Err(e) => !is_hex_text(s@) && e == YulError::WrongNumberFormat,
            },
    {
        if check_hex_text(s) {
            Ok(HexLiteral(s.to_owned()))
        } else {
            Err(YulError::WrongNumberFormat)
        }
    }

    /// The text of the segment, which is hexadecimal digits alone and at
    /// least one.
    pub fn as_str(&self) -> (r: &str)
        ensures
            r@ == self@,
            is_hex_text(self@),
    {
        proof {
            use_type_invariant(self);
        }
        self.0.as_str()
    }

    /// Appends `hex"`, the text and `"` to `w`.
    pub fn write(&self, w: &mut Vec<u8>) -> (r: Result<(), YulError>)
        ensures
            r is Ok,
            final(w)@ == old(w)@ + hex_literal_bytes(self@),
    {
        w.extend_from_slice("hex\"".as_bytes());
        w.extend_from_slice(self.0.as_str().as_bytes());
        w.extend_from_slice("\"".as_bytes());
        assert(w@ =~= old(w)@ + hex_literal_bytes(self@));
        Ok(())
    }
}

impl Clone for HexLiteral {
    fn clone(&self) -> (r: Self)
        ensures
            r@ == self@,
    {
        proof {
            use_type_invariant(self);
        }
        HexLiteral(self.0.clone())
    }
}

impl Clone for Literal {
    fn clone(&self) -> (r: Self)
        ensures
            r@ == self@,
    {
        match self {
            Literal::Number(n) => Literal::Number(n.clone()),
            Literal::HexNumber(h) => Literal::HexNumber(h.clone()),
            Literal::ASCII(a) => Literal::ASCII(a.clone()),
        }
    }
}

impl Literal {
    /// The decimal number `s`.
    pub fn int_number(s: u64) -> (r: Result<Literal, YulError>)
        ensures
            r matches Ok(l) && l@ == LiteralView::Number(s),
    {
        Ok(Literal::Number(NumberLiteral(s)))
    }

    /// The hexadecimal number `s`, where `s` is `0x` and then hexadecimal
    /// digits, at least one; any other text is refused.
    pub fn hex_number(s: &str) -> (r: Result<Literal, YulError>)
        ensures
            match r {
                Ok(l) => is_hex_number(s@) && l@ == LiteralView::HexNumber(s@),
                Err(e) => !is_hex_number(s@) && e == YulError::WrongNumberFormat,
            },
    {
        if check_hex_number(s) {
            Ok(Literal::HexNumber(HexNumberLiteral(s.to_owned())))
        } else {
            Err(YulError::WrongNumberFormat)
        }
    }

    /// The string literal `s`.
    pub fn ascii(s: &str) -> (r: Result<Literal, YulError>)
        ensures
            r matches Ok(l) && l@ == LiteralView::ASCII(s@),
    {
        Ok(Literal::ASCII(ASCIILiteral(s.to_owned())))
    }

    /// Appends the literal's text to `w`.
    pub fn write(&self, w: &mut Vec<u8>) -> (r: Result<(), YulError>)
        ensures
            r is Ok,
            final(w)@ == old(w)@ + self@.bytes(),
    {
        match self {
            Literal::Number(v) => v.write(w),
            Literal::HexNumber(v) => v.write(w),
            Literal::ASCII(v) => v.write(w),
        }
    }

    /// The number, where the literal is a decimal number.
    pub fn as_number(&self) -> (r: Option<u64>)
        ensures
            r == (match self@ {
                LiteralView::Number(n) => Some(n),
                _ => None,
            }),
    {
        match self {
            Literal::Number(n) => Some(n.0),
            _ => None,
        }
    }

    /// The text, where the literal is a string.
    pub fn as_ascii(&self) -> (r: Option<&str>)
        ensures
            match self@ {
                LiteralView::ASCII(s) => r matches Some(t) && t@ == s,
                _ => r is None,
            },
    {
        match self {
            Literal::ASCII(n) => Some(n.0.as_str()),
            _ => None,
        }
    }
}

} // verus!
