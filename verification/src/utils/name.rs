use vstd::prelude::*;
use vstd::string::*;

use crate::ir::{Name, NameView};
use crate::text::{decimal, push_decimal};

verus! {

/// `String::push` appends the one character to the string.
pub assume_specification[ String::push ](s: &mut String, ch: char)
    ensures
        final(s)@ == old(s)@.push(ch),
;

/// The character that stands for `c` in an identifier: `_` for `.` and `$`,
/// else `c` itself.
pub open spec fn tidy_char(c: char) -> char {
    if c == '.' || c == '$' {
        '_'
    } else {
        c
    }
}

/// `s` with each `.` and each `$` replaced by `_`.
pub open spec fn tidy(s: Seq<char>) -> Seq<char> {
    Seq::new(s.len(), |i: int| tidy_char(s[i]))
}

/// The identifier that stands for the name `n`: the tidied text of a given
/// name, `_l` and the decimal numeral for a sequence number.
pub open spec fn yul_name(n: NameView) -> Seq<char> {
    match n {
        NameView::Name(s) => tidy(s),
        NameView::Number(k) => "_l"@ + decimal(k as nat),
    }
}

/// `s` with each `.` and each `$` replaced by `_`.
pub fn tidy_name(s: &str) -> (r: String)
    ensures
        r@ == tidy(s@),
{
    let mut out = String::new();
    for c in it: s.chars()
        invariant
            it.seq() == s@,
            out@ == tidy(s@.take(it.index() as int)),
    {
        if c == '.' || c == '$' {
            out.push('_');
        } else {
            out.push(c);
        }
        assert(out@ =~= tidy(s@.take(it.index() + 1)));
    }
    assert(s@.take(s@.len() as int) =~= s@);
    out
}

/// The identifier that stands for the name `n`.
pub fn yul_ident_name(n: &Name) -> (r: String)
    ensures
        r@ == yul_name(n@),
{
    match n {
        Name::Name(s) => tidy_name(s.as_str()),
        Name::Number(k) => {
            let mut out = "_l".to_owned();
            push_decimal(&mut out, *k as u64);
            out
        },
    }
}

} // verus!
