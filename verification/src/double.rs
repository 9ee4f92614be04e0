//! Real numbers as they travel on the wire: decimal text.
//!
//! A `Double` keeps the text of a number and guarantees that the text is one
//! that Rust's `f64` parser accepts. The grammar is that of the standard
//! library's documentation:
//!
//! ```text
//! Float  ::= Sign? ( 'inf' | 'infinity' | 'nan' | Number )
//! Number ::= ( Digit+ | Digit+ '.' Digit* | Digit* '.' Digit+ ) Exp?
//! Exp    ::= 'e' Sign? Digit+
//! Sign   ::= [+-]
//! Digit  ::= [0-9]
//! ```
//!
//! with letters in either case.

use crate::text::{chars_of, is_digit};
use vstd::prelude::*;

verus! {

/// The first position at or after `from` that holds no digit.
pub open spec fn digits_end(s: Seq<char>, from: int) -> int
    decreases s.len() - from,
{
    if 0 <= from < s.len() && is_digit(s[from]) {
        digits_end(s, from + 1)
    } else {
        from
    }
}

/// Whether `c` is a sign.
pub open spec fn is_sign(c: char) -> bool {
    c == '+' || c == '-'
}

/// The length of the sign that `s` starts with: one or zero.
pub open spec fn sign_len(s: Seq<char>) -> int {
    if s.len() > 0 && is_sign(s[0]) {
        1
    } else {
        0
    }
}

/// An upper-case ASCII letter as lower case, any other character unchanged.
pub open spec fn lower(c: char) -> char {
    if 'A' <= c <= 'Z' {
        ((c as u32) + 32) as char
    } else {
        c
    }
}

/// Whether `s` from `at` to its end spells the lower-case `word`, in either
/// case.
pub open spec fn spells(s: Seq<char>, at: int, word: Seq<char>) -> bool {
    &&& s.len() - at == word.len()
    &&& forall|i: int| 0 <= i < word.len() ==> lower(#[trigger] s[at + i]) == word[i]
}

/// Whether `s` from `at` to its end is an exponent: `e`, an optional sign,
/// and one or more digits.
pub open spec fn is_exponent_at(s: Seq<char>, at: int) -> bool {
    &&& at + 1 < s.len()
    &&& lower(s[at]) == 'e'
    &&& {
        let digits = if is_sign(s[at + 1]) {
            at + 2
        } else {
            at + 1
        };
        digits < s.len() && digits_end(s, digits) == s.len()
    }
}

/// Whether `s` from `at` to its end is a number: digits with at most one
/// point among them, at least one digit in all, and an optional exponent.
pub open spec fn is_number_at(s: Seq<char>, at: int) -> bool {
    let whole_end = digits_end(s, at);
    let point = whole_end < s.len() && s[whole_end] == '.';
    let end = if point {
        digits_end(s, whole_end + 1)
    } else {
        whole_end
    };
    let digits = if point {
        end - at - 1
    } else {
        end - at
    };
    digits >= 1 && (end == s.len() || is_exponent_at(s, end))
}

/// Whether `s` is the text of a real number: an optional sign, then a
/// number or one of `inf`, `infinity` and `nan`.
pub open spec fn is_float_text(s: Seq<char>) -> bool {
    let at = sign_len(s);
    ||| is_number_at(s, at)
    ||| spells(s, at, seq!['i', 'n', 'f'])
    ||| spells(s, at, seq!['i', 'n', 'f', 'i', 'n', 'i', 't', 'y'])
    ||| spells(s, at, seq!['n', 'a', 'n'])
}

fn is_digit_char(c: char) -> (r: bool)
    ensures
        r == is_digit(c),
{
    '0' <= c && c <= '9'
}

fn is_sign_char(c: char) -> (r: bool)
    ensures
        r == is_sign(c),
{
    c == '+' || c == '-'
}

fn to_lower(c: char) -> (r: char)
    ensures
        r == lower(c),
{
    if 'A' <= c && c <= 'Z' {
        ((c as u8) + 32u8) as char
    } else {
        c
    }
}

fn scan_digits(chars: &Vec<char>, from: usize) -> (r: usize)
    requires
        from <= chars.len(),
    ensures
        r == digits_end(chars@, from as int),
        from <= r <= chars.len(),
{
    let mut i: usize = from;
    while i < chars.len() && is_digit_char(chars[i])
        invariant
            from <= i <= chars.len(),
            digits_end(chars@, from as int) == digits_end(chars@, i as int),
        decreases chars.len() - i,
    {
        i += 1;
    }
    i
}

fn spells_word(chars: &Vec<char>, at: usize, word: &Vec<char>) -> (r: bool)
    requires
        at <= chars.len(),
    ensures
        r == spells(chars@, at as int, word@),
{
    if chars.len() - at != word.len() {
        return false;
    }
    let mut i: usize = 0;
    while i < word.len()
        invariant
            at <= chars.len(),
            chars.len() - at == word.len(),
            i <= word.len(),
            forall|k: int| 0 <= k < i ==> lower(#[trigger] chars@[at + k]) == word@[k],
        decreases word.len() - i,
    {
        if to_lower(chars[at + i]) != word[i] {
            return false;
        }
        i += 1;
    }
    true
}

fn exponent_at(chars: &Vec<char>, at: usize) -> (r: bool)
    requires
        at <= chars.len(),
    ensures
        r == is_exponent_at(chars@, at as int),
{
    if chars.len() - at < 2 {
        return false;
    }
    if to_lower(chars[at]) != 'e' {
        return false;
    }
    let digits: usize = if is_sign_char(chars[at + 1]) {
        at + 2
    } else {
        at + 1
    };
    if digits >= chars.len() {
        return false;
    }
    scan_digits(chars, digits) == chars.len()
}

fn number_at(chars: &Vec<char>, at: usize) -> (r: bool)
    requires
        at <= chars.len(),
    ensures
        r == is_number_at(chars@, at as int),
{
    let whole_end = scan_digits(chars, at);
    let point = whole_end < chars.len() && chars[whole_end] == '.';
    let end = if point {
        scan_digits(chars, whole_end + 1)
    } else {
        whole_end
    };
    let digits = if point {
        end - at - 1
    } else {
        end - at
    };
    digits >= 1 && (end == chars.len() || exponent_at(chars, end))
}

/// Whether `text` is the text of a real number.
pub fn is_float(text: &str) -> (r: bool)
    ensures
        r == is_float_text(text@),
{
    let chars = chars_of(text);
    let at: usize = if chars.len() > 0 && is_sign_char(chars[0]) {
        1
    } else {
        0
    };
    if number_at(&chars, at) {
        return true;
    }
    let inf: Vec<char> = vec!['i', 'n', 'f'];
    let infinity: Vec<char> = vec!['i', 'n', 'f', 'i', 'n', 'i', 't', 'y'];
    let nan: Vec<char> = vec!['n', 'a', 'n'];
    spells_word(&chars, at, &inf) || spells_word(&chars, at, &infinity) || spells_word(
        &chars,
        at,
        &nan,
    )
}

/// A real number, kept as its text.
#[derive(Debug, PartialEq, Eq)]
pub struct Double {
    text: String,
}

impl View for Double {
    type V = Seq<char>;

    closed spec fn view(&self) -> Seq<char> {
        self.text@
    }
}

impl Double {
    #[verifier::type_invariant]
    spec fn well_formed(self) -> bool {
        is_float_text(self.text@)
    }

    /// Takes `text` as a number, or hands it back where it is none.
    pub fn new(text: String) -> (r: Result<Double, String>)
        ensures
            match r {
                Ok(d) => is_float_text(text@) && d@ == text@,
                Err(t) => !is_float_text(text@) && t@ == text@,
            },
    {
        if is_float(text.as_str()) {
            Ok(Double { text })
        } else {
            Err(text)
        }
    }

    /// The text of the number.
    pub fn as_str(&self) -> (r: &str)
        ensures
            r@ == self@,
            is_float_text(r@),
    {
        proof {
            use_type_invariant(self);
        }
        self.text.as_str()
    }
}

impl Clone for Double {
    fn clone(&self) -> (r: Double)
        ensures
            r@ == self@,
    {
        proof {
            use_type_invariant(self);
        }
        Double { text: self.text.clone() }
    }
}

} // verus!
