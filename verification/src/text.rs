//! Text helpers shared by the decoders: characters of a string, splitting on
//! a separator, and decimal numbers.

use vstd::prelude::*;
use vstd::string::StringExecFns;

verus! {

/// `str::eq`: two texts are equal exactly where they hold the same
/// characters in the same order.
pub assume_specification[ <str as PartialEq>::eq ](a: &str, b: &str) -> (r: bool)
    ensures
        r == (a@ == b@),
;

/// `String::push`: appends one character.
#[verifier::external_body]
pub(crate) fn push_char(s: &mut String, c: char)
    ensures
        final(s)@ == old(s)@.push(c),
{
    s.push(c)
}

/// The characters of `s`, in order.
pub fn chars_of(s: &str) -> (r: Vec<char>)
    ensures
        r@ == s@,
{
    let mut out: Vec<char> = Vec::new();
    for c in it: s.chars()
        invariant
            out@ == it.seq().take(it.index() as int),
            it.seq() == s@,
    {
        out.push(c);
    }
    out
}

/// The string made of `chars[from..to]`.
pub fn string_of(chars: &Vec<char>, from: usize, to: usize) -> (r: String)
    requires
        from <= to <= chars.len(),
    ensures
        r@ == chars@.subrange(from as int, to as int),
{
    let mut out = String::new();
    let mut i: usize = from;
    while i < to
        invariant
            from <= i <= to <= chars.len(),
            out@ == chars@.subrange(from as int, i as int),
        decreases to - i,
    {
        push_char(&mut out, chars[i]);
        i += 1;
    }
    out
}

/// The pieces of `s` between occurrences of `sep`. There is always one piece
/// more than there are separators, so a text that ends in `sep` has an empty
/// last piece and the empty text has one empty piece.
pub open spec fn split(s: Seq<char>, sep: char) -> Seq<Seq<char>>
    decreases s.len(),
{
    if s.len() == 0 {
        seq![Seq::empty()]
    } else if s.last() == sep {
        split(s.drop_last(), sep).push(Seq::empty())
    } else {
        let before = split(s.drop_last(), sep);
        before.drop_last().push(before.last().push(s.last()))
    }
}

/// The views of a vector of strings.
pub open spec fn views(v: Seq<String>) -> Seq<Seq<char>> {
    Seq::new(v.len(), |i: int| v[i]@)
}

/// `split` always yields at least one piece.
pub proof fn lemma_split_nonempty(s: Seq<char>, sep: char)
    ensures
        split(s, sep).len() >= 1,
    decreases s.len(),
{
    if s.len() > 0 {
        lemma_split_nonempty(s.drop_last(), sep);
    }
}

/// No piece of a split holds the separator.
pub proof fn lemma_split_pieces_hold_no_separator(s: Seq<char>, sep: char)
    ensures
        forall|i: int, j: int|
            0 <= i < split(s, sep).len() && 0 <= j < split(s, sep)[i].len() ==> split(
                s,
                sep,
            )[i][j] != sep,
    decreases s.len(),
{
    if s.len() > 0 {
        lemma_split_nonempty(s.drop_last(), sep);
        lemma_split_pieces_hold_no_separator(s.drop_last(), sep);
    }
}

/// Cutting a text that is made of `a`, a separator and `b` gives the pieces
/// of `a` followed by the pieces of `b`.
pub proof fn lemma_split_joined(a: Seq<char>, b: Seq<char>, sep: char)
    ensures
        split(a + seq![sep] + b, sep) == split(a, sep) + split(b, sep),
    decreases b.len(),
{
    let whole = a + seq![sep] + b;
    if b.len() == 0 {
        assert(whole.drop_last() =~= a);
        assert(split(b, sep) =~= seq![Seq::<char>::empty()]);
        assert(split(whole, sep) =~= split(a, sep) + split(b, sep));
    } else {
        lemma_split_joined(a, b.drop_last(), sep);
        lemma_split_nonempty(b.drop_last(), sep);
        assert(whole.drop_last() =~= a + seq![sep] + b.drop_last());
        assert(whole.last() == b.last());
        assert(split(whole, sep) =~= split(a, sep) + split(b, sep));
    }
}

/// A text without a separator is one piece.
pub proof fn lemma_split_whole(s: Seq<char>, sep: char)
    requires
        forall|i: int| 0 <= i < s.len() ==> s[i] != sep,
    ensures
        split(s, sep) == seq![s],
    decreases s.len(),
{
    if s.len() == 0 {
        assert(s =~= Seq::<char>::empty());
    } else {
        lemma_split_whole(s.drop_last(), sep);
        assert(split(s, sep) =~= seq![s.drop_last().push(s.last())]);
        assert(s.drop_last().push(s.last()) =~= s);
    }
}

/// The pieces of a list, with `sep` between each two of them.
pub open spec fn joined(pieces: Seq<Seq<char>>, sep: char) -> Seq<char>
    decreases pieces.len(),
{
    if pieces.len() == 0 {
        Seq::empty()
    } else if pieces.len() == 1 {
        pieces[0]
    } else {
        joined(pieces.drop_last(), sep) + seq![sep] + pieces.last()
    }
}

/// Joining the pieces of a split gives the text back. With
/// `lemma_split_pieces_hold_no_separator` this says what `split` is: the one
/// way to cut a text into pieces that are free of the separator.
pub proof fn lemma_split_joins_back(s: Seq<char>, sep: char)
    ensures
        joined(split(s, sep), sep) == s,
    decreases s.len(),
{
    if s.len() == 0 {
        assert(joined(split(s, sep), sep) =~= s);
    } else {
        let before = split(s.drop_last(), sep);
        lemma_split_nonempty(s.drop_last(), sep);
        lemma_split_joins_back(s.drop_last(), sep);
        if s.last() == sep {
            let now = before.push(Seq::<char>::empty());
            assert(now.drop_last() =~= before);
            assert(joined(now, sep) =~= s.drop_last() + seq![sep] + Seq::<char>::empty());
            assert(s.drop_last() + seq![sep] + Seq::<char>::empty() =~= s);
        } else {
            let now = before.drop_last().push(before.last().push(s.last()));
            assert(now.drop_last() =~= before.drop_last());
            if before.len() == 1 {
                assert(joined(before, sep) == before[0]);
                assert(joined(now, sep) =~= before[0].push(s.last()));
                assert(s.drop_last().push(s.last()) =~= s);
            } else {
                assert(joined(before, sep) == joined(before.drop_last(), sep) + seq![sep]
                    + before.last());
                assert(joined(now, sep) =~= joined(before.drop_last(), sep) + seq![sep]
                    + before.last().push(s.last()));
                assert(joined(now, sep) =~= s.drop_last().push(s.last()));
                assert(s.drop_last().push(s.last()) =~= s);
            }
        }
    }
}

/// Splits `s` at every occurrence of `sep`.
pub fn split_on(s: &str, sep: char) -> (r: Vec<String>)
    ensures
        views(r@) == split(s@, sep),
{
    let chars = chars_of(s);
    let mut pieces: Vec<String> = Vec::new();
    let mut start: usize = 0;
    let mut i: usize = 0;
    proof {
        assert(chars@.take(0) =~= Seq::<char>::empty());
        assert(views(pieces@).push(chars@.subrange(0, 0)) =~= split(chars@.take(0), sep));
    }
    while i < chars.len()
        invariant
            start <= i <= chars.len(),
            chars@ == s@,
            views(pieces@).push(chars@.subrange(start as int, i as int)) == split(
                chars@.take(i as int),
                sep,
            ),
        decreases chars.len() - i,
    {
        let ghost before = split(chars@.take(i as int), sep);
        let ghost next = chars@.take(i + 1);
        proof {
            assert(next.drop_last() =~= chars@.take(i as int));
            assert(next.last() == chars@[i as int]);
        }
        if chars[i] == sep {
            let piece = string_of(&chars, start, i);
            let ghost old_pieces = pieces@;
            pieces.push(piece);
            start = i + 1;
            proof {
                assert(views(pieces@) =~= views(old_pieces).push(piece@));
                assert(chars@.subrange(start as int, i + 1) =~= Seq::<char>::empty());
                assert(views(pieces@).push(chars@.subrange(start as int, i + 1)) =~= split(
                    next,
                    sep,
                ));
            }
        } else {
            proof {
                assert(before.last() == chars@.subrange(start as int, i as int));
                assert(before.drop_last() =~= views(pieces@));
                assert(chars@.subrange(start as int, i + 1) =~= before.last().push(
                    chars@[i as int],
                ));
                assert(views(pieces@).push(chars@.subrange(start as int, i + 1)) =~= split(
                    next,
                    sep,
                ));
            }
        }
        i += 1;
    }
    let piece = string_of(&chars, start, i);
    let ghost old_pieces = pieces@;
    pieces.push(piece);
    proof {
        assert(chars@.take(i as int) =~= chars@);
        assert(views(pieces@) =~= views(old_pieces).push(piece@));
    }
    pieces
}

/// Whether `c` is one of the ten ASCII digits.
pub open spec fn is_digit(c: char) -> bool {
    '0' <= c <= '9'
}

/// The number that a digit stands for.
pub open spec fn digit_value(c: char) -> nat {
    (c as u32 - '0' as u32) as nat
}

/// The digit that stands for `d`, for `d` below ten.
pub open spec fn digit_char(d: nat) -> char {
    (d + '0' as u32) as char
}

/// Whether every character of `s` is an ASCII digit.
pub open spec fn all_digits(s: Seq<char>) -> bool {
    forall|i: int| 0 <= i < s.len() ==> is_digit(#[trigger] s[i])
}

/// The number that a sequence of digits denotes in base ten (zero for the
/// empty sequence).
pub open spec fn digits_value(s: Seq<char>) -> nat
    decreases s.len(),
{
    if s.len() == 0 {
        0
    } else {
        digits_value(s.drop_last()) * 10 + digit_value(s.last())
    }
}

/// The shortest decimal text of `n`: no sign and no leading zero, `"0"` for
/// zero.
pub open spec fn decimal(n: nat) -> Seq<char>
    decreases n,
{
    if n < 10 {
        seq![digit_char(n)]
    } else {
        decimal(n / 10).push(digit_char(n % 10))
    }
}

/// The decimal text of a number is made of digits and denotes that number.
pub proof fn lemma_decimal_denotes(n: nat)
    ensures
        decimal(n).len() >= 1,
        all_digits(decimal(n)),
        digits_value(decimal(n)) == n,
    decreases n,
{
    if n < 10 {
        let s = decimal(n);
        assert(s.drop_last() =~= Seq::<char>::empty());
        assert(digits_value(s.drop_last()) == 0);
    } else {
        lemma_decimal_denotes(n / 10);
        let s = decimal(n);
        assert(s.drop_last() =~= decimal(n / 10));
        assert(s.last() == digit_char(n % 10));
    }
}

/// What an unsigned decimal text denotes: an optional `+`, then one or more
/// digits. Any other text denotes nothing.
pub open spec fn unsigned_of_text(s: Seq<char>) -> Option<nat> {
    let digits = if s.len() > 0 && s[0] == '+' {
        s.drop_first()
    } else {
        s
    };
    if digits.len() > 0 && all_digits(digits) {
        Some(digits_value(digits))
    } else {
        None
    }
}

/// What a signed decimal text denotes: an optional `+` or `-`, then one or
/// more digits. Any other text denotes nothing.
pub open spec fn signed_of_text(s: Seq<char>) -> Option<int> {
    if s.len() > 0 && s[0] == '-' {
        let digits = s.drop_first();
        if digits.len() > 0 && all_digits(digits) {
            Some(-(digits_value(digits) as int))
        } else {
            None
        }
    } else {
        match unsigned_of_text(s) {
            Some(n) => Some(n as int),
            None => None,
        }
    }
}

/// The `u64` that a text denotes, if it denotes one.
pub open spec fn u64_of_text(s: Seq<char>) -> Option<u64> {
    match unsigned_of_text(s) {
        Some(n) if n <= u64::MAX => Some(n as u64),
        _ => None,
    }
}

/// The `i64` that a text denotes, if it denotes one.
pub open spec fn i64_of_text(s: Seq<char>) -> Option<i64> {
    match signed_of_text(s) {
        Some(n) if i64::MIN <= n <= i64::MAX => Some(n as i64),
        _ => None,
    }
}

/// A sequence of digits denotes at least what any of its prefixes denotes.
pub proof fn lemma_digits_value_grows(s: Seq<char>, k: int)
    requires
        0 <= k <= s.len(),
        all_digits(s),
    ensures
        digits_value(s.take(k)) <= digits_value(s),
    decreases s.len(),
{
    if k < s.len() {
        let shorter = s.drop_last();
        assert forall|i: int| 0 <= i < shorter.len() implies is_digit(#[trigger] shorter[i]) by {
            assert(shorter[i] == s[i]);
        }
        lemma_digits_value_grows(shorter, k);
        assert(shorter.take(k) =~= s.take(k));
    } else {
        assert(s.take(k) =~= s);
    }
}

/// The number that `chars[from..]` denotes, where that is one or more digits
/// and the number is at most `limit`.
fn parse_digits(chars: &Vec<char>, from: usize, limit: u64) -> (r: Option<u64>)
    requires
        from <= chars.len(),
    ensures
        ({
            let digits = chars@.subrange(from as int, chars.len() as int);
            match r {
                Some(v) => digits.len() > 0 && all_digits(digits) && digits_value(digits) == v
                    && v <= limit,
                None => !(digits.len() > 0 && all_digits(digits) && digits_value(digits)
                    <= limit),
            }
        }),
{
    let ghost digits = chars@.subrange(from as int, chars.len() as int);
    if from == chars.len() {
        return None;
    }
    let mut value: u64 = 0;
    let mut i: usize = from;
    proof {
        assert(digits.take(0) =~= Seq::<char>::empty());
    }
    while i < chars.len()
        invariant
            from <= i <= chars.len(),
            digits == chars@.subrange(from as int, chars.len() as int),
            all_digits(digits.take(i - from)),
            value == digits_value(digits.take(i - from)),
            value <= limit,
        decreases chars.len() - i,
    {
        let c = chars[i];
        let ghost seen = digits.take(i - from);
        let ghost next = digits.take(i - from + 1);
        proof {
            assert(digits[i - from] == c);
            assert(next.drop_last() =~= seen);
            assert(next.last() == c);
        }
        if !('0' <= c && c <= '9') {
            return None;
        }
        let digit: u64 = (c as u32 - '0' as u32) as u64;
        let grown: u128 = value as u128 * 10 + digit as u128;
        proof {
            assert(grown == digits_value(next));
            assert forall|k: int| 0 <= k < next.len() implies is_digit(#[trigger] next[k]) by {
                if k < seen.len() {
                    assert(next[k] == seen[k]);
                }
            }
        }
        if grown > limit as u128 {
            proof {
                if all_digits(digits) {
                    lemma_digits_value_grows(digits, i - from + 1);
                }
            }
            return None;
        }
        value = grown as u64;
        i += 1;
    }
    proof {
        assert(digits.take(chars.len() - from) =~= digits);
    }
    Some(value)
}

/// Reads a `u64` as the standard library does: an optional `+` and one or
/// more decimal digits; nothing else, and no number that does not fit.
pub fn parse_u64(s: &str) -> (r: Option<u64>)
    ensures
        r == u64_of_text(s@),
{
    let chars = chars_of(s);
    let from: usize = if chars.len() > 0 && chars[0] == '+' {
        1
    } else {
        0
    };
    proof {
        if from == 1 {
            assert(chars@.subrange(1, chars.len() as int) =~= s@.drop_first());
        } else {
            assert(chars@.subrange(0, chars.len() as int) =~= s@);
        }
    }
    parse_digits(&chars, from, u64::MAX)
}

/// Reads an `i64` as the standard library does: an optional `+` or `-` and
/// one or more decimal digits; nothing else, and no number that does not
/// fit.
pub fn parse_i64(s: &str) -> (r: Option<i64>)
    ensures
        r == i64_of_text(s@),
{
    let chars = chars_of(s);
    if chars.len() > 0 && chars[0] == '-' {
        proof {
            assert(chars@.subrange(1, chars.len() as int) =~= s@.drop_first());
        }
        match parse_digits(&chars, 1, 0x8000_0000_0000_0000) {
            Some(magnitude) => if magnitude == 0x8000_0000_0000_0000 {
                Some(i64::MIN)
            } else {
                Some(-(magnitude as i64))
            },
            None => None,
        }
    } else {
        let from: usize = if chars.len() > 0 && chars[0] == '+' {
            1
        } else {
            0
        };
        proof {
            if from == 1 {
                assert(chars@.subrange(1, chars.len() as int) =~= s@.drop_first());
            } else {
                assert(chars@.subrange(0, chars.len() as int) =~= s@);
            }
        }
        match parse_digits(&chars, from, 0x7fff_ffff_ffff_ffff) {
            Some(value) => Some(value as i64),
            None => None,
        }
    }
}

/// The decimal text of `n`.
pub fn decimal_string(n: u64) -> (r: String)
    ensures
        r@ == decimal(n as nat),
{
    let mut digits: Vec<char> = Vec::new();
    let mut rest: u64 = n;
    // Digits are produced lowest first and written out in reverse.
    while rest >= 10
        invariant
            decimal(n as nat) == decimal(rest as nat) + digits@.reverse(),
        decreases rest,
    {
        let d: u8 = (rest % 10) as u8;
        let c: char = (d + 48u8) as char;
        let ghost old_digits = digits@;
        digits.push(c);
        proof {
            assert(c == digit_char((rest % 10) as nat));
            assert(digits@.reverse() =~= seq![c] + old_digits.reverse());
            assert(decimal(rest as nat) =~= decimal((rest / 10) as nat) + seq![c]);
        }
        rest = rest / 10;
    }
    let d: u8 = rest as u8;
    let c: char = (d + 48u8) as char;
    let mut out = String::new();
    push_char(&mut out, c);
    let mut i: usize = digits.len();
    proof {
        assert(c == digit_char(rest as nat));
        assert(digits@.reverse().take(0) =~= Seq::<char>::empty());
    }
    while i > 0
        invariant
            i <= digits.len(),
            out@ == decimal(rest as nat) + digits@.reverse().take(digits.len() - i),
            rest < 10,
        decreases i,
    {
        i -= 1;
        let ghost done = digits@.reverse().take(digits.len() - i - 1);
        push_char(&mut out, digits[i]);
        proof {
            assert(digits@.reverse().take(digits.len() - i) =~= done.push(digits@[i as int]));
        }
    }
    proof {
        assert(digits@.reverse().take(digits.len() as int) =~= digits@.reverse());
    }
    out
}

/// The decimal text of an integer: that of its magnitude, behind a minus
/// sign where the integer is negative.
pub open spec fn signed_decimal(n: int) -> Seq<char> {
    if n < 0 {
        seq!['-'] + decimal((-n) as nat)
    } else {
        decimal(n as nat)
    }
}

/// The decimal text of `n`.
pub fn signed_decimal_string(n: i64) -> (r: String)
    ensures
        r@ == signed_decimal(n as int),
{
    if n < 0 {
        let magnitude: u64 = ((-(n + 1)) as u64) + 1;
        let mut out = String::new();
        push_char(&mut out, '-');
        out.append(decimal_string(magnitude).as_str());
        assert(out@ =~= seq!['-'] + decimal((-n) as nat));
        out
    } else {
        decimal_string(n as u64)
    }
}

/// `s` without the carriage return that it ends in, if it ends in one.
pub open spec fn without_cr(s: Seq<char>) -> Seq<char> {
    if s.len() > 0 && s.last() == '\r' {
        s.drop_last()
    } else {
        s
    }
}

/// The lines of a text. A line ends in a line feed, or in a carriage return
/// and a line feed; neither belongs to the line. What follows the last line
/// feed is a line of its own unless it is empty.
pub open spec fn lines_of(s: Seq<char>) -> Seq<Seq<char>> {
    let pieces = split(s, '\n');
    let ended = Seq::new((pieces.len() - 1) as nat, |i: int| without_cr(pieces[i]));
    if pieces.last().len() == 0 {
        ended
    } else {
        ended.push(pieces.last())
    }
}

/// `s` without the carriage return that it ends in, if it ends in one.
pub fn strip_cr(s: String) -> (r: String)
    ensures
        r@ == without_cr(s@),
{
    let chars = chars_of(s.as_str());
    let n = chars.len();
    if n > 0 && chars[n - 1] == '\r' {
        let r = string_of(&chars, 0, n - 1);
        assert(chars@.subrange(0, n - 1) =~= s@.drop_last());
        r
    } else {
        s
    }
}

/// The lines of `s`.
pub fn lines(s: &str) -> (r: Vec<String>)
    ensures
        views(r@) == lines_of(s@),
{
    let mut pieces = split_on(s, '\n');
    proof {
        lemma_split_nonempty(s@, '\n');
    }
    let ghost all = split(s@, '\n');
    let last = match pieces.pop() {
        Some(last) => last,
        None => String::new(),
    };
    assert(last@ == all.last());
    assert(views(pieces@) =~= all.drop_last());
    let mut out: Vec<String> = Vec::new();
    let mut i: usize = 0;
    while i < pieces.len()
        invariant
            i <= pieces.len(),
            views(pieces@) == all.drop_last(),
            pieces.len() == all.len() - 1,
            out@.len() == i,
            forall|k: int| 0 <= k < i ==> (#[trigger] out@[k])@ == without_cr(all[k]),
        decreases pieces.len() - i,
    {
        assert(views(pieces@)[i as int] == pieces@[i as int]@);
        assert(all.drop_last()[i as int] == all[i as int]);
        let line = strip_cr(pieces[i].clone());
        out.push(line);
        i += 1;
    }
    let ghost ended = Seq::new((all.len() - 1) as nat, |i: int| without_cr(all[i]));
    assert(views(out@) =~= ended);
    if last.as_str().is_empty() {
        out
    } else {
        let ghost before = out@;
        out.push(last);
        assert(views(out@) =~= views(before).push(last@));
        out
    }
}

} // verus!
