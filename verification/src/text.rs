//! Texts: dotted paths, decimal numbers and joined strings.
use crate::json::keys_view;
use vstd::prelude::*;

verus! {

/// The parts of `s` between the separators `sep`, in order. A text without a
/// separator is its own single part, and an empty text has one empty part.
pub open spec fn split_on(s: Seq<char>, sep: char) -> Seq<Seq<char>>
    decreases s.len(),
{
    if s.len() == 0 {
        seq![Seq::<char>::empty()]
    } else {
        let before = split_on(s.drop_last(), sep);
        if s.last() == sep {
            before.push(Seq::<char>::empty())
        } else {
            before.update(before.len() - 1, before.last().push(s.last()))
        }
    }
}

/// A text has at least one part.
pub proof fn lemma_split_has_parts(s: Seq<char>, sep: char)
    ensures
        split_on(s, sep).len() >= 1,
    decreases s.len(),
{
    if s.len() > 0 {
        lemma_split_has_parts(s.drop_last(), sep);
    }
}

/// A text without a separator is its own single part.
pub proof fn lemma_split_plain(s: Seq<char>, sep: char)
    requires
        forall|i: int| 0 <= i < s.len() ==> s[i] != sep,
    ensures
        split_on(s, sep) == seq![s],
    decreases s.len(),
{
    if s.len() > 0 {
        lemma_split_plain(s.drop_last(), sep);
        assert(s.drop_last().push(s.last()) =~= s);
        assert(split_on(s, sep) =~= seq![s]);
    } else {
        assert(s =~= Seq::<char>::empty());
    }
}

/// The parts of two texts joined by a separator are the parts of the one,
/// then the parts of the other.
pub proof fn lemma_split_join(a: Seq<char>, b: Seq<char>, sep: char)
    ensures
        split_on(a + seq![sep] + b, sep) == split_on(a, sep) + split_on(b, sep),
    decreases b.len(),
{
    let joined = a + seq![sep] + b;
    if b.len() == 0 {
        assert(joined.drop_last() =~= a);
        assert(split_on(joined, sep) =~= split_on(a, sep) + split_on(b, sep));
    } else {
        lemma_split_join(a, b.drop_last(), sep);
        lemma_split_has_parts(b.drop_last(), sep);
        assert(joined.drop_last() =~= a + seq![sep] + b.drop_last());
        assert(joined.last() == b.last());
        assert(split_on(joined, sep) =~= split_on(a, sep) + split_on(b, sep));
    }
}

/// Splits a dotted path into its keys.
pub fn split_path(path: &str) -> (parts: Vec<String>)
    ensures
        keys_view(parts@) == split_on(path@, '.'),
        parts.len() >= 1,
{
    split(path, '.')
}

/// Splits a text at each separator `sep`.
pub fn split(path: &str, sep: char) -> (parts: Vec<String>)
    ensures
        keys_view(parts@) == split_on(path@, sep),
        parts.len() >= 1,
{
    let n = path.unicode_len();
    let mut parts: Vec<String> = Vec::new();
    let mut start: usize = 0;
    let mut i: usize = 0;
    assert(path@.take(0) =~= Seq::<char>::empty());
    assert(keys_view(parts@).push(path@.subrange(0, 0)) =~= seq![Seq::<char>::empty()]);
    while i < n
        invariant
            start <= i <= n,
            n == path@.len(),
            split_on(path@.take(i as int), sep) == keys_view(parts@).push(
                path@.subrange(start as int, i as int),
            ),
        decreases n - i,
    {
        let c = path.get_char(i);
        let ghost before = split_on(path@.take(i as int), sep);
        let ghost old_parts = keys_view(parts@);
        assert(path@.take(i + 1).drop_last() =~= path@.take(i as int));
        assert(path@.take(i + 1).last() == c);
        if c == sep {
            let part = String::from_str(path.substring_char(start, i));
            parts.push(part);
            assert(keys_view(parts@) =~= old_parts.push(path@.subrange(start as int, i as int)));
            start = i + 1;
            assert(path@.subrange(i + 1, i + 1) =~= Seq::<char>::empty());
        } else {
            assert(before.last().push(c) =~= path@.subrange(start as int, i + 1));
            assert(before.update(before.len() - 1, before.last().push(c)) =~= old_parts.push(
                path@.subrange(start as int, i + 1),
            ));
        }
        i = i + 1;
    }
    assert(path@.take(n as int) =~= path@);
    let ghost old_parts = keys_view(parts@);
    let part = String::from_str(path.substring_char(start, n));
    parts.push(part);
    assert(keys_view(parts@) =~= old_parts.push(path@.subrange(start as int, n as int)));
    parts
}

/// The character of a decimal digit.
pub open spec fn digit_char(d: nat) -> char {
    if d == 0 {
        '0'
    } else if d == 1 {
        '1'
    } else if d == 2 {
        '2'
    } else if d == 3 {
        '3'
    } else if d == 4 {
        '4'
    } else if d == 5 {
        '5'
    } else if d == 6 {
        '6'
    } else if d == 7 {
        '7'
    } else if d == 8 {
        '8'
    } else {
        '9'
    }
}

/// The decimal text of a number, without leading zeros.
pub open spec fn decimal_text(n: nat) -> Seq<char>
    decreases n,
{
    if n < 10 {
        seq![digit_char(n)]
    } else {
        decimal_text(n / 10).push(digit_char(n % 10))
    }
}

/// The text of one decimal digit.
fn digit_text(d: u64) -> (r: &'static str)
    requires
        d < 10,
    ensures
        r@ == seq![digit_char(d as nat)],
{
    proof {
        reveal_strlit("0");
        reveal_strlit("1");
        reveal_strlit("2");
        reveal_strlit("3");
        reveal_strlit("4");
        reveal_strlit("5");
        reveal_strlit("6");
        reveal_strlit("7");
        reveal_strlit("8");
        reveal_strlit("9");
    }
    let r = if d == 0 {
        "0"
    } else if d == 1 {
        "1"
    } else if d == 2 {
        "2"
    } else if d == 3 {
        "3"
    } else if d == 4 {
        "4"
    } else if d == 5 {
        "5"
    } else if d == 6 {
        "6"
    } else if d == 7 {
        "7"
    } else if d == 8 {
        "8"
    } else {
        "9"
    };
    assert(r@ =~= seq![digit_char(d as nat)]);
    r
}

/// Writes a number in decimal.
pub fn decimal(n: u64) -> (r: String)
    ensures
        r@ == decimal_text(n as nat),
    decreases n,
{
    if n < 10 {
        String::from_str(digit_text(n))
    } else {
        let front = decimal(n / 10);
        let r = front.concat(digit_text(n % 10));
        assert(r@ =~= decimal_text((n / 10) as nat).push(digit_char((n % 10) as nat)));
        r
    }
}

/// Joins two texts.
pub fn join(a: &str, b: &str) -> (r: String)
    ensures
        r@ == a@ + b@,
{
    String::from_str(a).concat(b)
}

/// The upper-case form that Unicode gives a character: one character or
/// several.
pub uninterp spec fn unicode_upper(c: char) -> Seq<char>;

/// The lower-case form that Unicode gives a text.
pub uninterp spec fn unicode_lower(s: Seq<char>) -> Seq<char>;

/// `char::to_uppercase`: the characters of the upper-case form, collected
/// into a text.
#[verifier::external_body]
pub(crate) fn upper_of(c: char) -> (r: String)
    ensures
        r@ == unicode_upper(c),
{
    c.to_uppercase().collect()
}

/// `str::to_lowercase`: the lower-case form of the text.
#[verifier::external_body]
pub(crate) fn lower_of(s: &str) -> (r: String)
    ensures
        r@ == unicode_lower(s@),
{
    s.to_lowercase()
}

/// Why a text is not a number.
#[derive(Clone, Copy, Debug, PartialEq, Eq, Structural)]
pub enum NumberError {
    /// The text is empty.
    Empty,
    /// A character is no digit.
    InvalidDigit,
    /// The number is beyond the limit.
    PosOverflow,
}

impl NumberError {
    /// The line that reports the error.
    pub open spec fn spec_text(self) -> Seq<char> {
        match self {
            NumberError::Empty => "cannot parse integer from empty string"@,
            NumberError::InvalidDigit => "invalid digit found in string"@,
            NumberError::PosOverflow => "number too large to fit in target type"@,
        }
    }

    /// The line that reports the error.
    pub fn text(self) -> (r: &'static str)
        ensures
            r@ == self.spec_text(),
    {
        match self {
            NumberError::Empty => "cannot parse integer from empty string",
            NumberError::InvalidDigit => "invalid digit found in string",
            NumberError::PosOverflow => "number too large to fit in target type",
        }
    }
}

/// True for the ten decimal digits.
pub open spec fn is_digit(c: char) -> bool {
    '0' <= c <= '9'
}

/// The number that the digits `s` write, read from the left, up to the limit
/// `max`: the first character that is no digit, or the first digit that takes
/// the number beyond the limit, decides the error.
pub open spec fn digits_value(s: Seq<char>, max: nat) -> Result<nat, NumberError>
    decreases s.len(),
{
    if s.len() == 0 {
        Ok(0)
    } else {
        match digits_value(s.drop_last(), max) {
            Err(e) => Err(e),
            Ok(v) => if !is_digit(s.last()) {
                Err(NumberError::InvalidDigit)
            } else if v * 10 + (s.last() as nat - '0' as nat) > max {
                Err(NumberError::PosOverflow)
            } else {
                Ok((v * 10 + (s.last() as nat - '0' as nat)) as nat)
            },
        }
    }
}

/// The number that a text writes in decimal, with or without a leading `+`,
/// up to the limit `max`.
pub open spec fn number_value(s: Seq<char>, max: nat) -> Result<nat, NumberError> {
    if s.len() == 0 {
        Err(NumberError::Empty)
    } else if s.len() == 1 && (s[0] == '+' || s[0] == '-') {
        Err(NumberError::InvalidDigit)
    } else if s[0] == '+' {
        digits_value(s.skip(1), max)
    } else {
        digits_value(s, max)
    }
}

/// Reads a number written in decimal, up to the limit `max`.
pub fn parse_number(text: &str, max: u64) -> (r: Result<u64, NumberError>)
    ensures
        match r {
            Ok(n) => number_value(text@, max as nat) == Ok::<nat, NumberError>(n as nat),
            Err(e) => number_value(text@, max as nat) == Err::<nat, NumberError>(e),
        },
{
    let n = text.unicode_len();
    if n == 0 {
        return Err(NumberError::Empty);
    }
    let first = text.get_char(0);
    if n == 1 && (first == '+' || first == '-') {
        return Err(NumberError::InvalidDigit);
    }
    let start: usize = if first == '+' {
        1
    } else {
        0
    };
    let ghost body = text@.skip(start as int);
    let mut value: u64 = 0;
    let mut i: usize = start;
    assert(body.take(0) =~= Seq::<char>::empty());
    assert(text@.skip(0) =~= text@);
    assert(number_value(text@, max as nat) == digits_value(body, max as nat));
    while i < n
        invariant
            start <= i <= n,
            n == text@.len(),
            body == text@.skip(start as int),
            number_value(text@, max as nat) == digits_value(body, max as nat),
            value <= max,
            digits_value(body.take(i - start), max as nat) == Ok::<nat, NumberError>(value as nat),
        decreases n - i,
    {
        let c = text.get_char(i);
        assert(body.take(i + 1 - start).drop_last() =~= body.take(i - start));
        assert(body.take(i + 1 - start).last() == c);
        if !(c >= '0' && c <= '9') {
            proof {
                lemma_digits_error_stays(body, i + 1 - start, max as nat);
            }
            return Err(NumberError::InvalidDigit);
        }
        let digit: u64 = (c as u32 - '0' as u32) as u64;
        if digit > max || value > (max - digit) / 10 {
            proof {
                if digit <= max {
                    assert(value * 10 + digit > max) by (nonlinear_arith)
                        requires
                            value > (max - digit) / 10,
                            digit <= max,
                    {
                    }
                }
                lemma_digits_error_stays(body, i + 1 - start, max as nat);
            }
            return Err(NumberError::PosOverflow);
        }
        assert(value * 10 + digit <= max) by (nonlinear_arith)
            requires
                value <= (max - digit) / 10,
                digit <= max,
        {
        }
        value = value * 10 + digit;
        i = i + 1;
    }
    assert(body.take(n - start) =~= body);
    Ok(value)
}

/// An error in a part of the digits is the error of all of them.
pub proof fn lemma_digits_error_stays(s: Seq<char>, n: int, max: nat)
    requires
        0 <= n <= s.len(),
        digits_value(s.take(n), max) is Err,
    ensures
        digits_value(s, max) == digits_value(s.take(n), max),
    decreases s.len() - n,
{
    if n < s.len() {
        assert(s.take(n + 1).drop_last() =~= s.take(n));
        lemma_digits_error_stays(s, n + 1, max);
    } else {
        assert(s.take(n) =~= s);
    }
}

} // verus!
