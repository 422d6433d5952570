//! Unsigned base-10 numerals without leading zeros.

use vstd::prelude::*;
use vstd::string::StringExecFns;

verus! {

/// The character that stands for the digit `d`, for `d` below ten.
pub open spec fn digit_char(d: nat) -> char {
    if d == 0 {
        '0'
    } else if d == 1 {
        '1'
    } else if d == 2 {
        '2'
    } else if d == 3 {
        '3'
    } else if d == 4 {
        '4'
    } else if d == 5 {
        '5'
    } else if d == 6 {
        '6'
    } else if d == 7 {
        '7'
    } else if d == 8 {
        '8'
    } else {
        '9'
    }
}

/// The numeral of `n` in base 10: most significant digit first, no sign, and no
/// leading zero (zero itself is the single character `0`).
pub open spec fn decimal(n: nat) -> Seq<char>
    decreases n,
{
    if n < 10 {
        seq![digit_char(n)]
    } else {
        decimal(n / 10).push(digit_char(n % 10))
    }
}

/// The one-character text of a single digit.
fn digit_text(d: u16) -> (text: &'static str)
    requires
        d < 10,
    ensures
        text@ == seq![digit_char(d as nat)],
{
    proof {
        reveal_strlit("0");
        reveal_strlit("1");
        reveal_strlit("2");
        reveal_strlit("3");
        reveal_strlit("4");
        reveal_strlit("5");
        reveal_strlit("6");
        reveal_strlit("7");
        reveal_strlit("8");
        reveal_strlit("9");
    }
    let text = if d == 0 {
        "0"
    } else if d == 1 {
        "1"
    } else if d == 2 {
        "2"
    } else if d == 3 {
        "3"
    } else if d == 4 {
        "4"
    } else if d == 5 {
        "5"
    } else if d == 6 {
        "6"
    } else if d == 7 {
        "7"
    } else if d == 8 {
        "8"
    } else {
        "9"
    };
    assert(text@ =~= seq![digit_char(d as nat)]);
    text
}

/// Appends the base-10 numeral of `n` to `out`.
pub fn append_decimal(out: &mut String, n: u16)
    ensures
        final(out)@ == old(out)@ + decimal(n as nat),
    decreases n,
{
    if n >= 10 {
        append_decimal(out, n / 10);
    }
    let ghost before = out@;
    out.append(digit_text(n % 10));
    proof {
        if n >= 10 {
            assert(out@ =~= old(out)@ + decimal((n / 10) as nat).push(digit_char((n % 10) as nat)));
        } else {
            assert(out@ =~= old(out)@ + seq![digit_char(n as nat)]);
        }
    }
}

/// The digit that a character stands for, if it is one of `0` to `9`.
pub open spec fn digit_value(c: char) -> Option<nat> {
    if c == '0' {
        Some(0)
    } else if c == '1' {
        Some(1)
    } else if c == '2' {
        Some(2)
    } else if c == '3' {
        Some(3)
    } else if c == '4' {
        Some(4)
    } else if c == '5' {
        Some(5)
    } else if c == '6' {
        Some(6)
    } else if c == '7' {
        Some(7)
    } else if c == '8' {
        Some(8)
    } else if c == '9' {
        Some(9)
    } else {
        None
    }
}

/// The number that a non-empty run of digits denotes in base 10, leading zeros
/// allowed. `None` for the empty text and for a text that holds anything else.
pub open spec fn digits_value(s: Seq<char>) -> Option<nat>
    decreases s.len(),
{
    if s.len() == 0 {
        None
    } else if s.len() == 1 {
        digit_value(s[0])
    } else {
        match (digits_value(s.drop_last()), digit_value(s.last())) {
            (Some(high), Some(low)) => Some(high * 10 + low),
            _ => None,
        }
    }
}

/// The number that a numeral denotes. A numeral is a run of digits without a
/// leading zero, so every number has exactly one.
pub open spec fn numeral_value(s: Seq<char>) -> Option<nat> {
    if s.len() > 1 && s[0] == '0' {
        None
    } else {
        digits_value(s)
    }
}

/// The number that a numeral denotes, if it is at most `max`.
pub open spec fn parse_number(s: Seq<char>, max: nat) -> Option<nat> {
    match numeral_value(s) {
        Some(value) => if value <= max {
            Some(value)
        } else {
            None
        },
        None => None,
    }
}

/// A numeral is never empty and holds digits only; from ten on it does not
/// start with a zero.
pub proof fn lemma_decimal_shape(n: nat)
    ensures
        decimal(n).len() >= 1,
        n >= 10 ==> decimal(n).len() >= 2 && decimal(n)[0] != '0',
        forall|i: int| 0 <= i < decimal(n).len() ==> digit_value(#[trigger] decimal(n)[i]) is Some,
    decreases n,
{
    if n >= 10 {
        lemma_decimal_shape(n / 10);
        let high = decimal(n / 10);
        assert(decimal(n)[0] == high[0]);
        if n / 10 < 10 {
            assert(high[0] == digit_char(n / 10));
        }
        assert forall|i: int| 0 <= i < decimal(n).len() implies digit_value(
            #[trigger] decimal(n)[i],
        ) is Some by {
            if i < high.len() {
                assert(decimal(n)[i] == high[i]);
            }
        }
    }
}

/// Reading a numeral gives back the number that was written.
pub proof fn lemma_numeral_of_decimal(n: nat)
    ensures
        numeral_value(decimal(n)) == Some(n),
    decreases n,
{
    lemma_decimal_shape(n);
    if n >= 10 {
        lemma_numeral_of_decimal(n / 10);
        lemma_decimal_shape(n / 10);
        let high = decimal(n / 10);
        assert(decimal(n).drop_last() =~= high);
        assert(decimal(n).last() == digit_char(n % 10));
        assert(digits_value(high) == Some(n / 10));
    }
}

/// Writing the number that a numeral denotes gives back the numeral.
pub proof fn lemma_decimal_of_numeral(s: Seq<char>)
    requires
        numeral_value(s) is Some,
    ensures
        decimal(numeral_value(s)->0) == s,
    decreases s.len(),
{
    if s.len() == 1 {
        assert(s =~= seq![s[0]]);
    } else {
        let high = s.drop_last();
        assert(high[0] == s[0]);
        assert(digits_value(high) is Some);
        if high.len() > 1 {
            lemma_digits_grow(high, 1);
        }
        lemma_decimal_of_numeral(high);
        let value = numeral_value(s)->0;
        assert(value / 10 == digits_value(high)->0);
        assert(digit_char(value % 10) == s.last());
        assert(decimal(value) =~= s);
    }
}

/// The digits read so far never denote more than the whole run does, and they
/// are digits if the whole run is.
pub proof fn lemma_digits_grow(s: Seq<char>, k: int)
    requires
        1 <= k <= s.len(),
        digits_value(s) is Some,
    ensures
        digits_value(s.take(k)) is Some,
        digits_value(s.take(k))->0 <= digits_value(s)->0,
    decreases s.len(),
{
    if k == s.len() {
        assert(s.take(k) =~= s);
    } else {
        lemma_digits_grow(s.drop_last(), k);
        assert(s.drop_last().take(k) =~= s.take(k));
    }
}

/// The digit that a character stands for.
fn digit_of(c: char) -> (digit: Option<u32>)
    ensures
        match digit_value(c) {
            Some(value) => digit == Some(value as u32),
            None => digit is None,
        },
{
    if c == '0' {
        Some(0)
    } else if c == '1' {
        Some(1)
    } else if c == '2' {
        Some(2)
    } else if c == '3' {
        Some(3)
    } else if c == '4' {
        Some(4)
    } else if c == '5' {
        Some(5)
    } else if c == '6' {
        Some(6)
    } else if c == '7' {
        Some(7)
    } else if c == '8' {
        Some(8)
    } else if c == '9' {
        Some(9)
    } else {
        None
    }
}

/// Reads the numeral that stands at `chars[start..end]`, if it denotes a number
/// of at most `max`. Nothing is read from a range that does not lie within
/// `chars`.
pub fn read_decimal(chars: &Vec<char>, start: usize, end: usize, max: u16) -> (number: Option<u16>)
    ensures
        start <= end <= chars.len() ==> match parse_number(
            chars@.subrange(start as int, end as int),
            max as nat,
        ) {
            Some(value) => number == Some(value as u16),
            None => number is None,
        },
        !(start <= end <= chars.len()) ==> number is None,
{
    if start >= end || end > chars.len() {
        return None;
    }
    let ghost s = chars@.subrange(start as int, end as int);
    if end - start > 1 && chars[start] == '0' {
        return None;
    }
    let mut value: u32 = 0;
    let mut i: usize = start;
    while i < end
        invariant
            start <= i <= end <= chars.len(),
            s == chars@.subrange(start as int, end as int),
            value <= max,
            i == start ==> value == 0,
            i > start ==> digits_value(s.take(i - start)) == Some(value as nat),
        decreases end - i,
    {
        let ghost read = s.take(i - start + 1);
        proof {
            assert(read.last() == chars@[i as int]);
            if i > start {
                assert(read.drop_last() =~= s.take(i - start));
            }
        }
        let digit = match digit_of(chars[i]) {
            Some(digit) => digit,
            None => {
                proof {
                    if digits_value(s) is Some {
                        lemma_digits_grow(s, i - start + 1);
                    }
                }
                return None;
            },
        };
        let next = value * 10 + digit;
        assert(digits_value(read) == Some(next as nat));
        if next > max as u32 {
            proof {
                if digits_value(s) is Some {
                    lemma_digits_grow(s, i - start + 1);
                }
            }
            return None;
        }
        value = next;
        i = i + 1;
    }
    assert(s.take(end - start) =~= s);
    Some(value as u16)
}

} // verus!
