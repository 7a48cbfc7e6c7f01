//! Decimal text for counts: message keys and subjects are numbered in
//! decimal, and counts given as text are read back from decimal.
use vstd::prelude::*;
use vstd::string::*;

verus! {

/// The character of a decimal digit.
pub open spec fn digit_char(d: nat) -> char {
    if d == 0 {
        '0'
    } else if d == 1 {
        '1'
    } else if d == 2 {
        '2'
    } else if d == 3 {
        '3'
    } else if d == 4 {
        '4'
    } else if d == 5 {
        '5'
    } else if d == 6 {
        '6'
    } else if d == 7 {
        '7'
    } else if d == 8 {
        '8'
    } else {
        '9'
    }
}

/// The decimal digits of `n`, most significant first, without leading
/// zeros (`0` is the single digit `0`).
pub open spec fn decimal_digits(n: nat) -> Seq<char>
    decreases n,
{
    if n < 10 {
        seq![digit_char(n)]
    } else {
        decimal_digits(n / 10) + seq![digit_char(n % 10)]
    }
}

/// Digit characters are decimal digits, and each stands for its number.
proof fn lemma_digit_char(d: nat)
    requires
        d < 10,
    ensures
        is_digit(digit_char(d)),
        digit_value(digit_char(d)) == d,
        (digit_char(d) == '0') <==> d == 0,
{
}

/// The decimal text of `n` denotes `n`: every character is a digit, the
/// digits read back give `n`, and there is no leading zero unless `n` is 0.
pub proof fn law_decimal_denotes(n: nat)
    ensures
        decimal_digits(n).len() > 0,
        forall|i: int| 0 <= i < decimal_digits(n).len() ==> is_digit(#[trigger] decimal_digits(n)[i]),
        digits_value(decimal_digits(n)) == n,
        (decimal_digits(n)[0] == '0') <==> n == 0,
    decreases n,
{
    if n < 10 {
        lemma_digit_char(n);
        let text = decimal_digits(n);
        assert(text.drop_last() =~= Seq::<char>::empty());
        assert(digits_value(text.drop_last()) == 0);
        assert(text.last() == digit_char(n));
        assert(digits_value(text) == digits_value(text.drop_last()) * 10 + digit_value(text.last()));
    } else {
        let init = decimal_digits(n / 10);
        let d = (n % 10) as nat;
        law_decimal_denotes(n / 10);
        lemma_digit_char(d);
        let text = decimal_digits(n);
        assert(text == init + seq![digit_char(d)]);
        assert(text.drop_last() =~= init);
        assert(text.last() == digit_char(d));
        assert(text[0] == init[0]);
        assert forall|i: int| 0 <= i < text.len() implies is_digit(#[trigger] text[i]) by {
            if i < init.len() {
                assert(text[i] == init[i]);
            }
        }
        assert(digits_value(text) == digits_value(init) * 10 + d);
        assert((n / 10) * 10 + n % 10 == n);
    }
}

/// Reading back the decimal text of a count gives the count.
pub proof fn law_decimal_reads_back(n: usize)
    ensures
        parsed_usize(decimal_digits(n as nat)) == Some(n),
{
    law_decimal_denotes(n as nat);
    let text = decimal_digits(n as nat);
    assert(is_digit(text[0]));
    assert(text[0] != '+');
    assert(unsigned_digits(text) == text);
}

fn digit_text(d: usize) -> (text: &'static str)
    requires
        d < 10,
    ensures
        text@ == seq![digit_char(d as nat)],
{
    if d == 0 {
        proof {
            reveal_strlit("0");
        }
        "0"
    } else if d == 1 {
        proof {
            reveal_strlit("1");
        }
        "1"
    } else if d == 2 {
        proof {
            reveal_strlit("2");
        }
        "2"
    } else if d == 3 {
        proof {
            reveal_strlit("3");
        }
        "3"
    } else if d == 4 {
        proof {
            reveal_strlit("4");
        }
        "4"
    } else if d == 5 {
        proof {
            reveal_strlit("5");
        }
        "5"
    } else if d == 6 {
        proof {
            reveal_strlit("6");
        }
        "6"
    } else if d == 7 {
        proof {
            reveal_strlit("7");
        }
        "7"
    } else if d == 8 {
        proof {
            reveal_strlit("8");
        }
        "8"
    } else {
        proof {
            reveal_strlit("9");
        }
        "9"
    }
}

/// `n` written in decimal, as `n.to_string()` writes it.
pub fn decimal(n: usize) -> (text: String)
    ensures
        text@ == decimal_digits(n as nat),
        parsed_usize(text@) == Some(n),
        digits_value(text@) == n,
        forall|i: int| 0 <= i < text@.len() ==> is_digit(#[trigger] text@[i]),
        text@.len() > 0 && ((text@[0] == '0') <==> n == 0),
    decreases n,
{
    proof {
        law_decimal_denotes(n as nat);
        law_decimal_reads_back(n);
    }
    if n < 10 {
        digit_text(n).to_owned()
    } else {
        let mut text = decimal(n / 10);
        text.append(digit_text(n % 10));
        text
    }
}

// ---------------------------------------------------------------------------
// Reading counts

pub open spec fn is_digit(c: char) -> bool {
    '0' <= c && c <= '9'
}

pub open spec fn digit_value(c: char) -> nat {
    (c as u32 - '0' as u32) as nat
}

/// The number that a string of decimal digits denotes.
pub open spec fn digits_value(digits: Seq<char>) -> nat
    decreases digits.len(),
{
    if digits.len() == 0 {
        0
    } else {
        digits_value(digits.drop_last()) * 10 + digit_value(digits.last())
    }
}

/// The text without one leading `+`, if it has one.
pub open spec fn unsigned_digits(text: Seq<char>) -> Seq<char> {
    if text.len() > 0 && text[0] == '+' {
        text.drop_first()
    } else {
        text
    }
}

/// An unsigned integer literal: an optional `+` and then one or more
/// decimal digits, nothing else (no sign `-`, no blanks, no `_`).
pub open spec fn is_unsigned_literal(text: Seq<char>) -> bool {
    let digits = unsigned_digits(text);
    &&& digits.len() > 0
    &&& forall|i: int| 0 <= i < digits.len() ==> is_digit(#[trigger] digits[i])
}

/// What reading `text` as a `usize` gives: the value of an unsigned
/// literal that is at most `usize::MAX`, and nothing otherwise.
pub open spec fn parsed_usize(text: Seq<char>) -> Option<usize> {
    if is_unsigned_literal(text) && digits_value(unsigned_digits(text)) <= usize::MAX {
        Some(digits_value(unsigned_digits(text)) as usize)
    } else {
        None
    }
}

/// How counts are read: a leading `+` or leading zeros leave the value as
/// it is; no text, a bare `+`, or a leading `-` reads as nothing; and a
/// number above `usize::MAX` reads as nothing.
pub proof fn law_parse_forms(n: nat, text: Seq<char>)
    ensures
        n <= usize::MAX ==> parsed_usize(seq!['+'] + decimal_digits(n)) == Some(n as usize),
        n <= usize::MAX ==> parsed_usize(seq!['0'] + decimal_digits(n)) == Some(n as usize),
        n > usize::MAX ==> parsed_usize(decimal_digits(n)) is None,
        parsed_usize(Seq::<char>::empty()) is None,
        parsed_usize(seq!['+']) is None,
        parsed_usize(seq!['-'] + text) is None,
{
    law_decimal_denotes(n);
    let d = decimal_digits(n);
    let plus = seq!['+'] + d;
    assert(plus.drop_first() =~= d);
    assert(unsigned_digits(plus) == d);
    let zero = seq!['0'] + d;
    assert(zero[0] == '0');
    assert(unsigned_digits(zero) == zero);
    assert forall|i: int| 0 <= i < zero.len() implies is_digit(#[trigger] zero[i]) by {
        if i > 0 {
            assert(zero[i] == d[i - 1]);
        }
    }
    lemma_leading_zero_value(d);
    assert(unsigned_digits(d) == d) by {
        assert(is_digit(d[0]));
    }
    let minus = seq!['-'] + text;
    assert(unsigned_digits(minus) == minus);
    assert(!is_digit(minus[0]));
    let lone = seq!['+'];
    assert(unsigned_digits(lone) =~= Seq::<char>::empty());
}

proof fn lemma_leading_zero_value(digits: Seq<char>)
    ensures
        digits_value(seq!['0'] + digits) == digits_value(digits),
    decreases digits.len(),
{
    let z = seq!['0'] + digits;
    if digits.len() == 0 {
        assert(z.drop_last() =~= Seq::<char>::empty());
        assert(digits_value(z.drop_last()) == 0);
        assert(digit_value(z.last()) == 0);
        assert(digits_value(digits) == 0);
    } else {
        lemma_leading_zero_value(digits.drop_last());
        assert(z.drop_last() =~= seq!['0'] + digits.drop_last());
        assert(z.last() == digits.last());
    }
}

proof fn lemma_digits_value_prefix(digits: Seq<char>, k: int)
    requires
        0 <= k <= digits.len(),
    ensures
        digits_value(digits.take(k)) <= digits_value(digits),
    decreases digits.len(),
{
    if k < digits.len() {
        lemma_digits_value_prefix(digits.drop_last(), k);
        assert(digits.drop_last().take(k) =~= digits.take(k));
    } else {
        assert(digits.take(k) =~= digits);
    }
}

proof fn lemma_literal_is_ascii(text: Seq<char>)
    requires
        is_unsigned_literal(text),
    ensures
        vstd::utf8::is_ascii_chars(text),
{
    let digits = unsigned_digits(text);
    assert forall|i: int| 0 <= i < text.len() implies '\0' <= #[trigger] text[i] <= '\u{7f}' by {
        if text.len() > 0 && text[0] == '+' {
            if i > 0 {
                assert(text[i] == digits[i - 1]);
                assert(is_digit(digits[i - 1]));
            }
        } else {
            assert(text[i] == digits[i]);
            assert(is_digit(digits[i]));
        }
    }
}

/// Reads a count, as `text.parse::<usize>().ok()` does: an optional `+`
/// followed by decimal digits whose value fits a `usize`.
pub fn parse_usize(text: &str) -> (value: Option<usize>)
    ensures
        value == parsed_usize(text@),
{
    if !text.is_ascii() {
        proof {
            if is_unsigned_literal(text@) {
                lemma_literal_is_ascii(text@);
            }
        }
        return None;
    }
    let bytes = text.as_bytes();
    proof {
        vstd::utf8::is_ascii_chars_encode_utf8(text@);
    }
    assert(bytes@.len() == text@.len());
    let len = bytes.len();
    let start: usize = if len > 0 && bytes[0] == 43u8 {
        1
    } else {
        0
    };
    let ghost digits = unsigned_digits(text@);
    assert(start == 1 ==> text@[0] == '+');
    assert(start == 0 ==> !(text@.len() > 0 && text@[0] == '+'));
    assert(digits =~= text@.skip(start as int));
    if start == len {
        return None;
    }
    let mut value: usize = 0;
    let mut i: usize = start;
    while i < len
        invariant
            start <= i <= len,
            len == bytes@.len(),
            len == text@.len(),
            start < len,
            digits == text@.skip(start as int),
            digits == unsigned_digits(text@),
            forall|j: int| 0 <= j < len ==> #[trigger] bytes@[j] == text@[j] as u8,
            vstd::utf8::is_ascii_chars(text@),
            forall|j: int| 0 <= j < i - start ==> is_digit(#[trigger] digits[j]),
            value == digits_value(digits.take(i - start)),
        decreases len - i,
    {
        let b = bytes[i];
        let ghost c = text@[i as int];
        assert(c == digits[i - start]);
        assert(b == c as u8);
        assert('\0' <= c <= '\u{7f}');
        if b < 48u8 || b > 57u8 {
            assert(!is_digit(c));
            assert(!is_unsigned_literal(text@));
            return None;
        }
        assert(is_digit(c));
        assert(digit_value(c) == (b - 48) as nat);
        let ghost next = digits.take(i - start + 1);
        assert(next.drop_last() =~= digits.take(i - start));
        assert(next.last() == c);
        match value.checked_mul(10) {
            None => {
                proof {
                    assert(digits_value(next) > usize::MAX);
                    if is_unsigned_literal(text@) {
                        lemma_digits_value_prefix(digits, i - start + 1);
                    }
                }
                return None;
            },
            Some(tens) => match tens.checked_add((b - 48u8) as usize) {
                None => {
                    proof {
                        assert(digits_value(next) > usize::MAX);
                        if is_unsigned_literal(text@) {
                            lemma_digits_value_prefix(digits, i - start + 1);
                        }
                    }
                    return None;
                },
                Some(v) => {
                    value = v;
                },
            },
        }
        i += 1;
    }
    assert(digits.take(len - start) =~= digits);
    assert(is_unsigned_literal(text@));
    Some(value)
}

} // verus!
