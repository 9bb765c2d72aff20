//! Decimal text: writing unsigned integers out and reading them back.

use vstd::prelude::*;
use vstd::string::StringExecFns;

verus! {

/// The character of the decimal digit `d`.
pub open spec fn digit_char(d: nat) -> char
    recommends
        d < 10,
{
    if d == 0 {
        '0'
    } else if d == 1 {
        '1'
    } else if d == 2 {
        '2'
    } else if d == 3 {
        '3'
    } else if d == 4 {
        '4'
    } else if d == 5 {
        '5'
    } else if d == 6 {
        '6'
    } else if d == 7 {
        '7'
    } else if d == 8 {
        '8'
    } else {
        '9'
    }
}

/// `c` is one of the ten decimal digits.
pub open spec fn is_digit(c: char) -> bool {
    '0' <= c <= '9'
}

/// The number that the digit `c` stands for.
pub open spec fn digit_value(c: char) -> nat
    recommends
        is_digit(c),
{
    (c as nat - '0' as nat) as nat
}

/// The decimal notation of `n`, without sign or leading zeros.
pub open spec fn decimal_text(n: nat) -> Seq<char>
    decreases n,
{
    if n < 10 {
        seq![digit_char(n)]
    } else {
        decimal_text(n / 10).push(digit_char(n % 10))
    }
}

/// The one-character text of the digit `d`.
fn digit_str(d: u8) -> (text: &'static str)
    requires
        d < 10,
    ensures
        text@ == seq![digit_char(d as nat)],
{
    proof {
        reveal_strlit("0");
        reveal_strlit("1");
        reveal_strlit("2");
        reveal_strlit("3");
        reveal_strlit("4");
        reveal_strlit("5");
        reveal_strlit("6");
        reveal_strlit("7");
        reveal_strlit("8");
        reveal_strlit("9");
    }
    let text = if d == 0 {
        "0"
    } else if d == 1 {
        "1"
    } else if d == 2 {
        "2"
    } else if d == 3 {
        "3"
    } else if d == 4 {
        "4"
    } else if d == 5 {
        "5"
    } else if d == 6 {
        "6"
    } else if d == 7 {
        "7"
    } else if d == 8 {
        "8"
    } else {
        "9"
    };
    assert(text@ =~= seq![digit_char(d as nat)]);
    text
}

/// Appends the decimal notation of `n` to `out`.
pub fn append_decimal(out: &mut String, n: u128)
    ensures
        final(out)@ == old(out)@ + decimal_text(n as nat),
    decreases n,
{
    if n >= 10 {
        append_decimal(out, n / 10);
    }
    let d: u8 = (n % 10) as u8;
    out.append(digit_str(d));
    assert(out@ =~= old(out)@ + decimal_text(n as nat));
}

/// The number that a run of decimal digits denotes, most significant digit
/// first; the empty run denotes zero.
pub open spec fn digits_value(digits: Seq<char>) -> nat
    decreases digits.len(),
{
    if digits.len() == 0 {
        0
    } else {
        10 * digits_value(digits.drop_last()) + digit_value(digits.last())
    }
}

/// Every character of `text` is a decimal digit.
pub open spec fn all_digits(text: Seq<char>) -> bool {
    forall|i: int| 0 <= i < text.len() ==> is_digit(#[trigger] text[i])
}

/// `text` without the plus sign that may lead it.
pub open spec fn without_plus(text: Seq<char>) -> Seq<char> {
    if text.len() > 0 && text[0] == '+' {
        text.drop_first()
    } else {
        text
    }
}

/// What `text` denotes as an unsigned 64-bit integer: an optional plus sign,
/// then one or more decimal digits whose value fits. Anything else denotes
/// nothing.
pub open spec fn parse_u64_spec(text: Seq<char>) -> Option<u64> {
    let digits = without_plus(text);
    if digits.len() > 0 && all_digits(digits) && digits_value(digits) <= u64::MAX {
        Some(digits_value(digits) as u64)
    } else {
        None
    }
}

/// Decimal notation is made of digits alone, and of at least one.
pub proof fn lemma_decimal_text_is_digits(n: nat)
    ensures
        decimal_text(n).len() >= 1,
        all_digits(decimal_text(n)),
    decreases n,
{
    if n >= 10 {
        lemma_decimal_text_is_digits(n / 10);
    }
}

/// The digits that write a number out denote that number.
pub proof fn lemma_decimal_text_value(n: nat)
    ensures
        digits_value(decimal_text(n)) == n,
    decreases n,
{
    let text = decimal_text(n);
    assert(digit_value(digit_char(n % 10)) == n % 10);
    assert(text.last() == digit_char(n % 10));
    if n < 10 {
        assert(text.drop_last() =~= Seq::<char>::empty());
        assert(digits_value(text.drop_last()) == 0);
    } else {
        lemma_decimal_text_value(n / 10);
        assert(text.drop_last() =~= decimal_text(n / 10));
    }
}

/// Writing a number out and reading the text back gives the number again.
pub proof fn lemma_decimal_round_trip(n: u64)
    ensures
        parse_u64_spec(decimal_text(n as nat)) == Some(n),
{
    lemma_decimal_text_is_digits(n as nat);
    lemma_decimal_text_value(n as nat);
    assert(is_digit(decimal_text(n as nat)[0]));
}

/// Reading more digits never lowers the value read so far.
proof fn lemma_prefix_value_grows(digits: Seq<char>, k: int)
    requires
        0 <= k <= digits.len(),
    ensures
        digits_value(digits.take(k)) <= digits_value(digits),
    decreases digits.len() - k,
{
    if k == digits.len() {
        assert(digits.take(k) =~= digits);
    } else {
        lemma_prefix_value_grows(digits, k + 1);
        assert(digits.take(k + 1).drop_last() =~= digits.take(k));
    }
}

/// One more digit multiplies the value read so far by ten and adds the digit.
proof fn lemma_value_of_next_digit(digits: Seq<char>, k: int)
    requires
        0 <= k < digits.len(),
    ensures
        digits_value(digits.take(k + 1)) == 10 * digits_value(digits.take(k)) + digit_value(
            digits[k],
        ),
{
    assert(digits.take(k + 1).drop_last() =~= digits.take(k));
}

/// Reads `text` as an unsigned 64-bit integer in decimal notation.
pub fn parse_u64(text: &str) -> (parsed: Option<u64>)
    ensures
        parsed == parse_u64_spec(text@),
{
    let ghost digits = without_plus(text@);
    let ghost sign: int = text@.len() - digits.len();
    let mut value: u64 = 0;
    let mut any_digit: bool = false;
    let mut at_start: bool = true;
    for c in it: text.chars()
        invariant
            it.seq() == text@,
            digits == without_plus(text@),
            sign == text@.len() - digits.len(),
            at_start == (it.index() == 0),
            any_digit == (it.index() > sign),
            it.index() >= sign ==> all_digits(digits.take(it.index() - sign)),
            it.index() >= sign ==> value == digits_value(digits.take(it.index() - sign)),
            it.index() < sign ==> value == 0,
    {
        let ghost seen = it.index();
        if at_start && c == '+' {
            assert(digits.take(0).len() == 0);
        } else {
            let ghost done = seen - sign;
            assert(digits[done] == c);
            if !('0' <= c && c <= '9') {
                assert(!is_digit(digits[done]));
                return None;
            }
            let d: u64 = (c as u64) - ('0' as u64);
            assert(d == digit_value(c));
            proof {
                lemma_value_of_next_digit(digits, done);
            }
            if value > (u64::MAX - d) / 10 {
                proof {
                    lemma_prefix_value_grows(digits, done + 1);
                }
                return None;
            }
            value = value * 10 + d;
            any_digit = true;
            assert forall|i: int| 0 <= i < done + 1 implies is_digit(
                #[trigger] digits.take(done + 1)[i],
            ) by {
                if i < done {
                    assert(digits.take(done)[i] == digits.take(done + 1)[i]);
                }
            }
        }
        at_start = false;
    }
    assert(digits.take(digits.len() as int) =~= digits);
    if any_digit {
        Some(value)
    } else {
        None
    }
}

} // verus!
