//! Numbers as decimal text: writing them, with and without padding, and
//! reading them back.

use vstd::prelude::*;
use vstd::string::*;

verus! {

/// The character of one decimal digit.
pub open spec fn spec_digit(d: int) -> char {
    if d == 0 {
        '0'
    } else if d == 1 {
        '1'
    } else if d == 2 {
        '2'
    } else if d == 3 {
        '3'
    } else if d == 4 {
        '4'
    } else if d == 5 {
        '5'
    } else if d == 6 {
        '6'
    } else if d == 7 {
        '7'
    } else if d == 8 {
        '8'
    } else {
        '9'
    }
}

/// Decimal digits of a number, most significant first, without padding.
pub open spec fn spec_decimal(n: nat) -> Seq<char>
    decreases n,
{
    if n < 10 {
        seq![spec_digit(n as int)]
    } else {
        spec_decimal(n / 10).push(spec_digit((n % 10) as int))
    }
}

/// Decimal digits of a number, filled with zeros on the left up to `width`
/// characters; a number with more digits is not cut.
pub open spec fn spec_padded(n: nat, width: nat) -> Seq<char> {
    let digits = spec_decimal(n);
    if digits.len() >= width {
        digits
    } else {
        Seq::new((width - digits.len()) as nat, |i: int| '0') + digits
    }
}

/// Decimal digits of an integer, with a minus sign in front of a negative one.
pub open spec fn spec_signed(n: int) -> Seq<char> {
    if n < 0 {
        seq!['-'] + spec_decimal((-n) as nat)
    } else {
        spec_decimal(n as nat)
    }
}

fn digit_text(d: u64) -> (text: &'static str)
    requires
        d < 10,
    ensures
        text@ == seq![spec_digit(d as int)],
{
    proof {
        reveal_strlit("0");
        reveal_strlit("1");
        reveal_strlit("2");
        reveal_strlit("3");
        reveal_strlit("4");
        reveal_strlit("5");
        reveal_strlit("6");
        reveal_strlit("7");
        reveal_strlit("8");
        reveal_strlit("9");
    }
    let text = if d == 0 {
        "0"
    } else if d == 1 {
        "1"
    } else if d == 2 {
        "2"
    } else if d == 3 {
        "3"
    } else if d == 4 {
        "4"
    } else if d == 5 {
        "5"
    } else if d == 6 {
        "6"
    } else if d == 7 {
        "7"
    } else if d == 8 {
        "8"
    } else {
        "9"
    };
    text
}

/// Appends the decimal digits of `n` to `out`.
pub fn push_decimal(out: &mut String, n: u64)
    ensures
        final(out)@ == old(out)@ + spec_decimal(n as nat),
    decreases n,
{
    if n >= 10 {
        push_decimal(out, n / 10);
    }
    out.append(digit_text(n % 10));
}

/// Ten to the power `k`.
pub open spec fn spec_pow10(k: nat) -> nat
    decreases k,
{
    if k == 0 {
        1
    } else {
        10 * spec_pow10((k - 1) as nat)
    }
}

/// A number below ten to the `k` has at most `k` digits.
pub proof fn lemma_decimal_len_bound(n: nat, k: nat)
    requires
        1 <= k,
        n < spec_pow10(k),
    ensures
        1 <= spec_decimal(n).len() <= k,
    decreases k,
{
    if n >= 10 {
        assert(spec_pow10(1) == 10) by {
            reveal_with_fuel(spec_pow10, 2);
        }
        lemma_decimal_len_bound(n / 10, (k - 1) as nat);
    }
}

/// Number of decimal digits of `n`.
pub fn decimal_len(n: u64) -> (len: usize)
    ensures
        len == spec_decimal(n as nat).len(),
        1 <= len <= 20,
{
    proof {
        assert(spec_pow10(20) == 100000000000000000000nat) by {
            reveal_with_fuel(spec_pow10, 21);
        }
        lemma_decimal_len_bound(n as nat, 20);
    }
    let mut len: usize = 1;
    let mut rest: u64 = n;
    while rest >= 10
        invariant
            1 <= len,
            spec_decimal(n as nat).len() == spec_decimal(rest as nat).len() + len - 1,
            spec_decimal(n as nat).len() <= 20,
            1 <= spec_decimal(rest as nat).len(),
        decreases rest,
    {
        rest = rest / 10;
        len = len + 1;
    }
    len
}

/// Appends the decimal digits of `n` to `out`, after as many zeros as bring
/// them to `width` characters.
pub fn push_padded(out: &mut String, n: u64, width: usize)
    ensures
        final(out)@ == old(out)@ + spec_padded(n as nat, width as nat),
{
    let len: usize = decimal_len(n);
    let mut filled: usize = len;
    while filled < width
        invariant
            len == spec_decimal(n as nat).len(),
            len <= filled,
            filled <= width || filled == len,
            out@ == old(out)@ + Seq::new((filled - len) as nat, |i: int| '0'),
        decreases width - filled,
    {
        let ghost before = out@;
        out.append("0");
        proof {
            reveal_strlit("0");
            assert(before + seq!['0'] =~= old(out)@ + Seq::new(
                (filled + 1 - len) as nat,
                |i: int| '0',
            ));
        }
        filled = filled + 1;
    }
    let ghost zeros = Seq::new((filled - len) as nat, |i: int| '0');
    push_decimal(out, n);
    proof {
        if len < width {
            assert(old(out)@ + zeros + spec_decimal(n as nat) =~= old(out)@ + (zeros
                + spec_decimal(n as nat)));
        }
    }
}

/// Appends the decimal digits of `n` to `out`, with a minus sign in front of
/// a negative number.
pub fn push_signed(out: &mut String, n: i64)
    ensures
        final(out)@ == old(out)@ + spec_signed(n as int),
{
    if n < 0 {
        out.append("-");
        proof {
            reveal_strlit("-");
        }
        let magnitude: u64 = if n == i64::MIN {
            9223372036854775808u64
        } else {
            (-n) as u64
        };
        push_decimal(out, magnitude);
    } else {
        push_decimal(out, n as u64);
    }
}

/// The value of one decimal digit; `None` for any other character.
pub open spec fn spec_digit_value(c: char) -> Option<nat> {
    if c == '0' {
        Some(0)
    } else if c == '1' {
        Some(1)
    } else if c == '2' {
        Some(2)
    } else if c == '3' {
        Some(3)
    } else if c == '4' {
        Some(4)
    } else if c == '5' {
        Some(5)
    } else if c == '6' {
        Some(6)
    } else if c == '7' {
        Some(7)
    } else if c == '8' {
        Some(8)
    } else if c == '9' {
        Some(9)
    } else {
        None
    }
}

/// The number that a row of decimal digits stands for, however long it is;
/// `None` where a character is no digit. The empty row stands for zero.
pub open spec fn spec_digits_value(text: Seq<char>) -> Option<nat>
    decreases text.len(),
{
    if text.len() == 0 {
        Some(0)
    } else {
        match (spec_digits_value(text.drop_last()), spec_digit_value(text.last())) {
            (Some(high), Some(low)) => Some(high * 10 + low),
            _ => None,
        }
    }
}

/// The number that a text stands for: a row of at least one decimal digit,
/// with or without a plus sign in front, whose value is that of a `u64`.
pub open spec fn spec_parse(text: Seq<char>) -> Option<u64> {
    let digits = if text.len() > 0 && text[0] == '+' {
        text.drop_first()
    } else {
        text
    };
    if digits.len() == 0 {
        None
    } else {
        match spec_digits_value(digits) {
            Some(value) => if value <= u64::MAX {
                Some(value as u64)
            } else {
                None
            },
            None => None,
        }
    }
}

/// A row of digits stands for no less than any row that it starts with.
pub proof fn lemma_digits_value_grows(text: Seq<char>, count: int)
    requires
        0 <= count <= text.len(),
        spec_digits_value(text) is Some,
    ensures
        spec_digits_value(text.take(count)) is Some,
        spec_digits_value(text.take(count))->0 <= spec_digits_value(text)->0,
    decreases text.len() - count,
{
    if count == text.len() {
        assert(text.take(count) =~= text);
    } else {
        assert(text.drop_last().take(count) =~= text.take(count));
        lemma_digits_value_grows(text.drop_last(), count);
    }
}

/// A row that stands for a number holds digits only.
pub proof fn lemma_digits_only(text: Seq<char>)
    requires
        spec_digits_value(text) is Some,
    ensures
        forall|k: int| 0 <= k < text.len() ==> spec_digit_value(#[trigger] text[k]) is Some,
    decreases text.len(),
{
    if text.len() > 0 {
        lemma_digits_only(text.drop_last());
        assert forall|k: int| 0 <= k < text.len() implies spec_digit_value(#[trigger] text[k])
            is Some by {
            if k < text.len() - 1 {
                assert(text[k] == text.drop_last()[k]);
            }
        }
    }
}

/// Reading gives back what was written: the digits of a number stand for
/// that number.
pub proof fn lemma_decimal_round_trip(n: nat)
    ensures
        spec_digits_value(spec_decimal(n)) == Some(n),
    decreases n,
{
    if n < 10 {
        let text = seq![spec_digit(n as int)];
        assert(spec_digits_value(text.drop_last()) == Some(0nat));
    } else {
        lemma_decimal_round_trip(n / 10);
        let text = spec_decimal(n);
        assert(text.drop_last() =~= spec_decimal(n / 10));
    }
}

/// Zeros in front of a row of digits do not change what it stands for.
pub proof fn lemma_zeros_in_front(zeros: nat, text: Seq<char>)
    ensures
        spec_digits_value(Seq::new(zeros, |i: int| '0') + text) == spec_digits_value(text),
    decreases text.len(), zeros,
{
    let front = Seq::new(zeros, |i: int| '0');
    if text.len() > 0 {
        lemma_zeros_in_front(zeros, text.drop_last());
        assert((front + text).drop_last() =~= front + text.drop_last());
    } else if zeros > 0 {
        let fewer = Seq::new((zeros - 1) as nat, |i: int| '0');
        lemma_zeros_in_front((zeros - 1) as nat, text);
        assert(front.drop_last() =~= fewer);
    }
}

/// The padded digits of a number stand for that number.
pub proof fn lemma_padded_round_trip(n: nat, width: nat)
    ensures
        spec_digits_value(spec_padded(n, width)) == Some(n),
{
    lemma_decimal_round_trip(n);
    let digits = spec_decimal(n);
    if digits.len() < width {
        lemma_zeros_in_front((width - digits.len()) as nat, digits);
    }
}

/// Two integers with the same signed text are the same.
pub proof fn lemma_signed_distinct(left: int, right: int)
    requires
        spec_signed(left) == spec_signed(right),
    ensures
        left == right,
{
    let left_size: nat = if left < 0 {
        (-left) as nat
    } else {
        left as nat
    };
    let right_size: nat = if right < 0 {
        (-right) as nat
    } else {
        right as nat
    };
    lemma_decimal_round_trip(left_size);
    lemma_decimal_round_trip(right_size);
    let minus = seq!['-'];
    if left < 0 && right < 0 {
        let a = spec_decimal((-left) as nat);
        let b = spec_decimal((-right) as nat);
        assert((minus + a).drop_first() =~= a);
        assert((minus + b).drop_first() =~= b);
    } else if left < 0 {
        lemma_digits_only(spec_decimal(right as nat));
        assert(spec_digit_value(spec_decimal(right as nat)[0]) is Some);
    } else if right < 0 {
        lemma_digits_only(spec_decimal(left as nat));
        assert(spec_digit_value(spec_decimal(left as nat)[0]) is Some);
    }
}

/// The signed text of an integer holds no character but digits and, in
/// front, the minus sign.
pub proof fn lemma_signed_characters(n: int)
    ensures
        forall|k: int|
            0 <= k < spec_signed(n).len() ==> spec_digit_value(#[trigger] spec_signed(n)[k])
                is Some || spec_signed(n)[k] == '-',
{
    let size: nat = if n < 0 {
        (-n) as nat
    } else {
        n as nat
    };
    lemma_decimal_round_trip(size);
    lemma_digits_only(spec_decimal(size));
    if n < 0 {
        let digits = spec_decimal((-n) as nat);
        assert forall|k: int| 0 <= k < spec_signed(n).len() implies spec_digit_value(
            #[trigger] spec_signed(n)[k],
        ) is Some || spec_signed(n)[k] == '-' by {
            if k > 0 {
                assert(spec_signed(n)[k] == digits[k - 1]);
            }
        }
    }
}

fn digit_value(c: char) -> (value: Option<u64>)
    ensures
        value is Some <==> spec_digit_value(c) is Some,
        value matches Some(d) ==> spec_digit_value(c) == Some(d as nat) && d <= 9,
{
    if c == '0' {
        Some(0)
    } else if c == '1' {
        Some(1)
    } else if c == '2' {
        Some(2)
    } else if c == '3' {
        Some(3)
    } else if c == '4' {
        Some(4)
    } else if c == '5' {
        Some(5)
    } else if c == '6' {
        Some(6)
    } else if c == '7' {
        Some(7)
    } else if c == '8' {
        Some(8)
    } else if c == '9' {
        Some(9)
    } else {
        None
    }
}

/// Reads a number from its decimal text.
pub fn parse_decimal(text: &str) -> (number: Option<u64>)
    ensures
        number == spec_parse(text@),
{
    let len: usize = text.unicode_len();
    let first: usize = if len > 0 && text.get_char(0) == '+' {
        1
    } else {
        0
    };
    if first == len {
        return None;
    }
    let ghost digits = text@.subrange(first as int, len as int);
    let mut value: u64 = 0;
    let mut at: usize = first;
    while at < len
        invariant
            first <= at <= len,
            len == text@.len(),
            digits == text@.subrange(first as int, len as int),
            digits == (if text@.len() > 0 && text@[0] == '+' {
                text@.drop_first()
            } else {
                text@
            }),
            digits.len() > 0,
            spec_digits_value(digits.take(at - first)) == Some(value as nat),
        decreases len - at,
    {
        let c = text.get_char(at);
        let ghost grown = digits.take(at - first + 1);
        proof {
            assert(grown.drop_last() =~= digits.take(at - first));
            assert(spec_digits_value(grown) == match spec_digit_value(c) {
                Some(low) => Some(value as nat * 10 + low),
                None => None,
            });
            if spec_digits_value(digits) is Some {
                lemma_digits_value_grows(digits, at - first + 1);
            }
        }
        match digit_value(c) {
            None => {
                return None;
            },
            Some(d) => {
                if value > (u64::MAX - d) / 10 {
                    return None;
                }
                value = value * 10 + d;
            },
        }
        at = at + 1;
    }
    assert(digits.take(at - first) =~= digits);
    Some(value)
}

} // verus!
