//! Decimal numerals, compared with integers.
//!
//! A number that is no integer of 64 bits is held as its numeral: digits,
//! with a minus sign in front where the number is negative, with a point
//! among the digits where it has a fraction, and with `e` and an exponent
//! behind them where it is written in powers of ten. How such a number lies
//! to an integer bound is decided here on the numeral itself, exactly.

use crate::text::{
    all_digits, chars_of, decimal, digit, digits_value, i64_of, is_digit, occurs_at, parse_i64,
    pieces, signed_decimal, split_on, strip_leading, texts_of, without_prefix,
};
use vstd::prelude::*;

verus! {

/// Ten to the power `n`.
pub open spec fn pow10(n: nat) -> nat
    decreases n,
{
    if n == 0 {
        1
    } else {
        10 * pow10((n - 1) as nat)
    }
}

/// The most digits that a numeral may have before its exponent.
pub const MOST_DIGITS: usize = 36;

/// A decimal number: `units` times ten to the power `scale`, below zero where
/// `negative` is set.
pub struct Scaled {
    pub negative: bool,
    pub units: nat,
    pub scale: int,
}

/// The digits of a numeral without sign and exponent, and how many of them
/// stand behind the point: one digit or more, or one digit or more on each
/// side of one point.
pub open spec fn mantissa(text: Seq<char>) -> Option<(Seq<char>, nat)> {
    let parts = pieces(text, '.');
    if parts.len() == 1 && all_digits(parts[0]) {
        Some((parts[0], 0nat))
    } else if parts.len() == 2 && all_digits(parts[0]) && all_digits(parts[1]) {
        Some((parts[0] + parts[1], parts[1].len()))
    } else {
        None
    }
}

/// The exponent of a numeral, given the pieces of the numeral around `e`:
/// zero where there is one piece, the integer of 64 bits that the second
/// piece is a numeral of where there are two.
pub open spec fn exponent(halves: Seq<Seq<char>>) -> Option<int> {
    if halves.len() == 1 {
        Some(0int)
    } else if halves.len() == 2 {
        match i64_of(halves[1]) {
            Some(e) => Some(e as int),
            None => None,
        }
    } else {
        None
    }
}

/// The number that `text` is a numeral of; `None` where it is no numeral, or
/// has more than `MOST_DIGITS` digits before its exponent.
pub open spec fn scaled(text: Seq<char>) -> Option<Scaled> {
    let halves = pieces(text, 'e');
    let minus = seq!['-'];
    match (mantissa(without_prefix(halves[0], minus)), exponent(halves)) {
        (Some((digits, places)), Some(e)) => if digits.len() <= MOST_DIGITS {
            Some(
                Scaled {
                    negative: occurs_at(halves[0], 0, minus),
                    units: digits_value(digits),
                    scale: e - places,
                },
            )
        } else {
            None
        },
        _ => None,
    }
}

/// The units of a number, with its sign.
pub open spec fn signed_units(number: Scaled) -> int {
    if number.negative {
        -(number.units as int)
    } else {
        number.units as int
    }
}

/// Whether a number is less than `bound`.
pub open spec fn less_than(number: Scaled, bound: int) -> bool {
    if number.scale >= 0 {
        signed_units(number) * pow10(number.scale as nat) < bound
    } else {
        signed_units(number) < bound * pow10((-number.scale) as nat)
    }
}

/// Whether a number is greater than `bound`.
pub open spec fn greater_than(number: Scaled, bound: int) -> bool {
    if number.scale >= 0 {
        signed_units(number) * pow10(number.scale as nat) > bound
    } else {
        signed_units(number) > bound * pow10((-number.scale) as nat)
    }
}

/// Whether the number that `text` is a numeral of is less than `bound`;
/// `None` where `text` is no numeral.
pub open spec fn below(text: Seq<char>, bound: int) -> Option<bool> {
    match scaled(text) {
        Some(number) => Some(less_than(number, bound)),
        None => None,
    }
}

/// Whether the number that `text` is a numeral of is greater than `bound`;
/// `None` where `text` is no numeral.
pub open spec fn above(text: Seq<char>, bound: int) -> Option<bool> {
    match scaled(text) {
        Some(number) => Some(greater_than(number, bound)),
        None => None,
    }
}

/// A greater power of ten is no smaller number.
pub proof fn lemma_pow10_grows(a: nat, b: nat)
    requires
        a <= b,
    ensures
        1 <= pow10(a) <= pow10(b),
    decreases b,
{
    if a < b {
        lemma_pow10_grows(a, (b - 1) as nat);
    } else if a > 0 {
        lemma_pow10_grows((a - 1) as nat, (a - 1) as nat);
    }
}

/// Ten to the power `MOST_DIGITS`.
pub const LIMIT: i128 = 1_000_000_000_000_000_000_000_000_000_000_000_000i128;

proof fn lemma_limit()
    ensures
        pow10(MOST_DIGITS as nat) == LIMIT,
{
    assert(pow10(6) == 1_000_000) by {
        reveal_with_fuel(pow10, 7);
    }
    assert(pow10(12) == 1_000_000_000_000) by {
        lemma_pow10_sum(6, 6);
    }
    assert(pow10(24) == 1_000_000_000_000_000_000_000_000) by {
        lemma_pow10_sum(12, 12);
    }
    lemma_pow10_sum(24, 12);
}

/// Powers of ten multiply as their exponents add.
pub proof fn lemma_pow10_sum(a: nat, b: nat)
    ensures
        pow10(a + b) == pow10(a) * pow10(b),
    decreases b,
{
    if b > 0 {
        lemma_pow10_sum(a, (b - 1) as nat);
        assert(pow10(a + b) == 10 * pow10((a + b - 1) as nat));
        assert((a + b - 1) as nat == a + (b - 1) as nat);
        assert(10 * (pow10(a) * pow10((b - 1) as nat)) == pow10(a) * (10 * pow10((b - 1) as nat)))
            by (nonlinear_arith);
    } else {
        assert(pow10(a) * 1 == pow10(a)) by (nonlinear_arith);
    }
}

/// A text without the separator is one piece.
pub proof fn lemma_one_piece(text: Seq<char>, separator: char)
    requires
        forall|k: int| 0 <= k < text.len() ==> #[trigger] text[k] != separator,
    ensures
        pieces(text, separator) == seq![text],
    decreases text.len(),
{
    if text.len() == 0 {
        assert(text =~= Seq::<char>::empty());
    } else {
        let shorter = text.drop_last();
        lemma_one_piece(shorter, separator);
        let earlier = pieces(shorter, separator);
        assert(earlier.last().push(text.last()) =~= text);
        assert(earlier.drop_last().push(text) =~= seq![text]);
    }
}

/// The decimal numeral of a number is made of digits, and is a numeral of
/// that number.
pub proof fn lemma_decimal_is_numeral(n: nat)
    ensures
        all_digits(decimal(n)),
        digits_value(decimal(n)) == n,
    decreases n,
{
    if n < 10 {
        let one = seq![digit(n as int)];
        assert(one.drop_last() =~= Seq::<char>::empty());
        assert(digits_value(one.drop_last()) == 0);
        assert(one.last() == digit(n as int));
    } else {
        lemma_decimal_is_numeral(n / 10);
        let front = decimal(n / 10);
        let whole = front.push(digit((n % 10) as int));
        assert(whole.drop_last() =~= front);
        assert(whole.last() == digit((n % 10) as int));
        assert forall|k: int| 0 <= k < whole.len() implies is_digit(#[trigger] whole[k]) by {
            if k < front.len() {
                assert(whole[k] == front[k]);
            }
        }
    }
}

/// A number below ten to the power `k` has a decimal numeral of at most `k`
/// digits.
pub proof fn lemma_decimal_length(n: nat, k: nat)
    requires
        k >= 1,
        n < pow10(k),
    ensures
        decimal(n).len() <= k,
    decreases n,
{
    if n >= 10 {
        if k == 1 {
            assert(pow10(1) == 10) by {
                reveal_with_fuel(pow10, 2);
            }
        } else {
            lemma_decimal_length(n / 10, (k - 1) as nat);
        }
    }
}

/// An integer written in decimal digits is a numeral of itself: it lies to
/// a bound as the integer does.
pub proof fn lemma_integer_numeral(i: int, bound: int)
    requires
        -LIMIT < i < LIMIT,
    ensures
        below(signed_decimal(i), bound) == Some(i < bound),
        above(signed_decimal(i), bound) == Some(i > bound),
{
    let text = signed_decimal(i);
    let size: nat = if i < 0 {
        (-i) as nat
    } else {
        i as nat
    };
    let body = decimal(size);
    let minus = seq!['-'];
    lemma_decimal_is_numeral(size);
    lemma_limit();
    lemma_decimal_length(size, MOST_DIGITS as nat);
    assert forall|k: int| 0 <= k < text.len() implies #[trigger] text[k] != 'e' by {
        if i < 0 && k > 0 {
            assert(text[k] == body[k - 1]);
        }
    }
    lemma_one_piece(text, 'e');
    assert(pieces(text, 'e')[0] == text);
    if i < 0 {
        assert(text.subrange(0, 1) =~= minus);
        assert(text.skip(1) =~= body);
    } else {
        assert(is_digit(text[0]));
        assert(minus[0] == '-');
        assert(text.subrange(0, 1)[0] == text[0]);
    }
    assert(without_prefix(text, minus) == body);
    assert(occurs_at(text, 0, minus) == (i < 0));
    lemma_one_piece(body, '.');
    assert(pieces(body, '.')[0] == body);
    assert(mantissa(body) == Some((body, 0nat)));
    let number = Scaled { negative: i < 0, units: size, scale: 0 };
    assert(scaled(text) == Some(number));
    assert(signed_units(number) == i);
    assert(i * 1 == i) by (nonlinear_arith);
    assert(pow10(0) == 1);
}

/// A number within the limit as it is, a greater one as one more than the
/// limit, a smaller one as one less than the limit below zero.
pub open spec fn clamped(v: int) -> int {
    if v > LIMIT {
        LIMIT + 1
    } else if v < -LIMIT {
        -LIMIT - 1
    } else {
        v
    }
}

/// `x` times ten to the power `steps`, as far as the limit.
fn scale_up(x: i128, steps: i128) -> (y: i128)
    requires
        -LIMIT <= x <= LIMIT,
        steps >= 0,
    ensures
        y == clamped(x * pow10(steps as nat)),
{
    if x == 0 {
        assert(0 * pow10(steps as nat) == 0) by (nonlinear_arith);
        return 0;
    }
    let mut y: i128 = x;
    let mut i: i128 = 0;
    while i < steps
        invariant
            0 <= i <= steps,
            -LIMIT <= y <= LIMIT,
            y != 0,
            y * pow10((steps - i) as nat) == x * pow10(steps as nat),
        decreases steps - i,
    {
        let ghost rest = pow10((steps - i - 1) as nat);
        proof {
            lemma_pow10_grows(0, (steps - i - 1) as nat);
            assert(pow10((steps - i) as nat) == 10 * rest);
            assert(y * (10 * rest) == (y * 10) * rest) by (nonlinear_arith);
        }
        if y > LIMIT / 10 {
            assert((y * 10) * rest > LIMIT) by (nonlinear_arith)
                requires
                    y * 10 > LIMIT,
                    rest >= 1,
            ;
            return LIMIT + 1;
        }
        if y < -(LIMIT / 10) {
            assert((y * 10) * rest < -LIMIT) by (nonlinear_arith)
                requires
                    y * 10 < -LIMIT,
                    rest >= 1,
            ;
            return -LIMIT - 1;
        }
        y = y * 10;
        i += 1;
    }
    assert(y * 1 == y) by (nonlinear_arith);
    y
}

fn only_digits(text: &str) -> (ok: bool)
    ensures
        ok == all_digits(text@),
{
    let chars = chars_of(text);
    if chars.len() == 0 {
        return false;
    }
    let mut i: usize = 0;
    while i < chars.len()
        invariant
            chars@ == text@,
            i <= chars.len(),
            forall|k: int| 0 <= k < i ==> is_digit(#[trigger] text@[k]),
        decreases chars.len() - i,
    {
        if chars[i] < '0' || chars[i] > '9' {
            return false;
        }
        i += 1;
    }
    true
}

fn digits_number(text: &str) -> (value: u128)
    requires
        text@.len() <= MOST_DIGITS,
        forall|k: int| 0 <= k < text@.len() ==> is_digit(#[trigger] text@[k]),
    ensures
        value == digits_value(text@),
        value < LIMIT,
{
    let chars = chars_of(text);
    let mut value: u128 = 0;
    let mut i: usize = 0;
    assert(text@.take(0) =~= Seq::<char>::empty());
    while i < chars.len()
        invariant
            chars@ == text@,
            text@.len() <= MOST_DIGITS,
            forall|k: int| 0 <= k < text@.len() ==> is_digit(#[trigger] text@[k]),
            i <= chars.len(),
            value == digits_value(text@.take(i as int)),
            value < pow10(i as nat),
        decreases chars.len() - i,
    {
        proof {
            lemma_pow10_grows(i as nat, MOST_DIGITS as nat);
            lemma_limit();
            assert(text@.take(i + 1).drop_last() =~= text@.take(i as int));
        }
        let d: u128 = ((chars[i] as u32) - ('0' as u32)) as u128;
        value = value * 10 + d;
        i += 1;
    }
    proof {
        assert(text@.take(i as int) =~= text@);
        lemma_pow10_grows(i as nat, MOST_DIGITS as nat);
        lemma_limit();
    }
    value
}

/// A numeral read: its sign, its units and its scale.
struct Reading {
    negative: bool,
    units: u128,
    scale: i128,
}

impl Reading {
    spec fn number(&self) -> Scaled {
        Scaled { negative: self.negative, units: self.units as nat, scale: self.scale as int }
    }

    spec fn signed(&self) -> int {
        signed_units(self.number())
    }
}

fn read_mantissa(text: &str) -> (found: Option<(u128, usize)>)
    ensures
        match found {
            Some((units, places)) => mantissa(text@) matches Some((digits, behind))
                && digits.len() <= MOST_DIGITS && units == digits_value(digits) && places == behind
                && units < LIMIT && places <= MOST_DIGITS,
            None => mantissa(text@) matches Some((digits, _)) ==> digits.len() > MOST_DIGITS,
        },
{
    let parts = split_on(text, '.');
    assert(texts_of(parts@).len() == parts@.len());
    if parts.len() == 1 {
        assert(texts_of(parts@)[0] == parts@[0]@);
        let whole = parts[0].as_str();
        if !only_digits(whole) || whole.unicode_len() > MOST_DIGITS {
            return None;
        }
        Some((digits_number(whole), 0))
    } else if parts.len() == 2 {
        assert(texts_of(parts@)[0] == parts@[0]@);
        assert(texts_of(parts@)[1] == parts@[1]@);
        let whole = parts[0].as_str();
        let behind = parts[1].as_str();
        if !only_digits(whole) || !only_digits(behind) {
            return None;
        }
        let places = behind.unicode_len();
        if whole.unicode_len() > MOST_DIGITS || places > MOST_DIGITS - whole.unicode_len() {
            return None;
        }
        let mut joined = String::from_str(whole);
        joined.append(behind);
        Some((digits_number(joined.as_str()), places))
    } else {
        None
    }
}

fn read_numeral(text: &str) -> (found: Option<Reading>)
    ensures
        match found {
            Some(reading) => scaled(text@) == Some(reading.number()) && reading.units < LIMIT,
            None => scaled(text@) is None,
        },
{
    let halves = split_on(text, 'e');
    assert(texts_of(halves@).len() == halves@.len());
    if halves.len() == 0 || halves.len() > 2 {
        proof {
            lemma_pieces_some(text@, 'e');
        }
        return None;
    }
    assert(texts_of(halves@)[0] == halves@[0]@);
    let exponent: i64 = if halves.len() == 2 {
        assert(texts_of(halves@)[1] == halves@[1]@);
        match parse_i64(halves[1].as_str()) {
            Some(e) => e,
            None => {
                return None;
            },
        }
    } else {
        0
    };
    proof {
        reveal_strlit("-");
    }
    let front = chars_of(halves[0].as_str());
    let negative = front.len() > 0 && front[0] == '-';
    assert("-"@ =~= seq!['-']);
    assert(negative == occurs_at(halves@[0]@, 0, seq!['-'])) by {
        if front.len() > 0 {
            assert(front@.subrange(0, 1) =~= seq![front@[0]]);
            assert(seq![front@[0]][0] == front@[0]);
            assert(seq!['-'][0] == '-');
        }
    }
    let body = strip_leading(halves[0].as_str(), "-");
    match read_mantissa(body.as_str()) {
        Some((units, places)) => Some(
            Reading { negative, units, scale: (exponent as i128) - (places as i128) },
        ),
        None => None,
    }
}

/// A text has at least one piece.
pub proof fn lemma_pieces_some(text: Seq<char>, separator: char)
    ensures
        pieces(text, separator).len() >= 1,
    decreases text.len(),
{
    if text.len() > 0 {
        lemma_pieces_some(text.drop_last(), separator);
    }
}

/// Whether the number that `text` is a numeral of is less than `bound`.
pub fn numeral_below(text: &str, bound: i64) -> (found: Option<bool>)
    ensures
        found == below(text@, bound as int),
{
    match read_numeral(text) {
        None => None,
        Some(reading) => {
            let signed: i128 = if reading.negative {
                -(reading.units as i128)
            } else {
                reading.units as i128
            };
            if reading.scale >= 0 {
                Some(scale_up(signed, reading.scale) < bound as i128)
            } else {
                Some(signed < scale_up(bound as i128, -reading.scale))
            }
        },
    }
}

/// Whether the number that `text` is a numeral of is greater than `bound`.
pub fn numeral_above(text: &str, bound: i64) -> (found: Option<bool>)
    ensures
        found == above(text@, bound as int),
{
    match read_numeral(text) {
        None => None,
        Some(reading) => {
            let signed: i128 = if reading.negative {
                -(reading.units as i128)
            } else {
                reading.units as i128
            };
            if reading.scale >= 0 {
                Some(scale_up(signed, reading.scale) > bound as i128)
            } else {
                Some(signed > scale_up(bound as i128, -reading.scale))
            }
        },
    }
}

} // verus!
