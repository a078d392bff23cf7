//! Numbers, held without floating point.
//!
//! A `Number` is a JSON number literal, such as `5.0`, `-0.25` or `1e+21`. The
//! literal is what reaches the wire, letter for letter. Its value is the
//! decimal number that it spells, a coefficient times a power of ten, and
//! numbers are compared by that value, exactly.

use vstd::prelude::*;
use vstd::string::*;

verus! {

/// Ten to the power `n`.
pub open spec fn pow10(n: nat) -> nat
    decreases n,
{
    if n == 0 {
        1
    } else {
        10 * pow10((n - 1) as nat)
    }
}

/// A decimal number: `coefficient` times ten to the power `exponent`, negated
/// where `negative` is set.
pub struct Decimal {
    pub negative: bool,
    pub coefficient: nat,
    pub exponent: int,
}

impl Decimal {
    /// The coefficient with its sign.
    pub open spec fn signed_coefficient(self) -> int {
        if self.negative {
            -(self.coefficient as int)
        } else {
            self.coefficient as int
        }
    }

    /// `self <= other`, as numbers: both brought to the lesser of the two
    /// exponents, the coefficients decide.
    pub open spec fn le(self, other: Decimal) -> bool {
        let least = if self.exponent <= other.exponent {
            self.exponent
        } else {
            other.exponent
        };
        self.signed_coefficient() * pow10((self.exponent - least) as nat)
            <= other.signed_coefficient() * pow10((other.exponent - least) as nat)
    }
}

/// Whether `c` is one of the digits `0` to `9`.
pub open spec fn is_digit(c: char) -> bool {
    48 <= c as u32 <= 57
}

/// The value of a digit.
pub open spec fn digit_value(c: char) -> nat {
    (c as u32 - 48) as nat
}

/// The first position at or after `from` that holds no digit.
pub open spec fn digits_end(s: Seq<char>, from: int) -> int
    decreases s.len() - from,
{
    if 0 <= from < s.len() && is_digit(s[from]) {
        digits_end(s, from + 1)
    } else {
        from
    }
}

/// The number that results from writing the digits of `s` from `from` up to
/// `to` behind the digits of `start`.
pub open spec fn accumulate(start: nat, s: Seq<char>, from: int, to: int) -> nat
    decreases to - from,
{
    if from < to {
        accumulate(start, s, from, to - 1) * 10 + digit_value(s[to - 1])
    } else {
        start
    }
}

/// Whether `s` has the character `c` at the position `at`.
pub open spec fn has_char(s: Seq<char>, at: int, c: char) -> bool {
    0 <= at < s.len() && s[at] == c
}

/// Where the integer part begins: behind the minus sign, if there is one.
pub open spec fn integer_start(s: Seq<char>) -> int {
    if has_char(s, 0, '-') {
        1
    } else {
        0
    }
}

/// Where the integer part ends.
pub open spec fn integer_end(s: Seq<char>) -> int {
    digits_end(s, integer_start(s))
}

/// Where the fraction ends; where the integer part ends if there is none.
pub open spec fn fraction_end(s: Seq<char>) -> int {
    if has_char(s, integer_end(s), '.') {
        digits_end(s, integer_end(s) + 1)
    } else {
        integer_end(s)
    }
}

/// Whether an `e` or `E` follows the fraction.
pub open spec fn has_exponent(s: Seq<char>) -> bool {
    has_char(s, fraction_end(s), 'e') || has_char(s, fraction_end(s), 'E')
}

/// Where the digits of the exponent begin: behind the `e` and its sign.
pub open spec fn exponent_start(s: Seq<char>) -> int {
    let mark = fraction_end(s);
    if has_char(s, mark + 1, '+') || has_char(s, mark + 1, '-') {
        mark + 2
    } else {
        mark + 1
    }
}

/// The grammar of a JSON number: an optional minus sign; an integer part, one
/// digit or more, with no leading zero but for a lone `0`; optionally a point
/// and one digit or more; optionally `e` or `E`, an optional sign, and one
/// digit or more; and nothing behind.
pub open spec fn is_json_number(s: Seq<char>) -> bool {
    &&& integer_end(s) > integer_start(s)
    &&& has_char(s, integer_start(s), '0') ==> integer_end(s) == integer_start(s) + 1
    &&& has_char(s, integer_end(s), '.') ==> fraction_end(s) > integer_end(s) + 1
    &&& if has_exponent(s) {
        digits_end(s, exponent_start(s)) > exponent_start(s) && digits_end(s, exponent_start(s))
            == s.len()
    } else {
        fraction_end(s) == s.len()
    }
}

/// The digits of the integer part and of the fraction, read as one number.
pub open spec fn written_coefficient(s: Seq<char>) -> nat {
    let whole = accumulate(0, s, integer_start(s), integer_end(s));
    if has_char(s, integer_end(s), '.') {
        accumulate(whole, s, integer_end(s) + 1, fraction_end(s))
    } else {
        whole
    }
}

/// The number of digits behind the point.
pub open spec fn fraction_length(s: Seq<char>) -> nat {
    if has_char(s, integer_end(s), '.') {
        (fraction_end(s) - (integer_end(s) + 1)) as nat
    } else {
        0
    }
}

/// The exponent behind the `e`, without its sign; 0 where there is none.
pub open spec fn written_exponent(s: Seq<char>) -> nat {
    if has_exponent(s) {
        accumulate(0, s, exponent_start(s), digits_end(s, exponent_start(s)))
    } else {
        0
    }
}

/// The decimal number that a literal spells.
pub open spec fn literal_value(s: Seq<char>) -> Decimal {
    Decimal {
        negative: has_char(s, 0, '-'),
        coefficient: written_coefficient(s),
        exponent: if has_char(s, fraction_end(s) + 1, '-') {
            -(written_exponent(s) as int) - fraction_length(s)
        } else {
            written_exponent(s) - fraction_length(s)
        },
    }
}

/// The literals that this library holds: JSON numbers whose digits, read as
/// one number, fit 64 bits, and whose exponent, as written, fits 32.
pub open spec fn is_held(s: Seq<char>) -> bool {
    &&& is_json_number(s)
    &&& written_coefficient(s) <= u64::MAX
    &&& written_exponent(s) <= u32::MAX
}

/// A number: a JSON number literal and the value that it spells.
#[derive(Debug, PartialEq)]
pub struct Number {
    text: String,
    negative: bool,
    coefficient: u64,
    exponent: i128,
}

/// The number behind which the digits are written is the least that can
/// result.
pub proof fn lemma_accumulate_from(start: nat, s: Seq<char>, from: int, to: int)
    ensures
        start <= accumulate(start, s, from, to),
    decreases to - from,
{
    if from < to {
        lemma_accumulate_from(start, s, from, to - 1);
    }
}

/// The powers of ten are positive and grow.
pub proof fn lemma_pow10_grows(a: nat, b: nat)
    requires
        a <= b,
    ensures
        0 < pow10(a) <= pow10(b),
    decreases b,
{
    if b == 0 {
    } else if a == b {
        lemma_pow10_grows((a - 1) as nat, (b - 1) as nat);
    } else {
        lemma_pow10_grows(a, (b - 1) as nat);
    }
}

/// Ten to the power of a sum is the product of the powers.
pub proof fn lemma_pow10_adds(a: nat, b: nat)
    ensures
        pow10(a + b) == pow10(a) * pow10(b),
    decreases a,
{
    if a == 0 {
        assert(pow10(0) == 1);
        assert(1 * pow10(b) == pow10(b));
    } else {
        lemma_pow10_adds((a - 1) as nat, b);
        assert(((a + b) - 1) as nat == (a - 1) as nat + b);
        assert(pow10(a + b) == 10 * pow10(((a + b) - 1) as nat));
        assert(pow10(a) == 10 * pow10((a - 1) as nat));
        assert(10 * (pow10((a - 1) as nat) * pow10(b)) == (10 * pow10((a - 1) as nat)) * pow10(b))
            by (nonlinear_arith);
    }
}

/// Two numbers can be compared at any exponent that is at or below both of
/// theirs, not only at the lesser of the two.
pub proof fn lemma_le_at(a: Decimal, b: Decimal, exponent: int)
    requires
        exponent <= a.exponent,
        exponent <= b.exponent,
    ensures
        a.le(b) <==> a.signed_coefficient() * pow10((a.exponent - exponent) as nat)
            <= b.signed_coefficient() * pow10((b.exponent - exponent) as nat),
{
    let least = if a.exponent <= b.exponent {
        a.exponent
    } else {
        b.exponent
    };
    let pa = pow10((a.exponent - least) as nat);
    let pb = pow10((b.exponent - least) as nat);
    let scale = pow10((least - exponent) as nat);
    lemma_pow10_adds((a.exponent - least) as nat, (least - exponent) as nat);
    lemma_pow10_adds((b.exponent - least) as nat, (least - exponent) as nat);
    lemma_pow10_grows(0, (least - exponent) as nat);
    let x = a.signed_coefficient() * pa;
    let y = b.signed_coefficient() * pb;
    assert(x <= y <==> x * scale <= y * scale) by (nonlinear_arith)
        requires
            0 < scale,
    ;
    assert(x * scale == a.signed_coefficient() * (pa * scale)) by (nonlinear_arith)
        requires
            x == a.signed_coefficient() * pa,
    ;
    assert(y * scale == b.signed_coefficient() * (pb * scale)) by (nonlinear_arith)
        requires
            y == b.signed_coefficient() * pb,
    ;
}

/// Of two numbers, one is at or below the other.
pub proof fn lemma_le_total(a: Decimal, b: Decimal)
    ensures
        a.le(b) || b.le(a),
{
}

/// What is at or below a number that is at or below a third is at or below
/// the third.
pub proof fn lemma_le_transitive(a: Decimal, b: Decimal, c: Decimal)
    requires
        a.le(b),
        b.le(c),
    ensures
        a.le(c),
{
    let ab = if a.exponent <= b.exponent {
        a.exponent
    } else {
        b.exponent
    };
    let least = if ab <= c.exponent {
        ab
    } else {
        c.exponent
    };
    lemma_le_at(a, b, least);
    lemma_le_at(b, c, least);
    lemma_le_at(a, c, least);
}

/// Ten to the power 19 and 20: the former fits 64 bits, the latter does not.
pub proof fn lemma_pow10_values()
    ensures
        pow10(19) == 10_000_000_000_000_000_000,
        pow10(20) == 100_000_000_000_000_000_000,
{
    reveal_with_fuel(pow10, 21);
}

fn is_digit_char(c: char) -> (b: bool)
    ensures
        b == is_digit(c),
{
    let code: u32 = c as u32;
    48 <= code && code <= 57
}

fn char_at_is(s: &str, len: usize, at: usize, c: char) -> (b: bool)
    requires
        len == s@.len(),
    ensures
        b == has_char(s@, at as int, c),
{
    at < len && s.get_char(at) == c
}

/// Reads the digits from `from` on, behind the digits of `start`. The number
/// read is `None` where it does not fit 64 bits.
fn read_digits(s: &str, len: usize, from: usize, start: Option<u64>) -> (r: (usize, Option<u64>))
    requires
        len == s@.len(),
        from <= len,
    ensures
        r.0 == digits_end(s@, from as int),
        from <= r.0 <= len,
        match (start, r.1) {
            (Some(n), Some(v)) => v == accumulate(n as nat, s@, from as int, r.0 as int),
            (Some(n), None) => accumulate(n as nat, s@, from as int, r.0 as int) > u64::MAX,
            (None, _) => r.1 is None,
        },
{
    let mut i: usize = from;
    let mut value: Option<u64> = start;
    while i < len && is_digit_char(s.get_char(i))
        invariant
            len == s@.len(),
            from <= i <= len,
            digits_end(s@, i as int) == digits_end(s@, from as int),
            match (start, value) {
                (Some(n), Some(v)) => v == accumulate(n as nat, s@, from as int, i as int),
                (Some(n), None) => accumulate(n as nat, s@, from as int, i as int) > u64::MAX,
                (None, _) => value is None,
            },
        decreases len - i,
    {
        let digit: u64 = (s.get_char(i) as u32 - 48) as u64;
        value =
        match value {
            Some(v) => if v <= (u64::MAX - digit) / 10 {
                Some(v * 10 + digit)
            } else {
                None
            },
            None => None,
        };
        i = i + 1;
    }
    (i, value)
}

/// The parts of a literal that `literal_value` speaks of.
struct Parts {
    negative: bool,
    coefficient: u64,
    exponent: i128,
}

/// Reads a literal. `None` where it is none that this library holds.
fn read_literal(s: &str) -> (r: Option<Parts>)
    ensures
        r is Some <==> is_held(s@),
        r matches Some(p) ==> p.negative == literal_value(s@).negative && p.coefficient
            == literal_value(s@).coefficient && p.exponent == literal_value(s@).exponent
            && -0x2_0000_0000_0000_0000 <= p.exponent <= 0x2_0000_0000_0000_0000,
{
    let len: usize = s.unicode_len();
    let negative = char_at_is(s, len, 0, '-');
    let integer_start: usize = if negative {
        1
    } else {
        0
    };
    let (integer_end, whole) = read_digits(s, len, integer_start, Some(0));
    if integer_end == integer_start {
        return None;
    }
    if char_at_is(s, len, integer_start, '0') && integer_end != integer_start + 1 {
        return None;
    }
    let mut mark: usize = integer_end;
    let mut coefficient: Option<u64> = whole;
    let mut fraction_length: usize = 0;
    let ghost whole_value = accumulate(0, s@, integer_start as int, integer_end as int);
    if char_at_is(s, len, integer_end, '.') {
        let (end, all) = read_digits(s, len, integer_end + 1, whole);
        if end == integer_end + 1 {
            return None;
        }
        proof {
            if whole is None {
                lemma_accumulate_from(whole_value, s@, integer_end + 1, end as int);
            }
        }
        mark = end;
        coefficient = all;
        fraction_length = end - (integer_end + 1);
    }
    let mut written: Option<u64> = Some(0);
    let mut down = false;
    if char_at_is(s, len, mark, 'e') || char_at_is(s, len, mark, 'E') {
        down = char_at_is(s, len, mark + 1, '-');
        let start: usize = if down || char_at_is(s, len, mark + 1, '+') {
            mark + 2
        } else {
            mark + 1
        };
        if start > len {
            return None;
        }
        let (end, value) = read_digits(s, len, start, Some(0));
        if !(end > start && end == len) {
            return None;
        }
        written = value;
    } else {
        if mark != len {
            return None;
        }
    }
    match (coefficient, written) {
        (Some(c), Some(e)) => {
            if e > 0xFFFF_FFFF {
                None
            } else {
                let exponent: i128 = if down {
                    -(e as i128) - (fraction_length as i128)
                } else {
                    (e as i128) - (fraction_length as i128)
                };
                Some(Parts { negative, coefficient: c, exponent })
            }
        },
        _ => None,
    }
}

/// Ten to the power `n`, for the powers that fit 64 bits.
fn power_of_ten(n: u32) -> (r: u128)
    requires
        n <= 19,
    ensures
        r == pow10(n as nat),
        r <= 10_000_000_000_000_000_000,
{
    let mut r: u128 = 1;
    let mut i: u32 = 0;
    while i < n
        invariant
            0 <= i <= n <= 19,
            r == pow10(i as nat),
        decreases n - i,
    {
        proof {
            lemma_pow10_grows((i + 1) as nat, 19);
            lemma_pow10_values();
        }
        r = r * 10;
        i = i + 1;
    }
    proof {
        lemma_pow10_grows(n as nat, 19);
        lemma_pow10_values();
    }
    r
}

/// Compares two numbers that are not negative.
fn magnitude_le(c1: u64, e1: i128, c2: u64, e2: i128) -> (b: bool)
    requires
        -0x2_0000_0000_0000_0000 <= e1 <= 0x2_0000_0000_0000_0000,
        -0x2_0000_0000_0000_0000 <= e2 <= 0x2_0000_0000_0000_0000,
    ensures
        b == (Decimal { negative: false, coefficient: c1 as nat, exponent: e1 as int }).le(
            Decimal { negative: false, coefficient: c2 as nat, exponent: e2 as int },
        ),
{
    let ghost x = Decimal { negative: false, coefficient: c1 as nat, exponent: e1 as int };
    let ghost y = Decimal { negative: false, coefficient: c2 as nat, exponent: e2 as int };
    let ghost least = if e1 <= e2 {
        e1 as int
    } else {
        e2 as int
    };
    let ghost scale1 = pow10((e1 - least) as nat);
    let ghost scale2 = pow10((e2 - least) as nat);
    proof {
        lemma_pow10_grows(0, (e1 - least) as nat);
        lemma_pow10_grows(0, (e2 - least) as nat);
        lemma_pow10_values();
        assert(pow10(0) == 1);
        assert(x.le(y) == (c1 * scale1 <= c2 * scale2));
    }
    if c1 == 0 {
        proof {
            assert(0 * scale1 == 0);
            assert(0 <= c2 * scale2) by (nonlinear_arith)
                requires
                    0 <= c2,
                    0 < scale2,
            ;
        }
        true
    } else if c2 == 0 {
        proof {
            assert(0 * scale2 == 0);
            assert(0 < c1 * scale1) by (nonlinear_arith)
                requires
                    0 < c1,
                    0 < scale1,
            ;
        }
        false
    } else if e1 >= e2 {
        let d: i128 = e1 - e2;
        proof {
            assert(scale2 == 1);
            assert(c2 * scale2 == c2);
            assert(scale1 == pow10(d as nat));
        }
        if d > 19 {
            proof {
                lemma_pow10_grows(20, d as nat);
                assert(c1 * scale1 >= scale1) by (nonlinear_arith)
                    requires
                        1 <= c1,
                        0 < scale1,
                ;
            }
            false
        } else {
            let p: u128 = power_of_ten(d as u32);
            assert(c1 * p <= 0xFFFF_FFFF_FFFF_FFFF * 10_000_000_000_000_000_000)
                by (nonlinear_arith)
                requires
                    0 <= c1 <= 0xFFFF_FFFF_FFFF_FFFF,
                    0 <= p <= 10_000_000_000_000_000_000,
            ;
            (c1 as u128) * p <= (c2 as u128)
        }
    } else {
        let d: i128 = e2 - e1;
        proof {
            assert(scale1 == 1);
            assert(c1 * scale1 == c1);
            assert(scale2 == pow10(d as nat));
        }
        if d > 19 {
            proof {
                lemma_pow10_grows(20, d as nat);
                assert(c2 * scale2 >= scale2) by (nonlinear_arith)
                    requires
                        1 <= c2,
                        0 < scale2,
                ;
            }
            true
        } else {
            let p: u128 = power_of_ten(d as u32);
            assert(c2 * p <= 0xFFFF_FFFF_FFFF_FFFF * 10_000_000_000_000_000_000)
                by (nonlinear_arith)
                requires
                    0 <= c2 <= 0xFFFF_FFFF_FFFF_FFFF,
                    0 <= p <= 10_000_000_000_000_000_000,
            ;
            (c1 as u128) <= (c2 as u128) * p
        }
    }
}

impl Number {
    #[verifier::type_invariant]
    spec fn well_formed(self) -> bool {
        &&& is_held(self.text@)
        &&& self.negative == literal_value(self.text@).negative
        &&& self.coefficient == literal_value(self.text@).coefficient
        &&& self.exponent == literal_value(self.text@).exponent
        &&& -0x2_0000_0000_0000_0000 <= self.exponent <= 0x2_0000_0000_0000_0000
    }

    /// The literal.
    pub closed spec fn spec_text(self) -> Seq<char> {
        self.text@
    }

    /// The value that the literal spells.
    pub open spec fn spec_value(self) -> Decimal {
        literal_value(self.spec_text())
    }

    /// `self <= other`, by value.
    pub open spec fn spec_le(self, other: Number) -> bool {
        self.spec_value().le(other.spec_value())
    }

    /// Makes a number of a literal. `None` where the text is no JSON number,
    /// or one with more digits than this library holds (see `is_held`).
    pub fn new(text: String) -> (r: Option<Number>)
        ensures
            r is Some <==> is_held(text@),
            r matches Some(n) ==> n.spec_text() == text@,
    {
        match read_literal(text.as_str()) {
            Some(parts) => Some(
                Number {
                    text,
                    negative: parts.negative,
                    coefficient: parts.coefficient,
                    exponent: parts.exponent,
                },
            ),
            None => None,
        }
    }

    /// The literal.
    pub fn text(&self) -> (t: &str)
        ensures
            t@ == self.spec_text(),
            is_held(t@),
    {
        proof {
            use_type_invariant(self);
        }
        self.text.as_str()
    }

    /// Whether the literal has a minus sign. Zero can have one.
    pub fn is_negative(&self) -> (b: bool)
        ensures
            b == self.spec_value().negative,
    {
        proof {
            use_type_invariant(self);
        }
        self.negative
    }

    /// Whether the value is zero.
    pub fn is_zero(&self) -> (b: bool)
        ensures
            b == (self.spec_value().coefficient == 0),
    {
        proof {
            use_type_invariant(self);
        }
        self.coefficient == 0
    }

    /// Compares two numbers by value.
    pub fn le(&self, other: &Number) -> (b: bool)
        ensures
            b == self.spec_le(*other),
    {
        proof {
            use_type_invariant(self);
            use_type_invariant(other);
        }
        let ghost a = self.spec_value();
        let ghost b = other.spec_value();
        let ghost least = if a.exponent <= b.exponent {
            a.exponent
        } else {
            b.exponent
        };
        let ghost pa = pow10((a.exponent - least) as nat);
        let ghost pb = pow10((b.exponent - least) as nat);
        proof {
            lemma_pow10_grows(0, (a.exponent - least) as nat);
            lemma_pow10_grows(0, (b.exponent - least) as nat);
        }
        if self.negative && !other.negative {
            proof {
                assert(-(a.coefficient as int) * pa <= 0 <= b.coefficient * pb)
                    by (nonlinear_arith)
                    requires
                        0 <= a.coefficient,
                        0 <= b.coefficient,
                        0 < pa,
                        0 < pb,
                ;
            }
            true
        } else if !self.negative && other.negative {
            proof {
                assert((a.coefficient == 0 && b.coefficient == 0) <==> a.coefficient * pa <= -(
                b.coefficient as int) * pb) by (nonlinear_arith)
                    requires
                        0 <= a.coefficient,
                        0 <= b.coefficient,
                        0 < pa,
                        0 < pb,
                ;
            }
            self.coefficient == 0 && other.coefficient == 0
        } else if !self.negative {
            magnitude_le(self.coefficient, self.exponent, other.coefficient, other.exponent)
        } else {
            proof {
                assert(-(a.coefficient as int) * pa <= -(b.coefficient as int) * pb
                    <==> b.coefficient * pb <= a.coefficient * pa) by (nonlinear_arith);
            }
            magnitude_le(other.coefficient, other.exponent, self.coefficient, self.exponent)
        }
    }
}

impl Clone for Number {
    fn clone(&self) -> (r: Self)
        ensures
            r == *self,
    {
        proof {
            use_type_invariant(self);
        }
        Number {
            text: self.text.clone(),
            negative: self.negative,
            coefficient: self.coefficient,
            exponent: self.exponent,
        }
    }
}

} // verus!
