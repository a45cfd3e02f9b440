//! Currencies and monetary values.
use vstd::prelude::*;
use vstd::string::*;
use vstd::arithmetic::power2::*;

verus! {

/// The bit of a binary64 encoding that holds the sign.
pub const SIGN_BIT: u64 = 0x8000_0000_0000_0000;

/// The bits of a binary64 encoding that hold the fraction.
pub const FRACTION_MASK: u64 = 0x000F_FFFF_FFFF_FFFF;

/// The implicit leading bit of a normal binary64 number.
pub const HIDDEN_BIT: u64 = 0x0010_0000_0000_0000;

/// A currency, named by a three-letter code such as `CAD`.
#[derive(Clone, Copy, Debug, PartialEq, Eq, Structural)]
pub struct Currency {
    pub first: char,
    pub second: char,
    pub third: char,
}

impl Currency {
    /// The placeholder for "no currency".
    pub open spec fn null_spec() -> Currency {
        currency_of('N', 'A', 'N')
    }

    /// The placeholder for "no currency".
    pub fn null() -> (r: Currency)
        ensures
            r == Currency::null_spec(),
    {
        Currency { first: 'N', second: 'A', third: 'N' }
    }

    /// The currency with a three-letter code; `None` for a code of another length.
    pub fn from_code(code: &str) -> (r: Option<Currency>)
        ensures
            code@.len() == 3 <==> r is Some,
            r matches Some(c) ==> c == currency_of(code@[0], code@[1], code@[2]),
    {
        if code.unicode_len() != 3 {
            return None;
        }
        Some(Currency { first: code.get_char(0), second: code.get_char(1), third: code.get_char(2) })
    }

    /// The currency under which a sum of values with these currencies is
    /// reported: that of the last value, or `CAD` when there are none.
    pub fn of_sum(currencies: &Vec<Currency>) -> (r: Currency)
        ensures
            r == sum_currency(currencies@),
    {
        if currencies.len() == 0 {
            Currency { first: 'C', second: 'A', third: 'D' }
        } else {
            currencies[currencies.len() - 1]
        }
    }
}

/// The currency with this code.
pub open spec fn currency_of(first: char, second: char, third: char) -> Currency {
    Currency { first, second, third }
}

/// The currency of a sum over values in these currencies.
pub open spec fn sum_currency(cs: Seq<Currency>) -> Currency {
    if cs.len() == 0 {
        currency_of('C', 'A', 'D')
    } else {
        cs.last()
    }
}

/// An amount of money in one currency. The amount is held as the bit pattern
/// of an IEEE-754 binary64 number.
#[derive(Clone, Copy, Debug, PartialEq, Eq, Structural)]
pub struct Value {
    pub currency: Currency,
    pub amount: u64,
}

impl Value {
    pub fn new(currency: Currency, amount: u64) -> (r: Value)
        ensures
            r.currency == currency,
            r.amount == amount,
    {
        Value { currency, amount }
    }

    /// Positive zero in a currency.
    pub fn zero(currency: Currency) -> (r: Value)
        ensures
            r.currency == currency,
            r.amount == 0,
    {
        Value { currency, amount: 0 }
    }

    /// The same amount with the opposite sign, in the same currency.
    pub fn negate(&self) -> (r: Value)
        ensures
            r.currency == self.currency,
            sign_of(r.amount) != sign_of(self.amount),
            magnitude_bits(r.amount) == magnitude_bits(self.amount),
    {
        let old_amount = self.amount;
        let amount = old_amount ^ SIGN_BIT;
        assert(amount >> 63 != old_amount >> 63) by (bit_vector)
            requires
                amount == old_amount ^ 0x8000_0000_0000_0000u64;
        assert(amount & 0x7FFF_FFFF_FFFF_FFFF == old_amount & 0x7FFF_FFFF_FFFF_FFFF) by (bit_vector)
            requires
                amount == old_amount ^ 0x8000_0000_0000_0000u64;
        Value { currency: self.currency, amount }
    }

    /// The amount rounded toward zero to whole units, as a cast of the
    /// binary64 number to `i128` gives it: saturating at the bounds of `i128`,
    /// zero for NaN.
    pub fn non_decimal(&self) -> (r: i128)
        ensures
            r == whole_units(self.amount),
    {
        let bits = self.amount;
        let e: u64 = (bits >> 52u64) & 0x7ffu64;
        let f: u64 = bits & FRACTION_MASK;
        let neg: bool = (bits >> 63u64) == 1;
        assert(e <= 0x7ff) by (bit_vector)
            requires
                e == (bits >> 52u64) & 0x7ffu64;
        assert(f <= 0x000F_FFFF_FFFF_FFFFu64) by (bit_vector)
            requires
                f == bits & 0x000F_FFFF_FFFF_FFFFu64;
        assert(bits >> 63u64 <= 1) by (bit_vector);
        if e == 2047 {
            if f != 0 {
                return 0;
            }
            return if neg { i128::MIN } else { i128::MAX };
        }
        if e < 1023 {
            return 0;
        }
        let m: u64 = f + HIDDEN_BIT;
        proof {
            lemma2_to64();
            lemma2_to64_rest();
            assert(m == significand(bits));
        }
        if e >= 1150 {
            proof {
                let k = (e - 1075) as nat;
                lemma_pow2_adds(63, 64);
                lemma_pow2_adds(52, 75);
                if k > 75 {
                    lemma_pow2_strictly_increases(75, k);
                }
                assert(pow2(k) >= pow2(75));
                assert(m * pow2(k) >= pow2(52) * pow2(75)) by (nonlinear_arith)
                    requires
                        m >= pow2(52),
                        pow2(k) >= pow2(75);
                assert(truncated_magnitude(bits) >= pow2(127));
                assert(pow2(127) == i128::MAX + 1);
            }
            return if neg { i128::MIN } else { i128::MAX };
        }
        if e >= 1075 {
            let shift: u64 = e - 1075;
            let mut v: i128 = m as i128;
            let mut s: u64 = 0;
            proof {
                assert(pow2(0) == 1);
            }
            while s < shift
                invariant
                    s <= shift,
                    shift <= 74,
                    m < pow2(53),
                    v == m * pow2(s as nat),
                decreases shift - s,
            {
                proof {
                    lemma2_to64();
                    lemma2_to64_rest();
                    lemma_pow2_adds(53, s as nat);
                    if 53 + s < 126 {
                        lemma_pow2_strictly_increases((53 + s) as nat, 126);
                    }
                    lemma_pow2_unfold(127);
                    lemma_pow2_adds(63, 64);
                    lemma_pow2_unfold((s + 1) as nat);
                    lemma_pow2_pos(s as nat);
                    assert(m * pow2(s as nat) < pow2(53) * pow2(s as nat)) by (nonlinear_arith)
                        requires
                            m < pow2(53),
                            pow2(s as nat) > 0;
                    assert(m * pow2((s + 1) as nat) == 2 * (m * pow2(s as nat))) by (nonlinear_arith)
                        requires
                            pow2((s + 1) as nat) == 2 * pow2(s as nat);
                    assert(pow2((53 + s) as nat) <= pow2(126));
                    assert(v < pow2(126));
                    assert(pow2(127) == i128::MAX + 1);
                    assert(v >= 0) by (nonlinear_arith)
                        requires
                            v == m * pow2(s as nat);
                }
                v = v * 2;
                s = s + 1;
            }
            proof {
                lemma_pow2_adds(53, shift as nat);
                if 53 + shift < 127 {
                    lemma_pow2_strictly_increases((53 + shift) as nat, 127);
                }
                lemma_pow2_adds(63, 64);
                assert(m * pow2(shift as nat) <= pow2(53) * pow2(shift as nat)) by (nonlinear_arith)
                    requires
                        m < pow2(53);
            }
            return if neg { -v } else { v };
        }
        let shift: u64 = 1075 - e;
        let v: u64 = m >> shift;
        proof {
            vstd::bits::lemma_u64_shr_is_div(m, shift);
            lemma_pow2_pos(shift as nat);
            assert(v <= m) by (nonlinear_arith)
                requires
                    v == m as nat / pow2(shift as nat),
                    pow2(shift as nat) > 0;
        }
        if neg {
            -(v as i128)
        } else {
            v as i128
        }
    }

    pub fn currency(&self) -> (r: Currency)
        ensures
            r == self.currency,
    {
        self.currency
    }

    pub fn amount(&self) -> (r: u64)
        ensures
            r == self.amount,
    {
        self.amount
    }
}

/// The sign bit of a binary64 encoding.
pub open spec fn sign_of(bits: u64) -> u64 {
    bits >> 63
}

/// The biased exponent of a binary64 encoding.
pub open spec fn exponent_field(bits: u64) -> int {
    ((bits >> 52u64) & 0x7ffu64) as int
}

/// The fraction of a binary64 encoding.
pub open spec fn fraction_field(bits: u64) -> int {
    (bits & 0x000F_FFFF_FFFF_FFFFu64) as int
}

/// The significand of a normal binary64 number, leading bit included.
pub open spec fn significand(bits: u64) -> int {
    pow2(52) + fraction_field(bits)
}

/// The magnitude of a finite binary64 number rounded down to a whole number.
pub open spec fn truncated_magnitude(bits: u64) -> int {
    let e = exponent_field(bits);
    if e < 1023 {
        0
    } else if e >= 1075 {
        significand(bits) * pow2((e - 1075) as nat)
    } else {
        significand(bits) / (pow2((1075 - e) as nat) as int)
    }
}

/// `x` held within the bounds of `i128`.
pub open spec fn clamp_i128(x: int) -> int {
    if x > i128::MAX {
        i128::MAX as int
    } else if x < i128::MIN {
        i128::MIN as int
    } else {
        x
    }
}

/// A binary64 number rounded toward zero to an `i128`, saturating, with NaN
/// taken as zero.
pub open spec fn whole_units(bits: u64) -> int {
    let e = exponent_field(bits);
    let negative = sign_of(bits) == 1;
    if e == 2047 && fraction_field(bits) != 0 {
        0
    } else if e == 2047 {
        if negative {
            i128::MIN as int
        } else {
            i128::MAX as int
        }
    } else if negative {
        clamp_i128(-truncated_magnitude(bits))
    } else {
        clamp_i128(truncated_magnitude(bits))
    }
}

/// A binary64 encoding without its sign bit.
pub open spec fn magnitude_bits(bits: u64) -> u64 {
    bits & 0x7FFF_FFFF_FFFF_FFFF
}


/// The decimal digit for `d`.
pub open spec fn digit_char(d: int) -> char {
    if d == 0 { '0' } else if d == 1 { '1' } else if d == 2 { '2' } else if d == 3 { '3' }
    else if d == 4 { '4' } else if d == 5 { '5' } else if d == 6 { '6' } else if d == 7 { '7' }
    else if d == 8 { '8' } else { '9' }
}

/// The decimal digits of `n`, without leading zeros.
pub open spec fn decimal(n: nat) -> Seq<char>
    decreases n,
{
    if n < 10 {
        seq![digit_char(n as int)]
    } else {
        decimal(n / 10).push(digit_char((n % 10) as int))
    }
}

/// The decimal digits of `n`, with a comma between groups of three.
pub open spec fn grouped(n: nat) -> Seq<char>
    decreases n,
{
    if n < 1000 {
        decimal(n)
    } else {
        grouped(n / 1000) + seq![
            ',',
            digit_char(((n % 1000) / 100) as int),
            digit_char(((n % 100) / 10) as int),
            digit_char((n % 10) as int),
        ]
    }
}

/// The display form of an amount: an optional minus sign, the whole units in
/// groups of three, two digits of cents and the currency code.
pub open spec fn display(negative: bool, units: nat, cents: nat, currency: Currency) -> Seq<char> {
    (if negative { seq!['-'] } else { Seq::empty() }) + grouped(units) + seq![
        '.',
        digit_char((cents / 10) as int),
        digit_char((cents % 10) as int),
        currency.first,
        currency.second,
        currency.third,
    ]
}

fn digit(d: u64) -> (c: char)
    requires
        d < 10,
    ensures
        c == digit_char(d as int),
{
    if d == 0 { '0' } else if d == 1 { '1' } else if d == 2 { '2' } else if d == 3 { '3' }
    else if d == 4 { '4' } else if d == 5 { '5' } else if d == 6 { '6' } else if d == 7 { '7' }
    else if d == 8 { '8' } else { '9' }
}

fn push_decimal(out: &mut Vec<char>, n: u64)
    ensures
        final(out)@ == old(out)@ + decimal(n as nat),
    decreases n,
{
    if n < 10 {
        out.push(digit(n));
        assert(final(out)@ =~= old(out)@ + decimal(n as nat));
    } else {
        push_decimal(out, n / 10);
        out.push(digit(n % 10));
        assert(final(out)@ =~= old(out)@ + decimal(n as nat));
    }
}

fn push_grouped(out: &mut Vec<char>, n: u64)
    ensures
        final(out)@ == old(out)@ + grouped(n as nat),
    decreases n,
{
    if n < 1000 {
        push_decimal(out, n);
    } else {
        push_grouped(out, n / 1000);
        out.push(',');
        out.push(digit((n % 1000) / 100));
        out.push(digit((n % 100) / 10));
        out.push(digit(n % 10));
        assert(final(out)@ =~= old(out)@ + grouped(n as nat));
    }
}

/// The display form of an amount whose magnitude has `units` whole units and
/// `cents` hundredths, such as `-338,224.91CAD`.
pub fn format_amount(negative: bool, units: u64, cents: u64, currency: Currency) -> (r: Vec<char>)
    requires
        cents < 100,
    ensures
        r@ == display(negative, units as nat, cents as nat, currency),
{
    let mut out: Vec<char> = Vec::new();
    if negative {
        out.push('-');
    }
    push_grouped(&mut out, units);
    out.push('.');
    out.push(digit(cents / 10));
    out.push(digit(cents % 10));
    out.push(currency.first);
    out.push(currency.second);
    out.push(currency.third);
    assert(out@ =~= display(negative, units as nat, cents as nat, currency));
    out
}

} // verus!
