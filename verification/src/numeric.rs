//! The numbers that decimals denote, and the order of decimals as the
//! order of those numbers.

use vstd::prelude::*;
use crate::chars::is_digit;
use crate::datatype::{DataTypeView, DblTypeView};
use crate::decimal::{all_zero, decimal_of_int, digit_at, padded_lt, DecimalView};
use crate::digits::{all_digits, digit_value, digits_value, lemma_nat_text};

verus! {

/// The power of ten with exponent `n`.
pub open spec fn pow10(n: nat) -> nat
    decreases n,
{
    if n == 0 {
        1
    } else {
        10 * pow10((n - 1) as nat)
    }
}

/// `n` zeros.
pub open spec fn zeros(n: nat) -> Seq<char> {
    Seq::new(n, |i: int| '0')
}

/// The digits of a decimal with `places` digits behind the point: the
/// digits that it has, and zeros behind them.
pub open spec fn digits_to(d: DecimalView, places: nat) -> Seq<char> {
    d.int_digits + d.frac_digits + zeros((places - d.frac_digits.len()) as nat)
}

/// The number that a decimal denotes, times ten to the power of `places`:
/// an integer where the decimal has no more than `places` digits behind the
/// point.
pub open spec fn scaled(d: DecimalView, places: nat) -> int {
    if d.negative {
        -(digits_value(digits_to(d, places)) as int)
    } else {
        digits_value(digits_to(d, places)) as int
    }
}

pub proof fn lemma_pow10_grows(m: nat, n: nat)
    requires
        m <= n,
    ensures
        1 <= pow10(m) <= pow10(n),
    decreases n,
{
    if n == 0 {
    } else if m == n {
        lemma_pow10_grows((n - 1) as nat, (n - 1) as nat);
    } else {
        lemma_pow10_grows(m, (n - 1) as nat);
    }
}

/// A string of `n` digits denotes a number below ten to the power of `n`.
pub proof fn lemma_value_bound(s: Seq<char>)
    requires
        all_digits(s),
    ensures
        digits_value(s) < pow10(s.len()),
    decreases s.len(),
{
    if s.len() > 0 {
        let init = s.drop_last();
        assert forall|i: int| 0 <= i < init.len() implies is_digit(#[trigger] init[i]) by {
            assert(init[i] == s[i]);
        }
        lemma_value_bound(init);
        assert(is_digit(s.last()));
    }
}

/// What a digit string denotes, by its first digit and the digits behind it.
pub proof fn lemma_value_first(s: Seq<char>)
    requires
        all_digits(s),
        s.len() >= 1,
    ensures
        digits_value(s) == digit_value(s[0]) * pow10((s.len() - 1) as nat) + digits_value(
            s.drop_first(),
        ),
    decreases s.len(),
{
    let init = s.drop_last();
    let tail = s.drop_first();
    if s.len() == 1 {
        assert(init.len() == 0);
        assert(tail.len() == 0);
        assert(digits_value(init) == 0);
        assert(digits_value(tail) == 0);
        assert(s.last() == s[0]);
        assert(pow10(0) == 1);
        assert(digits_value(s) == digits_value(init) * 10 + digit_value(s.last()));
    } else {
        assert forall|i: int| 0 <= i < init.len() implies is_digit(#[trigger] init[i]) by {
            assert(init[i] == s[i]);
        }
        lemma_value_first(init);
        assert(init.drop_first() == tail.drop_last());
        assert(init[0] == s[0]);
        assert(tail.last() == s.last());
        let d = digit_value(s[0]);
        let p = pow10((s.len() - 2) as nat);
        let v = digits_value(init.drop_first());
        let last = digit_value(s.last());
        assert(pow10((s.len() - 1) as nat) == 10 * p);
        assert(digits_value(s) == digits_value(init) * 10 + last);
        assert(digits_value(init) == d * p + v);
        assert(digits_value(tail) == digits_value(tail.drop_last()) * 10 + last);
        assert((d * p + v) * 10 == d * (10 * p) + v * 10) by (nonlinear_arith);
    }
}

/// The digits of a string from index `i` on are digits.
pub proof fn lemma_skip_digits(s: Seq<char>, i: int)
    requires
        all_digits(s),
        0 <= i <= s.len(),
    ensures
        all_digits(s.skip(i)),
{
    assert forall|k: int| 0 <= k < s.skip(i).len() implies is_digit(#[trigger] s.skip(i)[k]) by {
        assert(s.skip(i)[k] == s[i + k]);
    }
}

/// For digit strings of one length, the order digit by digit is the order
/// of the numbers that they denote.
pub proof fn lemma_digitwise_order(x: Seq<char>, y: Seq<char>, i: int)
    requires
        all_digits(x),
        all_digits(y),
        x.len() == y.len(),
        0 <= i <= x.len(),
    ensures
        padded_lt(x, y, i) <==> digits_value(x.skip(i)) < digits_value(y.skip(i)),
    decreases x.len() - i,
{
    let xs = x.skip(i);
    let ys = y.skip(i);
    lemma_skip_digits(x, i);
    lemma_skip_digits(y, i);
    if i < x.len() {
        lemma_value_first(xs);
        lemma_value_first(ys);
        assert(xs.drop_first() == x.skip(i + 1));
        assert(ys.drop_first() == y.skip(i + 1));
        lemma_skip_digits(x, i + 1);
        lemma_skip_digits(y, i + 1);
        lemma_value_bound(x.skip(i + 1));
        lemma_value_bound(y.skip(i + 1));
        lemma_digitwise_order(x, y, i + 1);
        let p = pow10((x.len() - i - 1) as nat);
        let dx = digit_value(x[i]);
        let dy = digit_value(y[i]);
        assert(xs[0] == x[i]);
        assert(ys[0] == y[i]);
        assert(is_digit(x[i]) && is_digit(y[i]));
        if dx < dy {
            assert((dx + 1) * p <= dy * p) by (nonlinear_arith)
                requires
                    dx + 1 <= dy,
                    p >= 0,
            ;
            assert((dx + 1) * p == dx * p + p) by (nonlinear_arith);
        } else if dy < dx {
            assert((dy + 1) * p <= dx * p) by (nonlinear_arith)
                requires
                    dy + 1 <= dx,
                    p >= 0,
            ;
            assert((dy + 1) * p == dy * p + p) by (nonlinear_arith);
        }
    } else {
        assert(xs.len() == 0 && ys.len() == 0);
    }
}

/// Zeros behind the digits do not change the order digit by digit.
pub proof fn lemma_padding_keeps_order(a: Seq<char>, b: Seq<char>, m: nat, n: nat, i: int)
    requires
        0 <= i,
        a.len() + m == b.len() + n,
    ensures
        padded_lt(a, b, i) == padded_lt(a + zeros(m), b + zeros(n), i),
    decreases a.len() + m - i,
{
    let x = a + zeros(m);
    let y = b + zeros(n);
    if i < x.len() {
        assert(digit_at(x, i) == digit_at(a, i));
        assert(digit_at(y, i) == digit_at(b, i));
        lemma_padding_keeps_order(a, b, m, n, i + 1);
        if i >= a.len() && i >= b.len() {
            lemma_zeros_tie(x, y, i + 1);
        }
    }
}

/// From where both strings hold zeros only, neither is below the other.
proof fn lemma_zeros_tie(x: Seq<char>, y: Seq<char>, i: int)
    requires
        0 <= i,
        forall|k: int| i <= k ==> digit_at(x, k) == '0' && digit_at(y, k) == '0',
    ensures
        !padded_lt(x, y, i),
    decreases (if x.len() >= y.len() {
        x.len()
    } else {
        y.len()
    }) - i,
{
    if !(i >= x.len() && i >= y.len()) {
        lemma_zeros_tie(x, y, i + 1);
    }
}

/// A digit string denotes zero exactly where all its digits are zeros.
pub proof fn lemma_zero_value(s: Seq<char>)
    requires
        all_digits(s),
    ensures
        all_zero(s) <==> digits_value(s) == 0,
    decreases s.len(),
{
    if s.len() > 0 {
        let init = s.drop_last();
        assert forall|i: int| 0 <= i < init.len() implies is_digit(#[trigger] init[i]) by {
            assert(init[i] == s[i]);
        }
        lemma_zero_value(init);
        assert(is_digit(s.last()));
        if all_zero(s) {
            assert(s.last() == s[s.len() - 1]);
            assert forall|i: int| 0 <= i < init.len() implies #[trigger] init[i] == '0' by {
                assert(init[i] == s[i]);
            }
        }
        if digits_value(s) == 0 {
            assert forall|i: int| 0 <= i < s.len() implies #[trigger] s[i] == '0' by {
                if i < init.len() {
                    assert(init[i] == s[i]);
                }
            }
        }
    }
}

/// The digits of a well-formed decimal, with zeros behind them, are digits.
pub proof fn lemma_digits_to(d: DecimalView, places: nat)
    requires
        d.wf(),
        places >= d.frac_digits.len(),
    ensures
        all_digits(digits_to(d, places)),
        digits_to(d, places).len() == d.int_digits.len() + places,
        digits_to(d, places) == d.digits() + zeros((places - d.frac_digits.len()) as nat),
        digits_to(d, places)[0] == d.int_digits[0],
        d.is_zero() <==> digits_value(digits_to(d, places)) == 0,
{
    let all = digits_to(d, places);
    assert forall|i: int| 0 <= i < all.len() implies is_digit(#[trigger] all[i]) by {
        if i < d.int_digits.len() {
            assert(all[i] == d.int_digits[i]);
        } else if i < d.int_digits.len() + d.frac_digits.len() {
            assert(all[i] == d.frac_digits[i - d.int_digits.len()]);
        }
    }
    lemma_zero_value(all);
    if d.is_zero() {
        assert forall|i: int| 0 <= i < all.len() implies #[trigger] all[i] == '0' by {
            if i < d.int_digits.len() {
                assert(all[i] == d.int_digits[i]);
            } else if i < d.int_digits.len() + d.frac_digits.len() {
                assert(all[i] == d.frac_digits[i - d.int_digits.len()]);
            }
        }
    }
    if all_zero(all) {
        assert forall|i: int| 0 <= i < d.int_digits.len() implies #[trigger] d.int_digits[i]
            == '0' by {
            assert(all[i] == d.int_digits[i]);
        }
        assert forall|i: int| 0 <= i < d.frac_digits.len() implies #[trigger] d.frac_digits[i]
            == '0' by {
            assert(all[i + d.int_digits.len()] == d.frac_digits[i]);
        }
    }
}

/// A longer part before the point makes the greater number.
proof fn lemma_longer_is_greater(a: DecimalView, b: DecimalView, places: nat)
    requires
        a.wf(),
        b.wf(),
        places >= a.frac_digits.len(),
        places >= b.frac_digits.len(),
        a.int_digits.len() < b.int_digits.len(),
    ensures
        digits_value(digits_to(a, places)) < digits_value(digits_to(b, places)),
{
    let x = digits_to(a, places);
    let y = digits_to(b, places);
    lemma_digits_to(a, places);
    lemma_digits_to(b, places);
    lemma_value_bound(x);
    lemma_value_first(y);
    lemma_pow10_grows(x.len(), (y.len() - 1) as nat);
    let d = digit_value(y[0]);
    let p = pow10((y.len() - 1) as nat);
    assert(is_digit(y[0]));
    assert(d >= 1);
    assert(d * p >= p) by (nonlinear_arith)
        requires
            d >= 1,
            p >= 0,
    ;
}

/// The order of the absolute values of two decimals is the order of the
/// numbers that their digits denote.
pub proof fn lemma_magnitude_order(a: DecimalView, b: DecimalView, places: nat)
    requires
        a.wf(),
        b.wf(),
        places >= a.frac_digits.len(),
        places >= b.frac_digits.len(),
    ensures
        a.magnitude_lt(b) <==> digits_value(digits_to(a, places)) < digits_value(
            digits_to(b, places),
        ),
{
    let x = digits_to(a, places);
    let y = digits_to(b, places);
    lemma_digits_to(a, places);
    lemma_digits_to(b, places);
    if a.int_digits.len() < b.int_digits.len() {
        lemma_longer_is_greater(a, b, places);
    } else if a.int_digits.len() > b.int_digits.len() {
        lemma_longer_is_greater(b, a, places);
    } else {
        lemma_padding_keeps_order(
            a.digits(),
            b.digits(),
            (places - a.frac_digits.len()) as nat,
            (places - b.frac_digits.len()) as nat,
            0,
        );
        lemma_digitwise_order(x, y, 0);
        assert(x.skip(0) == x);
        assert(y.skip(0) == y);
    }
}

/// The order of decimals: one decimal is below another exactly where the
/// number that it denotes is below the number that the other denotes. The
/// numbers are compared as integers, both times ten to the same power.
pub proof fn law_decimal_order(a: DecimalView, b: DecimalView, places: nat)
    requires
        a.wf(),
        b.wf(),
        places >= a.frac_digits.len(),
        places >= b.frac_digits.len(),
    ensures
        a.lt(b) <==> scaled(a, places) < scaled(b, places),
{
    lemma_digits_to(a, places);
    lemma_digits_to(b, places);
    lemma_magnitude_order(a, b, places);
    lemma_magnitude_order(b, a, places);
}

/// The decimal that an integer is read as denotes that integer.
pub proof fn law_decimal_of_int(v: int)
    ensures
        decimal_of_int(v).wf(),
        scaled(decimal_of_int(v), 0) == v,
{
    let magnitude = (if v < 0 {
        -v
    } else {
        v
    }) as nat;
    lemma_nat_text(magnitude);
    let d = decimal_of_int(v);
    assert(digits_to(d, 0) =~= d.int_digits);
}

/// Range consistency of decimals: a type of decimals with both bounds
/// passes its check exactly where the number of the lower bound is not
/// above the number of the upper bound.
pub proof fn law_decimal_range_consistency(t: DblTypeView, places: nat)
    requires
        t.min is Some,
        t.max is Some,
        t.min->0.wf(),
        t.max->0.wf(),
        places >= t.min->0.frac_digits.len(),
        places >= t.max->0.frac_digits.len(),
    ensures
        DataTypeView::Dbl(t).check() is Ok <==> scaled(t.min->0, places) <= scaled(
            t.max->0,
            places,
        ),
{
    law_decimal_order(t.max->0, t.min->0, places);
}

/// A decimal is within the bounds of a type exactly where its number is
/// between the numbers of the bounds.
pub proof fn law_decimal_holds(t: DblTypeView, val: DecimalView, places: nat)
    requires
        val.wf(),
        places >= val.frac_digits.len(),
        t.min matches Some(min) ==> min.wf() && places >= min.frac_digits.len(),
        t.max matches Some(max) ==> max.wf() && places >= max.frac_digits.len(),
    ensures
        t.holds(val) <==> (t.min matches Some(min) ==> scaled(min, places) <= scaled(val, places))
            && (t.max matches Some(max) ==> scaled(val, places) <= scaled(max, places)),
{
    if let Some(min) = t.min {
        law_decimal_order(val, min, places);
    }
    if let Some(max) = t.max {
        law_decimal_order(max, val, places);
    }
}

} // verus!
