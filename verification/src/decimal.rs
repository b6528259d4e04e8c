//! Decimal numbers with any number of digits before and after the point.
//!
//! Numbers with a fractional part are kept as the digits that were written,
//! so that comparing two of them is exact.

use vstd::prelude::*;
use crate::chars::push_chars;
use crate::digits::{all_digits, nat_text, push_nat, lemma_nat_text};

verus! {

/// A decimal number: a sign, the digits before the point and the digits after it.
#[derive(Debug)]
pub struct Decimal {
    pub negative: bool,
    pub int_digits: Vec<char>,
    pub frac_digits: Vec<char>,
}

/// The mathematical content of a [`Decimal`].
pub struct DecimalView {
    pub negative: bool,
    pub int_digits: Seq<char>,
    pub frac_digits: Seq<char>,
}

impl View for Decimal {
    type V = DecimalView;

    open spec fn view(&self) -> DecimalView {
        DecimalView {
            negative: self.negative,
            int_digits: self.int_digits@,
            frac_digits: self.frac_digits@,
        }
    }
}

/// The digit at index `i`, and a zero past the end: a digit string stands for
/// the same fraction when zeros follow it.
pub open spec fn digit_at(s: Seq<char>, i: int) -> char {
    if 0 <= i < s.len() {
        s[i]
    } else {
        '0'
    }
}

/// Whether `a` comes before `b` when both are read from index `i` on, digit
/// by digit, the shorter one continued with zeros.
pub open spec fn padded_lt(a: Seq<char>, b: Seq<char>, i: int) -> bool
    decreases
        (if a.len() >= b.len() {
            a.len()
        } else {
            b.len()
        }) - i,
{
    if i < 0 || (i >= a.len() && i >= b.len()) {
        false
    } else if digit_at(a, i) != digit_at(b, i) {
        digit_at(a, i) < digit_at(b, i)
    } else {
        padded_lt(a, b, i + 1)
    }
}

pub open spec fn all_zero(s: Seq<char>) -> bool {
    forall|i: int| 0 <= i < s.len() ==> #[trigger] s[i] == '0'
}

impl DecimalView {
    /// Both parts hold digits only, and the part before the point is not
    /// empty and starts with a zero only where it is a single zero.
    pub open spec fn wf(self) -> bool {
        &&& self.int_digits.len() >= 1
        &&& all_digits(self.int_digits)
        &&& all_digits(self.frac_digits)
        &&& (self.int_digits[0] == '0' ==> self.int_digits.len() == 1)
    }

    pub open spec fn is_zero(self) -> bool {
        all_zero(self.int_digits) && all_zero(self.frac_digits)
    }

    /// All the digits, those before the point first.
    pub open spec fn digits(self) -> Seq<char> {
        self.int_digits + self.frac_digits
    }

    /// Whether the absolute value of `self` is below that of `other`.
    pub open spec fn magnitude_lt(self, other: DecimalView) -> bool {
        if self.int_digits.len() != other.int_digits.len() {
            self.int_digits.len() < other.int_digits.len()
        } else {
            padded_lt(self.digits(), other.digits(), 0)
        }
    }

    /// Whether `self` is below `other`.
    pub open spec fn lt(self, other: DecimalView) -> bool {
        if self.negative && !other.negative {
            !(self.is_zero() && other.is_zero())
        } else if !self.negative && other.negative {
            false
        } else if self.negative {
            other.magnitude_lt(self)
        } else {
            self.magnitude_lt(other)
        }
    }

    /// The number as it is written: a minus sign where it is negative, the
    /// digits before the point, and the point with the digits after it where
    /// there are any.
    pub open spec fn text(self) -> Seq<char> {
        (if self.negative {
            seq!['-']
        } else {
            Seq::<char>::empty()
        }) + self.int_digits + (if self.frac_digits.len() > 0 {
            seq!['.'] + self.frac_digits
        } else {
            Seq::<char>::empty()
        })
    }

    /// The number written with a fractional part in any case.
    pub open spec fn fraction_text(self) -> Seq<char> {
        (if self.negative {
            seq!['-']
        } else {
            Seq::<char>::empty()
        }) + self.int_digits + seq!['.'] + (if self.frac_digits.len() > 0 {
            self.frac_digits
        } else {
            seq!['0']
        })
    }
}

/// The decimal that an integer is read as where a decimal is expected.
pub open spec fn decimal_of_int(i: int) -> DecimalView {
    DecimalView {
        negative: i < 0,
        int_digits: nat_text((if i < 0 {
            -i
        } else {
            i
        }) as nat),
        frac_digits: Seq::empty(),
    }
}

impl Clone for Decimal {
    fn clone(&self) -> (r: Self)
        ensures
            r@ == self@,
    {
        Decimal {
            negative: self.negative,
            int_digits: self.int_digits.clone(),
            frac_digits: self.frac_digits.clone(),
        }
    }
}

impl Decimal {
    /// The decimal with the value of `v` and no fractional part.
    pub fn from_i32(v: i32) -> (r: Decimal)
        ensures
            r@ == decimal_of_int(v as int),
            r@.wf(),
    {
        let mut digits: Vec<char> = Vec::new();
        let magnitude: u64 = if v < 0 {
            (-(v as i64)) as u64
        } else {
            v as u64
        };
        push_nat(&mut digits, magnitude);
        proof {
            lemma_nat_text(magnitude as nat);
            assert(digits@ == nat_text(magnitude as nat));
        }
        Decimal { negative: v < 0, int_digits: digits, frac_digits: Vec::new() }
    }

    /// Whether every digit is a zero.
    pub fn is_zero(&self) -> (r: bool)
        ensures
            r == self@.is_zero(),
    {
        all_zero_digits(&self.int_digits) && all_zero_digits(&self.frac_digits)
    }

    /// Whether the absolute value of `self` is below that of `other`.
    pub fn magnitude_lt(&self, other: &Decimal) -> (r: bool)
        ensures
            r == self@.magnitude_lt(other@),
    {
        let n = self.int_digits.len();
        if n != other.int_digits.len() {
            return n < other.int_digits.len();
        }
        let ghost a = self@.digits();
        let ghost b = other@.digits();
        let mut i: usize = 0;
        while i < n
            invariant
                i <= n,
                n == self.int_digits.len(),
                n == other.int_digits.len(),
                a == self@.digits(),
                b == other@.digits(),
                padded_lt(a, b, 0) == padded_lt(a, b, i as int),
            decreases n - i,
        {
            let x = self.int_digits[i];
            let y = other.int_digits[i];
            assert(digit_at(a, i as int) == x);
            assert(digit_at(b, i as int) == y);
            if x != y {
                return x < y;
            }
            i = i + 1;
        }
        let fa = self.frac_digits.len();
        let fb = other.frac_digits.len();
        let longest = if fa >= fb {
            fa
        } else {
            fb
        };
        let mut j: usize = 0;
        while j < longest
            invariant
                j <= longest,
                fa == self.frac_digits.len(),
                fb == other.frac_digits.len(),
                longest == if fa >= fb {
                    fa
                } else {
                    fb
                },
                n == self.int_digits.len(),
                n == other.int_digits.len(),
                a == self@.digits(),
                b == other@.digits(),
                padded_lt(a, b, 0) == padded_lt(a, b, n + j),
            decreases longest - j,
        {
            let x = if j < fa {
                self.frac_digits[j]
            } else {
                '0'
            };
            let y = if j < fb {
                other.frac_digits[j]
            } else {
                '0'
            };
            assert(digit_at(a, n + j) == x);
            assert(digit_at(b, n + j) == y);
            if x != y {
                return x < y;
            }
            j = j + 1;
        }
        false
    }

    /// Whether `self` is below `other`.
    pub fn lt(&self, other: &Decimal) -> (r: bool)
        ensures
            r == self@.lt(other@),
    {
        if self.negative && !other.negative {
            !(self.is_zero() && other.is_zero())
        } else if !self.negative && other.negative {
            false
        } else if self.negative {
            other.magnitude_lt(self)
        } else {
            self.magnitude_lt(other)
        }
    }

    /// Appends the number as it is written.
    pub fn push_text(&self, out: &mut Vec<char>)
        ensures
            final(out)@ == old(out)@ + self@.text(),
    {
        if self.negative {
            out.push('-');
        }
        push_chars(out, &self.int_digits);
        if self.frac_digits.len() > 0 {
            out.push('.');
            push_chars(out, &self.frac_digits);
        }
    }

    /// Appends the number written with a fractional part in any case.
    pub fn push_fraction_text(&self, out: &mut Vec<char>)
        ensures
            final(out)@ == old(out)@ + self@.fraction_text(),
    {
        if self.negative {
            out.push('-');
        }
        push_chars(out, &self.int_digits);
        out.push('.');
        if self.frac_digits.len() > 0 {
            push_chars(out, &self.frac_digits);
        } else {
            out.push('0');
        }
    }
}

fn all_zero_digits(s: &Vec<char>) -> (r: bool)
    ensures
        r == all_zero(s@),
{
    let mut i: usize = 0;
    while i < s.len()
        invariant
            i <= s.len(),
            forall|k: int| 0 <= k < i ==> #[trigger] s@[k] == '0',
        decreases s.len() - i,
    {
        if s[i] != '0' {
            return false;
        }
        i = i + 1;
    }
    true
}

} // verus!
