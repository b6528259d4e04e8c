//! Literal values of the language.

use vstd::prelude::*;
use crate::decimal::{decimal_of_int, Decimal, DecimalView};

verus! {

/// A literal: an integer, a decimal number or a text.
#[derive(Debug)]
pub enum Literal {
    Int(i32),
    Dbl(Decimal),
    Str(String),
}

/// The mathematical content of a [`Literal`].
pub enum LiteralView {
    Int(i32),
    Dbl(DecimalView),
    Str(Seq<char>),
}

impl View for Literal {
    type V = LiteralView;

    open spec fn view(&self) -> LiteralView {
        match self {
            Literal::Int(v) => LiteralView::Int(*v),
            Literal::Dbl(d) => LiteralView::Dbl(d@),
            Literal::Str(s) => LiteralView::Str(s@),
        }
    }
}

impl LiteralView {
    /// The decimal that the literal stands for where one is expected: an
    /// integer counts as a decimal, a text does not.
    pub open spec fn as_decimal(self) -> Option<DecimalView> {
        match self {
            LiteralView::Int(v) => Some(decimal_of_int(v as int)),
            LiteralView::Dbl(d) => Some(d),
            LiteralView::Str(_) => None,
        }
    }

    pub open spec fn wf(self) -> bool {
        self matches LiteralView::Dbl(d) ==> d.wf()
    }
}

impl Clone for Literal {
    fn clone(&self) -> (r: Self)
        ensures
            r@ == self@,
    {
        match self {
            Literal::Int(v) => Literal::Int(*v),
            Literal::Dbl(d) => Literal::Dbl(d.clone()),
            Literal::Str(s) => Literal::Str(s.clone()),
        }
    }
}

impl Literal {
    pub fn is_str(&self) -> (r: bool)
        ensures
            r == (self@ is Str),
    {
        match self {
            Literal::Str(_) => true,
            _ => false,
        }
    }

    /// The text, where the literal is one.
    pub fn get_str(&self) -> (r: Option<String>)
        ensures
            match self@ {
                LiteralView::Str(s) => r is Some && r->0@ == s,
                _ => r is None,
            },
    {
        match self {
            Literal::Str(s) => Some(s.clone()),
            _ => None,
        }
    }

    pub fn is_i32(&self) -> (r: bool)
        ensures
            r == (self@ is Int),
    {
        match self {
            Literal::Int(_) => true,
            _ => false,
        }
    }

    /// The integer, where the literal is one.
    pub fn get_i32(&self) -> (r: Option<i32>)
        ensures
            r == match self@ {
                LiteralView::Int(v) => Some(v),
                _ => None::<i32>,
            },
    {
        match self {
            Literal::Int(v) => Some(*v),
            _ => None,
        }
    }

    /// Whether the literal can stand where a decimal is expected.
    pub fn is_f64(&self) -> (r: bool)
        ensures
            r == (self@.as_decimal() is Some),
    {
        match self {
            Literal::Dbl(_) | Literal::Int(_) => true,
            _ => false,
        }
    }

    /// The decimal that the literal stands for, where it stands for one.
    pub fn get_f64(&self) -> (r: Option<Decimal>)
        ensures
            match self@.as_decimal() {
                Some(d) => r is Some && r->0@ == d,
                None => r is None,
            },
    {
        match self {
            Literal::Dbl(d) => Some(d.clone()),
            Literal::Int(v) => Some(Decimal::from_i32(*v)),
            _ => None,
        }
    }
}

} // verus!
