//! The data types of columns: integers, decimals and texts, each with an
//! optional range and a mark that says whether a value may be absent.

use vstd::prelude::*;
use vstd::utf8::encode_utf8;
use crate::chars::string_of;
use crate::decimal::{Decimal, DecimalView};
use crate::digits::{int_text, nat_text, push_int, push_nat};
use crate::error::{ErrorView, SchemaError};
use crate::literal::{Literal, LiteralView};

verus! {

pub const INT_TYPE_NAME: &'static str = "int";

pub const DBL_TYPE_NAME: &'static str = "dbl";

pub const STR_TYPE_NAME: &'static str = "str";

/// Integers between `min` and `max`, both included; an absent bound does not bind.
#[derive(Clone, Copy, PartialEq, Eq, Structural, Debug)]
pub struct IntDataType {
    pub min: Option<i32>,
    pub max: Option<i32>,
    pub nullable: bool,
}

/// Decimals between `min` and `max`, both included; an absent bound does not bind.
#[derive(Debug)]
pub struct DblDataType {
    pub min: Option<Decimal>,
    pub max: Option<Decimal>,
    pub nullable: bool,
}

/// Texts whose length in bytes is between `min` and `max`, both included; an
/// absent bound does not bind.
#[derive(Clone, Copy, PartialEq, Eq, Structural, Debug)]
pub struct StrDataType {
    pub min: Option<usize>,
    pub max: Option<usize>,
    pub nullable: bool,
}

impl View for IntDataType {
    type V = IntDataType;

    open spec fn view(&self) -> IntDataType {
        *self
    }
}

impl View for StrDataType {
    type V = StrDataType;

    open spec fn view(&self) -> StrDataType {
        *self
    }
}

/// The mathematical content of a [`DblDataType`].
pub struct DblTypeView {
    pub min: Option<DecimalView>,
    pub max: Option<DecimalView>,
    pub nullable: bool,
}

impl View for DblDataType {
    type V = DblTypeView;

    open spec fn view(&self) -> DblTypeView {
        DblTypeView {
            min: match self.min {
                Some(d) => Some(d@),
                None => None,
            },
            max: match self.max {
                Some(d) => Some(d@),
                None => None,
            },
            nullable: self.nullable,
        }
    }
}

/// A data type of one of the three families.
#[derive(Debug)]
pub enum DataType {
    Int(IntDataType),
    Dbl(DblDataType),
    Str(StrDataType),
}

/// The mathematical content of a [`DataType`].
pub enum DataTypeView {
    Int(IntDataType),
    Dbl(DblTypeView),
    Str(StrDataType),
}

impl View for DataType {
    type V = DataTypeView;

    open spec fn view(&self) -> DataTypeView {
        match self {
            DataType::Int(t) => DataTypeView::Int(*t),
            DataType::Dbl(t) => DataTypeView::Dbl(t@),
            DataType::Str(t) => DataTypeView::Str(*t),
        }
    }
}

/// The length of a text: the number of bytes that it takes in UTF-8.
pub open spec fn text_len(s: Seq<char>) -> nat {
    encode_utf8(s).len()
}

impl IntDataType {
    /// Whether the lower bound is above the upper bound.
    pub open spec fn inverted(self) -> bool {
        self.min matches Some(min) && self.max matches Some(max) && min > max
    }

    /// Whether `val` is within the bounds.
    pub open spec fn holds(self, val: i32) -> bool {
        &&& self.min matches Some(min) ==> min <= val
        &&& self.max matches Some(max) ==> val <= max
    }

    /// Whether `lit` is a value of the type: an integer within the bounds.
    pub open spec fn admits(self, lit: LiteralView) -> bool {
        lit matches LiteralView::Int(v) && self.holds(v)
    }
}

impl DblTypeView {
    /// Whether the lower bound is above the upper bound.
    pub open spec fn inverted(self) -> bool {
        self.min matches Some(min) && self.max matches Some(max) && max.lt(min)
    }

    /// Whether `val` is within the bounds.
    pub open spec fn holds(self, val: DecimalView) -> bool {
        &&& self.min matches Some(min) ==> !val.lt(min)
        &&& self.max matches Some(max) ==> !max.lt(val)
    }

    /// Whether `lit` is a value of the type: a decimal within the bounds, or
    /// an integer that is within them when read as a decimal.
    pub open spec fn admits(self, lit: LiteralView) -> bool {
        lit.as_decimal() matches Some(d) && self.holds(d)
    }
}

impl StrDataType {
    /// Whether the lower bound is above the upper bound.
    pub open spec fn inverted(self) -> bool {
        self.min matches Some(min) && self.max matches Some(max) && min > max
    }

    /// Whether the length of `s` is within the bounds.
    pub open spec fn holds(self, s: Seq<char>) -> bool {
        &&& self.min matches Some(min) ==> min <= text_len(s)
        &&& self.max matches Some(max) ==> text_len(s) <= max
    }

    /// Whether `lit` is a value of the type: a text whose length is within the bounds.
    pub open spec fn admits(self, lit: LiteralView) -> bool {
        lit matches LiteralView::Str(s) && self.holds(s)
    }
}

impl DataTypeView {
    pub open spec fn nullable(self) -> bool {
        match self {
            DataTypeView::Int(t) => t.nullable,
            DataTypeView::Dbl(t) => t.nullable,
            DataTypeView::Str(t) => t.nullable,
        }
    }

    /// Whether the lower bound is above the upper bound.
    pub open spec fn inverted(self) -> bool {
        match self {
            DataTypeView::Int(t) => t.inverted(),
            DataTypeView::Dbl(t) => t.inverted(),
            DataTypeView::Str(t) => t.inverted(),
        }
    }

    /// The lower bound as it is written; the empty text where there is none.
    pub open spec fn min_text(self) -> Seq<char> {
        match self {
            DataTypeView::Int(t) => match t.min {
                Some(v) => int_text(v as int),
                None => Seq::empty(),
            },
            DataTypeView::Dbl(t) => match t.min {
                Some(d) => d.text(),
                None => Seq::empty(),
            },
            DataTypeView::Str(t) => match t.min {
                Some(v) => nat_text(v as nat),
                None => Seq::empty(),
            },
        }
    }

    /// The upper bound as it is written; the empty text where there is none.
    pub open spec fn max_text(self) -> Seq<char> {
        match self {
            DataTypeView::Int(t) => match t.max {
                Some(v) => int_text(v as int),
                None => Seq::empty(),
            },
            DataTypeView::Dbl(t) => match t.max {
                Some(d) => d.text(),
                None => Seq::empty(),
            },
            DataTypeView::Str(t) => match t.max {
                Some(v) => nat_text(v as nat),
                None => Seq::empty(),
            },
        }
    }

    /// The outcome of checking the type by itself: an error where the range
    /// is inverted.
    pub open spec fn check(self) -> Result<(), ErrorView> {
        if self.inverted() {
            Err(ErrorView::InvalidRange { min: self.min_text(), max: self.max_text() })
        } else {
            Ok(())
        }
    }

    /// Whether `lit` is a value of the type.
    pub open spec fn admits(self, lit: LiteralView) -> bool {
        match self {
            DataTypeView::Int(t) => t.admits(lit),
            DataTypeView::Dbl(t) => t.admits(lit),
            DataTypeView::Str(t) => t.admits(lit),
        }
    }

    /// Whether a value that may be absent is one of the type: an absent one
    /// where the type is nullable, a present one where the type admits it.
    pub open spec fn admits_optional(self, lit: Option<LiteralView>) -> bool {
        match lit {
            Some(l) => self.admits(l),
            None => self.nullable(),
        }
    }
}

/// The outcome of a check that fails in one way only.
pub open spec fn default_outcome(ok: bool) -> Result<(), ErrorView> {
    if ok {
        Ok(())
    } else {
        Err(ErrorView::InvalidDefault)
    }
}

/// The content of a result without a value.
pub open spec fn outcome_view(r: Result<(), SchemaError>) -> Result<(), ErrorView> {
    match r {
        Ok(_) => Ok(()),
        Err(e) => Err(e@),
    }
}

fn default_result(ok: bool) -> (r: Result<(), SchemaError>)
    ensures
        outcome_view(r) == default_outcome(ok),
{
    if ok {
        Ok(())
    } else {
        Err(SchemaError::InvalidDefault)
    }
}

impl IntDataType {
    pub fn new(min: Option<i32>, max: Option<i32>, nullable: bool) -> (r: Self)
        ensures
            r == (IntDataType { min, max, nullable }),
    {
        Self { min, max, nullable }
    }

    pub fn get_nullable(&self) -> (r: bool)
        ensures
            r == self.nullable,
    {
        self.nullable
    }

    /// Checks that `val` is within the bounds.
    pub fn validate_i32(&self, val: i32) -> (r: Result<(), SchemaError>)
        ensures
            outcome_view(r) == default_outcome(self.holds(val)),
    {
        if let Some(min) = self.min {
            if val < min {
                return Err(SchemaError::InvalidDefault);
            }
        }
        if let Some(max) = self.max {
            if val > max {
                return Err(SchemaError::InvalidDefault);
            }
        }
        Ok(())
    }

    /// Checks that `lit` is a value of the type.
    pub fn validator(&self, lit: &Literal) -> (r: Result<(), SchemaError>)
        ensures
            outcome_view(r) == default_outcome(self.admits(lit@)),
    {
        match lit {
            Literal::Int(val) => self.validate_i32(*val),
            _ => Err(SchemaError::InvalidDefault),
        }
    }

    /// Checks that the lower bound is not above the upper bound.
    pub fn validate_data_type(&self) -> (r: Result<(), SchemaError>)
        ensures
            outcome_view(r) == DataTypeView::Int(*self).check(),
    {
        if let Some(min) = self.min {
            if let Some(max) = self.max {
                if min > max {
                    let mut lower: Vec<char> = Vec::new();
                    push_int(&mut lower, min as i64);
                    let mut upper: Vec<char> = Vec::new();
                    push_int(&mut upper, max as i64);
                    return Err(
                        SchemaError::InvalidRange { min: string_of(&lower), max: string_of(&upper) },
                    );
                }
            }
        }
        Ok(())
    }
}

impl DblDataType {
    pub fn new(min: Option<Decimal>, max: Option<Decimal>, nullable: bool) -> (r: Self)
        ensures
            r.min == min,
            r.max == max,
            r.nullable == nullable,
    {
        Self { min, max, nullable }
    }

    pub fn get_nullable(&self) -> (r: bool)
        ensures
            r == self.nullable,
    {
        self.nullable
    }

    /// Checks that `val` is within the bounds.
    pub fn validate_f64(&self, val: &Decimal) -> (r: Result<(), SchemaError>)
        ensures
            outcome_view(r) == default_outcome(self@.holds(val@)),
    {
        if let Some(min) = &self.min {
            if val.lt(min) {
                return Err(SchemaError::InvalidDefault);
            }
        }
        if let Some(max) = &self.max {
            if max.lt(val) {
                return Err(SchemaError::InvalidDefault);
            }
        }
        Ok(())
    }

    /// Checks that `lit` is a value of the type.
    pub fn validator(&self, lit: &Literal) -> (r: Result<(), SchemaError>)
        ensures
            outcome_view(r) == default_outcome(self@.admits(lit@)),
    {
        match lit {
            Literal::Dbl(val) => self.validate_f64(val),
            Literal::Int(val) => {
                let d = Decimal::from_i32(*val);
                self.validate_f64(&d)
            },
            Literal::Str(_) => Err(SchemaError::InvalidDefault),
        }
    }

    /// Checks that the lower bound is not above the upper bound.
    pub fn validate_data_type(&self) -> (r: Result<(), SchemaError>)
        ensures
            outcome_view(r) == DataTypeView::Dbl(self@).check(),
    {
        if let Some(min) = &self.min {
            if let Some(max) = &self.max {
                if max.lt(min) {
                    let mut lower: Vec<char> = Vec::new();
                    min.push_text(&mut lower);
                    let mut upper: Vec<char> = Vec::new();
                    max.push_text(&mut upper);
                    return Err(
                        SchemaError::InvalidRange { min: string_of(&lower), max: string_of(&upper) },
                    );
                }
            }
        }
        Ok(())
    }
}

impl StrDataType {
    pub fn new(min: Option<usize>, max: Option<usize>, nullable: bool) -> (r: Self)
        ensures
            r == (StrDataType { min, max, nullable }),
    {
        Self { min, max, nullable }
    }

    pub fn get_nullable(&self) -> (r: bool)
        ensures
            r == self.nullable,
    {
        self.nullable
    }

    /// Checks that the length of `s` is within the bounds.
    pub fn validate_str(&self, s: &str) -> (r: Result<(), SchemaError>)
        ensures
            outcome_view(r) == default_outcome(self.holds(s@)),
    {
        let len = s.as_bytes().len();
        if let Some(min) = self.min {
            if len < min {
                return Err(SchemaError::InvalidDefault);
            }
        }
        if let Some(max) = self.max {
            if len > max {
                return Err(SchemaError::InvalidDefault);
            }
        }
        Ok(())
    }

    /// Checks that `lit` is a value of the type.
    pub fn validator(&self, lit: &Literal) -> (r: Result<(), SchemaError>)
        ensures
            outcome_view(r) == default_outcome(self.admits(lit@)),
    {
        match lit {
            Literal::Str(val) => self.validate_str(val.as_str()),
            _ => Err(SchemaError::InvalidDefault),
        }
    }

    /// Checks that the lower bound is not above the upper bound.
    pub fn validate_data_type(&self) -> (r: Result<(), SchemaError>)
        ensures
            outcome_view(r) == DataTypeView::Str(*self).check(),
    {
        if let Some(min) = self.min {
            if let Some(max) = self.max {
                if min > max {
                    let mut lower: Vec<char> = Vec::new();
                    push_nat(&mut lower, min as u64);
                    let mut upper: Vec<char> = Vec::new();
                    push_nat(&mut upper, max as u64);
                    return Err(
                        SchemaError::InvalidRange { min: string_of(&lower), max: string_of(&upper) },
                    );
                }
            }
        }
        Ok(())
    }
}

impl DataType {
    pub fn get_nullable(&self) -> (r: bool)
        ensures
            r == self@.nullable(),
    {
        match self {
            DataType::Int(t) => t.get_nullable(),
            DataType::Dbl(t) => t.get_nullable(),
            DataType::Str(t) => t.get_nullable(),
        }
    }

    /// Checks that `lit` is a value of the type.
    pub fn validator(&self, lit: &Literal) -> (r: Result<(), SchemaError>)
        ensures
            outcome_view(r) == default_outcome(self@.admits(lit@)),
    {
        match self {
            DataType::Int(t) => t.validator(lit),
            DataType::Dbl(t) => t.validator(lit),
            DataType::Str(t) => t.validator(lit),
        }
    }

    /// Checks a value that may be absent: an absent one passes where the type
    /// is nullable, a present one where it is a value of the type.
    pub fn validate_literal(&self, lit: Option<&Literal>) -> (r: Result<(), SchemaError>)
        ensures
            outcome_view(r) == default_outcome(
                self@.admits_optional(
                    match lit {
                        Some(l) => Some(l@),
                        None => None,
                    },
                ),
            ),
    {
        match lit {
            Some(lit) => self.validator(lit),
            None => default_result(self.get_nullable()),
        }
    }

    /// Checks that the lower bound is not above the upper bound.
    pub fn validate_data_type(&self) -> (r: Result<(), SchemaError>)
        ensures
            outcome_view(r) == self@.check(),
    {
        match self {
            DataType::Int(t) => t.validate_data_type(),
            DataType::Dbl(t) => t.validate_data_type(),
            DataType::Str(t) => t.validate_data_type(),
        }
    }
}

} // verus!
