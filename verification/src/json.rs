//! The JSON form of a schema, built as values of `serde_json`.
//!
//! ```text
//! {"tables": {NAME: {"columns": {NAME: {
//!     "column_type": {"super": "int" | "dbl" | "str", "nullable": BOOL,
//!                     "min": VALUE | null, "max": VALUE | null},
//!     "default_value": VALUE }}}}}
//! ```
//!
//! The key `default_value` is there only where the column has a default.

use vstd::prelude::*;
use crate::chars::string_of;
use crate::codegen::family_name;
use crate::datatype::{DataType, DataTypeView, DBL_TYPE_NAME, INT_TYPE_NAME, STR_TYPE_NAME};
use crate::decimal::{Decimal, DecimalView};
use crate::error::{ErrorView, SchemaError};
use crate::literal::{Literal, LiteralView};
use crate::schema::{ColumnSchema, ColumnView, SchemaView, SpreadsheetSchema, TableSchema, TableView};

verus! {

/// `serde_json::Value`: a JSON value of any kind.
#[verifier::external_type_specification]
#[verifier::external_body]
pub struct ExJsonValue(serde_json::Value);

/// `serde_json::Map`: the members of a JSON object.
#[verifier::external_type_specification]
#[verifier::external_body]
#[verifier::reject_recursive_types(K)]
#[verifier::reject_recursive_types(V)]
pub struct ExJsonMap<K, V>(serde_json::Map<K, V>);

/// The mathematical content of a JSON value.
pub enum JsonView {
    Null,
    Bool(bool),
    /// A number without a fractional part.
    Int(int),
    /// A number with a fractional part, by the bits of its 64-bit float.
    Float(u64),
    Str(Seq<char>),
    /// An object: its members by their keys.
    Object(Map<Seq<char>, JsonView>),
}

/// What a JSON value of `serde_json` holds.
pub uninterp spec fn json_view(v: serde_json::Value) -> JsonView;

/// What the members of a JSON object of `serde_json` hold, by their keys.
pub uninterp spec fn json_entries(m: serde_json::Map<String, serde_json::Value>) -> Map<
    Seq<char>,
    JsonView,
>;

/// The JSON number that `serde_json` reads from a text, where it reads one.
pub uninterp spec fn number_of_text(text: Seq<char>) -> Option<JsonView>;

/// `serde_json::Value::Null` is the JSON value `null`.
#[verifier::external_body]
fn json_null() -> (v: serde_json::Value)
    ensures
        json_view(v) == JsonView::Null,
{
    serde_json::Value::Null
}

/// `serde_json::Value::Bool` holds the truth value that it is made of.
#[verifier::external_body]
fn json_bool(b: bool) -> (v: serde_json::Value)
    ensures
        json_view(v) == JsonView::Bool(b),
{
    serde_json::Value::Bool(b)
}

/// `serde_json::Number::from_i128` makes the number of an integer that fits
/// in 64 bits, signed or unsigned; the value made of it holds that integer.
#[verifier::external_body]
fn json_integer(i: i128) -> (v: serde_json::Value)
    requires
        i64::MIN <= i <= u64::MAX,
    ensures
        json_view(v) == JsonView::Int(i as int),
{
    serde_json::Number::from_i128(i).map_or(serde_json::Value::Null, serde_json::Value::Number)
}

/// `serde_json::Value::String` holds the text that it is made of.
#[verifier::external_body]
fn json_string(s: &str) -> (v: serde_json::Value)
    ensures
        json_view(v) == JsonView::Str(s@),
{
    serde_json::Value::String(s.to_owned())
}

/// `serde_json::Number::from_str` reads a number from a text, or refuses the
/// text; what it returns depends on the text alone.
#[verifier::external_body]
fn json_number(text: &str) -> (r: Option<serde_json::Value>)
    ensures
        match number_of_text(text@) {
            Some(j) => r is Some && json_view(r->0) == j,
            None => r is None,
        },
{
    let parsed: Result<serde_json::Number, serde_json::Error> = std::str::FromStr::from_str(text);
    match parsed {
        Ok(n) => Some(serde_json::Value::Number(n)),
        Err(_) => None,
    }
}

/// The members of an object that has none.
pub open spec fn no_members() -> Map<Seq<char>, JsonView> {
    Map::empty()
}

/// `serde_json::Map::new` makes an object without members.
#[verifier::external_body]
fn json_map_new() -> (m: serde_json::Map<String, serde_json::Value>)
    ensures
        json_entries(m) == no_members(),
{
    serde_json::Map::new()
}

/// `serde_json::Map::insert` puts a member under a key; a member that the
/// key had is replaced, the other members stay.
#[verifier::external_body]
fn json_map_insert(
    m: &mut serde_json::Map<String, serde_json::Value>,
    key: String,
    value: serde_json::Value,
)
    ensures
        json_entries(*final(m)) == json_entries(*old(m)).insert(key@, json_view(value)),
{
    m.insert(key, value);
}

/// `serde_json::Value::Object` holds the members that it is made of.
#[verifier::external_body]
fn json_object(m: serde_json::Map<String, serde_json::Value>) -> (v: serde_json::Value)
    ensures
        json_view(v) == JsonView::Object(json_entries(m)),
{
    serde_json::Value::Object(m)
}

/// The JSON value of a decimal: the number that is read from the decimal
/// written with a fractional part, and `null` where none is read from it.
pub open spec fn decimal_json(d: DecimalView) -> JsonView {
    match number_of_text(d.fraction_text()) {
        Some(j) => j,
        None => JsonView::Null,
    }
}

/// The JSON value of a literal.
pub open spec fn literal_json(lit: LiteralView) -> JsonView {
    match lit {
        LiteralView::Int(v) => JsonView::Int(v as int),
        LiteralView::Dbl(d) => decimal_json(d),
        LiteralView::Str(s) => JsonView::Str(s),
    }
}

/// The JSON value of the lower bound of a type; `null` where there is none.
pub open spec fn min_json(t: DataTypeView) -> JsonView {
    match t {
        DataTypeView::Int(t) => match t.min {
            Some(v) => JsonView::Int(v as int),
            None => JsonView::Null,
        },
        DataTypeView::Dbl(t) => match t.min {
            Some(d) => decimal_json(d),
            None => JsonView::Null,
        },
        DataTypeView::Str(t) => match t.min {
            Some(v) => JsonView::Int(v as int),
            None => JsonView::Null,
        },
    }
}

/// The JSON value of the upper bound of a type; `null` where there is none.
pub open spec fn max_json(t: DataTypeView) -> JsonView {
    match t {
        DataTypeView::Int(t) => match t.max {
            Some(v) => JsonView::Int(v as int),
            None => JsonView::Null,
        },
        DataTypeView::Dbl(t) => match t.max {
            Some(d) => decimal_json(d),
            None => JsonView::Null,
        },
        DataTypeView::Str(t) => match t.max {
            Some(v) => JsonView::Int(v as int),
            None => JsonView::Null,
        },
    }
}

/// The JSON value of a type: its family, whether it is nullable, and its bounds.
pub open spec fn type_json(t: DataTypeView) -> JsonView {
    JsonView::Object(
        Map::<Seq<char>, JsonView>::empty().insert("super"@, JsonView::Str(family_name(t))).insert(
            "nullable"@,
            JsonView::Bool(t.nullable()),
        ).insert("min"@, min_json(t)).insert("max"@, max_json(t)),
    )
}

/// The JSON value of a column: its type and, where it has one, its default.
pub open spec fn column_json(c: ColumnView) -> JsonView {
    let with_type = Map::<Seq<char>, JsonView>::empty().insert(
        "column_type"@,
        type_json(c.column_type),
    );
    JsonView::Object(
        match c.default_value {
            Some(lit) => with_type.insert("default_value"@, literal_json(lit)),
            None => with_type,
        },
    )
}

/// The first `n` columns of a table by their names.
pub open spec fn columns_json(t: TableView, n: int) -> Map<Seq<char>, JsonView>
    decreases n,
{
    if n <= 0 || n > t.columns.len() || n > t.names.len() {
        Map::empty()
    } else {
        columns_json(t, n - 1).insert(t.names[n - 1], column_json(t.columns[n - 1]))
    }
}

/// The JSON value of a table: its columns by their names.
pub open spec fn table_json(t: TableView) -> JsonView {
    JsonView::Object(
        Map::<Seq<char>, JsonView>::empty().insert(
            "columns"@,
            JsonView::Object(columns_json(t, t.columns.len() as int)),
        ),
    )
}

/// The first `n` tables of a schema by their names.
pub open spec fn tables_json(s: SchemaView, n: int) -> Map<Seq<char>, JsonView>
    decreases n,
{
    if n <= 0 || n > s.tables.len() || n > s.names.len() {
        Map::empty()
    } else {
        tables_json(s, n - 1).insert(s.names[n - 1], table_json(s.tables[n - 1]))
    }
}

/// The JSON value of a schema: its tables by their names.
pub open spec fn schema_json(s: SchemaView) -> JsonView {
    JsonView::Object(
        Map::<Seq<char>, JsonView>::empty().insert(
            "tables"@,
            JsonView::Object(tables_json(s, s.tables.len() as int)),
        ),
    )
}

/// The JSON value of an error: its message under the key `err`.
pub open spec fn error_json(e: ErrorView) -> JsonView {
    JsonView::Object(
        Map::<Seq<char>, JsonView>::empty().insert("err"@, JsonView::Str(e.message())),
    )
}

/// The JSON value of what was read for a number, and `null` where nothing was.
pub fn number_or_null(read: Option<serde_json::Value>) -> (v: serde_json::Value)
    ensures
        json_view(v) == match read {
            Some(n) => json_view(n),
            None => JsonView::Null,
        },
{
    match read {
        Some(n) => n,
        None => json_null(),
    }
}

impl Decimal {
    /// The JSON value of the decimal.
    pub fn to_json(&self) -> (v: serde_json::Value)
        ensures
            json_view(v) == decimal_json(self@),
    {
        let mut text: Vec<char> = Vec::new();
        self.push_fraction_text(&mut text);
        let text = string_of(&text);
        number_or_null(json_number(text.as_str()))
    }
}

impl Literal {
    /// The JSON value of the literal.
    pub fn to_json(&self) -> (v: serde_json::Value)
        ensures
            json_view(v) == literal_json(self@),
    {
        match self {
            Literal::Int(val) => json_integer(*val as i128),
            Literal::Dbl(val) => val.to_json(),
            Literal::Str(val) => json_string(val.as_str()),
        }
    }
}

fn bound_json_i32(bound: Option<i32>) -> (v: serde_json::Value)
    ensures
        json_view(v) == match bound {
            Some(b) => JsonView::Int(b as int),
            None => JsonView::Null,
        },
{
    match bound {
        Some(b) => json_integer(b as i128),
        None => json_null(),
    }
}

fn bound_json_usize(bound: Option<usize>) -> (v: serde_json::Value)
    ensures
        json_view(v) == match bound {
            Some(b) => JsonView::Int(b as int),
            None => JsonView::Null,
        },
{
    match bound {
        Some(b) => json_integer(b as i128),
        None => json_null(),
    }
}

fn bound_json_decimal(bound: &Option<Decimal>) -> (v: serde_json::Value)
    ensures
        json_view(v) == match bound {
            Some(b) => decimal_json(b@),
            None => JsonView::Null,
        },
{
    match bound {
        Some(b) => b.to_json(),
        None => json_null(),
    }
}

impl DataType {
    /// The JSON value of the type.
    pub fn to_json(&self) -> (v: serde_json::Value)
        ensures
            json_view(v) == type_json(self@),
    {
        let mut m = json_map_new();
        let family = match self {
            DataType::Int(_) => INT_TYPE_NAME,
            DataType::Dbl(_) => DBL_TYPE_NAME,
            DataType::Str(_) => STR_TYPE_NAME,
        };
        json_map_insert(&mut m, "super".to_owned(), json_string(family));
        json_map_insert(&mut m, "nullable".to_owned(), json_bool(self.get_nullable()));
        let min = match self {
            DataType::Int(t) => bound_json_i32(t.min),
            DataType::Dbl(t) => bound_json_decimal(&t.min),
            DataType::Str(t) => bound_json_usize(t.min),
        };
        json_map_insert(&mut m, "min".to_owned(), min);
        let max = match self {
            DataType::Int(t) => bound_json_i32(t.max),
            DataType::Dbl(t) => bound_json_decimal(&t.max),
            DataType::Str(t) => bound_json_usize(t.max),
        };
        json_map_insert(&mut m, "max".to_owned(), max);
        json_object(m)
    }
}

impl ColumnSchema {
    /// The JSON value of the column.
    pub fn to_json(&self) -> (v: serde_json::Value)
        ensures
            json_view(v) == column_json(self@),
    {
        let mut m = json_map_new();
        json_map_insert(&mut m, "column_type".to_owned(), self.column_type.to_json());
        match &self.default_value {
            Some(val) => {
                json_map_insert(&mut m, "default_value".to_owned(), val.to_json());
            },
            None => {},
        }
        json_object(m)
    }
}

impl TableSchema {
    /// The JSON value of the table.
    pub fn to_json(&self) -> (v: serde_json::Value)
        ensures
            json_view(v) == table_json(self@),
    {
        let mut columns = json_map_new();
        let mut i: usize = 0;
        while i < self.columns.len()
            invariant
                i <= self.columns.len(),
                json_entries(columns) == columns_json(self@, i as int),
            decreases self.columns.len() - i,
        {
            json_map_insert(
                &mut columns,
                self.columns[i].name.clone(),
                self.columns[i].item.to_json(),
            );
            i = i + 1;
        }
        let mut m = json_map_new();
        json_map_insert(&mut m, "columns".to_owned(), json_object(columns));
        json_object(m)
    }
}

impl SpreadsheetSchema {
    /// The JSON value of the schema.
    pub fn to_json(&self) -> (v: serde_json::Value)
        ensures
            json_view(v) == schema_json(self@),
    {
        let mut tables = json_map_new();
        let mut i: usize = 0;
        while i < self.tables.len()
            invariant
                i <= self.tables.len(),
                json_entries(tables) == tables_json(self@, i as int),
            decreases self.tables.len() - i,
        {
            json_map_insert(&mut tables, self.tables[i].name.clone(), self.tables[i].item.to_json());
            i = i + 1;
        }
        let mut m = json_map_new();
        json_map_insert(&mut m, "tables".to_owned(), json_object(tables));
        json_object(m)
    }
}

impl SchemaError {
    /// The JSON value of the error: its message under the key `err`.
    pub fn to_json(&self) -> (v: serde_json::Value)
        ensures
            json_view(v) == error_json(self@),
    {
        let mut m = json_map_new();
        let message = self.message();
        json_map_insert(&mut m, "err".to_owned(), json_string(message.as_str()));
        json_object(m)
    }
}

} // verus!
