//! Schemas: columns, tables of columns, and spreadsheets of tables.

use vstd::prelude::*;
use std::rc::Rc;
use crate::datatype::{DataType, DataTypeView, outcome_view};
use crate::error::{ErrorView, SchemaError};
use crate::literal::{Literal, LiteralView};

verus! {

/// A second handle on the value that `rc` holds: `Rc::clone` copies the
/// pointer, not the value, so both handles hold the same value.
#[verifier::external_body]
pub(crate) fn rc_clone<T>(rc: &Rc<T>) -> (r: Rc<T>)
    ensures
        *r == **rc,
{
    Rc::clone(rc)
}

/// An item under a name.
#[derive(Debug)]
pub struct Named<T> {
    pub name: String,
    pub item: T,
}

/// The mathematical content of a [`Named`] item.
pub struct NamedView<V> {
    pub name: Seq<char>,
    pub item: V,
}

impl<T: View> View for Named<T> {
    type V = NamedView<T::V>;

    open spec fn view(&self) -> NamedView<T::V> {
        NamedView { name: self.name@, item: self.item@ }
    }
}

/// The names of a sequence of named items.
pub open spec fn names_of<T>(entries: Seq<Named<T>>) -> Seq<Seq<char>> {
    Seq::new(entries.len(), |i: int| entries[i].name@)
}

/// The schema of a column: its type and, optionally, the value that stands
/// where none is given.
#[derive(Debug)]
pub struct ColumnSchema {
    pub column_type: Rc<DataType>,
    pub default_value: Option<Literal>,
}

/// The mathematical content of a [`ColumnSchema`].
pub struct ColumnView {
    pub column_type: DataTypeView,
    pub default_value: Option<LiteralView>,
}

impl View for ColumnSchema {
    type V = ColumnView;

    open spec fn view(&self) -> ColumnView {
        ColumnView {
            column_type: self.column_type@,
            default_value: match self.default_value {
                Some(l) => Some(l@),
                None => None,
            },
        }
    }
}

impl ColumnView {
    /// The outcome of checking the column: the range of its type first, then
    /// its default value against the type.
    pub open spec fn check(self) -> Result<(), ErrorView> {
        if self.column_type.check() is Err {
            self.column_type.check()
        } else if self.default_value matches Some(l) && !self.column_type.admits(l) {
            Err(ErrorView::InvalidDefault)
        } else {
            Ok(())
        }
    }
}

/// The schema of a table: its columns under their names, in the order in
/// which they were declared.
#[derive(Debug)]
pub struct TableSchema {
    pub columns: Vec<Named<ColumnSchema>>,
}

/// The mathematical content of a [`TableSchema`].
pub struct TableView {
    pub names: Seq<Seq<char>>,
    pub columns: Seq<ColumnView>,
}

impl View for TableSchema {
    type V = TableView;

    open spec fn view(&self) -> TableView {
        TableView {
            names: names_of(self.columns@),
            columns: Seq::new(self.columns@.len(), |i: int| self.columns@[i].item@),
        }
    }
}

impl TableView {
    pub open spec fn empty() -> TableView {
        TableView { names: Seq::empty(), columns: Seq::empty() }
    }

    /// There is a name for each column, and no name occurs twice.
    pub open spec fn wf(self) -> bool {
        &&& self.names.len() == self.columns.len()
        &&& self.names.no_duplicates()
    }

    pub open spec fn has(self, name: Seq<char>) -> bool {
        self.names.contains(name)
    }

    /// The table with one more column behind the others.
    pub open spec fn with(self, name: Seq<char>, column: ColumnView) -> TableView {
        TableView { names: self.names.push(name), columns: self.columns.push(column) }
    }

    /// The outcome of adding a column: an error where the name is taken.
    pub open spec fn add(self, name: Seq<char>, column: ColumnView) -> Result<TableView, ErrorView> {
        if self.has(name) {
            Err(ErrorView::DuplicateColumn { name })
        } else {
            Ok(self.with(name, column))
        }
    }

    /// The outcome of checking the columns from index `i` on, in order: that
    /// of the first column that fails.
    pub open spec fn check_from(self, i: int) -> Result<(), ErrorView>
        decreases self.columns.len() - i,
    {
        if i < 0 || i >= self.columns.len() {
            Ok(())
        } else if self.columns[i].check() is Err {
            self.columns[i].check()
        } else {
            self.check_from(i + 1)
        }
    }

    /// The outcome of checking the table: that of its first column that fails.
    pub open spec fn check(self) -> Result<(), ErrorView> {
        self.check_from(0)
    }
}

/// The schema of a spreadsheet: its tables under their names, in the order
/// in which they were declared.
#[derive(Debug)]
pub struct SpreadsheetSchema {
    pub tables: Vec<Named<Rc<TableSchema>>>,
}

/// The mathematical content of a [`SpreadsheetSchema`].
pub struct SchemaView {
    pub names: Seq<Seq<char>>,
    pub tables: Seq<TableView>,
}

impl View for SpreadsheetSchema {
    type V = SchemaView;

    open spec fn view(&self) -> SchemaView {
        SchemaView {
            names: names_of(self.tables@),
            tables: Seq::new(self.tables@.len(), |i: int| self.tables@[i].item@),
        }
    }
}

impl SchemaView {
    pub open spec fn empty() -> SchemaView {
        SchemaView { names: Seq::empty(), tables: Seq::empty() }
    }

    /// There is a name for each table, no name occurs twice, and each table
    /// is well formed.
    pub open spec fn wf(self) -> bool {
        &&& self.names.len() == self.tables.len()
        &&& self.names.no_duplicates()
        &&& forall|i: int| 0 <= i < self.tables.len() ==> (#[trigger] self.tables[i]).wf()
    }

    pub open spec fn has(self, name: Seq<char>) -> bool {
        self.names.contains(name)
    }

    /// The schema with one more table behind the others.
    pub open spec fn with(self, name: Seq<char>, table: TableView) -> SchemaView {
        SchemaView { names: self.names.push(name), tables: self.tables.push(table) }
    }

    /// The outcome of checking the tables from index `i` on, in order: that
    /// of the first table that fails.
    pub open spec fn check_from(self, i: int) -> Result<(), ErrorView>
        decreases self.tables.len() - i,
    {
        if i < 0 || i >= self.tables.len() {
            Ok(())
        } else if self.tables[i].check() is Err {
            self.tables[i].check()
        } else {
            self.check_from(i + 1)
        }
    }

    /// The outcome of checking the schema: that of its first column that
    /// fails, tables and columns taken in the order of their declaration.
    pub open spec fn check(self) -> Result<(), ErrorView> {
        self.check_from(0)
    }
}

/// Where `name` stands among `names`: the first index, read from the front.
pub fn find_name<T>(entries: &Vec<Named<T>>, name: &String) -> (r: Option<usize>)
    ensures
        match r {
            Some(i) => i < entries.len() && names_of(entries@)[i as int] == name@ && forall|j: int|
                0 <= j < i ==> names_of(entries@)[j] != name@,
            None => !names_of(entries@).contains(name@),
        },
{
    let mut i: usize = 0;
    while i < entries.len()
        invariant
            i <= entries.len(),
            forall|j: int| 0 <= j < i ==> names_of(entries@)[j] != name@,
        decreases entries.len() - i,
    {
        if entries[i].name == *name {
            return Some(i);
        }
        i = i + 1;
    }
    None
}

impl ColumnSchema {
    pub fn new(column_type: Rc<DataType>, default_value: Option<Literal>) -> (r: Self)
        ensures
            r.column_type == column_type,
            r.default_value == default_value,
    {
        Self { column_type, default_value }
    }

    pub fn get_type(&self) -> (r: Rc<DataType>)
        ensures
            r@ == self@.column_type,
    {
        rc_clone(&self.column_type)
    }

    /// Checks the column: the range of its type first, then its default
    /// value against the type.
    pub fn validate_column_schema(&self) -> (r: Result<(), SchemaError>)
        ensures
            outcome_view(r) == self@.check(),
    {
        match self.column_type.validate_data_type() {
            Err(e) => Err(e),
            Ok(_) => match &self.default_value {
                Some(lit) => self.column_type.validator(lit),
                None => Ok(()),
            },
        }
    }
}

impl TableSchema {
    /// A table without columns.
    pub fn new() -> (r: Self)
        ensures
            r@ == TableView::empty(),
    {
        let r = Self { columns: Vec::new() };
        assert(r@.names =~= Seq::empty());
        assert(r@.columns =~= Seq::empty());
        r
    }

    /// Adds a column behind the others, unless its name is taken.
    pub fn add_column(&mut self, name: String, column: ColumnSchema) -> (r: Result<
        (),
        SchemaError,
    >)
        ensures
            match old(self)@.add(name@, column@) {
                Ok(table) => r is Ok && final(self)@ == table,
                Err(e) => r is Err && r->Err_0@ == e && final(self)@ == old(self)@,
            },
    {
        match find_name(&self.columns, &name) {
            Some(_) => Err(SchemaError::DuplicateColumn { name }),
            None => {
                self.columns.push(Named { name, item: column });
                assert(self@.names =~= old(self)@.names.push(name@));
                assert(self@.columns =~= old(self)@.columns.push(column@));
                Ok(())
            },
        }
    }

    pub fn get_num_columns(&self) -> (r: usize)
        ensures
            r == self@.columns.len(),
    {
        self.columns.len()
    }

    /// The column under `column_name`, where there is one.
    pub fn get_column(&self, column_name: &str) -> (r: Option<&ColumnSchema>)
        ensures
            match r {
                Some(column) => exists|i: int|
                    0 <= i < self@.names.len() && self@.names[i] == column_name@
                        && self@.columns[i] == column@,
                None => !self@.has(column_name@),
            },
    {
        let name = column_name.to_owned();
        match find_name(&self.columns, &name) {
            Some(i) => {
                assert(self@.columns[i as int] == self.columns@[i as int].item@);
                Some(&self.columns[i].item)
            },
            None => None,
        }
    }

    /// Checks the columns in order and stops at the first that fails.
    pub fn validate_table_schema(&self) -> (r: Result<(), SchemaError>)
        ensures
            outcome_view(r) == self@.check(),
    {
        let mut i: usize = 0;
        while i < self.columns.len()
            invariant
                i <= self.columns.len(),
                self@.check() == self@.check_from(i as int),
            decreases self.columns.len() - i,
        {
            assert(self@.columns[i as int] == self.columns@[i as int].item@);
            match self.columns[i].item.validate_column_schema() {
                Err(e) => {
                    return Err(e);
                },
                Ok(_) => {},
            }
            i = i + 1;
        }
        Ok(())
    }
}

impl SpreadsheetSchema {
    /// A schema without tables.
    pub fn new() -> (r: Self)
        ensures
            r@ == SchemaView::empty(),
    {
        let r = Self { tables: Vec::new() };
        assert(r@.names =~= Seq::empty());
        assert(r@.tables =~= Seq::empty());
        r
    }

    /// Adds a table behind the others, unless its name is taken.
    pub fn add_table(&mut self, name: String, table: Rc<TableSchema>) -> (r: bool)
        ensures
            r == !old(self)@.has(name@),
            r ==> final(self)@ == old(self)@.with(name@, table@),
            !r ==> final(self)@ == old(self)@,
    {
        match find_name(&self.tables, &name) {
            Some(_) => false,
            None => {
                self.tables.push(Named { name, item: table });
                assert(self@.names =~= old(self)@.names.push(name@));
                assert(self@.tables =~= old(self)@.tables.push(table@));
                true
            },
        }
    }

    pub fn get_num_tables(&self) -> (r: usize)
        ensures
            r == self@.tables.len(),
    {
        self.tables.len()
    }

    /// The table under `name`, where there is one.
    pub fn get_table(&self, name: &str) -> (r: Option<Rc<TableSchema>>)
        ensures
            match r {
                Some(table) => exists|i: int|
                    0 <= i < self@.names.len() && self@.names[i] == name@ && self@.tables[i]
                        == table@,
                None => !self@.has(name@),
            },
    {
        let owned = name.to_owned();
        match find_name(&self.tables, &owned) {
            Some(i) => {
                assert(self@.tables[i as int] == self.tables@[i as int].item@);
                Some(rc_clone(&self.tables[i].item))
            },
            None => None,
        }
    }

    /// Checks every column of every table, in the order of their declaration,
    /// and stops at the first that fails.
    pub fn validate_spreadsheet_schema(&self) -> (r: Result<(), SchemaError>)
        ensures
            outcome_view(r) == self@.check(),
    {
        let mut i: usize = 0;
        while i < self.tables.len()
            invariant
                i <= self.tables.len(),
                self@.check() == self@.check_from(i as int),
            decreases self.tables.len() - i,
        {
            assert(self@.tables[i as int] == self.tables@[i as int].item@);
            match self.tables[i].item.validate_table_schema() {
                Err(e) => {
                    return Err(e);
                },
                Ok(_) => {},
            }
            i = i + 1;
        }
        Ok(())
    }
}

} // verus!
