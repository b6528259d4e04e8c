//! Symbols: what a name stands for once a statement has declared it.
//!
//! Types and tables share one set of names, and a name is bound once.

use vstd::prelude::*;
use std::rc::Rc;
use crate::datatype::{DataType, DataTypeView};
use crate::error::{ErrorView, SchemaError};
use crate::schema::{rc_clone, Named, TableSchema, TableView};

verus! {

/// What a name stands for: a table or a data type.
#[derive(Debug)]
pub enum Symbol {
    TableSchema(Rc<TableSchema>),
    DataType(Rc<DataType>),
}

/// The mathematical content of a [`Symbol`].
pub enum SymbolView {
    TableSchema(TableView),
    DataType(DataTypeView),
}

impl View for Symbol {
    type V = SymbolView;

    open spec fn view(&self) -> SymbolView {
        match self {
            Symbol::TableSchema(t) => SymbolView::TableSchema(t@),
            Symbol::DataType(t) => SymbolView::DataType(t@),
        }
    }
}

/// A statement: the declaration of a table or of a type, with its name.
#[derive(Debug)]
pub enum Stmt {
    TableSchema(String, Rc<TableSchema>),
    TypeDef(String, Rc<DataType>),
}

/// The mathematical content of a [`Stmt`].
pub enum StmtView {
    TableSchema(Seq<char>, TableView),
    TypeDef(Seq<char>, DataTypeView),
}

impl View for Stmt {
    type V = StmtView;

    open spec fn view(&self) -> StmtView {
        match self {
            Stmt::TableSchema(name, t) => StmtView::TableSchema(name@, t@),
            Stmt::TypeDef(name, t) => StmtView::TypeDef(name@, t@),
        }
    }
}

impl StmtView {
    pub open spec fn name(self) -> Seq<char> {
        match self {
            StmtView::TableSchema(name, _) => name,
            StmtView::TypeDef(name, _) => name,
        }
    }

    /// What the statement binds its name to.
    pub open spec fn symbol(self) -> SymbolView {
        match self {
            StmtView::TableSchema(_, t) => SymbolView::TableSchema(t),
            StmtView::TypeDef(_, t) => SymbolView::DataType(t),
        }
    }
}

/// The symbols that the statements so far have declared, under their names.
#[derive(Debug)]
pub struct SymbolTable {
    pub entries: Vec<Named<Symbol>>,
}

/// The map from names to symbols that a sequence of bindings makes, a later
/// binding of a name taking the place of an earlier one.
pub open spec fn bindings(entries: Seq<Named<Symbol>>) -> Map<Seq<char>, SymbolView>
    decreases entries.len(),
{
    if entries.len() == 0 {
        Map::empty()
    } else {
        bindings(entries.drop_last()).insert(entries.last().name@, entries.last().item@)
    }
}

impl View for SymbolTable {
    type V = Map<Seq<char>, SymbolView>;

    open spec fn view(&self) -> Map<Seq<char>, SymbolView> {
        bindings(self.entries@)
    }
}

/// The outcome of binding `name` in `table`: an error where the name is taken.
pub open spec fn bind(table: Map<Seq<char>, SymbolView>, name: Seq<char>, symbol: SymbolView) -> Result<
    Map<Seq<char>, SymbolView>,
    ErrorView,
> {
    if table.dom().contains(name) {
        Err(ErrorView::DuplicateSymbol { name })
    } else {
        Ok(table.insert(name, symbol))
    }
}

impl Symbol {
    /// A second handle on the same table or type.
    pub fn share(&self) -> (r: Symbol)
        ensures
            r@ == self@,
    {
        match self {
            Symbol::TableSchema(t) => Symbol::TableSchema(rc_clone(t)),
            Symbol::DataType(t) => Symbol::DataType(rc_clone(t)),
        }
    }
}

impl SymbolTable {
    /// A table without symbols.
    pub fn new() -> (r: Self)
        ensures
            r@ == Map::<Seq<char>, SymbolView>::empty(),
    {
        Self { entries: Vec::new() }
    }

    /// Where `name` is bound: the index of its last binding.
    fn find(&self, name: &String) -> (r: Option<usize>)
        ensures
            match r {
                Some(i) => i < self.entries.len() && self@.dom().contains(name@) && self@[name@]
                    == self.entries@[i as int].item@,
                None => !self@.dom().contains(name@),
            },
    {
        let mut i: usize = self.entries.len();
        assert(self.entries@.take(i as int) == self.entries@);
        while i > 0
            invariant
                i <= self.entries.len(),
                self@.dom().contains(name@) == bindings(self.entries@.take(i as int)).dom().contains(
                    name@,
                ),
                self@.dom().contains(name@) ==> self@[name@] == bindings(
                    self.entries@.take(i as int),
                )[name@],
            decreases i,
        {
            let ghost prefix = self.entries@.take(i as int);
            assert(prefix.drop_last() == self.entries@.take(i - 1));
            assert(prefix.last() == self.entries@[i - 1]);
            if self.entries[i - 1].name == *name {
                return Some(i - 1);
            }
            i = i - 1;
        }
        None
    }

    /// Whether `name` is bound.
    pub fn contains(&self, name: &String) -> (r: bool)
        ensures
            r == self@.dom().contains(name@),
    {
        self.find(name).is_some()
    }

    /// What `name` is bound to, where it is bound.
    pub fn get(&self, name: &String) -> (r: Option<&Symbol>)
        ensures
            match r {
                Some(symbol) => self@.dom().contains(name@) && self@[name@] == symbol@,
                None => !self@.dom().contains(name@),
            },
    {
        match self.find(name) {
            Some(i) => Some(&self.entries[i].item),
            None => None,
        }
    }

    /// Binds `name` to `symbol`, unless the name is taken.
    pub fn insert(&mut self, name: String, symbol: Symbol) -> (r: Result<(), SchemaError>)
        ensures
            match bind(old(self)@, name@, symbol@) {
                Ok(table) => r is Ok && final(self)@ == table,
                Err(e) => r is Err && r->Err_0@ == e && final(self)@ == old(self)@,
            },
    {
        if self.contains(&name) {
            Err(SchemaError::DuplicateSymbol { name })
        } else {
            self.entries.push(Named { name, item: symbol });
            assert(self.entries@.drop_last() == old(self).entries@);
            Ok(())
        }
    }
}

} // verus!
