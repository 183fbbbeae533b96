//! The in-memory table store.

use vstd::prelude::*;

use crate::assoc::assoc_map;
use crate::assoc::lemma_assoc_contains;
use crate::assoc::lemma_assoc_map_remove;
use crate::errors::DbErr;
use crate::text::str_eq;

verus! {

broadcast use vstd::std_specs::vec::group_vec_axioms, vstd::seq::group_seq_axioms;

/// One cell value a row can hold.
#[derive(Debug, PartialEq, Eq, Clone, Copy, Structural)]
pub enum FieldValue {
    I32(i32),
}

/// One row of a table.
#[derive(Debug)]
pub struct TableEntry {
    pub fields: Vec<FieldValue>,
}

impl View for TableEntry {
    type V = Seq<FieldValue>;

    open spec fn view(&self) -> Seq<FieldValue> {
        self.fields@
    }
}

impl TableEntry {
    /// Overwrites one cell of the row.
    pub fn set_field(&mut self, field_id: usize, value: FieldValue)
        requires
            field_id < old(self)@.len(),
        ensures
            final(self)@ == old(self)@.update(field_id as int, value),
    {
        self.fields[field_id] = value;
    }
}

/// The name and the declared type of one column.
#[derive(Debug)]
pub struct ColumnDescription {
    pub column_name: String,
    pub column_type: String,
}

/// The model of a column description.
pub struct ColumnV {
    pub column_name: Seq<char>,
    pub column_type: Seq<char>,
}

impl View for ColumnDescription {
    type V = ColumnV;

    open spec fn view(&self) -> ColumnV {
        ColumnV { column_name: self.column_name@, column_type: self.column_type@ }
    }
}

/// The models of a column list, in order.
pub open spec fn columns_model(cs: Seq<ColumnDescription>) -> Seq<ColumnV> {
    cs.map_values(|c: ColumnDescription| c@)
}

/// A table: its column shapes and its rows.
#[derive(Debug)]
pub struct Table {
    pub columns: Vec<ColumnDescription>,
    pub rows: Vec<TableEntry>,
}

/// The model of a table.
pub struct TableV {
    pub columns: Seq<ColumnV>,
    pub rows: Seq<Seq<FieldValue>>,
}

impl View for Table {
    type V = TableV;

    open spec fn view(&self) -> TableV {
        TableV {
            columns: columns_model(self.columns@),
            rows: self.rows@.map_values(|r: TableEntry| r@),
        }
    }
}

impl Table {
    /// A fresh table with the given columns and no rows.
    pub fn from_column_definition(columns: Vec<ColumnDescription>) -> (r: Table)
        ensures
            r@.columns == columns_model(columns@),
            r@.rows == Seq::<Seq<FieldValue>>::empty(),
    {
        let r = Table { columns, rows: Vec::new() };
        proof {
            assert(r@.rows =~= Seq::<Seq<FieldValue>>::empty());
        }
        r
    }

    /// Appends one row.
    pub fn insert_row(&mut self, values: Vec<FieldValue>)
        ensures
            final(self)@.columns == old(self)@.columns,
            final(self)@.rows == old(self)@.rows.push(values@),
    {
        self.rows.push(TableEntry { fields: values });
        proof {
            assert(final(self)@.rows =~= old(self)@.rows.push(values@));
        }
    }

    /// Removes the row at `row_id`, shifting the ones after it.
    pub fn delete_row(&mut self, row_id: usize)
        requires
            row_id < old(self)@.rows.len(),
        ensures
            final(self)@.columns == old(self)@.columns,
            final(self)@.rows == old(self)@.rows.remove(row_id as int),
    {
        self.rows.remove(row_id);
        proof {
            assert(final(self)@.rows =~= old(self)@.rows.remove(row_id as int));
        }
    }
}

/// The table store: a collection of named tables, at most one per name.
#[derive(Debug)]
pub struct Database {
    tables: Vec<(String, Table)>,
}

impl View for Database {
    type V = Map<Seq<char>, TableV>;

    /// The model: the finite map from table name to table.
    closed spec fn view(&self) -> Map<Seq<char>, TableV> {
        assoc_map(self.entries())
    }
}

impl Database {
    /// The stored (name, table) pairs, as models.
    closed spec fn entries(&self) -> Seq<(Seq<char>, TableV)> {
        Seq::new(self.tables@.len(), |i: int| (self.tables@[i].0@, self.tables@[i].1@))
    }

    /// Validity of the store: table names are pairwise distinct.
    pub closed spec fn wf(&self) -> bool {
        forall|a: int, b: int|
            0 <= a < b < self.tables@.len() ==> self.tables@[a].0@ != self.tables@[b].0@
    }

    /// An empty store.
    pub fn new() -> (r: Database)
        ensures
            r.wf(),
            r@ == Map::<Seq<char>, TableV>::empty(),
    {
        let r = Database { tables: Vec::new() };
        proof {
            assert(r.entries() =~= Seq::<(Seq<char>, TableV)>::empty());
        }
        r
    }

    /// The position of the named table, if it is stored.
    fn find_index(&self, name: &str) -> (r: Option<usize>)
        ensures
            match r {
                Some(i) => i < self.tables@.len() && self.tables@[i as int].0@ == name@,
                None => forall|i: int|
                    0 <= i < self.tables@.len() ==> self.tables@[i].0@ != name@,
            },
    {
        let n = self.tables.len();
        let mut i: usize = 0;
        while i < n
            invariant
                i <= n,
                n == self.tables@.len(),
                forall|k: int| 0 <= k < i ==> self.tables@[k].0@ != name@,
            decreases n - i,
        {
            if str_eq(self.tables[i].0.as_str(), name) {
                return Some(i);
            }
            i += 1;
        }
        None
    }

    /// The named table, if the store holds one.
    pub fn get_table(&self, name: &str) -> (r: Option<&Table>)
        requires
            self.wf(),
        ensures
            match r {
                Some(t) => self@.contains_key(name@) && t@ == self@[name@],
                None => !self@.contains_key(name@),
            },
    {
        proof {
            lemma_assoc_contains(self.entries(), name@);
        }
        match self.find_index(name) {
            Some(i) => {
                proof {
                    crate::assoc::lemma_assoc_get_unique(self.entries(), i as int, name@);
                    crate::assoc::lemma_assoc_map_get(self.entries(), name@);
                }
                Some(&self.tables[i].1)
            },
            None => None,
        }
    }

    /// Stores a fresh table under `name`, or reports that the name is
    /// taken; nothing changes in that case.
    pub fn create_table(&mut self, name: &str, columns: Vec<ColumnDescription>) -> (r: Result<
        (),
        DbErr,
    >)
        requires
            old(self).wf(),
        ensures
            final(self).wf(),
            old(self)@.contains_key(name@) ==> r == Err::<(), DbErr>(DbErr::TableAlreadyExists)
                && final(self)@ == old(self)@,
            !old(self)@.contains_key(name@) ==> r == Ok::<(), DbErr>(()) && final(self)@ == old(
                self,
            )@.insert(
                name@,
                (TableV { columns: columns_model(columns@), rows: Seq::empty() }),
            ),
    {
        proof {
            lemma_assoc_contains(self.entries(), name@);
        }
        match self.find_index(name) {
            Some(i) => {
                proof {
                    assert(self.entries()[i as int].0 == name@);
                }
                Err(DbErr::TableAlreadyExists)
            },
            None => {
                let table = Table::from_column_definition(columns);
                let ghost tv = (TableV { columns: columns_model(columns@), rows: Seq::empty() });
                let ghost entries0 = self.entries();
                self.tables.push((name.to_owned(), table));
                proof {
                    assert(self.entries() =~= entries0.push((name@, tv)));
                    assert(self.entries().drop_last() =~= entries0);
                    assert(self.entries().last() == (name@, tv));
                    assert(self@ == assoc_map(self.entries().drop_last()).insert(name@, tv));
                    assert(self@ == old(self)@.insert(name@, tv));
                }
                Ok(())
            },
        }
    }

    /// Removes and returns the named table, or reports that no such table
    /// is stored; nothing changes in that case.
    pub fn delete_table(&mut self, name: &str) -> (r: Result<Table, DbErr>)
        requires
            old(self).wf(),
        ensures
            final(self).wf(),
            match r {
                Ok(t) => old(self)@.contains_key(name@) && t@ == old(self)@[name@] && final(self)@
                    == old(self)@.remove(name@),
                Err(e) => e == DbErr::TableNotExists && !old(self)@.contains_key(name@)
                    && final(self)@ == old(self)@,
            },
    {
        proof {
            lemma_assoc_contains(self.entries(), name@);
        }
        match self.find_index(name) {
            Some(i) => {
                let ghost entries0 = self.entries();
                proof {
                    crate::assoc::lemma_assoc_get_unique(self.entries(), i as int, name@);
                    crate::assoc::lemma_assoc_map_get(self.entries(), name@);
                    lemma_assoc_map_remove(self.entries(), i as int);
                }
                let entry = self.tables.remove(i);
                proof {
                    assert(self.entries() =~= entries0.remove(i as int));
                }
                Ok(entry.1)
            },
            None => Err(DbErr::TableNotExists),
        }
    }
}

} // verus!
