//! The create-table query: second-stage parsing of the captured column
//! list and the store mutation.

use vstd::prelude::*;

use crate::database::ColumnDescription;
use crate::database::ColumnV;
use crate::database::Database;
use crate::database::TableV;
use crate::database::columns_model;
use crate::errors::DbErr;
use crate::errors::ErrV;
use crate::queries::parse_steps::Bindings;
use crate::queries::QuerySuccess;
use crate::tokenizer::list_model;
use crate::tokenizer::Token;
use crate::tokenizer::TokenV;

verus! {

broadcast use vstd::std_specs::vec::group_vec_axioms, vstd::seq::group_seq_axioms;

/// The column list described by a captured token run: identifier pairs
/// (name, type) separated by commas, at least one pair, nothing trailing.
/// `None` when the run is not of that shape.
pub open spec fn columns_of(ts: Seq<TokenV>) -> Option<Seq<ColumnV>>
    decreases ts.len(),
{
    if ts.len() < 2 {
        None
    } else if !(ts[0] is Identifier && ts[1] is Identifier) {
        None
    } else {
        let col = ColumnV {
            column_name: ts[0]->Identifier_0,
            column_type: ts[1]->Identifier_0,
        };
        if ts.len() == 2 {
            Some(seq![col])
        } else if ts[2] is Comma {
            match columns_of(ts.skip(3)) {
                Some(rest) => Some(seq![col] + rest),
                None => None,
            }
        } else {
            None
        }
    }
}

/// The table name a binding map describes: the text of the identifier
/// bound under "Name".
pub open spec fn name_result(m: Map<Seq<char>, TokenV>) -> Result<Seq<char>, ErrV> {
    if m.contains_key("Name"@) && m["Name"@] is Identifier {
        Ok(m["Name"@]->Identifier_0)
    } else {
        Err(ErrV::Generic("Bad name param"@))
    }
}

/// The column list a binding map describes: the second-stage parse of the
/// token run bound under "TableDescription".
pub open spec fn description_result(m: Map<Seq<char>, TokenV>) -> Result<Seq<ColumnV>, ErrV> {
    if m.contains_key("TableDescription"@) && m["TableDescription"@] is List {
        match columns_of(m["TableDescription"@]->List_0) {
            Some(cols) => Ok(cols),
            None => Err(ErrV::MalformedColumnList),
        }
    } else {
        Err(ErrV::Generic("Bad name param"@))
    }
}

/// What a create-table query with bindings `m` does to the store `db`:
/// the store afterwards, and the reported outcome.
pub open spec fn create_effect(m: Map<Seq<char>, TokenV>, db: Map<Seq<char>, TableV>) -> (
    Map<Seq<char>, TableV>,
    Result<(), ErrV>,
) {
    match name_result(m) {
        Err(e) => (db, Err(e)),
        Ok(name) => match description_result(m) {
            Err(e) => (db, Err(e)),
            Ok(cols) => {
                if db.contains_key(name) {
                    (db, Err(ErrV::TableAlreadyExists))
                } else {
                    (db.insert(name, (TableV { columns: cols, rows: Seq::empty() })), Ok(()))
                }
            },
        },
    }
}

/// A create-table statement, ready to run against a store.
pub struct CreateTableQuery {
    data: Bindings,
}

impl CreateTableQuery {
    /// The bindings this query was built from.
    pub closed spec fn bindings(&self) -> Map<Seq<char>, TokenV> {
        self.data@
    }

    /// Wraps the bindings a grammar match extracted.
    pub fn new(data: Bindings) -> (r: CreateTableQuery)
        ensures
            r.bindings() == data@,
    {
        CreateTableQuery { data }
    }

    /// The table name the bindings describe, per [`name_result`].
    pub fn get_table_name(&self) -> (r: Result<&String, DbErr>)
        ensures
            match r {
                Ok(s) => name_result(self.bindings()) == Ok::<Seq<char>, ErrV>(s@),
                Err(e) => name_result(self.bindings()) == Err::<Seq<char>, ErrV>(e.deep_view()),
            },
    {
        if let Some(token) = self.data.get("Name") {
            if let Token::Identifier(table_name) = token {
                return Ok(table_name);
            }
        }
        Err(DbErr::Generic("Bad name param".to_owned()))
    }

    /// The column list the bindings describe, per [`description_result`].
    pub fn get_table_description(&self) -> (r: Result<Vec<ColumnDescription>, DbErr>)
        ensures
            match r {
                Ok(cols) => description_result(self.bindings()) == Ok::<Seq<ColumnV>, ErrV>(
                    columns_model(cols@),
                ),
                Err(e) => description_result(self.bindings()) == Err::<Seq<ColumnV>, ErrV>(
                    e.deep_view(),
                ),
            },
    {
        let listing = match self.data.get("TableDescription") {
            Some(token) => token,
            None => {
                return Err(DbErr::Generic("Bad name param".to_owned()));
            },
        };
        let tokens = match listing {
            Token::List(tokens) => tokens,
            _ => {
                return Err(DbErr::Generic("Bad name param".to_owned()));
            },
        };
        let ghost lv = list_model(*tokens);
        proof {
            assert(lv == self.bindings()["TableDescription"@]->List_0);
        }
        let n = tokens.len();
        let mut i: usize = 0;
        let mut column_descriptions: Vec<ColumnDescription> = Vec::new();
        proof {
            assert(lv.skip(0) =~= lv);
            assert(columns_model(column_descriptions@) =~= Seq::<ColumnV>::empty());
        }
        while i < n
            invariant
                i <= n,
                n == tokens@.len(),
                lv == list_model(*tokens),
                lv.len() == n,
                lv == self.bindings()["TableDescription"@]->List_0,
                self.bindings().contains_key("TableDescription"@),
                self.bindings()["TableDescription"@] is List,
                cols_append(columns_model(column_descriptions@), columns_of(lv.skip(i as int)))
                    == columns_of(lv),
            decreases n - i,
        {
            let ghost rest = lv.skip(i as int);
            if i + 1 >= n {
                return Err(DbErr::MalformedColumnList);
            }
            proof {
                assert(rest[0] == lv[i as int]);
                assert(rest[1] == lv[i + 1]);
            }
            let first = match &tokens[i] {
                Token::Identifier(first) => first,
                _ => {
                    return Err(DbErr::MalformedColumnList);
                },
            };
            let second = match &tokens[i + 1] {
                Token::Identifier(second) => second,
                _ => {
                    return Err(DbErr::MalformedColumnList);
                },
            };
            let ghost cols0 = columns_model(column_descriptions@);
            let ghost col = ColumnV { column_name: first@, column_type: second@ };
            column_descriptions.push(
                ColumnDescription { column_name: first.clone(), column_type: second.clone() },
            );
            proof {
                assert(columns_model(column_descriptions@) =~= cols0.push(col));
            }
            i += 2;
            if i == n {
                proof {
                    assert(columns_of(rest) == Some(seq![col]));
                    assert(cols0.push(col) =~= cols0 + seq![col]);
                }
                return Ok(column_descriptions);
            }
            proof {
                assert(rest[2] == lv[i as int]);
            }
            match &tokens[i] {
                Token::Comma => {
                    proof {
                        assert(rest.skip(3) =~= lv.skip(i + 1));
                        if columns_of(rest.skip(3)) is Some {
                            assert(cols0.push(col) + columns_of(rest.skip(3))->Some_0 =~= cols0 + (
                            seq![col] + columns_of(rest.skip(3))->Some_0));
                        }
                    }
                    i += 1;
                },
                _ => {
                    return Err(DbErr::MalformedColumnList);
                },
            }
        }
        proof {
            assert(lv.skip(i as int) =~= lv.skip(n as int));
            assert(lv.skip(n as int).len() == 0);
        }
        Err(DbErr::MalformedColumnList)
    }

    /// Runs the query: creates the described table, or reports why it
    /// cannot; the store changes exactly as [`create_effect`] says.
    pub fn execute(&self, database: &mut Database) -> (r: Result<QuerySuccess, DbErr>)
        requires
            old(database).wf(),
        ensures
            final(database).wf(),
            final(database)@ == create_effect(self.bindings(), old(database)@).0,
            match r {
                Ok(_) => create_effect(self.bindings(), old(database)@).1 == Ok::<(), ErrV>(()),
                Err(e) => create_effect(self.bindings(), old(database)@).1 == Err::<(), ErrV>(
                    e.deep_view(),
                ),
            },
    {
        let table_name = match self.get_table_name() {
            Ok(name) => name,
            Err(e) => {
                return Err(e);
            },
        };
        let table_description = match self.get_table_description() {
            Ok(cols) => cols,
            Err(e) => {
                return Err(e);
            },
        };
        match database.create_table(table_name.as_str(), table_description) {
            Ok(_) => Ok(QuerySuccess::new()),
            Err(err) => Err(err),
        }
    }
}

/// Columns already parsed, prepended to the outcome of parsing the rest.
pub open spec fn cols_append(acc: Seq<ColumnV>, r: Option<Seq<ColumnV>>) -> Option<Seq<ColumnV>> {
    match r {
        Some(rest) => Some(acc + rest),
        None => None,
    }
}

} // verus!
