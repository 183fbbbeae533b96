//! The delete-table query.

use vstd::prelude::*;

use crate::database::Database;
use crate::database::TableV;
use crate::errors::DbErr;
use crate::errors::ErrV;
use crate::queries::create_table_query::name_result;
use crate::queries::parse_steps::Bindings;
use crate::queries::QuerySuccess;
use crate::tokenizer::Token;
use crate::tokenizer::TokenV;

verus! {

/// What a delete-table query with bindings `m` does to the store `db`:
/// the store afterwards, and the reported outcome.
pub open spec fn delete_effect(m: Map<Seq<char>, TokenV>, db: Map<Seq<char>, TableV>) -> (
    Map<Seq<char>, TableV>,
    Result<(), ErrV>,
) {
    match name_result(m) {
        Err(e) => (db, Err(e)),
        Ok(name) => {
            if db.contains_key(name) {
                (db.remove(name), Ok(()))
            } else {
                (db, Err(ErrV::TableNotExists))
            }
        },
    }
}

/// A delete-table statement, ready to run against a store.
pub struct DeleteTableQuery {
    data: Bindings,
}

impl DeleteTableQuery {
    /// The bindings this query was built from.
    pub closed spec fn bindings(&self) -> Map<Seq<char>, TokenV> {
        self.data@
    }

    /// Wraps the bindings a grammar match extracted.
    pub fn new(data: Bindings) -> (r: DeleteTableQuery)
        ensures
            r.bindings() == data@,
    {
        DeleteTableQuery { data }
    }

    /// Runs the query: drops the named table, or reports why it cannot;
    /// the store changes exactly as [`delete_effect`] says.
    pub fn execute(&self, database: &mut Database) -> (r: Result<QuerySuccess, DbErr>)
        requires
            old(database).wf(),
        ensures
            final(database).wf(),
            final(database)@ == delete_effect(self.bindings(), old(database)@).0,
            match r {
                Ok(_) => delete_effect(self.bindings(), old(database)@).1 == Ok::<(), ErrV>(()),
                Err(e) => delete_effect(self.bindings(), old(database)@).1 == Err::<(), ErrV>(
                    e.deep_view(),
                ),
            },
    {
        if let Some(token) = self.data.get("Name") {
            if let Token::Identifier(table_name) = token {
                return match database.delete_table(table_name.as_str()) {
                    Ok(_) => Ok(QuerySuccess::new()),
                    Err(err) => Err(err),
                };
            }
        }
        Err(DbErr::Generic("Bad name param".to_owned()))
    }
}

} // verus!
