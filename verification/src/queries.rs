//! Queries, their registry, and the dispatcher.

use vstd::prelude::*;

pub mod create_table_query;
pub mod delete_table_query;
pub mod parse_steps;
pub mod query_builder;
pub mod query_parser;

use crate::database::Database;
use crate::database::TableV;
use crate::errors::DbErr;
use crate::errors::ErrV;
use crate::queries::create_table_query::create_effect;
use crate::queries::create_table_query::CreateTableQuery;
use crate::queries::delete_table_query::delete_effect;
use crate::queries::delete_table_query::DeleteTableQuery;
use crate::tokenizer::TokenV;

verus! {

/// The fixed marker a query reports on success.
pub struct QuerySuccess {}

impl QuerySuccess {
    /// The marker.
    pub fn new() -> QuerySuccess {
        QuerySuccess {  }
    }
}

/// One executable operation of a plan.
pub enum Query {
    CreateTable(CreateTableQuery),
    DeleteTable(DeleteTableQuery),
}

/// The model of one plan operation: its kind and its bindings.
pub enum QueryV {
    CreateTable(Map<Seq<char>, TokenV>),
    DeleteTable(Map<Seq<char>, TokenV>),
}

impl DeepView for Query {
    type V = QueryV;

    open spec fn deep_view(&self) -> QueryV {
        match self {
            Query::CreateTable(q) => QueryV::CreateTable(q.bindings()),
            Query::DeleteTable(q) => QueryV::DeleteTable(q.bindings()),
        }
    }
}

/// What one plan operation does to the store.
pub open spec fn query_effect(q: QueryV, db: Map<Seq<char>, TableV>) -> (
    Map<Seq<char>, TableV>,
    Result<(), ErrV>,
) {
    match q {
        QueryV::CreateTable(m) => create_effect(m, db),
        QueryV::DeleteTable(m) => delete_effect(m, db),
    }
}

impl Query {
    /// Runs this operation against the store; the store changes exactly
    /// as [`query_effect`] says.
    pub fn execute(&self, database: &mut Database) -> (r: Result<QuerySuccess, DbErr>)
        requires
            old(database).wf(),
        ensures
            final(database).wf(),
            final(database)@ == query_effect(self.deep_view(), old(database)@).0,
            match r {
                Ok(_) => query_effect(self.deep_view(), old(database)@).1 == Ok::<(), ErrV>(()),
                Err(e) => query_effect(self.deep_view(), old(database)@).1 == Err::<(), ErrV>(
                    e.deep_view(),
                ),
            },
    {
        match self {
            Query::CreateTable(q) => q.execute(database),
            Query::DeleteTable(q) => q.execute(database),
        }
    }
}

} // verus!
