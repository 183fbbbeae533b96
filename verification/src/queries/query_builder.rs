//! The grammar registry: one (grammar, query kind) pair per supported
//! statement shape.

use vstd::prelude::*;

use crate::queries::parse_steps::ParseSteps;
use crate::queries::parse_steps::StepV;
use crate::tokenizer::Token;
use crate::tokenizer::TokenKind;

verus! {

broadcast use vstd::std_specs::vec::group_vec_axioms, vstd::seq::group_seq_axioms;

/// Which query a matched grammar builds.
#[derive(Debug, PartialEq, Eq, Clone, Copy, Structural)]
pub enum QueryKind {
    CreateTable,
    DeleteTable,
}

/// The grammar of `CREATE TABLE <name> ( <columns> ) ;`.
pub open spec fn create_grammar() -> Seq<StepV> {
    seq![
        StepV::UnnamedStep(TokenKind::Create),
        StepV::UnnamedStep(TokenKind::Table),
        StepV::NamedStep(TokenKind::Identifier, "Name"@),
        StepV::NamedStream(TokenKind::OpenBracket, TokenKind::CloseBracket, "TableDescription"@),
        StepV::UnnamedStep(TokenKind::SemiColon),
    ]
}

/// The grammar of `DELETE TABLE <name>`.
pub open spec fn delete_grammar() -> Seq<StepV> {
    seq![
        StepV::UnnamedStep(TokenKind::Delete),
        StepV::UnnamedStep(TokenKind::Table),
        StepV::NamedStep(TokenKind::Identifier, "Name"@),
    ]
}

/// The fixed registry as models: each grammar with the query it builds,
/// in the order the dispatcher tries them.
pub open spec fn registry() -> Seq<(Seq<StepV>, QueryKind)> {
    seq![
        (create_grammar(), QueryKind::CreateTable),
        (delete_grammar(), QueryKind::DeleteTable),
    ]
}

/// One registry entry: a grammar template and the kind of query its
/// bindings build.
pub struct QueryBuilder {
    pub steps: ParseSteps,
    pub kind: QueryKind,
}

/// The fixed registry, in order, as [`registry`] models it.
pub fn get_builders() -> (r: Vec<QueryBuilder>)
    ensures
        r@.len() == 2,
        r@[0].steps.steps() == create_grammar(),
        r@[0].kind == QueryKind::CreateTable,
        r@[1].steps.steps() == delete_grammar(),
        r@[1].kind == QueryKind::DeleteTable,
{
    let mut query_factories: Vec<QueryBuilder> = Vec::new();

    let create_steps = ParseSteps::new().add_step(Token::Create).add_step(Token::Table)
        .add_named_step(Token::Identifier("_".to_owned()), "Name")
        .add_token_capture_stream(
        Token::OpenBracket,
        Token::CloseBracket,
        "TableDescription".to_owned(),
    ).add_step(Token::SemiColon);
    proof {
        assert(create_steps.steps() =~= create_grammar());
    }
    query_factories.push(QueryBuilder { steps: create_steps, kind: QueryKind::CreateTable });

    let delete_steps = ParseSteps::new().add_step(Token::Delete).add_step(Token::Table)
        .add_named_step(Token::Identifier("_".to_owned()), "Name");
    proof {
        assert(delete_steps.steps() =~= delete_grammar());
    }
    query_factories.push(QueryBuilder { steps: delete_steps, kind: QueryKind::DeleteTable });

    query_factories
}

} // verus!
