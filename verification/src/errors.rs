//! The error values this crate reports.

use vstd::prelude::*;

use crate::tokenizer::TokenKind;

verus! {

/// Everything that can go wrong between receiving query text and finishing
/// the plan it describes.
#[derive(Debug, PartialEq, Eq)]
pub enum DbErr {
    /// Catch-all for states the pipeline does not expect to reach.
    Generic(String),
    /// Lexing failed: no recognizer matched at this character position.
    UnparseableInput(usize),
    /// A grammar step saw a token of the wrong shape.
    KindMismatch { expected: TokenKind, got: TokenKind },
    /// A grammar step needed a token but the stream was exhausted.
    EndOfStream,
    /// The second-stage parse of a captured column list failed.
    MalformedColumnList,
    /// No grammar matched; carries the best-progress failure diagnostic.
    NoGrammarMatched(Box<DbErr>),
    /// The store already holds a table of that name.
    TableAlreadyExists,
    /// The store holds no table of that name.
    TableNotExists,
}

/// The mathematical model of a [`DbErr`].
pub enum ErrV {
    Generic(Seq<char>),
    UnparseableInput(int),
    KindMismatch(TokenKind, TokenKind),
    EndOfStream,
    MalformedColumnList,
    NoGrammarMatched(Box<ErrV>),
    TableAlreadyExists,
    TableNotExists,
}

impl DeepView for DbErr {
    type V = ErrV;

    open spec fn deep_view(&self) -> ErrV
        decreases self,
    {
        match self {
            DbErr::Generic(m) => ErrV::Generic(m@),
            DbErr::UnparseableInput(p) => ErrV::UnparseableInput(*p as int),
            DbErr::KindMismatch { expected, got } => ErrV::KindMismatch(*expected, *got),
            DbErr::EndOfStream => ErrV::EndOfStream,
            DbErr::MalformedColumnList => ErrV::MalformedColumnList,
            DbErr::NoGrammarMatched(e) => ErrV::NoGrammarMatched(Box::new((**e).deep_view())),
            DbErr::TableAlreadyExists => ErrV::TableAlreadyExists,
            DbErr::TableNotExists => ErrV::TableNotExists,
        }
    }
}

} // verus!
