//! Tokens and the lexer.
//!
//! The lexer walks the input text with an ordered list of recognizers and
//! produces a flat token sequence; its full behaviour is captured by the
//! spec function [`spec_lex`].

use vstd::prelude::*;

pub mod identifier_parser;
pub mod simple_parser;

verus! {

use crate::assoc::assoc_get;
use crate::errors::DbErr;
use crate::text::is_ident_char;
use crate::text::is_ident_start_char;
use crate::text::is_space;
use crate::text::is_space_char;
use crate::text::lower_char;
use crate::text::lower_seq;
use crate::tokenizer::identifier_parser::IdentifierParser;
use crate::tokenizer::simple_parser::SimpleParser;

broadcast use vstd::std_specs::vec::group_vec_axioms, vstd::seq::group_seq_axioms;

/// The structural unit produced by lexing. `List` is produced only by
/// delimited-stream capture during grammar matching, never by the lexer.
#[derive(Debug, PartialEq, Eq)]
pub enum Token {
    Create,
    Delete,
    Table,
    Comma,
    OpenBracket,
    CloseBracket,
    SemiColon,
    Identifier(String),
    List(Vec<Token>),
}

/// The mathematical model of a [`Token`]: identifier text as a character
/// sequence, lists as sequences of models.
pub enum TokenV {
    Create,
    Delete,
    Table,
    Comma,
    OpenBracket,
    CloseBracket,
    SemiColon,
    Identifier(Seq<char>),
    List(Seq<TokenV>),
}

impl DeepView for Token {
    type V = TokenV;

    open spec fn deep_view(&self) -> TokenV
        decreases self,
    {
        match self {
            Token::Create => TokenV::Create,
            Token::Delete => TokenV::Delete,
            Token::Table => TokenV::Table,
            Token::Comma => TokenV::Comma,
            Token::OpenBracket => TokenV::OpenBracket,
            Token::CloseBracket => TokenV::CloseBracket,
            Token::SemiColon => TokenV::SemiColon,
            Token::Identifier(s) => TokenV::Identifier(s@),
            Token::List(ts) => TokenV::List(list_model(*ts)),
        }
    }
}

/// The model of a token vector, element by element.
pub open spec fn list_model(ts: Vec<Token>) -> Seq<TokenV>
    decreases ts,
{
    Seq::new(
        ts@.len(),
        |i: int|
            if 0 <= i < ts.len() {
                ts[i].deep_view()
            } else {
                TokenV::Create
            },
    )
}

/// The shape of a token, with every payload forgotten: grammar steps
/// compare tokens by shape alone.
#[derive(Debug, PartialEq, Eq, Clone, Copy, Structural)]
pub enum TokenKind {
    Create,
    Delete,
    Table,
    Comma,
    OpenBracket,
    CloseBracket,
    SemiColon,
    Identifier,
    List,
}

/// The shape of a modelled token.
pub open spec fn kind_of(t: TokenV) -> TokenKind {
    match t {
        TokenV::Create => TokenKind::Create,
        TokenV::Delete => TokenKind::Delete,
        TokenV::Table => TokenKind::Table,
        TokenV::Comma => TokenKind::Comma,
        TokenV::OpenBracket => TokenKind::OpenBracket,
        TokenV::CloseBracket => TokenKind::CloseBracket,
        TokenV::SemiColon => TokenKind::SemiColon,
        TokenV::Identifier(_) => TokenKind::Identifier,
        TokenV::List(_) => TokenKind::List,
    }
}

impl Token {
    /// The shape of this token.
    pub fn kind(&self) -> (k: TokenKind)
        ensures
            k == kind_of(self.deep_view()),
    {
        match self {
            Token::Create => TokenKind::Create,
            Token::Delete => TokenKind::Delete,
            Token::Table => TokenKind::Table,
            Token::Comma => TokenKind::Comma,
            Token::OpenBracket => TokenKind::OpenBracket,
            Token::CloseBracket => TokenKind::CloseBracket,
            Token::SemiColon => TokenKind::SemiColon,
            Token::Identifier(_) => TokenKind::Identifier,
            Token::List(_) => TokenKind::List,
        }
    }
}

impl Clone for Token {
    /// A structural copy; the model is preserved.
    fn clone(&self) -> (r: Token)
        ensures
            r.deep_view() == self.deep_view(),
        decreases self,
    {
        match self {
            Token::Create => Token::Create,
            Token::Delete => Token::Delete,
            Token::Table => Token::Table,
            Token::Comma => Token::Comma,
            Token::OpenBracket => Token::OpenBracket,
            Token::CloseBracket => Token::CloseBracket,
            Token::SemiColon => Token::SemiColon,
            Token::Identifier(s) => Token::Identifier(s.clone()),
            Token::List(ts) => {
                let mut out: Vec<Token> = Vec::new();
                let mut i: usize = 0;
                while i < ts.len()
                    invariant
                        *self == Token::List(*ts),
                        i <= ts.len(),
                        out@.len() == i,
                        forall|k: int| 0 <= k < i ==> out@[k].deep_view() == ts@[k].deep_view(),
                    decreases ts.len() - i,
                {
                    proof {
                        assert(decreases_to!(*self => self->List_0));
                        assert(decreases_to!(*ts => ts@));
                        assert(decreases_to!(ts@ => ts@[i as int]));
                        assert(decreases_to!(*self => ts@[i as int]));
                    }
                    out.push(ts[i].clone());
                    i += 1;
                }
                proof {
                    assert(list_model(out) =~= list_model(*ts));
                }
                Token::List(out)
            },
        }
    }
}

/// The index just past the identifier run that begins at `i`: the first
/// index at or after `i` whose character no longer continues an identifier.
pub open spec fn ident_end(s: Seq<char>, i: int) -> int
    decreases s.len() - i when 0 <= i <= s.len()
{
    if i >= s.len() {
        i
    } else if is_ident_char(s[i]) {
        ident_end(s, i + 1)
    } else {
        i
    }
}

pub proof fn lemma_ident_end_bounds(s: Seq<char>, i: int)
    requires
        0 <= i <= s.len(),
    ensures
        i <= ident_end(s, i) <= s.len(),
    decreases s.len() - i,
{
    if i < s.len() && is_ident_char(s[i]) {
        lemma_ident_end_bounds(s, i + 1);
    }
}

/// The keyword table the standard lexer is configured with.
pub open spec fn standard_mapping() -> Seq<(Seq<char>, TokenV)> {
    seq![("create"@, TokenV::Create), ("table"@, TokenV::Table), ("delete"@, TokenV::Delete)]
}

/// The token an identifier word lexes to: the mapped keyword when the
/// case-folded word is configured, else an identifier keeping the word's
/// original case.
pub open spec fn keyword_or_identifier(word: Seq<char>) -> TokenV {
    match assoc_get(standard_mapping(), lower_seq(word)) {
        Some(t) => t,
        None => TokenV::Identifier(word),
    }
}

/// The token the standard recognizers produce at position `i`, with the
/// position just past it; `None` when none of them matches there.
pub open spec fn spec_token_at(s: Seq<char>, i: int) -> Option<(TokenV, int)>
    recommends
        0 <= i < s.len(),
{
    if is_ident_start_char(s[i]) {
        Some((keyword_or_identifier(s.subrange(i, ident_end(s, i + 1))), ident_end(s, i + 1)))
    } else if s[i] == ',' {
        Some((TokenV::Comma, i + 1))
    } else if s[i] == '(' {
        Some((TokenV::OpenBracket, i + 1))
    } else if s[i] == ')' {
        Some((TokenV::CloseBracket, i + 1))
    } else if s[i] == ';' {
        Some((TokenV::SemiColon, i + 1))
    } else {
        None
    }
}

/// Lexing from position `i` on: whitespace is skipped, each recognized
/// token is emitted in order, and the position of the first character no
/// recognizer accepts is the error.
pub open spec fn spec_lex_from(s: Seq<char>, i: int) -> Result<Seq<TokenV>, int>
    decreases s.len() - i when 0 <= i <= s.len() via spec_lex_from_decreases
{
    if i >= s.len() {
        Ok(Seq::empty())
    } else if is_space_char(s[i]) {
        spec_lex_from(s, i + 1)
    } else {
        match spec_token_at(s, i) {
            Some((t, next)) => match spec_lex_from(s, next) {
                Ok(rest) => Ok(seq![t] + rest),
                Err(p) => Err(p),
            },
            None => Err(i),
        }
    }
}

#[via_fn]
proof fn spec_lex_from_decreases(s: Seq<char>, i: int) {
    if 0 <= i < s.len() && !is_space_char(s[i]) && is_ident_start_char(s[i]) {
        lemma_ident_end_bounds(s, i + 1);
    }
}

/// What lexing yields on a whole input: the token sequence, or the
/// position at which no recognizer matched.
pub open spec fn spec_lex(s: Seq<char>) -> Result<Seq<TokenV>, int> {
    spec_lex_from(s, 0)
}

/// Tokens already emitted, prepended to the outcome of lexing the rest.
pub open spec fn lex_append(ts: Seq<TokenV>, r: Result<Seq<TokenV>, int>) -> Result<
    Seq<TokenV>,
    int,
> {
    match r {
        Ok(rest) => Ok(ts + rest),
        Err(p) => Err(p),
    }
}

/// Lexing is unmoved by a run of whitespace.
proof fn lemma_lex_skip_spaces(s: Seq<char>, p: int, q: int)
    requires
        0 <= p <= q <= s.len(),
        forall|k: int| p <= k < q ==> is_space_char(s[k]),
    ensures
        spec_lex_from(s, p) == spec_lex_from(s, q),
    decreases q - p,
{
    if p < q {
        assert(is_space_char(s[p]));
        lemma_lex_skip_spaces(s, p + 1, q);
    }
}

/// A scan that ran over identifier characters and stopped at the first
/// character (or the end) that is none finds exactly `ident_end`.
proof fn lemma_ident_end_run(s: Seq<char>, p: int, j: int)
    requires
        0 <= p <= j <= s.len(),
        forall|k: int| p <= k < j ==> is_ident_char(s[k]),
        j == s.len() || !is_ident_char(s[j]),
    ensures
        ident_end(s, p) == j,
    decreases j - p,
{
    if p < j {
        assert(is_ident_char(s[p]));
        lemma_ident_end_run(s, p + 1, j);
    }
}

/// One unit of grammar input: either the identifier-or-keyword recognizer
/// or a fixed-literal recognizer.
pub enum Parser {
    Ident(IdentifierParser),
    Simple(SimpleParser),
}

/// A pluggable rule that recognizes a token at a position of the input and
/// reports the position just past what it consumed.
pub trait TokenParser: Sized {
    /// The recognizer's outcome at position `pos` of `s`: the model of the
    /// produced token and the position just past the consumed prefix, or
    /// `None` when the recognizer does not match there.
    spec fn spec_result(&self, s: Seq<char>, pos: int) -> Option<(TokenV, int)>;

    /// Attempt to recognize one token at `pos`.
    fn parse_skip(&self, input: &str, pos: usize) -> (r: Option<(Token, usize)>)
        requires
            pos <= input@.len(),
        ensures
            match r {
                Some(tn) => {
                    &&& self.spec_result(input@, pos as int) == Some(
                        (tn.0.deep_view(), tn.1 as int),
                    )
                    &&& pos <= tn.1 <= input@.len()
                },
                None => self.spec_result(input@, pos as int) is None,
            },
    ;
}

impl TokenParser for Parser {
    open spec fn spec_result(&self, s: Seq<char>, pos: int) -> Option<(TokenV, int)> {
        match self {
            Parser::Ident(p) => p.spec_result(s, pos),
            Parser::Simple(p) => p.spec_result(s, pos),
        }
    }

    fn parse_skip(&self, input: &str, pos: usize) -> (r: Option<(Token, usize)>) {
        match self {
            Parser::Ident(p) => p.parse_skip(input, pos),
            Parser::Simple(p) => p.parse_skip(input, pos),
        }
    }
}

/// The position of the first non-whitespace character at or after `from`.
pub fn skip_spaces(input: &str, from: usize) -> (r: usize)
    requires
        from <= input@.len(),
    ensures
        from <= r <= input@.len(),
        forall|k: int| from <= k < r ==> is_space_char(input@[k]),
        r == input@.len() || !is_space_char(input@[r as int]),
{
    let n = input.unicode_len();
    let mut i = from;
    while i < n && is_space(input.get_char(i))
        invariant
            from <= i <= n,
            n == input@.len(),
            forall|k: int| from <= k < i ==> is_space_char(input@[k]),
        decreases n - i,
    {
        i += 1;
    }
    i
}

/// The lexer: an ordered list of recognizers walked over the input in
/// passes until the input is exhausted or no recognizer matches.
pub struct Tokenizer {
    parsers: Vec<Parser>,
}

impl Tokenizer {
    /// The standard recognizer list: the identifier-and-keyword recognizer
    /// first, then one literal recognizer per punctuation mark.
    pub closed spec fn wf(&self) -> bool {
        &&& self.parsers@.len() == 5
        &&& self.parsers@[0] matches Parser::Ident(ip) && ip.mapping() == standard_mapping()
        &&& self.parsers@[1] matches Parser::Simple(sp) && sp.search() == ","@ && sp.token()
            == TokenV::Comma
        &&& self.parsers@[2] matches Parser::Simple(sp) && sp.search() == "("@ && sp.token()
            == TokenV::OpenBracket
        &&& self.parsers@[3] matches Parser::Simple(sp) && sp.search() == ")"@ && sp.token()
            == TokenV::CloseBracket
        &&& self.parsers@[4] matches Parser::Simple(sp) && sp.search() == ";"@ && sp.token()
            == TokenV::SemiColon
    }

    /// The lexer for this crate's query language.
    pub fn new() -> (r: Tokenizer)
        ensures
            r.wf(),
    {
        let mut identifier_parser = IdentifierParser::new();
        identifier_parser.add_token_mapping("create".to_owned(), Token::Create);
        identifier_parser.add_token_mapping("table".to_owned(), Token::Table);
        identifier_parser.add_token_mapping("delete".to_owned(), Token::Delete);
        proof {
            reveal_strlit("create");
            reveal_strlit("table");
            reveal_strlit("delete");
            lemma_lower_ascii("create");
            lemma_lower_ascii("table");
            lemma_lower_ascii("delete");
            assert(identifier_parser.mapping() =~= standard_mapping());
        }
        let mut parsers: Vec<Parser> = Vec::new();
        parsers.push(Parser::Ident(identifier_parser));
        parsers.push(Parser::Simple(SimpleParser::new(",".to_owned(), Token::Comma)));
        parsers.push(Parser::Simple(SimpleParser::new("(".to_owned(), Token::OpenBracket)));
        parsers.push(Parser::Simple(SimpleParser::new(")".to_owned(), Token::CloseBracket)));
        parsers.push(Parser::Simple(SimpleParser::new(";".to_owned(), Token::SemiColon)));
        Tokenizer { parsers }
    }

    /// Lexes the whole input: the token sequence of [`spec_lex`], or the
    /// unparseable-input error carrying the position it names.
    pub fn tokenize(&self, query_string: &str) -> (r: Result<Vec<Token>, DbErr>)
        requires
            self.wf(),
        ensures
            match r {
                Ok(toks) => spec_lex(query_string@) == Ok::<Seq<TokenV>, int>(list_model(toks)),
                Err(e) => e matches DbErr::UnparseableInput(p) && spec_lex(query_string@)
                    == Err::<Seq<TokenV>, int>(p as int),
            },
    {
        let ghost s = query_string@;
        let n = query_string.unicode_len();
        let mut tokens: Vec<Token> = Vec::new();
        let mut pos = skip_spaces(query_string, 0);
        proof {
            lemma_lex_skip_spaces(s, 0, pos as int);
            assert(lex_append(list_model(tokens), spec_lex_from(s, pos as int)) == spec_lex_from(
                s,
                0,
            ));
        }
        while pos < n
            invariant
                self.wf(),
                s == query_string@,
                n == s.len(),
                pos <= n,
                pos == n || !is_space_char(s[pos as int]),
                lex_append(list_model(tokens), spec_lex_from(s, pos as int)) == spec_lex_from(
                    s,
                    0,
                ),
            decreases n - pos,
        {
            let mut success = false;
            let ghost pos0 = pos;
            let mut j: usize = 0;
            while j < self.parsers.len()
                invariant
                    self.wf(),
                    s == query_string@,
                    n == s.len(),
                    j <= 5,
                    pos <= n,
                    pos0 < n,
                    pos == n || !is_space_char(s[pos as int]),
                    lex_append(list_model(tokens), spec_lex_from(s, pos as int)) == spec_lex_from(
                        s,
                        0,
                    ),
                    !success ==> pos == pos0 && (forall|k: int|
                        0 <= k < j ==> self.parsers@[k].spec_result(s, pos as int) is None),
                    success ==> pos0 < pos,
                decreases 5 - j,
            {
                match self.parsers[j].parse_skip(query_string, pos) {
                    Some(tn) => {
                        let (t, next) = tn;
                        proof {
                            lemma_parser_some(self, s, pos as int, j as int);
                            lemma_lex_append_assoc(
                                list_model(tokens),
                                t.deep_view(),
                                spec_lex_from(s, next as int),
                            );
                        }
                        let ghost tokens0 = tokens;
                        tokens.push(t);
                        proof {
                            assert(list_model(tokens) =~= list_model(tokens0).push(
                                tokens@[tokens@.len() - 1].deep_view(),
                            ));
                        }
                        let new_pos = skip_spaces(query_string, next);
                        proof {
                            lemma_lex_skip_spaces(s, next as int, new_pos as int);
                        }
                        pos = new_pos;
                        success = true;
                    },
                    None => {},
                }
                j += 1;
            }
            if !success {
                proof {
                    lemma_parser_none(self, s, pos as int);
                }
                return Err(DbErr::UnparseableInput(pos));
            }
        }
        proof {
            assert(list_model(tokens) + Seq::<TokenV>::empty() =~= list_model(tokens));
        }
        Ok(tokens)
    }
}

/// Lexing is a pure function of the text: any two lexing passes over the
/// same character sequence yield the same outcome, token for token.
pub proof fn lemma_lex_deterministic(
    s: Seq<char>,
    r1: Result<Seq<TokenV>, int>,
    r2: Result<Seq<TokenV>, int>,
)
    requires
        r1 == spec_lex(s),
        r2 == spec_lex(s),
    ensures
        r1 == r2,
{
}

/// Folding an ASCII-lowercase literal changes nothing.
proof fn lemma_lower_ascii(s: &str)
    requires
        forall|k: int| 0 <= k < s@.len() ==> lower_char(s@[k]) == s@[k],
    ensures
        lower_seq(s@) == s@,
{
    assert(lower_seq(s@) =~= s@);
}

/// Under the standard configuration, any recognizer that matches yields
/// exactly the token [`spec_token_at`] names, with real progress.
proof fn lemma_parser_some(t: &Tokenizer, s: Seq<char>, i: int, j: int)
    requires
        t.wf(),
        0 <= i <= s.len(),
        0 <= j < 5,
        t.parsers@[j].spec_result(s, i) is Some,
    ensures
        0 <= i < s.len(),
        !is_space_char(s[i]) ==> t.parsers@[j].spec_result(s, i) == spec_token_at(s, i),
        t.parsers@[j].spec_result(s, i) matches Some(tn) && i < tn.1 <= s.len(),
{
    reveal_strlit(",");
    reveal_strlit("(");
    reveal_strlit(")");
    reveal_strlit(";");
    if j == 0 {
        lemma_ident_end_bounds(s, i + 1);
    } else {
        let p = t.parsers@[j]->Simple_0;
        assert(p.spec_result(s, i) is Some);
        assert(lower_seq(s.subrange(i, i + 1))[0] == lower_char(s[i]));
        assert(!is_ident_start_char(s[i]));
        if s[i] != ',' && s[i] != '(' && s[i] != ')' && s[i] != ';' {
            assert(lower_char(s[i]) != p.search()[0]);
        }
    }
}

/// Under the standard configuration, if no recognizer matches then no
/// token is produced at this position.
proof fn lemma_parser_none(t: &Tokenizer, s: Seq<char>, i: int)
    requires
        t.wf(),
        0 <= i < s.len(),
        forall|k: int| 0 <= k < 5 ==> t.parsers@[k].spec_result(s, i) is None,
    ensures
        spec_token_at(s, i) is None,
{
    reveal_strlit(",");
    reveal_strlit("(");
    reveal_strlit(")");
    reveal_strlit(";");
    assert(t.parsers@[0].spec_result(s, i) is None);
    if s[i] == ',' {
        let p = t.parsers@[1]->Simple_0;
        assert(lower_seq(s.subrange(i, i + 1)) =~= p.search());
        assert(p.spec_result(s, i) is Some);
    }
    if s[i] == '(' {
        let p = t.parsers@[2]->Simple_0;
        assert(lower_seq(s.subrange(i, i + 1)) =~= p.search());
        assert(p.spec_result(s, i) is Some);
    }
    if s[i] == ')' {
        let p = t.parsers@[3]->Simple_0;
        assert(lower_seq(s.subrange(i, i + 1)) =~= p.search());
        assert(p.spec_result(s, i) is Some);
    }
    if s[i] == ';' {
        let p = t.parsers@[4]->Simple_0;
        assert(lower_seq(s.subrange(i, i + 1)) =~= p.search());
        assert(p.spec_result(s, i) is Some);
    }
}

/// Prepending one more emitted token agrees with consing it onto the rest.
proof fn lemma_lex_append_assoc(l: Seq<TokenV>, tv: TokenV, r: Result<Seq<TokenV>, int>)
    ensures
        lex_append(l.push(tv), r) == lex_append(
            l,
            match r {
                Ok(rest) => Ok(seq![tv] + rest),
                Err(p) => Err(p),
            },
        ),
{
    match r {
        Ok(rest) => {
            assert(l.push(tv) + rest =~= l + (seq![tv] + rest));
        },
        Err(_) => {},
    }
}

} // verus!
