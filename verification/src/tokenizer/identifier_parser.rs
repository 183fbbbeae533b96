//! The identifier-or-keyword recognizer.

use vstd::prelude::*;

use crate::assoc::assoc_get;
use crate::text::is_ident;
use crate::text::is_ident_char;
use crate::text::is_ident_start;
use crate::text::is_ident_start_char;
use crate::text::lower_seq;
use crate::text::lower_str;
use crate::text::str_eq;
use crate::tokenizer::ident_end;
use crate::tokenizer::lemma_ident_end_run;
use crate::tokenizer::Token;
use crate::tokenizer::TokenParser;
use crate::tokenizer::TokenV;

verus! {

broadcast use vstd::std_specs::vec::group_vec_axioms, vstd::seq::group_seq_axioms;

/// Recognizes the longest identifier prefix and maps the case-folded word
/// through a configured keyword table.
pub struct IdentifierParser {
    token_mapping: Vec<(String, Token)>,
}

impl IdentifierParser {
    /// The configured keyword table: folded word and the token it maps to,
    /// newest entry last.
    pub closed spec fn mapping(&self) -> Seq<(Seq<char>, TokenV)> {
        Seq::new(
            self.token_mapping@.len(),
            |i: int| (self.token_mapping@[i].0@, self.token_mapping@[i].1.deep_view()),
        )
    }

    /// A recognizer with an empty keyword table.
    pub fn new() -> (r: IdentifierParser)
        ensures
            r.mapping() == Seq::<(Seq<char>, TokenV)>::empty(),
    {
        let r = IdentifierParser { token_mapping: Vec::new() };
        proof {
            assert(r.mapping() =~= Seq::<(Seq<char>, TokenV)>::empty());
        }
        r
    }

    /// Binds the case-folded identifier to the fixed token it lexes to.
    pub fn add_token_mapping(&mut self, identifier: String, token_type: Token)
        ensures
            final(self).mapping() == old(self).mapping().push(
                (lower_seq(identifier@), token_type.deep_view()),
            ),
    {
        let key = lower_str(identifier.as_str());
        let ghost tv = token_type.deep_view();
        self.token_mapping.push((key, token_type));
        proof {
            assert(self.mapping() =~= old(self).mapping().push((lower_seq(identifier@), tv)));
        }
    }

    /// The token the table binds to `key`, if any.
    fn lookup(&self, key: &str) -> (r: Option<Token>)
        ensures
            match r {
                Some(t) => assoc_get(self.mapping(), key@) == Some(t.deep_view()),
                None => assoc_get(self.mapping(), key@) is None,
            },
    {
        let n = self.token_mapping.len();
        let mut i: usize = n;
        proof {
            assert(self.mapping().subrange(0, n as int) =~= self.mapping());
        }
        while i > 0
            invariant
                i <= n,
                n == self.token_mapping@.len(),
                assoc_get(self.mapping(), key@) == assoc_get(
                    self.mapping().subrange(0, i as int),
                    key@,
                ),
            decreases i,
        {
            i -= 1;
            let ghost pre = self.mapping().subrange(0, i + 1 as int);
            proof {
                assert(pre.drop_last() =~= self.mapping().subrange(0, i as int));
                assert(pre.last() == (self.token_mapping@[i as int].0@, self.token_mapping@[
                    i as int
                ].1.deep_view()));
            }
            let entry = &self.token_mapping[i];
            if str_eq(entry.0.as_str(), key) {
                return Some(entry.1.clone());
            }
        }
        proof {
            assert(self.mapping().subrange(0, 0) =~= Seq::<(Seq<char>, TokenV)>::empty());
        }
        None
    }
}

impl TokenParser for IdentifierParser {
    /// Matches exactly when an identifier may start at `pos`; consumes the
    /// longest identifier run and maps its folded text through the table.
    open spec fn spec_result(&self, s: Seq<char>, pos: int) -> Option<(TokenV, int)> {
        if pos < s.len() && is_ident_start_char(s[pos]) {
            let word = s.subrange(pos, ident_end(s, pos + 1));
            let t = match assoc_get(self.mapping(), lower_seq(word)) {
                Some(t) => t,
                None => TokenV::Identifier(word),
            };
            Some((t, ident_end(s, pos + 1)))
        } else {
            None
        }
    }

    fn parse_skip(&self, input: &str, pos: usize) -> (r: Option<(Token, usize)>) {
        let n = input.unicode_len();
        if pos == n {
            return None;
        }
        let c0 = input.get_char(pos);
        if !is_ident_start(c0) {
            return None;
        }
        let mut j = pos + 1;
        while j < n && is_ident(input.get_char(j))
            invariant
                pos + 1 <= j <= n,
                n == input@.len(),
                forall|k: int| pos + 1 <= k < j ==> is_ident_char(input@[k]),
            decreases n - j,
        {
            j += 1;
        }
        proof {
            lemma_ident_end_run(input@, pos + 1 as int, j as int);
        }
        let word = input.substring_char(pos, j);
        let folded = lower_str(word);
        match self.lookup(folded.as_str()) {
            Some(t) => Some((t, j)),
            None => Some((Token::Identifier(word.to_owned()), j)),
        }
    }
}

} // verus!
