//! The fixed-literal recognizer.

use vstd::prelude::*;

use crate::text::lower_char;
use crate::text::lower_seq;
use crate::text::to_lower;
use crate::tokenizer::Token;
use crate::tokenizer::TokenParser;
use crate::tokenizer::TokenV;

verus! {

broadcast use vstd::std_specs::vec::group_vec_axioms, vstd::seq::group_seq_axioms;

/// Recognizes one fixed literal, case-insensitively, and produces one
/// fixed token.
pub struct SimpleParser {
    search_string: String,
    result_token: Token,
}

impl SimpleParser {
    /// The literal this recognizer searches for.
    pub closed spec fn search(&self) -> Seq<char> {
        self.search_string@
    }

    /// The model of the token this recognizer produces.
    pub closed spec fn token(&self) -> TokenV {
        self.result_token.deep_view()
    }

    /// A recognizer for the given literal producing the given token.
    pub fn new(search_string: String, result_token: Token) -> (r: SimpleParser)
        ensures
            r.search() == search_string@,
            r.token() == result_token.deep_view(),
    {
        SimpleParser { search_string, result_token }
    }
}

impl TokenParser for SimpleParser {
    /// Matches exactly when the case-folded input at `pos` begins with the
    /// configured literal, and consumes that many characters.
    open spec fn spec_result(&self, s: Seq<char>, pos: int) -> Option<(TokenV, int)> {
        if pos + self.search().len() <= s.len() && lower_seq(
            s.subrange(pos, pos + self.search().len()),
        ) == self.search() {
            Some((self.token(), pos + self.search().len()))
        } else {
            None
        }
    }

    fn parse_skip(&self, input: &str, pos: usize) -> (r: Option<(Token, usize)>) {
        let k = self.search_string.unicode_len();
        let n = input.unicode_len();
        if k > n - pos {
            return None;
        }
        let ghost sub = input@.subrange(pos as int, pos + k as int);
        let mut i: usize = 0;
        while i < k
            invariant
                i <= k,
                pos + k <= n,
                k == self.search_string@.len(),
                n == input@.len(),
                sub == input@.subrange(pos as int, pos + k as int),
                forall|m: int| 0 <= m < i ==> lower_char(sub[m]) == self.search_string@[m],
            decreases k - i,
        {
            if to_lower(input.get_char(pos + i)) != self.search_string.get_char(i) {
                proof {
                    assert(lower_seq(sub)[i as int] != self.search_string@[i as int]);
                }
                return None;
            }
            i += 1;
        }
        proof {
            assert(lower_seq(sub) =~= self.search_string@);
        }
        Some((self.result_token.clone(), pos + k))
    }
}

} // verus!
