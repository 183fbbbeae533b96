//! The declarative grammar template and its matcher.

use vstd::prelude::*;

use crate::assoc::assoc_get;
use crate::assoc::assoc_map;
use crate::assoc::lemma_assoc_map_get;
use crate::errors::DbErr;
use crate::errors::ErrV;
use crate::text::str_eq;
use crate::tokenizer::kind_of;
use crate::tokenizer::list_model;
use crate::tokenizer::Token;
use crate::tokenizer::TokenKind;
use crate::tokenizer::TokenV;

verus! {

broadcast use vstd::std_specs::vec::group_vec_axioms, vstd::seq::group_seq_axioms;

/// One matchable unit of a grammar template.
enum Step {
    /// The token must have this shape; nothing is recorded.
    UnnamedStep(Token),
    /// The token must have this shape and is bound under the name.
    NamedStep(Token, String),
    /// The token must have the first shape; tokens are then collected
    /// until one of the second shape is consumed, and the collected run is
    /// bound under the name.
    NamedStream(Token, Token, String),
}

/// The model of a grammar step: only token shapes are ever compared.
pub enum StepV {
    UnnamedStep(TokenKind),
    NamedStep(TokenKind, Seq<char>),
    NamedStream(TokenKind, TokenKind, Seq<char>),
}

impl DeepView for Step {
    type V = StepV;

    closed spec fn deep_view(&self) -> StepV {
        match self {
            Step::UnnamedStep(t) => StepV::UnnamedStep(kind_of(t.deep_view())),
            Step::NamedStep(t, n) => StepV::NamedStep(kind_of(t.deep_view()), n@),
            Step::NamedStream(s, e, n) => StepV::NamedStream(
                kind_of(s.deep_view()),
                kind_of(e.deep_view()),
                n@,
            ),
        }
    }
}

/// Named tokens extracted by a grammar match; a name bound twice keeps the
/// latest token.
pub struct Bindings {
    entries: Vec<(String, Token)>,
}

impl Bindings {
    /// The recorded (name, token) pairs, newest last.
    closed spec fn entries_model(&self) -> Seq<(Seq<char>, TokenV)> {
        Seq::new(self.entries@.len(), |i: int| (self.entries@[i].0@, self.entries@[i].1.deep_view()))
    }

    /// No bindings.
    pub fn new() -> (r: Bindings)
        ensures
            r@ == Map::<Seq<char>, TokenV>::empty(),
    {
        let r = Bindings { entries: Vec::new() };
        proof {
            assert(r.entries_model() =~= Seq::<(Seq<char>, TokenV)>::empty());
        }
        r
    }

    /// Binds `value` under `name`, overwriting an earlier binding.
    pub fn insert(&mut self, name: String, value: Token)
        ensures
            final(self)@ == old(self)@.insert(name@, value.deep_view()),
    {
        let ghost vv = value.deep_view();
        self.entries.push((name, value));
        proof {
            assert(self.entries_model().drop_last() =~= old(self).entries_model());
            assert(self.entries_model().last() == (name@, vv));
        }
    }

    /// The token bound under `name`, if any.
    pub fn get(&self, name: &str) -> (r: Option<&Token>)
        ensures
            match r {
                Some(t) => self@.contains_key(name@) && t.deep_view() == self@[name@],
                None => !self@.contains_key(name@),
            },
    {
        proof {
            lemma_assoc_map_get(self.entries_model(), name@);
            assert(self.entries_model().subrange(0, self.entries@.len() as int) =~= self
                .entries_model());
        }
        let n = self.entries.len();
        let mut i: usize = n;
        while i > 0
            invariant
                i <= n,
                n == self.entries@.len(),
                assoc_get(self.entries_model(), name@) == assoc_get(
                    self.entries_model().subrange(0, i as int),
                    name@,
                ),
            decreases i,
        {
            i -= 1;
            let ghost pre = self.entries_model().subrange(0, i + 1 as int);
            proof {
                assert(pre.drop_last() =~= self.entries_model().subrange(0, i as int));
                assert(pre.last() == self.entries_model()[i as int]);
            }
            if str_eq(self.entries[i].0.as_str(), name) {
                proof {
                    assert(self.entries_model()[i as int] == (self.entries@[i as int].0@, self
                        .entries@[i as int].1.deep_view()));
                    assert(pre.last().0 == name@);
                    assert(assoc_get(pre, name@) == Some(pre.last().1));
                    assert(assoc_get(self.entries_model(), name@) == Some(self.entries@[
                        i as int
                    ].1.deep_view()));
                    lemma_assoc_map_get(self.entries_model(), name@);
                }
                return Some(&self.entries[i].1);
            }
        }
        proof {
            assert(self.entries_model().subrange(0, 0) =~= Seq::<(Seq<char>, TokenV)>::empty());
        }
        None
    }
}

impl View for Bindings {
    type V = Map<Seq<char>, TokenV>;

    /// The model: the finite map from name to latest bound token.
    closed spec fn view(&self) -> Map<Seq<char>, TokenV> {
        assoc_map(self.entries_model())
    }
}

/// The first index at or after `i` whose token has shape `k`, or the
/// stream length when none has.
pub open spec fn find_kind(toks: Seq<TokenV>, i: int, k: TokenKind) -> int
    decreases toks.len() - i when 0 <= i <= toks.len()
{
    if i >= toks.len() {
        i
    } else if kind_of(toks[i]) == k {
        i
    } else {
        find_kind(toks, i + 1, k)
    }
}

/// A scan that ran over tokens of other shapes and stopped at the first
/// of shape `k` (or the end) finds exactly `find_kind`.
proof fn lemma_find_kind_run(toks: Seq<TokenV>, p: int, j: int, k: TokenKind)
    requires
        0 <= p <= j <= toks.len(),
        forall|m: int| p <= m < j ==> kind_of(toks[m]) != k,
        j == toks.len() || kind_of(toks[j]) == k,
    ensures
        find_kind(toks, p, k) == j,
    decreases j - p,
{
    if p < j {
        assert(kind_of(toks[p]) != k);
        lemma_find_kind_run(toks, p + 1, j, k);
    }
}

/// The outcome of matching the remaining steps against `toks`, reading
/// from cursor `i`, with the bindings accumulated so far: the final
/// bindings, or the error and the cursor value just after the failing
/// step's initial read.
pub open spec fn match_steps(
    steps: Seq<StepV>,
    toks: Seq<TokenV>,
    i: int,
    m: Map<Seq<char>, TokenV>,
) -> Result<Map<Seq<char>, TokenV>, (ErrV, int)>
    decreases steps.len(),
{
    if steps.len() == 0 {
        Ok(m)
    } else if i >= toks.len() {
        Err((ErrV::EndOfStream, i))
    } else {
        let t = toks[i];
        match steps[0] {
            StepV::UnnamedStep(k) => {
                if kind_of(t) == k {
                    match_steps(steps.skip(1), toks, i + 1, m)
                } else {
                    Err((ErrV::KindMismatch(k, kind_of(t)), i + 1))
                }
            },
            StepV::NamedStep(k, name) => {
                if kind_of(t) == k {
                    match_steps(steps.skip(1), toks, i + 1, m.insert(name, t))
                } else {
                    Err((ErrV::KindMismatch(k, kind_of(t)), i + 1))
                }
            },
            StepV::NamedStream(ks, ke, name) => {
                if kind_of(t) == ks {
                    let j = find_kind(toks, i + 1, ke);
                    if j < toks.len() {
                        match_steps(
                            steps.skip(1),
                            toks,
                            j + 1,
                            m.insert(name, TokenV::List(toks.subrange(i + 1, j))),
                        )
                    } else {
                        match_steps(steps.skip(1), toks, toks.len() as int, m)
                    }
                } else {
                    Err((ErrV::KindMismatch(ks, kind_of(t)), i + 1))
                }
            },
        }
    }
}

/// An ordered grammar template: one statement shape.
pub struct ParseSteps {
    steps: Vec<Step>,
}

impl ParseSteps {
    /// The models of the template's steps, in order.
    pub closed spec fn steps(&self) -> Seq<StepV> {
        Seq::new(self.steps@.len(), |i: int| self.steps@[i].deep_view())
    }

    /// An empty template.
    pub fn new() -> (r: ParseSteps)
        ensures
            r.steps() == Seq::<StepV>::empty(),
    {
        let r = ParseSteps { steps: Vec::new() };
        proof {
            assert(r.steps() =~= Seq::<StepV>::empty());
        }
        r
    }

    /// Appends a shape check that also binds the token under `name`.
    pub fn add_named_step(self, token: Token, name: &str) -> (r: Self)
        ensures
            r.steps() == self.steps().push(
                StepV::NamedStep(kind_of(token.deep_view()), name@),
            ),
    {
        let ghost pre = self.steps();
        let ghost kv = kind_of(token.deep_view());
        let mut s = self;
        s.steps.push(Step::NamedStep(token, name.to_owned()));
        proof {
            assert(s.steps() =~= pre.push(StepV::NamedStep(kv, name@)));
        }
        s
    }

    /// Appends a plain shape check.
    pub fn add_step(self, token: Token) -> (r: Self)
        ensures
            r.steps() == self.steps().push(StepV::UnnamedStep(kind_of(token.deep_view()))),
    {
        let ghost pre = self.steps();
        let ghost kv = kind_of(token.deep_view());
        let mut s = self;
        s.steps.push(Step::UnnamedStep(token));
        proof {
            assert(s.steps() =~= pre.push(StepV::UnnamedStep(kv)));
        }
        s
    }

    /// Appends a delimited-stream capture bound under `step_name`.
    pub fn add_token_capture_stream(self, start_token: Token, end_token: Token, step_name: String) -> (r:
        Self)
        ensures
            r.steps() == self.steps().push(
                StepV::NamedStream(
                    kind_of(start_token.deep_view()),
                    kind_of(end_token.deep_view()),
                    step_name@,
                ),
            ),
    {
        let ghost pre = self.steps();
        let ghost sv = StepV::NamedStream(
            kind_of(start_token.deep_view()),
            kind_of(end_token.deep_view()),
            step_name@,
        );
        let mut s = self;
        s.steps.push(Step::NamedStream(start_token, end_token, step_name));
        proof {
            assert(s.steps() =~= pre.push(sv));
        }
        s
    }

    /// Matches the whole template against the token sequence, walking one
    /// forward cursor, and yields the extracted bindings or the failure
    /// [`match_steps`] names.
    pub fn parse(&self, tokens: &Vec<Token>) -> (r: Result<Bindings, (DbErr, usize)>)
        ensures
            match r {
                Ok(b) => match_steps(self.steps(), list_model(*tokens), 0, Map::empty())
                    == Ok::<Map<Seq<char>, TokenV>, (ErrV, int)>(b@),
                Err(ep) => match_steps(self.steps(), list_model(*tokens), 0, Map::empty())
                    == Err::<Map<Seq<char>, TokenV>, (ErrV, int)>(
                    (ep.0.deep_view(), ep.1 as int),
                ),
            },
    {
        let ghost toksv = list_model(*tokens);
        let ghost goal = match_steps(self.steps(), toksv, 0, Map::empty());
        let n = tokens.len();
        let mut map = Bindings::new();
        let mut token_idx: usize = 0;
        let mut k: usize = 0;
        proof {
            assert(self.steps().skip(0) =~= self.steps());
        }
        while k < self.steps.len()
            invariant
                k <= self.steps@.len(),
                token_idx <= n,
                n == tokens@.len(),
                toksv == list_model(*tokens),
                toksv.len() == n,
                goal == match_steps(self.steps(), toksv, 0, Map::empty()),
                match_steps(self.steps().skip(k as int), toksv, token_idx as int, map@) == goal,
            decreases self.steps@.len() - k,
        {
            let ghost steps_left = self.steps().skip(k as int);
            proof {
                assert(steps_left[0] == self.steps()[k as int]);
                assert(steps_left.skip(1) =~= self.steps().skip(k + 1 as int));
            }
            if token_idx >= n {
                return Err((DbErr::EndOfStream, token_idx));
            }
            let token = &tokens[token_idx];
            proof {
                assert(toksv[token_idx as int] == token.deep_view());
            }
            token_idx += 1;
            match &self.steps[k] {
                Step::UnnamedStep(step_token) => {
                    if token.kind() != step_token.kind() {
                        return Err(
                            (
                                DbErr::KindMismatch {
                                    expected: step_token.kind(),
                                    got: token.kind(),
                                },
                                token_idx,
                            ),
                        );
                    }
                },
                Step::NamedStep(step_token, step_name) => {
                    if token.kind() != step_token.kind() {
                        return Err(
                            (
                                DbErr::KindMismatch {
                                    expected: step_token.kind(),
                                    got: token.kind(),
                                },
                                token_idx,
                            ),
                        );
                    }
                    map.insert(step_name.clone(), token.clone());
                },
                Step::NamedStream(start_token, end_token, step_name) => {
                    if token.kind() != start_token.kind() {
                        return Err(
                            (
                                DbErr::KindMismatch {
                                    expected: start_token.kind(),
                                    got: token.kind(),
                                },
                                token_idx,
                            ),
                        );
                    }
                    let ghost start = token_idx as int;
                    let ghost ek = kind_of(end_token.deep_view());
                    let mut found_delimiters = false;
                    let mut token_stream: Vec<Token> = Vec::new();
                    while !found_delimiters && token_idx < n
                        invariant
                            0 <= start <= token_idx <= n,
                            n == tokens@.len(),
                            toksv == list_model(*tokens),
                            toksv.len() == n,
                            ek == kind_of(end_token.deep_view()),
                            !found_delimiters ==> {
                                &&& (forall|m: int|
                                    start <= m < token_idx ==> kind_of(toksv[m]) != ek)
                                &&& list_model(token_stream) =~= toksv.subrange(
                                    start,
                                    token_idx as int,
                                )
                            },
                            found_delimiters ==> {
                                &&& start < token_idx
                                &&& kind_of(toksv[token_idx - 1]) == ek
                                &&& (forall|m: int|
                                    start <= m < token_idx - 1 ==> kind_of(toksv[m]) != ek)
                                &&& list_model(token_stream) =~= toksv.subrange(
                                    start,
                                    token_idx - 1,
                                )
                            },
                        decreases n - token_idx + (if found_delimiters { 0int } else { 1int }),
                    {
                        let t2 = &tokens[token_idx];
                        proof {
                            assert(toksv[token_idx as int] == t2.deep_view());
                        }
                        token_idx += 1;
                        if t2.kind() == end_token.kind() {
                            found_delimiters = true;
                        } else {
                            let ghost stream0 = list_model(token_stream);
                            token_stream.push(t2.clone());
                            proof {
                                assert(list_model(token_stream) =~= stream0.push(t2.deep_view()));
                                assert(list_model(token_stream) =~= toksv.subrange(
                                    start,
                                    token_idx as int,
                                ));
                            }
                        }
                    }
                    if found_delimiters {
                        proof {
                            lemma_find_kind_run(toksv, start, token_idx - 1, ek);
                        }
                        map.insert(step_name.clone(), Token::List(token_stream));
                    } else {
                        proof {
                            lemma_find_kind_run(toksv, start, n as int, ek);
                        }
                    }
                },
            }
            k += 1;
        }
        proof {
            assert(self.steps().skip(self.steps@.len() as int) =~= Seq::<StepV>::empty());
        }
        Ok(map)
    }
}

} // verus!
