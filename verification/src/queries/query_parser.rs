//! The dispatcher and the plan executor: lex once, try every registered
//! grammar, assemble the plan or select the most informative diagnostic,
//! then run the plan in order.

use vstd::prelude::*;

use crate::database::Database;
use crate::database::TableV;
use crate::errors::DbErr;
use crate::errors::ErrV;
use crate::queries::create_table_query::create_effect;
use crate::queries::create_table_query::CreateTableQuery;
use crate::queries::delete_table_query::delete_effect;
use crate::queries::delete_table_query::DeleteTableQuery;
use crate::queries::parse_steps::match_steps;
use crate::queries::parse_steps::StepV;
use crate::queries::query_builder::create_grammar;
use crate::queries::query_builder::delete_grammar;
use crate::queries::query_builder::get_builders;
use crate::queries::query_builder::registry;
use crate::queries::query_builder::QueryKind;
use crate::queries::query_effect;
use crate::queries::Query;
use crate::queries::QueryV;
use crate::tokenizer::kind_of;
use crate::tokenizer::list_model;
use crate::tokenizer::spec_lex;
use crate::tokenizer::Tokenizer;
use crate::tokenizer::TokenV;

verus! {

broadcast use vstd::std_specs::vec::group_vec_axioms, vstd::seq::group_seq_axioms;

/// The fallback diagnostic when no failure recorded any progress.
pub open spec fn unknown_error() -> ErrV {
    ErrV::Generic("Unknown error"@)
}

/// The model of the query a registry entry builds from bindings.
pub open spec fn make_query(kind: QueryKind, m: Map<Seq<char>, TokenV>) -> QueryV {
    match kind {
        QueryKind::CreateTable => QueryV::CreateTable(m),
        QueryKind::DeleteTable => QueryV::DeleteTable(m),
    }
}

/// The models of a plan's queries, in order.
pub open spec fn plan_model(v: Vec<Query>) -> Seq<QueryV> {
    Seq::new(v@.len(), |i: int| v@[i].deep_view())
}

/// The dispatcher's fold over the registry: every matching grammar
/// appends its query to the plan; every failure may replace the best
/// diagnostic, but only with strictly greater progress.
pub open spec fn dispatch_fold(
    entries: Seq<(Seq<StepV>, QueryKind)>,
    toks: Seq<TokenV>,
    plan: Seq<QueryV>,
    best: (ErrV, int),
) -> (Seq<QueryV>, (ErrV, int))
    decreases entries.len(),
{
    if entries.len() == 0 {
        (plan, best)
    } else {
        match match_steps(entries[0].0, toks, 0, Map::empty()) {
            Ok(m) => dispatch_fold(
                entries.skip(1),
                toks,
                plan.push(make_query(entries[0].1, m)),
                best,
            ),
            Err(ep) => dispatch_fold(
                entries.skip(1),
                toks,
                plan,
                if ep.1 > best.1 {
                    ep
                } else {
                    best
                },
            ),
        }
    }
}

/// What planning yields on a whole input: the plan in registry order, or
/// the diagnostic the dispatcher selects.
pub open spec fn spec_plan(s: Seq<char>) -> Result<Seq<QueryV>, ErrV> {
    match spec_lex(s) {
        Err(p) => Err(ErrV::UnparseableInput(p)),
        Ok(toks) => {
            let folded = dispatch_fold(registry(), toks, Seq::empty(), (unknown_error(), 0));
            if folded.0.len() > 0 {
                Ok(folded.0)
            } else {
                Err(ErrV::NoGrammarMatched(Box::new(folded.1.0)))
            }
        },
    }
}

/// Running a plan in order, stopping at the first failure; queries
/// already run are not rolled back.
pub open spec fn run_plan(db: Map<Seq<char>, TableV>, plan: Seq<QueryV>) -> (
    Map<Seq<char>, TableV>,
    Result<(), ErrV>,
)
    decreases plan.len(),
{
    if plan.len() == 0 {
        (db, Ok(()))
    } else {
        let step = query_effect(plan[0], db);
        if step.1 is Err {
            step
        } else {
            run_plan(step.0, plan.skip(1))
        }
    }
}

/// The whole pipeline: what executing the query text leaves in the store,
/// and what is reported.
pub open spec fn spec_execute(db: Map<Seq<char>, TableV>, s: Seq<char>) -> (
    Map<Seq<char>, TableV>,
    Result<(), ErrV>,
) {
    match spec_plan(s) {
        Err(e) => (db, Err(e)),
        Ok(plan) => run_plan(db, plan),
    }
}

/// Builds the plan for the query text: lexes once, matches every
/// registered grammar against the whole token sequence, and returns every
/// constructed query in registry order, or the selected diagnostic.
pub fn create_query_plan(_database: &mut Database, query: &str) -> (r: Result<Vec<Query>, DbErr>)
    ensures
        *final(_database) == *old(_database),
        match r {
            Ok(plan) => spec_plan(query@) == Ok::<Seq<QueryV>, ErrV>(plan_model(plan)),
            Err(e) => spec_plan(query@) == Err::<Seq<QueryV>, ErrV>(e.deep_view()),
        },
{
    let tokenizer = Tokenizer::new();
    let query_builders = get_builders();
    let mut query_plan: Vec<Query> = Vec::new();

    let parsed_tokens = match tokenizer.tokenize(query) {
        Ok(toks) => toks,
        Err(e) => {
            return Err(e);
        },
    };
    let ghost toksv = list_model(parsed_tokens);

    let mut best_progress: usize = 0;
    let mut best_error: DbErr = DbErr::Generic("Unknown error".to_owned());
    let ghost goal = dispatch_fold(registry(), toksv, Seq::empty(), (unknown_error(), 0));
    proof {
        assert(registry().skip(0) =~= registry());
        assert(plan_model(query_plan) =~= Seq::<QueryV>::empty());
    }
    let mut bi: usize = 0;
    while bi < query_builders.len()
        invariant
            bi <= 2,
            query_builders@.len() == 2,
            query_builders@[0].steps.steps() == create_grammar(),
            query_builders@[0].kind == QueryKind::CreateTable,
            query_builders@[1].steps.steps() == delete_grammar(),
            query_builders@[1].kind == QueryKind::DeleteTable,
            toksv == list_model(parsed_tokens),
            goal == dispatch_fold(registry(), toksv, Seq::empty(), (unknown_error(), 0)),
            dispatch_fold(
                registry().skip(bi as int),
                toksv,
                plan_model(query_plan),
                (best_error.deep_view(), best_progress as int),
            ) == goal,
        decreases query_builders@.len() - bi,
    {
        proof {
            assert(registry().skip(bi as int)[0] == registry()[bi as int]);
            assert(registry().skip(bi as int).skip(1) =~= registry().skip(bi + 1));
        }
        let builder = &query_builders[bi];
        match builder.steps.parse(&parsed_tokens) {
            Ok(parsed) => {
                let ghost plan0 = plan_model(query_plan);
                let ghost mv = parsed@;
                let constructed: Query = match builder.kind {
                    QueryKind::CreateTable => Query::CreateTable(CreateTableQuery::new(parsed)),
                    QueryKind::DeleteTable => Query::DeleteTable(DeleteTableQuery::new(parsed)),
                };
                proof {
                    assert(constructed.deep_view() == make_query(builder.kind, mv));
                }
                query_plan.push(constructed);
                proof {
                    assert(plan_model(query_plan) =~= plan0.push(
                        make_query(query_builders@[bi as int].kind, mv),
                    ));
                }
            },
            Err(ep) => {
                let (error, progress) = ep;
                if progress > best_progress {
                    best_error = error;
                    best_progress = progress;
                }
            },
        }
        bi += 1;
    }
    proof {
        assert(registry().skip(2) =~= Seq::<(Seq<StepV>, QueryKind)>::empty());
    }
    if query_plan.len() == 0 {
        proof {
            assert(plan_model(query_plan) =~= Seq::<QueryV>::empty());
        }
        return Err(DbErr::NoGrammarMatched(Box::new(best_error)));
    }
    Ok(query_plan)
}

/// Executes the query text against the store: builds the plan and runs
/// it in order, stopping at the first failure; the store ends exactly as
/// [`spec_execute`] says.
pub fn execute_query(database: &mut Database, query: &str) -> (r: Result<String, DbErr>)
    requires
        old(database).wf(),
    ensures
        final(database).wf(),
        final(database)@ == spec_execute(old(database)@, query@).0,
        match r {
            Ok(msg) => spec_execute(old(database)@, query@).1 == Ok::<(), ErrV>(()) && msg@
                == "Done"@,
            Err(e) => spec_execute(old(database)@, query@).1 == Err::<(), ErrV>(e.deep_view()),
        },
{
    let result = create_query_plan(database, query);

    match result {
        Ok(query_plan) => {
            let ghost db0 = database@;
            let ghost planv = plan_model(query_plan);
            proof {
                assert(planv.skip(0) =~= planv);
            }
            let mut qi: usize = 0;
            while qi < query_plan.len()
                invariant
                    qi <= query_plan@.len(),
                    database.wf(),
                    db0 == old(database)@,
                    planv == plan_model(query_plan),
                    spec_plan(query@) == Ok::<Seq<QueryV>, ErrV>(planv),
                    run_plan(db0, planv) == run_plan(database@, planv.skip(qi as int)),
                decreases query_plan@.len() - qi,
            {
                proof {
                    assert(planv.skip(qi as int)[0] == planv[qi as int]);
                    assert(planv[qi as int] == query_plan@[qi as int].deep_view());
                    assert(planv.skip(qi as int).skip(1) =~= planv.skip(qi + 1));
                }
                match query_plan[qi].execute(database) {
                    Ok(_) => {},
                    Err(e) => {
                        return Err(e);
                    },
                }
                qi += 1;
            }
            proof {
                assert(planv.skip(query_plan@.len() as int) =~= Seq::<QueryV>::empty());
            }
            Ok("Done".to_owned())
        },
        Err(e) => Err(e),
    }
}

/// The failures among the registry's match attempts, in registry order.
pub open spec fn attempts_of(entries: Seq<(Seq<StepV>, QueryKind)>, toks: Seq<TokenV>) -> Seq<
    (ErrV, int),
>
    decreases entries.len(),
{
    if entries.len() == 0 {
        Seq::empty()
    } else {
        let rest = attempts_of(entries.skip(1), toks);
        match match_steps(entries[0].0, toks, 0, Map::empty()) {
            Ok(_) => rest,
            Err(ep) => seq![ep] + rest,
        }
    }
}

/// The diagnostic the strict-improvement fold selects from `attempts`,
/// starting from `best`.
pub open spec fn select_best(attempts: Seq<(ErrV, int)>, best: (ErrV, int)) -> (ErrV, int)
    decreases attempts.len(),
{
    if attempts.len() == 0 {
        best
    } else {
        select_best(
            attempts.skip(1),
            if attempts[0].1 > best.1 {
                attempts[0]
            } else {
                best
            },
        )
    }
}

/// The dispatcher's diagnostic is the strict-improvement fold over its
/// failed attempts alone: matching grammars never disturb it.
pub proof fn lemma_dispatch_best(
    entries: Seq<(Seq<StepV>, QueryKind)>,
    toks: Seq<TokenV>,
    plan: Seq<QueryV>,
    best: (ErrV, int),
)
    ensures
        dispatch_fold(entries, toks, plan, best).1 == select_best(attempts_of(entries, toks), best),
    decreases entries.len(),
{
    if entries.len() > 0 {
        match match_steps(entries[0].0, toks, 0, Map::empty()) {
            Ok(m) => {
                lemma_dispatch_best(
                    entries.skip(1),
                    toks,
                    plan.push(make_query(entries[0].1, m)),
                    best,
                );
            },
            Err(ep) => {
                let b1 = if ep.1 > best.1 {
                    ep
                } else {
                    best
                };
                lemma_dispatch_best(entries.skip(1), toks, plan, b1);
                assert((seq![ep] + attempts_of(entries.skip(1), toks)).skip(1) =~= attempts_of(
                    entries.skip(1),
                    toks,
                ));
            },
        }
    }
}

/// Witness that the failure at index `i` is the one the fold selects:
/// it strictly exceeds the initial progress and the progress of every
/// attempt before it.
pub open spec fn selected_at(attempts: Seq<(ErrV, int)>, best0: (ErrV, int), i: int) -> bool {
    &&& 0 <= i < attempts.len()
    &&& attempts[i] == select_best(attempts, best0)
    &&& attempts[i].1 > best0.1
    &&& forall|j: int| 0 <= j < i ==> attempts[j].1 < attempts[i].1
}

/// The selected diagnostic carries the greatest recorded progress, and on
/// a tie the earliest-registered failure wins: either no attempt improved
/// on the initial diagnostic, or the selected one strictly exceeds every
/// attempt registered before it and no later attempt does better.
pub proof fn lemma_best_error_selection(attempts: Seq<(ErrV, int)>, best0: (ErrV, int))
    ensures
        select_best(attempts, best0).1 >= best0.1,
        forall|i: int| 0 <= i < attempts.len() ==> attempts[i].1 <= select_best(attempts, best0).1,
        select_best(attempts, best0) == best0 || exists|i: int| selected_at(attempts, best0, i),
    decreases attempts.len(),
{
    if attempts.len() > 0 {
        let rest = attempts.skip(1);
        let b1 = if attempts[0].1 > best0.1 {
            attempts[0]
        } else {
            best0
        };
        let res = select_best(attempts, best0);
        lemma_best_error_selection(rest, b1);
        assert(forall|i: int| 0 <= i < rest.len() ==> rest[i] == attempts[i + 1]);
        assert(forall|i: int| 0 <= i < attempts.len() ==> attempts[i].1 <= res.1) by {
            assert(forall|i: int| 1 <= i < attempts.len() ==> attempts[i].1 == rest[i - 1].1);
        }
        if select_best(rest, b1) == b1 {
            if b1 != best0 {
                assert(selected_at(attempts, best0, 0));
            }
        } else {
            let i = choose|i: int| selected_at(rest, b1, i);
            assert(attempts[i + 1] == rest[i]);
            assert(forall|j: int| #![trigger attempts[j]] 0 <= j < i + 1 ==> attempts[j].1
                < attempts[i + 1].1) by {
                assert(attempts[0].1 <= b1.1 < rest[i].1);
                assert(forall|j: int| #![trigger attempts[j]] 1 <= j < i + 1 ==> attempts[j].1
                    == rest[j - 1].1);
            }
            assert(selected_at(attempts, best0, i + 1));
        }
    }
}

/// Round trip for a create statement: executing text whose tokens match
/// the create grammar changes the store exactly as the statement's own
/// effect describes, independent of the other grammars tried.
pub proof fn lemma_create_round_trip(s: Seq<char>, toks: Seq<TokenV>, db: Map<Seq<char>, TableV>)
    requires
        spec_lex(s) == Ok::<Seq<TokenV>, int>(toks),
        match_steps(create_grammar(), toks, 0, Map::empty()) is Ok,
    ensures
        spec_execute(db, s) == create_effect(
            match_steps(create_grammar(), toks, 0, Map::empty())->Ok_0,
            db,
        ),
{
    reveal_with_fuel(dispatch_fold, 4);
    reveal_with_fuel(run_plan, 3);
    let m = match_steps(create_grammar(), toks, 0, Map::empty())->Ok_0;
    assert(toks.len() > 0);
    assert(kind_of(toks[0]) == crate::tokenizer::TokenKind::Create);
    assert(match_steps(delete_grammar(), toks, 0, Map::empty()) is Err);
    assert(registry().skip(1)[0] == registry()[1]);
    assert(registry().skip(1).skip(1) =~= registry().skip(2));
    assert(registry().skip(2) =~= Seq::<(Seq<StepV>, QueryKind)>::empty());
    let plan = Seq::<QueryV>::empty().push(QueryV::CreateTable(m));
    assert(spec_plan(s) == Ok::<Seq<QueryV>, ErrV>(plan));
    assert(plan.skip(1) =~= Seq::<QueryV>::empty());
    assert(run_plan(db, plan) == create_effect(m, db));
}

/// Round trip for a delete statement: executing text whose tokens match
/// the delete grammar changes the store exactly as the statement's own
/// effect describes, independent of the other grammars tried.
pub proof fn lemma_delete_round_trip(s: Seq<char>, toks: Seq<TokenV>, db: Map<Seq<char>, TableV>)
    requires
        spec_lex(s) == Ok::<Seq<TokenV>, int>(toks),
        match_steps(delete_grammar(), toks, 0, Map::empty()) is Ok,
    ensures
        spec_execute(db, s) == delete_effect(
            match_steps(delete_grammar(), toks, 0, Map::empty())->Ok_0,
            db,
        ),
{
    reveal_with_fuel(dispatch_fold, 4);
    reveal_with_fuel(run_plan, 3);
    let m = match_steps(delete_grammar(), toks, 0, Map::empty())->Ok_0;
    assert(toks.len() > 0);
    assert(kind_of(toks[0]) == crate::tokenizer::TokenKind::Delete);
    assert(match_steps(create_grammar(), toks, 0, Map::empty()) is Err);
    assert(registry().skip(1)[0] == registry()[1]);
    assert(registry().skip(1).skip(1) =~= registry().skip(2));
    assert(registry().skip(2) =~= Seq::<(Seq<StepV>, QueryKind)>::empty());
    let plan = Seq::<QueryV>::empty().push(QueryV::DeleteTable(m));
    assert(spec_plan(s) == Ok::<Seq<QueryV>, ErrV>(plan));
    assert(plan.skip(1) =~= Seq::<QueryV>::empty());
    assert(run_plan(db, plan) == delete_effect(m, db));
}

} // verus!
