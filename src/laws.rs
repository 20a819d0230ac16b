//! Properties of the engine that relate several of its functions.

use vstd::prelude::*;
use crate::find::{find_outcome, CompiledExpr, ExpressionModel, FindModel, LookFor, arg_value_of, compile_expr, compile_exprs, declared_of, expr_with_cache, exprs_checked, find_compiled, find_with_cache, lookup_result, run_expr, run_exprs, verdict_of};
use crate::reference::{reference_of, resolve_id};
use crate::http::header_values;
use crate::text::{lower_of, usize_of};
use crate::render::{lemma_reference_round_trip, render_of};
use crate::text::split_on;
use crate::rule::{CheckState, RuleAction, action_checked, action_ready, checked_in, state_of};
use crate::value::{PairPart, ReferenceModel, ScalarModel, ValueModel};
use crate::http::SingleSendModel;

verus! {

/// Whether every reference among checked arguments reads a send result below `count`.
pub open spec fn references_below(c: Seq<CompiledExpr>, count: usize) -> bool {
    forall|i: int, j: int|
        0 <= i < c.len() && 0 <= j < c[i].args.len() && (#[trigger] c[i].args[j]) is Reference
            ==> c[i].args[j]->Reference_0.id < count
}

proof fn lemma_compiled_references_below(e: Seq<ExpressionModel>, ids: Option<Seq<(String, usize)>>, count: usize)
    requires
        compile_exprs(e, ids, count) is Some,
    ensures
        references_below(compile_exprs(e, ids, count)->0, count),
        compile_exprs(e, ids, count)->0.len() == e.len(),
        forall|i: int| 0 <= i < e.len() ==> (#[trigger] compile_exprs(e, ids, count)->0[i]).args.len() == e[i].args.len(),
    decreases e.len(),
{
    if e.len() > 0 {
        lemma_compiled_references_below(e.drop_last(), ids, count);
        let c = compile_exprs(e.drop_last(), ids, count)->0;
        let x = compile_expr(e.last(), declared_of(e.drop_last(), c), ids, count)->0;
        let c2 = c.push(x);
        assert forall|i: int, j: int|
            0 <= i < c2.len() && 0 <= j < c2[i].args.len() && (#[trigger] c2[i].args[j]) is Reference
            implies c2[i].args[j]->Reference_0.id < count by {
            if i == c.len() {
                let a = e.last().args[j];
                let v = arg_value_of(a, declared_of(e.drop_last(), c), ids, count);
                assert(c2[i].args[j] == v->0);
                if a.arg_type == "reference"@ {
                    assert(reference_of(a.value, ids, count) is Some);
                }
            } else {
                assert(c2[i] == c[i]);
            }
        }
        assert forall|i: int| 0 <= i < e.len() implies (#[trigger] c2[i]).args.len() == e[i].args.len() by {
            if i < c.len() {
                assert(c2[i] == c[i]);
                assert(e[i] == e.drop_last()[i]);
            }
        }
    }
}

/// What a checked action guarantees: the caches its execution reads, and
/// references below the counts of the state it was checked in.
pub open spec fn ready_and_bounded(n: RuleAction, st: CheckState) -> bool {
    &&& action_ready(n)
    &&& match n {
        RuleAction::Find(f) => forall|k: int, j: int|
            0 <= k < f@.expressions.len() && 0 <= j < f@.expressions[k].args.len()
                && (#[trigger] f@.expressions[k].args[j]).type_cache->0 is Reference
                ==> f@.expressions[k].args[j].type_cache->0->Reference_0.id <= st.sends,
        RuleAction::Get(g) => g.from_cache->0 <= st.sends && g.if_succeed_cache->0 < st.finds,
        RuleAction::Send(s) => s.apply_cache->0 < st.changes,
        RuleAction::Change(c) => c.watch_id_cache->0.id < st.watches,
        RuleAction::Watch(w) => w.part_cache is Some,
    }
}

proof fn lemma_action_ready(o: RuleAction, n: RuleAction, st: CheckState)
    requires
        checked_in(o, n, st),
        st.sends < usize::MAX,
    ensures
        ready_and_bounded(n, st),
{
    reveal(checked_in);
    match (o, n) {
        (RuleAction::Find(f), RuleAction::Find(m)) => {
            let ids = Some(st.send_ids);
            let count = (st.sends + 1) as usize;
            let lc = find_compiled(f@, ids, count)->0;
            lemma_compiled_references_below(f@.expressions, ids, count);
            let c = lc.1;
            assert(m@ == find_with_cache(f@, lc.0, c));
            assert(exprs_checked(m@.expressions));
            assert forall|k: int, j: int|
                0 <= k < m@.expressions.len() && 0 <= j < m@.expressions[k].args.len()
                    && (#[trigger] m@.expressions[k].args[j]).type_cache->0 is Reference
                implies m@.expressions[k].args[j].type_cache->0->Reference_0.id <= st.sends by {
                assert(m@.expressions[k] == expr_with_cache(f@.expressions[k], c[k]));
                assert(m@.expressions[k].args[j].type_cache == Some(c[k].args[j]));
                assert(c[k].args.len() == f@.expressions[k].args.len());
                assert(c[k].args[j] is Reference);
            }
            assert(ready_and_bounded(n, st));
        },
        (RuleAction::Get(g), RuleAction::Get(m)) => {
            assert(ready_and_bounded(n, st));
        },
        (RuleAction::Send(g), RuleAction::Send(m)) => {
            assert(ready_and_bounded(n, st));
        },
        (RuleAction::Change(g), RuleAction::Change(m)) => {
            assert(ready_and_bounded(n, st));
        },
        (RuleAction::Watch(g), RuleAction::Watch(m)) => {
            assert(ready_and_bounded(n, st));
        },
        _ => {},
    }
}

/// After a successful check-up of a rule, every action carries the caches
/// its execution reads, and every index it holds is below the number of
/// actions of that kind declared before it (send indices count the captured
/// pair as 0, so they may reach that number).
pub proof fn lemma_checked_rule_ready(old_actions: Seq<RuleAction>, new_actions: Seq<RuleAction>)
    requires
        new_actions.len() == old_actions.len(),
        old_actions.len() < usize::MAX,
        forall|i: int| 0 <= i < old_actions.len() ==> action_checked(
            #[trigger] old_actions[i],
            new_actions[i],
            old_actions.subrange(0, i),
        ),
    ensures
        forall|i: int| 0 <= i < new_actions.len() ==> ready_and_bounded(
            #[trigger] new_actions[i],
            state_of(old_actions.subrange(0, i)),
        ),
{
    assert forall|i: int| 0 <= i < new_actions.len() implies ready_and_bounded(
        #[trigger] new_actions[i],
        state_of(old_actions.subrange(0, i)),
    ) by {
        assert(action_checked(old_actions[i], new_actions[i], old_actions.subrange(0, i)));
        crate::rule::lemma_count_le(old_actions.subrange(0, i), crate::rule::ActionKind::Send);
        lemma_action_ready(old_actions[i], new_actions[i], state_of(old_actions.subrange(0, i)));
    }
}

/// Each result of a find action is computed from the results of the
/// expressions declared before it alone, in declaration order.
pub proof fn lemma_run_in_order(e: Seq<ExpressionModel>, sends: Seq<Seq<SingleSendModel>>)
    requires
        run_exprs(e, sends) is Some,
    ensures
        run_exprs(e, sends)->0.len() == e.len(),
        forall|i: int| 0 <= i < e.len() ==> run_exprs(#[trigger] e.subrange(0, i), sends) == Some(run_exprs(e, sends)->0.subrange(0, i)),
        forall|i: int| 0 <= i < e.len() ==> #[trigger] run_expr(e[i], e.subrange(0, i), run_exprs(e, sends)->0.subrange(0, i), sends)
            == Some(run_exprs(e, sends)->0[i]),
    decreases e.len(),
{
    if e.len() > 0 {
        let p = e.drop_last();
        lemma_run_in_order(p, sends);
        let rs = run_exprs(e, sends)->0;
        let ps = run_exprs(p, sends)->0;
        assert(rs == ps.push(rs.last()));
        assert forall|i: int| 0 <= i < e.len() implies run_exprs(#[trigger] e.subrange(0, i), sends) == Some(rs.subrange(0, i)) by {
            if i < p.len() {
                assert(e.subrange(0, i) =~= p.subrange(0, i));
                assert(rs.subrange(0, i) =~= ps.subrange(0, i));
            } else {
                assert(e.subrange(0, i) =~= p);
                assert(rs.subrange(0, i) =~= ps);
            }
        }
        assert forall|i: int| 0 <= i < e.len() implies #[trigger] run_expr(e[i], e.subrange(0, i), rs.subrange(0, i), sends) == Some(rs[i]) by {
            if i < p.len() {
                assert(e.subrange(0, i) =~= p.subrange(0, i));
                assert(rs.subrange(0, i) =~= ps.subrange(0, i));
                assert(e[i] == p[i]);
                assert(rs[i] == ps[i]);
            } else {
                assert(e.subrange(0, i) =~= p);
                assert(rs.subrange(0, i) =~= ps);
            }
        }
    }
}

/// A variable reads the result of the first earlier expression of its name.
pub proof fn lemma_variable_reads_named_result(names: Seq<Seq<char>>, results: Seq<ValueModel>, n: Seq<char>)
    requires
        names.len() == results.len(),
    ensures
        match lookup_result(names, results, n) {
            Some(v) => exists|k: int| 0 <= k < names.len() && names[k] == n && results[k] == v
                && forall|j: int| 0 <= j < k ==> #[trigger] names[j] != n,
            None => forall|k: int| 0 <= k < names.len() ==> #[trigger] names[k] != n,
        },
    decreases names.len(),
{
    if names.len() > 0 {
        let ns = names.subrange(1, names.len() as int);
        let rs = results.subrange(1, results.len() as int);
        lemma_variable_reads_named_result(ns, rs, n);
        if names[0] != n {
            match lookup_result(ns, rs, n) {
                Some(v) => {
                    let k = choose|k: int| 0 <= k < ns.len() && ns[k] == n && rs[k] == v
                        && forall|j: int| 0 <= j < k ==> #[trigger] ns[j] != n;
                    assert(names[k + 1] == n && results[k + 1] == v);
                    assert forall|j: int| 0 <= j < k + 1 implies #[trigger] names[j] != n by {
                        if j > 0 {
                            assert(names[j] == ns[j - 1]);
                        }
                    }
                },
                None => {
                    assert forall|k: int| 0 <= k < names.len() implies #[trigger] names[k] != n by {
                        if k > 0 {
                            assert(names[k] == ns[k - 1]);
                        }
                    }
                },
            }
        }
    }
}

/// Whether a reference reads a part that its side has: a method or a path
/// only of a request, a status only of a response.
pub open spec fn side_coherent(r: ReferenceModel) -> bool {
    &&& (r.message_part is Method || r.message_part is Path) ==> r.pair_part == PairPart::Request
    &&& r.message_part is Status ==> r.pair_part == PairPart::Response
}

proof fn lemma_reference_coherent(raw: Seq<char>, ids: Option<Seq<(String, usize)>>, count: usize)
    requires
        reference_of(raw, ids, count) is Some,
    ensures
        side_coherent(reference_of(raw, ids, count)->0),
        reference_of(raw, ids, count)->0.id < count,
{
}

/// After a successful check-up of a find action, every argument has its
/// typed value, and every reference among them reads a send result below
/// `results_count` and a part that its side has.
pub proof fn lemma_find_check_up_populates(f: FindModel, ids: Option<Seq<(String, usize)>>, results_count: usize)
    requires
        find_compiled(f, ids, results_count) is Some,
    ensures
        match find_compiled(f, ids, results_count) {
            None => false,
            Some((lf, c)) => {
            let g = find_with_cache(f, lf, c);
            &&& g.look_for_cache is Some
            &&& exprs_checked(g.expressions)
            &&& forall|k: int, j: int|
                0 <= k < g.expressions.len() && 0 <= j < g.expressions[k].args.len()
                    && (#[trigger] g.expressions[k].args[j]).type_cache->0 is Reference
                    ==> g.expressions[k].args[j].type_cache->0->Reference_0.id < results_count
                        && side_coherent(g.expressions[k].args[j].type_cache->0->Reference_0)
            },
        },
{
    let lc = find_compiled(f, ids, results_count)->0;
    let c = lc.1;
    let g = find_with_cache(f, lc.0, c);
    lemma_compiled_references_below(f.expressions, ids, results_count);
    lemma_compiled_coherent(f.expressions, ids, results_count);
    assert forall|k: int, j: int|
        0 <= k < g.expressions.len() && 0 <= j < g.expressions[k].args.len()
            && (#[trigger] g.expressions[k].args[j]).type_cache->0 is Reference
        implies g.expressions[k].args[j].type_cache->0->Reference_0.id < results_count
            && side_coherent(g.expressions[k].args[j].type_cache->0->Reference_0) by {
        assert(g.expressions[k] == expr_with_cache(f.expressions[k], c[k]));
        assert(g.expressions[k].args[j].type_cache == Some(c[k].args[j]));
        assert(c[k].args[j] is Reference);
    }
}

proof fn lemma_compiled_coherent(e: Seq<ExpressionModel>, ids: Option<Seq<(String, usize)>>, count: usize)
    requires
        compile_exprs(e, ids, count) is Some,
    ensures
        forall|i: int, j: int|
            0 <= i < compile_exprs(e, ids, count)->0.len() && 0 <= j < compile_exprs(e, ids, count)->0[i].args.len()
                && (#[trigger] compile_exprs(e, ids, count)->0[i].args[j]) is Reference
                ==> side_coherent(compile_exprs(e, ids, count)->0[i].args[j]->Reference_0),
    decreases e.len(),
{
    if e.len() > 0 {
        lemma_compiled_coherent(e.drop_last(), ids, count);
        let c = compile_exprs(e.drop_last(), ids, count)->0;
        let x = compile_expr(e.last(), declared_of(e.drop_last(), c), ids, count)->0;
        let c2 = c.push(x);
        assert forall|i: int, j: int|
            0 <= i < c2.len() && 0 <= j < c2[i].args.len() && (#[trigger] c2[i].args[j]) is Reference
            implies side_coherent(c2[i].args[j]->Reference_0) by {
            if i == c.len() {
                let a = e.last().args[j];
                assert(c2[i].args[j] == arg_value_of(a, declared_of(e.drop_last(), c), ids, count)->0);
                if a.arg_type == "reference"@ {
                    lemma_reference_coherent(a.value, ids, count);
                }
            } else {
                assert(c2[i] == c[i]);
            }
        }
    }
}

/// The checked expressions of a find action, where it checks.
pub open spec fn compiled_exprs_of(f: FindModel, ids: Option<Seq<(String, usize)>>, results_count: usize) -> Seq<CompiledExpr> {
    match find_compiled(f, ids, results_count) {
        Some((_, c)) => c,
        None => Seq::<CompiledExpr>::empty(),
    }
}

proof fn lemma_compiled_reference_is_parsed(e: Seq<ExpressionModel>, ids: Option<Seq<(String, usize)>>, count: usize)
    requires
        compile_exprs(e, ids, count) is Some,
    ensures
        forall|i: int, j: int|
            0 <= i < compile_exprs(e, ids, count)->0.len() && 0 <= j < compile_exprs(e, ids, count)->0[i].args.len()
                && (#[trigger] compile_exprs(e, ids, count)->0[i].args[j]) is Reference
                ==> reference_of(e[i].args[j].value, ids, count) == Some(compile_exprs(e, ids, count)->0[i].args[j]->Reference_0),
    decreases e.len(),
{
    if e.len() > 0 {
        lemma_compiled_reference_is_parsed(e.drop_last(), ids, count);
        lemma_compiled_references_below(e.drop_last(), ids, count);
        let c = compile_exprs(e.drop_last(), ids, count)->0;
        let x = compile_expr(e.last(), declared_of(e.drop_last(), c), ids, count)->0;
        let c2 = c.push(x);
        assert forall|i: int, j: int|
            0 <= i < c2.len() && 0 <= j < c2[i].args.len() && (#[trigger] c2[i].args[j]) is Reference
            implies reference_of(e[i].args[j].value, ids, count) == Some(c2[i].args[j]->Reference_0) by {
            if i == c.len() {
                let a = e.last().args[j];
                assert(c2[i].args[j] == arg_value_of(a, declared_of(e.drop_last(), c), ids, count)->0);
            } else {
                assert(c2[i] == c[i]);
                assert(e[i] == e.drop_last()[i]);
            }
        }
    }
}

/// After a successful check-up of a find action, the reference cached for
/// an argument is what its raw text parses to; written back and parsed
/// again it gives the same reference, with the same side, part and header
/// pieces as the raw text.
pub proof fn lemma_checked_reference_round_trip(f: FindModel, ids: Option<Seq<(String, usize)>>, results_count: usize, k: int, j: int)
    requires
        find_compiled(f, ids, results_count) is Some,
        0 <= k < f.expressions.len(),
        0 <= j < f.expressions[k].args.len(),
        compiled_exprs_of(f, ids, results_count)[k].args[j] is Reference,
    ensures
        ({
            let r = compiled_exprs_of(f, ids, results_count)[k].args[j]->Reference_0;
            let raw = f.expressions[k].args[j].value;
            &&& reference_of(raw, ids, results_count) == Some(r)
            &&& reference_of(render_of(r), ids, results_count) == Some(r)
            &&& split_on(render_of(r), '.').subrange(1, split_on(render_of(r), '.').len() as int)
                == split_on(raw, '.').subrange(1, split_on(raw, '.').len() as int)
        }),
{
    lemma_compiled_references_below(f.expressions, ids, results_count);
    lemma_compiled_reference_is_parsed(f.expressions, ids, results_count);
    lemma_reference_round_trip(f.expressions[k].args[j].value, ids, results_count);
}

proof fn lemma_compiled_references_parse(e: Seq<ExpressionModel>, ids: Option<Seq<(String, usize)>>, count: usize)
    requires
        compile_exprs(e, ids, count) is Some,
    ensures
        forall|i: int, j: int|
            0 <= i < e.len() && 0 <= j < e[i].args.len() && (#[trigger] e[i].args[j]).arg_type == "reference"@
                ==> reference_of(e[i].args[j].value, ids, count) is Some,
    decreases e.len(),
{
    reveal_strlit("string");
    reveal_strlit("int");
    reveal_strlit("bool");
    reveal_strlit("reference");
    assert("reference"@ != "string"@ && "reference"@ != "int"@ && "reference"@ != "bool"@) by {
        assert("reference"@.len() == 9);
        assert("string"@.len() == 6 && "int"@.len() == 3 && "bool"@.len() == 4);
    }
    if e.len() > 0 {
        lemma_compiled_references_parse(e.drop_last(), ids, count);
        let c = compile_exprs(e.drop_last(), ids, count)->0;
        let d = declared_of(e.drop_last(), c);
        assert forall|i: int, j: int|
            0 <= i < e.len() && 0 <= j < e[i].args.len() && (#[trigger] e[i].args[j]).arg_type == "reference"@
            implies reference_of(e[i].args[j].value, ids, count) is Some by {
            if i == e.len() - 1 {
                assert(e.last() == e[i]);
                assert(compile_expr(e.last(), d, ids, count) is Some);
                assert(arg_value_of(e.last().args[j], d, ids, count) is Some);
            } else {
                assert(e[i] == e.drop_last()[i]);
                assert(e.drop_last()[i].args[j].arg_type == "reference"@);
            }
        }
    }
}

/// Without a table of symbolic ids, a find action with a reference whose id
/// is not a number does not check.
pub proof fn lemma_unknown_id_without_table(f: FindModel, results_count: usize, k: int, j: int)
    requires
        0 <= k < f.expressions.len(),
        0 <= j < f.expressions[k].args.len(),
        f.expressions[k].args[j].arg_type == "reference"@,
        usize_of(split_on(f.expressions[k].args[j].value, '.')[0]) is None,
    ensures
        find_compiled(f, None, results_count) is None,
{
    if compile_exprs(f.expressions, None, results_count) is Some {
        lemma_compiled_references_parse(f.expressions, None, results_count);
    }
}

/// A find action with a reference to the send result at index
/// `results_count`, one past the last that exists, does not check.
pub proof fn lemma_send_index_at_count_rejected(f: FindModel, ids: Option<Seq<(String, usize)>>, results_count: usize, k: int, j: int)
    requires
        0 <= k < f.expressions.len(),
        0 <= j < f.expressions[k].args.len(),
        f.expressions[k].args[j].arg_type == "reference"@,
        resolve_id(split_on(f.expressions[k].args[j].value, '.')[0], ids) == Some(results_count),
    ensures
        find_compiled(f, ids, results_count) is None,
{
    if compile_exprs(f.expressions, ids, results_count) is Some {
        lemma_compiled_references_parse(f.expressions, ids, results_count);
    }
}

/// Where no header has the name, case aside, the header lookup gives
/// nothing, and a reference to it reads an empty `Several`, with no error.
pub proof fn lemma_missing_header_is_empty(h: Seq<(Seq<char>, Seq<char>)>, name: Seq<char>)
    requires
        forall|i: int| 0 <= i < h.len() ==> lower_of((#[trigger] h[i]).0) != lower_of(name),
    ensures
        header_values(h, name) == Seq::<ScalarModel>::empty(),
    decreases h.len(),
{
    if h.len() > 0 {
        let p = h.drop_last();
        assert forall|i: int| 0 <= i < p.len() implies lower_of((#[trigger] p[i]).0) != lower_of(name) by {
            assert(p[i] == h[i]);
        }
        lemma_missing_header_is_empty(p, name);
        assert(lower_of(h[h.len() - 1].0) != lower_of(name));
    }
}

/// A find action whose last result is a `Several` of Booleans concludes
/// their disjunction with `look_for` any and their conjunction with all.
pub proof fn lemma_find_reduces_last(f: FindModel, sends: Seq<Seq<SingleSendModel>>, xs: Seq<ScalarModel>)
    requires
        f.look_for_cache is Some,
        run_exprs(f.expressions, sends) is Some,
        run_exprs(f.expressions, sends)->0.len() > 0,
        run_exprs(f.expressions, sends)->0.last() == ValueModel::Several(xs),
        forall|i: int| 0 <= i < xs.len() ==> (#[trigger] xs[i]) is Boolean,
    ensures
        f.look_for_cache == Some(LookFor::Any) ==> find_outcome(f, sends) == Some(exists|i: int| 0 <= i < xs.len() && (#[trigger] xs[i])->Boolean_0),
        f.look_for_cache == Some(LookFor::All) ==> find_outcome(f, sends) == Some(forall|i: int| 0 <= i < xs.len() ==> (#[trigger] xs[i])->Boolean_0),
{
    lemma_look_for_reduces(xs);
}

/// With `look_for` any, a `Several` of Booleans gives their disjunction;
/// with all, their conjunction.
pub proof fn lemma_look_for_reduces(xs: Seq<ScalarModel>)
    requires
        forall|i: int| 0 <= i < xs.len() ==> (#[trigger] xs[i]) is Boolean,
    ensures
        verdict_of(LookFor::Any, ValueModel::Several(xs)) == Some(exists|i: int| 0 <= i < xs.len() && (#[trigger] xs[i])->Boolean_0),
        verdict_of(LookFor::All, ValueModel::Several(xs)) == Some(forall|i: int| 0 <= i < xs.len() ==> (#[trigger] xs[i])->Boolean_0),
{
}

/// The expressions of a find action with their caches filled from `c`.
pub open spec fn exprs_with_cache(e: Seq<ExpressionModel>, c: Seq<CompiledExpr>) -> Seq<ExpressionModel> {
    Seq::new(e.len(), |i: int| expr_with_cache(e[i], c[i]))
}

proof fn lemma_compile_reads_raw_fields(e: Seq<ExpressionModel>, c: Seq<CompiledExpr>, ids: Option<Seq<(String, usize)>>, count: usize)
    requires
        c.len() >= e.len(),
        forall|i: int| 0 <= i < e.len() ==> (#[trigger] c[i]).args.len() >= e[i].args.len(),
    ensures
        compile_exprs(exprs_with_cache(e, c), ids, count) == compile_exprs(e, ids, count),
    decreases e.len(),
{
    if e.len() > 0 {
        let e2 = exprs_with_cache(e, c);
        assert(e2.drop_last() =~= exprs_with_cache(e.drop_last(), c));
        lemma_compile_reads_raw_fields(e.drop_last(), c, ids, count);
        match compile_exprs(e.drop_last(), ids, count) {
            None => {},
            Some(cs) => {
                lemma_compiled_references_below(e.drop_last(), ids, count);
                let d = declared_of(e.drop_last(), cs);
                assert forall|i: int| 0 <= i < cs.len() implies #[trigger] declared_of(e2.drop_last(), cs)[i] == d[i] by {
                    assert(e2.drop_last()[i] == expr_with_cache(e.drop_last()[i], c[i]));
                }
                assert(declared_of(e2.drop_last(), cs) =~= d);
                let x = e.last();
                let y = e2.last();
                assert(y == expr_with_cache(x, c[e.len() - 1]));
                assert forall|j: int| 0 <= j < x.args.len() implies #[trigger] arg_value_of(y.args[j], d, ids, count)
                    == arg_value_of(x.args[j], d, ids, count) by {
                    assert(y.args[j].arg_type == x.args[j].arg_type);
                    assert(y.args[j].value == x.args[j].value);
                }
                let vx = Seq::new(x.args.len(), |j: int| arg_value_of(x.args[j], d, ids, count)->0);
                let vy = Seq::new(y.args.len(), |j: int| arg_value_of(y.args[j], d, ids, count)->0);
                assert(vx =~= vy);
                assert(y.name == x.name);
                assert(y.operation_name == x.operation_name);
                assert(y.args.len() == x.args.len());
                if forall|j: int| 0 <= j < x.args.len() ==> (#[trigger] arg_value_of(x.args[j], d, ids, count)) is Some {
                    assert forall|j: int| 0 <= j < y.args.len() implies (#[trigger] arg_value_of(y.args[j], d, ids, count)) is Some by {
                        assert(arg_value_of(x.args[j], d, ids, count) is Some);
                    }
                } else {
                    let j = choose|j: int| 0 <= j < x.args.len() && !((#[trigger] arg_value_of(x.args[j], d, ids, count)) is Some);
                    assert(!(arg_value_of(y.args[j], d, ids, count) is Some));
                }
                assert(compile_expr(y, d, ids, count) == compile_expr(x, d, ids, count));
            },
        }
    }
}

/// Checking a find action that checked before, with the same inputs, gives
/// the same verdict and leaves it as it was.
pub proof fn lemma_check_up_idempotent(f: FindModel, ids: Option<Seq<(String, usize)>>, results_count: usize)
    requires
        find_compiled(f, ids, results_count) is Some,
    ensures
        ({
            let (lf, c) = find_compiled(f, ids, results_count)->0;
            let g = find_with_cache(f, lf, c);
            &&& find_compiled(g, ids, results_count) == Some((lf, c))
            &&& find_with_cache(g, lf, c) == g
        }),
{
    let (lf, c) = find_compiled(f, ids, results_count)->0;
    let g = find_with_cache(f, lf, c);
    lemma_compiled_references_below(f.expressions, ids, results_count);
    assert(g.expressions =~= exprs_with_cache(f.expressions, c));
    lemma_compile_reads_raw_fields(f.expressions, c, ids, results_count);
    let g2 = find_with_cache(g, lf, c);
    assert forall|i: int| 0 <= i < g.expressions.len() implies #[trigger] g2.expressions[i] == g.expressions[i] by {
        assert(g2.expressions[i].args =~= g.expressions[i].args);
    }
    assert(g2.expressions =~= g.expressions);
}

} // verus!
