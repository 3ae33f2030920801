use vstd::prelude::*;
use crate::engine::{
    check_result, collected, lemma_insert_pos_facts, excluded_kinds, insert_by_start, insert_pos, sort_by_start,
    sorted_by_start,
};
use crate::rules::analysis;
use crate::syntax::{dot_before_numeric, lex_errors_of, lexer_tokens_of, parse_result, run, statements_of, step, StatementModel, SyntaxEvent};
use crate::violations::{all_kinds, kind_of_name, RuleViolationKind, ViolationModel};

verus! {

/// Keeps the findings whose kind is not excluded.
pub open spec fn keeps(excluded: Set<RuleViolationKind>) -> spec_fn(ViolationModel) -> bool {
    |v: ViolationModel| !excluded.contains(v.kind)
}

proof fn lemma_insert_sorted(t: Seq<ViolationModel>, x: ViolationModel)
    requires
        sorted_by_start(t),
    ensures
        sorted_by_start(insert_by_start(t, x)),
{
    lemma_insert_pos_facts(t, x);
    let p = insert_pos(t, x) as int;
    let u = insert_by_start(t, x);
    assert forall|i: int, j: int| 0 <= i < j < u.len() implies u[i].span.start <= u[j].span.start by {
        if j < p {
        } else if j == p {
            if i < p {
                assert(t[i].span.start <= t[p - 1].span.start);
            }
        } else if i == p {
            assert(u[j] == t[j - 1]);
        } else if i < p {
            assert(u[j] == t[j - 1]);
        } else {
            assert(u[i] == t[i - 1] && u[j] == t[j - 1]);
        }
    }
}

proof fn lemma_sort_sorted(s: Seq<ViolationModel>)
    ensures
        sorted_by_start(sort_by_start(s)),
    decreases s.len(),
{
    if s.len() > 0 {
        lemma_sort_sorted(s.drop_last());
        lemma_insert_sorted(sort_by_start(s.drop_last()), s.last());
    }
}

/// Inserting before a last finding that starts later leaves that finding last.
proof fn lemma_insert_before_last(u: Seq<ViolationModel>, l: ViolationModel, x: ViolationModel)
    requires
        l.span.start > x.span.start,
    ensures
        insert_by_start(u.push(l), x) == insert_by_start(u, x).push(l),
{
    assert(u.push(l).drop_last() =~= u);
    lemma_insert_pos_facts(u, x);
    assert(insert_by_start(u.push(l), x) =~= insert_by_start(u, x).push(l));
}

/// A stable insertion commutes with dropping findings.
proof fn lemma_filter_insert(t: Seq<ViolationModel>, x: ViolationModel, p: spec_fn(ViolationModel) -> bool)
    requires
        sorted_by_start(t),
    ensures
        insert_by_start(t, x).filter(p) == if p(x) {
            insert_by_start(t.filter(p), x)
        } else {
            t.filter(p)
        },
    decreases t.len(),
{
    reveal(Seq::filter);
    if t.len() == 0 {
        assert(insert_by_start(t, x) =~= seq![x]);
        assert(seq![x].drop_last() =~= t);
        assert(t.filter(p) =~= t);
    } else if t.last().span.start <= x.span.start {
        let u = insert_by_start(t, x);
        assert(u =~= t.push(x));
        assert(t.push(x).drop_last() =~= t);
        if p(x) {
            let f = t.filter(p);
            if f.len() > 0 {
                assert(f.contains(f.last()));
                t.lemma_filter_contains_rev(p, f.last());
                let i = choose|i: int| 0 <= i < t.len() && t[i] == f.last();
                assert(t[i].span.start <= t.last().span.start);
            }
            assert(insert_by_start(f, x) =~= f.push(x));
        }
    } else {
        let t0 = t.drop_last();
        let l = t.last();
        assert(t0.push(l) =~= t);
        lemma_insert_before_last(t0, l, x);
        assert(sorted_by_start(t0));
        lemma_filter_insert(t0, x, p);
        let w = insert_by_start(t0, x);
        assert(w.push(l).drop_last() =~= w);
        if p(x) && p(l) {
            lemma_insert_before_last(t0.filter(p), l, x);
        }
    }
}

/// Sorting commutes with dropping findings.
proof fn lemma_filter_sort(s: Seq<ViolationModel>, p: spec_fn(ViolationModel) -> bool)
    ensures
        sort_by_start(s.filter(p)) == sort_by_start(s).filter(p),
    decreases s.len(),
{
    reveal(Seq::filter);
    if s.len() == 0 {
        assert(s.filter(p) =~= s);
    } else {
        let s0 = s.drop_last();
        lemma_filter_sort(s0, p);
        lemma_sort_sorted(s0);
        lemma_filter_insert(sort_by_start(s0), s.last(), p);
        if p(s.last()) {
            assert(s.filter(p).drop_last() =~= s0.filter(p));
        }
    }
}

/// A rule's findings all carry its kind, so a filter on kinds keeps all of
/// them or none.
proof fn lemma_filter_analysis(k: RuleViolationKind, stmts: Seq<StatementModel>, excluded: Set<RuleViolationKind>)
    ensures
        analysis(k, stmts).filter(keeps(excluded)) == if excluded.contains(k) {
            Seq::<ViolationModel>::empty()
        } else {
            analysis(k, stmts)
        },
    decreases stmts.len(),
{
    reveal(Seq::filter);
    if stmts.len() > 0 {
        lemma_filter_analysis(k, stmts.drop_last(), excluded);
        let rest = analysis(k, stmts.drop_last());
        if crate::rules::fires(k, stmts.last().kinds) {
            let a = analysis(k, stmts);
            assert(a.drop_last() =~= rest);
        }
    }
}

proof fn lemma_filter_collected(
    kinds: Seq<RuleViolationKind>,
    excluded: Set<RuleViolationKind>,
    stmts: Seq<StatementModel>,
)
    ensures
        collected(kinds, excluded, stmts) == collected(kinds, Set::empty(), stmts).filter(keeps(excluded)),
    decreases kinds.len(),
{
    reveal(Seq::filter);
    if kinds.len() == 0 {
        assert(Seq::<ViolationModel>::empty().filter(keeps(excluded)) =~= Seq::<ViolationModel>::empty());
    } else {
        let k = kinds.last();
        lemma_filter_collected(kinds.drop_last(), excluded, stmts);
        let rest = collected(kinds.drop_last(), Set::empty(), stmts);
        Seq::filter_distributes_over_add(rest, analysis(k, stmts), keeps(excluded));
        lemma_filter_analysis(k, stmts, excluded);
        if excluded.contains(k) {
            assert(rest.filter(keeps(excluded)) + Seq::<ViolationModel>::empty() =~= rest.filter(keeps(excluded)));
        }
    }
}

/// A check's findings are ordered by where they start.
pub proof fn law_sorted(stmts: Seq<StatementModel>, names: Seq<Seq<char>>)
    ensures
        sorted_by_start(check_result(stmts, excluded_kinds(names))),
{
    lemma_sort_sorted(collected(all_kinds(), excluded_kinds(names), stmts));
}

/// Excluding rules by name removes exactly the findings of the kinds those
/// names resolve to: the rest are those of a check with nothing excluded, in
/// the same order.
pub proof fn law_exclusion(stmts: Seq<StatementModel>, names: Seq<Seq<char>>)
    ensures
        check_result(stmts, excluded_kinds(names))
            == check_result(stmts, excluded_kinds(Seq::empty())).filter(keeps(excluded_kinds(names))),
        forall|i: int| 0 <= i < check_result(stmts, excluded_kinds(names)).len()
            ==> !excluded_kinds(names).contains(#[trigger] check_result(stmts, excluded_kinds(names))[i].kind),
{
    let e = excluded_kinds(names);
    assert(excluded_kinds(Seq::empty()) =~= Set::<RuleViolationKind>::empty());
    let all = collected(all_kinds(), Set::empty(), stmts);
    lemma_filter_collected(all_kinds(), e, stmts);
    lemma_filter_sort(all, keeps(e));
    let r = check_result(stmts, e);
    assert forall|i: int| 0 <= i < r.len() implies !e.contains(#[trigger] r[i].kind) by {
        sort_by_start(all).lemma_filter_pred(keeps(e), i);
    }
}

/// Names that resolve to no rule kind exclude nothing.
pub proof fn law_unknown_exclusions(stmts: Seq<StatementModel>, names: Seq<Seq<char>>)
    requires
        forall|i: int| 0 <= i < names.len() ==> kind_of_name(#[trigger] names[i]) is None,
    ensures
        check_result(stmts, excluded_kinds(names)) == check_result(stmts, excluded_kinds(Seq::empty())),
{
    assert(excluded_kinds(names) =~= excluded_kinds(Seq::empty()));
}

proof fn lemma_collected_empty(kinds: Seq<RuleViolationKind>, excluded: Set<RuleViolationKind>)
    ensures
        collected(kinds, excluded, Seq::empty()) == Seq::<ViolationModel>::empty(),
    decreases kinds.len(),
{
    if kinds.len() > 0 {
        lemma_collected_empty(kinds.drop_last(), excluded);
        assert(Seq::<ViolationModel>::empty() + Seq::<ViolationModel>::empty() =~= Seq::<ViolationModel>::empty());
    }
}

/// Without statements there are no findings, whatever is excluded.
pub proof fn law_no_statements(names: Seq<Seq<char>>)
    ensures
        check_result(Seq::empty(), excluded_kinds(names)) == Seq::<ViolationModel>::empty(),
{
    lemma_collected_empty(all_kinds(), excluded_kinds(names));
}

/// Every finding's span starts no later than it ends.
pub open spec fn spans_ordered(s: Seq<ViolationModel>) -> bool {
    forall|i: int| 0 <= i < s.len() ==> #[trigger] s[i].span.start <= s[i].span.end
}

proof fn lemma_run_spans(events: Seq<SyntaxEvent>)
    ensures
        forall|i: int| 0 <= i < run(events).stmts.len()
            ==> #[trigger] run(events).stmts[i].start <= run(events).stmts[i].end,
        run(events).current.start <= run(events).current.end,
        run(events).current.end <= run(events).offset,
    decreases events.len(),
{
    if events.len() > 0 {
        lemma_run_spans(events.drop_last());
        let st = run(events.drop_last());
        let nx = step(st, events.last());
        assert forall|i: int| 0 <= i < nx.stmts.len() implies #[trigger] nx.stmts[i].start <= nx.stmts[i].end by {
            if i < st.stmts.len() {
                assert(nx.stmts[i] == st.stmts[i]);
            }
        }
    }
}

proof fn lemma_analysis_spans(k: RuleViolationKind, stmts: Seq<StatementModel>)
    requires
        forall|i: int| 0 <= i < stmts.len() ==> #[trigger] stmts[i].start <= stmts[i].end,
    ensures
        spans_ordered(analysis(k, stmts)),
    decreases stmts.len(),
{
    if stmts.len() > 0 {
        let s0 = stmts.drop_last();
        assert forall|i: int| 0 <= i < s0.len() implies #[trigger] s0[i].start <= s0[i].end by {
            assert(s0[i] == stmts[i]);
        }
        lemma_analysis_spans(k, s0);
    }
}

proof fn lemma_collected_spans(kinds: Seq<RuleViolationKind>, excluded: Set<RuleViolationKind>, stmts: Seq<StatementModel>)
    requires
        forall|i: int| 0 <= i < stmts.len() ==> #[trigger] stmts[i].start <= stmts[i].end,
    ensures
        spans_ordered(collected(kinds, excluded, stmts)),
    decreases kinds.len(),
{
    if kinds.len() > 0 {
        lemma_collected_spans(kinds.drop_last(), excluded, stmts);
        lemma_analysis_spans(kinds.last(), stmts);
        let rest = collected(kinds.drop_last(), excluded, stmts);
        let a = analysis(kinds.last(), stmts);
        assert forall|i: int| 0 <= i < (rest + a).len() implies #[trigger] (rest + a)[i].span.start <= (rest + a)[i].span.end by {
            if i >= rest.len() {
                assert((rest + a)[i] == a[i - rest.len()]);
            }
        }
    }
}

proof fn lemma_sort_spans(s: Seq<ViolationModel>)
    requires
        spans_ordered(s),
    ensures
        spans_ordered(sort_by_start(s)),
    decreases s.len(),
{
    if s.len() > 0 {
        let s0 = s.drop_last();
        assert(spans_ordered(s0)) by {
            assert forall|i: int| 0 <= i < s0.len() implies #[trigger] s0[i].span.start <= s0[i].span.end by {
                assert(s0[i] == s[i]);
            }
        }
        lemma_sort_spans(s0);
        let t = sort_by_start(s0);
        lemma_insert_pos_facts(t, s.last());
        let p = insert_pos(t, s.last()) as int;
        let u = insert_by_start(t, s.last());
        assert forall|i: int| 0 <= i < u.len() implies #[trigger] u[i].span.start <= u[i].span.end by {
            if i < p {
                assert(u[i] == t[i]);
            } else if i > p {
                assert(u[i] == t[i - 1]);
            }
        }
    }
}

/// Every finding of a check on parsed source text spans a well-formed range:
/// its start is no later than its end.
pub proof fn law_spans_ordered(events: Seq<SyntaxEvent>, names: Seq<Seq<char>>)
    requires
        statements_of(events) is Ok,
    ensures
        spans_ordered(check_result(statements_of(events)->Ok_0, excluded_kinds(names))),
{
    lemma_run_spans(events);
    let stmts = run(events).stmts;
    lemma_collected_spans(all_kinds(), excluded_kinds(names), stmts);
    lemma_sort_spans(collected(all_kinds(), excluded_kinds(names), stmts));
}

proof fn lemma_error_kept(events: Seq<SyntaxEvent>, i: int)
    requires
        0 <= i < events.len(),
        events[i] is Error,
    ensures
        run(events).error is Some,
    decreases events.len(),
{
    if i < events.len() - 1 {
        lemma_error_kept(events.drop_last(), i);
    }
}

/// A syntax error anywhere in the parser's walk, after any number of valid
/// statements, makes the whole parse fail.
pub proof fn law_error_event_fails(events: Seq<SyntaxEvent>, i: int)
    requires
        0 <= i < events.len(),
        events[i] is Error,
    ensures
        statements_of(events) is Err,
{
    lemma_error_kept(events, i);
}

/// A lexer error anywhere in the text makes the whole parse fail.
pub proof fn law_lex_error_fails(text: Seq<char>)
    requires
        lex_errors_of(text).len() > 0,
    ensures
        parse_result(text) is Err,
{
}

/// A dot followed by a numeric literal anywhere in the text makes the whole
/// parse fail.
pub proof fn law_dot_numeric_fails(text: Seq<char>)
    requires
        dot_before_numeric(lexer_tokens_of(text)),
    ensures
        parse_result(text) is Err,
{
    crate::syntax::lemma_first_dot_numeric(lexer_tokens_of(text), 0);
}

} // verus!
