use vstd::prelude::*;
use crate::rules::{analysis, rules, SquawkRule};
use crate::syntax::{
    parse_result, parse_statements, statement_models, texts, CheckSQLError,
    Statement, StatementModel,
};
use crate::violations::{
    all_kinds, kind_of_name, violation_models, RuleViolation, RuleViolationKind, ViolationModel,
};

verus! {

/// The kinds that a list of names excludes: those that some name resolves
/// to. Names that resolve to no kind have no effect.
pub open spec fn excluded_kinds(names: Seq<Seq<char>>) -> Set<RuleViolationKind> {
    Set::new(|k: RuleViolationKind| exists|i: int| 0 <= i < names.len() && kind_of_name(names[i]) == Some(k))
}

/// The findings of the rules of `kinds` that are not excluded, rule after
/// rule, each rule's in the order it reports them.
pub open spec fn collected(
    kinds: Seq<RuleViolationKind>,
    excluded: Set<RuleViolationKind>,
    stmts: Seq<StatementModel>,
) -> Seq<ViolationModel>
    decreases kinds.len(),
{
    if kinds.len() == 0 {
        Seq::empty()
    } else {
        let rest = collected(kinds.drop_last(), excluded, stmts);
        if excluded.contains(kinds.last()) {
            rest
        } else {
            rest + analysis(kinds.last(), stmts)
        }
    }
}

/// Where `x` goes in `t`: after every finding that starts no later than it.
pub open spec fn insert_pos(t: Seq<ViolationModel>, x: ViolationModel) -> nat
    decreases t.len(),
{
    if t.len() == 0 || t.last().span.start <= x.span.start {
        t.len()
    } else {
        insert_pos(t.drop_last(), x)
    }
}

pub open spec fn insert_by_start(t: Seq<ViolationModel>, x: ViolationModel) -> Seq<ViolationModel> {
    t.insert(insert_pos(t, x) as int, x)
}

/// The stable sort of `s` by span start: findings with equal starts keep
/// their order.
pub open spec fn sort_by_start(s: Seq<ViolationModel>) -> Seq<ViolationModel>
    decreases s.len(),
{
    if s.len() == 0 {
        Seq::empty()
    } else {
        insert_by_start(sort_by_start(s.drop_last()), s.last())
    }
}

pub open spec fn sorted_by_start(s: Seq<ViolationModel>) -> bool {
    forall|i: int, j: int| 0 <= i < j < s.len() ==> s[i].span.start <= s[j].span.start
}

/// What a check returns on parsed statements: the findings of every rule not
/// excluded, sorted stably by where they start.
pub open spec fn check_result(stmts: Seq<StatementModel>, excluded: Set<RuleViolationKind>) -> Seq<ViolationModel> {
    sort_by_start(collected(all_kinds(), excluded, stmts))
}

/// Where `x` goes in `t`, and why: what lies before starts no later, what
/// lies after starts later.
pub(crate) proof fn lemma_insert_pos_facts(t: Seq<ViolationModel>, x: ViolationModel)
    ensures
        insert_pos(t, x) <= t.len(),
        insert_pos(t, x) > 0 ==> t[insert_pos(t, x) - 1].span.start <= x.span.start,
        forall|j: int| insert_pos(t, x) <= j < t.len() ==> t[j].span.start > x.span.start,
    decreases t.len(),
{
    if t.len() > 0 && t.last().span.start > x.span.start {
        let t0 = t.drop_last();
        lemma_insert_pos_facts(t0, x);
        assert forall|j: int| insert_pos(t, x) <= j < t.len() implies t[j].span.start > x.span.start by {
            if j < t0.len() {
                assert(t[j] == t0[j]);
            }
        }
    }
}

/// Inserts `x` into `out` after every finding that starts no later than it.
fn insert_violation(out: &mut Vec<RuleViolation>, x: RuleViolation)
    ensures
        violation_models(final(out)@) == insert_by_start(violation_models(old(out)@), x@),
{
    let ghost t = violation_models(out@);
    let mut i: usize = out.len();
    proof { assert(t.take(out@.len() as int) =~= t); }
    while i > 0 && out[i - 1].span.start > x.span.start
        invariant
            i <= out@.len(),
            t == violation_models(out@),
            insert_pos(t, x@) == insert_pos(t.take(i as int), x@),
        decreases i,
    {
        proof { assert(t.take(i as int).drop_last() =~= t.take(i - 1)); }
        i = i - 1;
    }
    proof {
        lemma_insert_pos_facts(t, x@);
        assert(t.take(i as int).len() == i);
    }
    out.insert(i, x);
    proof { assert(violation_models(out@) =~= t.insert(i as int, x@)); }
}

/// Whether `k` is among `ks`.
fn contains_kind(ks: &Vec<RuleViolationKind>, k: RuleViolationKind) -> (r: bool)
    ensures
        r == ks@.contains(k),
{
    let mut i: usize = 0;
    while i < ks.len()
        invariant
            i <= ks@.len(),
            forall|j: int| 0 <= j < i ==> ks@[j] != k,
        decreases ks@.len() - i,
    {
        if ks[i] == k {
            assert(ks@[i as int] == k);
            return true;
        }
        i = i + 1;
    }
    false
}

/// Resolves exclusion names to the kinds they name; names of no kind are
/// dropped. The kinds form a set held as a vector: the engine only asks
/// whether a kind is in it.
pub fn resolve_exclusions(names: &[String]) -> (r: Vec<RuleViolationKind>)
    ensures
        forall|k: RuleViolationKind| r@.contains(k) <==> excluded_kinds(texts(names@)).contains(k),
{
    let mut r: Vec<RuleViolationKind> = Vec::new();
    let mut i: usize = 0;
    while i < names.len()
        invariant
            i <= names@.len(),
            forall|k: RuleViolationKind| r@.contains(k) <==>
                exists|j: int| 0 <= j < i && kind_of_name(#[trigger] names@[j]@) == Some(k),
        decreases names@.len() - i,
    {
        let ghost prev = r@;
        match RuleViolationKind::try_from(names[i].as_str()) {
            Ok(k) => {
                r.push(k);
                proof {
                    assert forall|k2: RuleViolationKind| r@.contains(k2) <==>
                        exists|j: int| 0 <= j < i + 1 && kind_of_name(#[trigger] names@[j]@) == Some(k2) by {
                        if r@.contains(k2) && !prev.contains(k2) {
                            let n = choose|n: int| 0 <= n < r@.len() && r@[n] == k2;
                            assert(n == prev.len());
                        }
                        if prev.contains(k2) {
                            let n = choose|n: int| 0 <= n < prev.len() && prev[n] == k2;
                            assert(r@[n] == k2);
                        }
                        if k2 == k {
                            assert(r@[prev.len() as int] == k2);
                        }
                    }
                }
            },
            Err(()) => {},
        }
        i = i + 1;
    }
    proof {
        assert forall|k: RuleViolationKind| r@.contains(k) <==> excluded_kinds(texts(names@)).contains(k) by {
            if excluded_kinds(texts(names@)).contains(k) {
                let j = choose|j: int| 0 <= j < texts(names@).len() && kind_of_name(texts(names@)[j]) == Some(k);
                assert(kind_of_name(names@[j]@) == Some(k));
            }
            if r@.contains(k) {
                let j = choose|j: int| 0 <= j < i && kind_of_name(#[trigger] names@[j]@) == Some(k);
                assert(texts(names@)[j] == names@[j]@);
            }
        }
    }
    r
}

/// Runs every rule of the table whose kind is not excluded over the parsed
/// statements, and returns all findings sorted stably by span start.
pub fn check_statements(stmts: &Vec<Statement>, excluded_rules: &[String]) -> (r: Vec<RuleViolation>)
    ensures
        violation_models(r@) == check_result(statement_models(stmts@), excluded_kinds(texts(excluded_rules@))),
{
    let ghost m = statement_models(stmts@);
    let ghost excl = excluded_kinds(texts(excluded_rules@));
    let table = rules();
    let excluded = resolve_exclusions(excluded_rules);
    let mut out: Vec<RuleViolation> = Vec::new();
    let mut i: usize = 0;
    proof { assert(all_kinds().take(0) =~= Seq::<RuleViolationKind>::empty()); }
    while i < table.len()
        invariant
            i <= table@.len(),
            table@.len() == all_kinds().len(),
            forall|j: int| 0 <= j < table@.len() ==> (#[trigger] table@[j]).name == all_kinds()[j],
            forall|k: RuleViolationKind| excluded@.contains(k) <==> excl.contains(k),
            m == statement_models(stmts@),
            excl == excluded_kinds(texts(excluded_rules@)),
            violation_models(out@) == sort_by_start(collected(all_kinds().take(i as int), excl, m)),
        decreases table@.len() - i,
    {
        let rule: &SquawkRule = &table[i];
        proof {
            let ks = all_kinds().take(i + 1);
            assert(ks.drop_last() =~= all_kinds().take(i as int));
            assert(ks.last() == rule.name);
        }
        if !contains_kind(&excluded, rule.name) {
            let mut found = rule.check(stmts);
            let ghost base = collected(all_kinds().take(i as int), excl, m);
            let ghost all_found = violation_models(found@);
            let n: usize = found.len();
            let mut j: usize = 0;
            proof {
                assert(base + all_found.take(0) =~= base);
                assert(violation_models(found@) =~= all_found.skip(0));
            }
            while found.len() > 0
                invariant
                    j <= n,
                    all_found.len() == n,
                    violation_models(found@) == all_found.skip(j as int),
                    found@.len() == n - j,
                    violation_models(out@) == sort_by_start(base + all_found.take(j as int)),
                decreases found@.len(),
            {
                let ghost before = found@;
                let x = found.remove(0);
                proof {
                    assert(violation_models(before)[0] == x@);
                    assert(x@ == all_found[j as int]);
                    let s = base + all_found.take(j + 1);
                    assert(s.drop_last() =~= base + all_found.take(j as int));
                    assert(s.last() == x@);
                    assert forall|q: int| 0 <= q < found@.len() implies
                        violation_models(found@)[q] == all_found.skip(j + 1)[q] by {
                        assert(found@[q] == before[q + 1]);
                        assert(violation_models(before)[q + 1] == all_found.skip(j as int)[q + 1]);
                    }
                    assert(violation_models(found@) =~= all_found.skip(j + 1));
                }
                insert_violation(&mut out, x);
                j = j + 1;
            }
            proof { assert(all_found.take(j as int) =~= all_found); }
        }
        i = i + 1;
    }
    proof { assert(all_kinds().take(i as int) =~= all_kinds()); }
    out
}

/// Parses `sql` and checks its statements. An error of the lexer or the
/// parser anywhere in the text is returned as the error, and then no rule
/// runs.
pub fn check_sql(sql: &str, excluded_rules: &[String]) -> (r: Result<Vec<RuleViolation>, CheckSQLError>)
    ensures
        match (r, parse_result(sql@)) {
            (Ok(v), Ok(m)) => violation_models(v@) == check_result(m, excluded_kinds(texts(excluded_rules@))),
            (Err(e), Err(m)) => e.message@ == m.0 && e.pos == m.1,
            _ => false,
        },
{
    match parse_statements(sql) {
        Ok(stmts) => Ok(check_statements(&stmts, excluded_rules)),
        Err(e) => Err(e),
    }
}

} // verus!
