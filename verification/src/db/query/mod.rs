//! The pattern query engine: a depth-first expansion of partial solutions,
//! rule after rule, from the empty set of bindings.

use crate::db::query::binding::{set_views, VariableSetView};
use crate::db::query::rule::{rule_views, RuleView};
use crate::db::{Database, DatabaseView};
use vstd::prelude::*;

pub mod binding;
pub mod display;
pub mod laws;
pub mod rule;

pub use binding::{Variable, VariableSet, VariableSetExt};
pub use rule::{Rule, RuleVal};

verus! {

/// Why a query was refused.
#[derive(Debug, PartialEq, Eq, Structural, Clone, Copy)]
pub enum QueryError {
    /// A rule, loaded against a partial solution, held a constant entity and a
    /// constant value around a variable attribute.
    UnsupportedPattern,
}

/// The solutions that the rules give from each of the partial solutions, in
/// the order of the partial solutions: with no rule left each partial solution
/// is a solution; else the first rule extends a partial solution, and the
/// remaining rules are applied to each extension in turn.
pub open spec fn solve(db: DatabaseView, rules: Seq<RuleView>, sets: Seq<VariableSetView>) -> Seq<
    VariableSetView,
>
    decreases rules.len(), sets.len(),
{
    if rules.len() == 0 {
        sets
    } else if sets.len() == 0 {
        Seq::empty()
    } else {
        solve(db, rules, sets.drop_last()) + solve(
            db,
            rules.drop_first(),
            rules[0].completions(db, sets.last()),
        )
    }
}

/// No rule meets, on the way from any of the partial solutions, a partial
/// solution against which it has the unsupported pattern.
pub open spec fn supported(db: DatabaseView, rules: Seq<RuleView>, sets: Seq<VariableSetView>) -> bool
    decreases rules.len(), sets.len(),
{
    if rules.len() == 0 || sets.len() == 0 {
        true
    } else {
        &&& supported(db, rules, sets.drop_last())
        &&& !rules[0].load(sets.last()).unsupported()
        &&& supported(db, rules.drop_first(), rules[0].completions(db, sets.last()))
    }
}

/// The solutions from a list of partial solutions are those from its parts,
/// one after the other.
pub proof fn lemma_solve_concat(
    db: DatabaseView,
    rules: Seq<RuleView>,
    a: Seq<VariableSetView>,
    b: Seq<VariableSetView>,
)
    ensures
        solve(db, rules, a + b) == solve(db, rules, a) + solve(db, rules, b),
        supported(db, rules, a + b) == (supported(db, rules, a) && supported(db, rules, b)),
    decreases b.len(),
{
    if rules.len() == 0 {
    } else if b.len() == 0 {
        assert(a + b =~= a);
        assert(solve(db, rules, a) + Seq::empty() =~= solve(db, rules, a));
    } else {
        lemma_solve_concat(db, rules, a, b.drop_last());
        assert((a + b).drop_last() =~= a + b.drop_last());
        assert((a + b).last() == b.last());
        let tail = solve(db, rules.drop_first(), rules[0].completions(db, b.last()));
        assert((solve(db, rules, a) + solve(db, rules, b.drop_last())) + tail =~= solve(db, rules, a) + (
        solve(db, rules, b.drop_last()) + tail));
    }
}

/// The solutions from one partial solution: those that the remaining rules
/// give from its extensions by the first rule.
pub proof fn lemma_solve_one(db: DatabaseView, rules: Seq<RuleView>, set: VariableSetView)
    requires
        rules.len() > 0,
    ensures
        solve(db, rules, seq![set]) == solve(db, rules.drop_first(), rules[0].completions(db, set)),
        supported(db, rules, seq![set]) == (!rules[0].load(set).unsupported() && supported(
            db,
            rules.drop_first(),
            rules[0].completions(db, set),
        )),
{
    let none = Seq::<VariableSetView>::empty();
    assert(seq![set].drop_last() =~= none);
    assert(seq![set].last() == set);
    assert(solve(db, rules, none) =~= none);
    assert(supported(db, rules, none));
    let rest = solve(db, rules.drop_first(), rules[0].completions(db, set));
    assert(none + rest =~= rest);
}

impl Database {
    /// Every solution of the rules, in the order in which a depth-first
    /// expansion from the empty set of bindings finds them.
    #[must_use]
    pub fn query(&self, rules: &Vec<Rule>) -> (solutions: Vec<VariableSet>)
        requires
            supported(self@, rule_views(rules@), seq![VariableSetView::empty()]),
        ensures
            set_views(solutions@) == solve(self@, rule_views(rules@), seq![VariableSetView::empty()]),
    {
        match self.try_query(rules) {
            Ok(solutions) => solutions,
            Err(_) => Vec::new(),
        }
    }

    /// Every solution of the rules as [`Database::query`] gives them, or the
    /// error where the expansion meets the unsupported pattern.
    pub fn try_query(&self, rules: &Vec<Rule>) -> (outcome: Result<Vec<VariableSet>, QueryError>)
        ensures
            match outcome {
                Ok(solutions) => {
                    &&& supported(self@, rule_views(rules@), seq![VariableSetView::empty()])
                    &&& set_views(solutions@) == solve(
                        self@,
                        rule_views(rules@),
                        seq![VariableSetView::empty()],
                    )
                },
                Err(error) => {
                    &&& !supported(self@, rule_views(rules@), seq![VariableSetView::empty()])
                    &&& error == QueryError::UnsupportedPattern
                },
            },
    {
        let mut valid_sets: Vec<VariableSet> = Vec::new();
        let start = VariableSet::default();
        proof {
            assert(rule_views(rules@).skip(0) =~= rule_views(rules@));
            assert(set_views(valid_sets@) =~= Seq::empty());
        }
        let complete = self.constrain_binding_sets(&start, rules, 0, &mut valid_sets);
        if complete {
            assert(Seq::<VariableSetView>::empty() + solve(
                self@,
                rule_views(rules@),
                seq![VariableSetView::empty()],
            ) =~= solve(self@, rule_views(rules@), seq![VariableSetView::empty()]));
            Ok(valid_sets)
        } else {
            Err(QueryError::UnsupportedPattern)
        }
    }

    /// Appends to `valid_sets` the solutions that the rules from `from` on
    /// give from `set`. Returns false, with `valid_sets` in no stated condition,
    /// where the expansion meets the unsupported pattern.
    fn constrain_binding_sets(
        &self,
        set: &VariableSet,
        rules: &Vec<Rule>,
        from: usize,
        valid_sets: &mut Vec<VariableSet>,
    ) -> (complete: bool)
        requires
            from <= rules.len(),
        ensures
            complete == supported(self@, rule_views(rules@).skip(from as int), seq![set@]),
            complete ==> set_views(final(valid_sets)@) == set_views(old(valid_sets)@) + solve(
                self@,
                rule_views(rules@).skip(from as int),
                seq![set@],
            ),
        decreases rules.len() - from,
    {
        let ghost before = set_views(valid_sets@);
        let ghost remaining = rule_views(rules@).skip(from as int);
        if from == rules.len() {
            valid_sets.push(set.clone());
            assert(set_views(valid_sets@) =~= before + seq![set@]);
            return true;
        }
        let ghost rest = rule_views(rules@).skip(from + 1);
        proof {
            assert(remaining[0] == rules[from as int]@);
            assert(remaining.drop_first() =~= rest);
            lemma_solve_one(self@, remaining, set@);
        }
        let extensions = match rules[from].try_constrain(set, self) {
            Some(sets) => sets,
            None => {
                return false;
            },
        };
        let ghost all = set_views(extensions@);
        let mut i: usize = 0;
        proof {
            assert(all.take(0) =~= Seq::empty());
            assert(before + solve(self@, rest, all.take(0)) =~= before);
        }
        while i < extensions.len()
            invariant
                i <= extensions.len(),
                from < rules.len(),
                all == set_views(extensions@),
                rest == rule_views(rules@).skip(from + 1),
                remaining == rule_views(rules@).skip(from as int),
                supported(self@, remaining, seq![set@]) == supported(self@, rest, all),
                set_views(old(valid_sets)@) == before,
                solve(self@, remaining, seq![set@]) == solve(self@, rest, all),
                supported(self@, rest, all.take(i as int)),
                set_views(valid_sets@) == before + solve(self@, rest, all.take(i as int)),
            decreases extensions.len() - i,
        {
            proof {
                assert(all.take(i + 1) =~= all.take(i as int) + seq![all[i as int]]);
                lemma_solve_concat(self@, rest, all.take(i as int), seq![all[i as int]]);
                assert(all =~= all.take(i + 1) + all.skip(i + 1));
                lemma_solve_concat(self@, rest, all.take(i + 1), all.skip(i + 1));
            }
            let ghost sofar = set_views(valid_sets@);
            let complete = self.constrain_binding_sets(&extensions[i], rules, from + 1, valid_sets);
            if !complete {
                return false;
            }
            assert(set_views(valid_sets@) =~= before + solve(self@, rest, all.take(i + 1))) by {
                assert((before + solve(self@, rest, all.take(i as int))) + solve(
                    self@,
                    rest,
                    seq![all[i as int]],
                ) =~= before + (solve(self@, rest, all.take(i as int)) + solve(
                    self@,
                    rest,
                    seq![all[i as int]],
                )));
            }
            i += 1;
        }
        assert(all.take(extensions.len() as int) =~= all);
        true
    }
}

} // verus!
