//! What holds of every query, stated over the views of the store, the rules
//! and the solutions.

use crate::db::query::binding::{
    lemma_constrain_coherent, set_views, VariableSet, VariableSetView,
};
use crate::db::query::rule::{Rule, RuleValView, RuleView};
use crate::db::query::{lemma_solve_concat, lemma_solve_one, solve, supported};
use crate::db::triplet_tree::{
    entry, fits, keys_fit, lemma_indexed, lemma_matching_pair, matching, third, triples, under,
    GroupView,
};
use crate::db::{from_ave, from_vae, Database, DatabaseView, Triplet, ValueView};
use crate::sequences::{
    after, lemma_filter_keeps_all, lemma_filter_of_map, lemma_filter_same_elements,
    lemma_map_same_elements, lemma_same_elements_len, lemma_same_elements_step, lemma_split_at,
    same_elements,
};
use vstd::prelude::*;
use vstd::seq_lib::*;

verus! {

/// A triple of the entity-attribute-value index as a triplet: itself.
pub open spec fn from_eav() -> spec_fn(Triplet) -> Triplet {
    |t: Triplet| t
}

/// Where an index, read through `orient`, holds the written triplets, the
/// triples that fit the given keys are, read through `orient`, the written
/// triplets that `accept` takes, if `accept` asks of a triplet what the keys
/// ask of the triple.
proof fn lemma_matching_is_filter<A, B, C>(
    groups: Seq<GroupView<A, B, C>>,
    written: Seq<Triplet>,
    key1: Option<A>,
    key2: Option<B>,
    orient: spec_fn((A, B, C)) -> Triplet,
    accept: spec_fn(Triplet) -> bool,
)
    requires
        same_elements(triples(groups).map_values(orient), written),
        forall|t: (A, B, C)| accept(orient(t)) == keys_fit(key1, key2, t.0, t.1),
    ensures
        same_elements(matching(groups, key1, key2).map_values(orient), written.filter(accept)),
{
    lemma_filter_of_map(triples(groups), orient, accept);
    assert(after(orient, accept) =~= fits::<A, B, C>(key1, key2));
    lemma_filter_same_elements(triples(groups).map_values(orient), written, accept);
}

/// In a consistent database, what a loaded rule with a variable selects are
/// the written triplets that agree with its constants, each as often as it
/// was written.
pub proof fn lemma_select(db: DatabaseView, loaded: RuleView)
    requires
        db.wf(),
        !loaded.ground(),
        !loaded.unsupported(),
    ensures
        same_elements(loaded.select(db), db.written.filter(loaded.agrees())),
{
    lemma_indexed(db.written);
    assert(triples(db.eav).map_values(from_eav()) =~= triples(db.eav));
    let accept = loaded.agrees();
    match (loaded.entity, loaded.attribute, loaded.value) {
        (RuleValView::Variable(_), RuleValView::Constant(a), RuleValView::Constant(v)) => {
            lemma_matching_is_filter(db.vae, db.written, Some(v), Some(a), from_vae(), accept);
        },
        (RuleValView::Constant(e), RuleValView::Constant(a), RuleValView::Variable(_)) => {
            lemma_matching_is_filter(db.eav, db.written, Some(e), Some(a), from_eav(), accept);
            assert(matching(db.eav, Some(e), Some(a)).map_values(from_eav()) =~= matching(
                db.eav,
                Some(e),
                Some(a),
            ));
        },
        (RuleValView::Variable(_), RuleValView::Variable(_), RuleValView::Constant(v)) => {
            lemma_matching_is_filter(db.vae, db.written, Some(v), None, from_vae(), accept);
        },
        (RuleValView::Constant(e), RuleValView::Variable(_), RuleValView::Variable(_)) => {
            lemma_matching_is_filter(db.eav, db.written, Some(e), None, from_eav(), accept);
            assert(matching(db.eav, Some(e), None).map_values(from_eav()) =~= matching(
                db.eav,
                Some(e),
                None,
            ));
        },
        (RuleValView::Variable(_), RuleValView::Constant(a), RuleValView::Variable(_)) => {
            lemma_matching_is_filter(db.ave, db.written, Some(a), None, from_ave(), accept);
        },
        (RuleValView::Variable(_), RuleValView::Variable(_), RuleValView::Variable(_)) => {
            lemma_matching_is_filter(db.eav, db.written, None, None, from_eav(), accept);
            assert(matching(db.eav, None::<Seq<char>>, None::<Seq<char>>).map_values(from_eav())
                =~= matching(db.eav, None::<Seq<char>>, None::<Seq<char>>));
        },
        _ => {},
    }
}

/// In a consistent database a loaded rule that holds a constant entity and a
/// constant attribute selects the written triplets that agree with the two,
/// in the order in which they were written: one enumeration gives its
/// results in insertion order.
pub proof fn lemma_select_in_insertion_order(db: DatabaseView, loaded: RuleView)
    requires
        db.wf(),
        loaded.entity is Constant,
        loaded.attribute is Constant,
        loaded.value is Variable,
    ensures
        loaded.select(db) == db.written.filter(loaded.agrees()),
{
    let e = loaded.entity->Constant_0;
    let a = loaded.attribute->Constant_0;
    let accept = fits::<Seq<char>, Seq<char>, ValueView>(Some(e), Some(a));
    lemma_indexed(db.written);
    lemma_matching_pair(db.eav, e, a);
    assert(loaded.agrees() =~= accept);
    let chosen = db.written.filter(accept);
    assert(entry(db.eav, e, a) == chosen.map_values(third()));
    assert forall|i: int| 0 <= i < chosen.len() implies #[trigger] chosen.map_values(
        third(),
    ).map_values(under(e, a))[i] == chosen[i] by {
        db.written.lemma_filter_pred(accept, i);
    }
    assert(chosen.map_values(third()).map_values(under(e, a)) =~= chosen);
}

/// A rule gives as many extensions of a partial solution as triplets were
/// written that agree with the constants of the rule, loaded against the
/// partial solution, and that the partial solution can be extended by: one
/// for each.
pub proof fn lemma_completions_count(db: DatabaseView, rule: RuleView, set: VariableSetView)
    requires
        db.wf(),
        !rule.load(set).ground(),
        !rule.load(set).unsupported(),
    ensures
        rule.completions(db, set).len() == db.written.filter(rule.load(set).agrees()).filter(
            rule.load(set).unifies(set),
        ).len(),
{
    let loaded = rule.load(set);
    lemma_select(db, loaded);
    lemma_filter_same_elements(
        loaded.select(db),
        db.written.filter(loaded.agrees()),
        loaded.unifies(set),
    );
}

/// A rule that does not hold the same name in its entity slot and in its
/// value slot can extend the set that binds nothing by any triplet.
pub proof fn lemma_unifies_from_empty(rule: RuleView, t: Triplet)
    requires
        !rule.self_joined(),
    ensures
        rule.unifies(VariableSetView::empty())(t),
{
}

/// A query of a single rule with a variable has as many solutions as
/// triplets were written that agree with the constants of the rule, if the
/// set that binds nothing can be extended by each of these.
pub proof fn lemma_single_rule_count(db: DatabaseView, rule: RuleView)
    requires
        db.wf(),
        !rule.ground(),
        !rule.unsupported(),
        forall|t: Triplet|
            db.written.contains(t) && rule.agrees()(t) ==> #[trigger] rule.unifies(
                VariableSetView::empty(),
            )(t),
    ensures
        solve(db, seq![rule], seq![VariableSetView::empty()]).len() == db.written.filter(
            rule.agrees(),
        ).len(),
{
    let start = VariableSetView::empty();
    assert(rule.load(start) == rule);
    lemma_solve_one(db, seq![rule], start);
    assert(seq![rule].drop_first() =~= Seq::<RuleView>::empty());
    lemma_completions_count(db, rule, start);
    let matching = db.written.filter(rule.agrees());
    assert forall|i: int| 0 <= i < matching.len() implies rule.unifies(start)(
        #[trigger] matching[i],
    ) by {
        db.written.lemma_filter_pred(rule.agrees(), i);
        assert(matching.contains(matching[i]));
        db.written.lemma_filter_contains_rev(rule.agrees(), matching[i]);
    }
    lemma_filter_keeps_all(matching, rule.unifies(start));
}

/// A query of a single rule with a variable, in which no name stands both in
/// the entity slot and in the value slot, has as many solutions as triplets
/// were written that agree with the constants of the rule.
pub proof fn lemma_single_rule_count_of_distinct_names(db: DatabaseView, rule: RuleView)
    requires
        db.wf(),
        !rule.ground(),
        !rule.unsupported(),
        !rule.self_joined(),
    ensures
        solve(db, seq![rule], seq![VariableSetView::empty()]).len() == db.written.filter(
            rule.agrees(),
        ).len(),
{
    assert forall|t: Triplet|
        db.written.contains(t) && rule.agrees()(t) implies #[trigger] rule.unifies(
        VariableSetView::empty(),
    )(t) by {
        lemma_unifies_from_empty(rule, t);
    }
    lemma_single_rule_count(db, rule);
}

/// The extensions of a partial solution by a rule are the same, but for their
/// order, in any two consistent databases into which the same triplets were
/// written equally often.
pub proof fn lemma_completions_order_independent(
    first: DatabaseView,
    second: DatabaseView,
    rule: RuleView,
    set: VariableSetView,
)
    requires
        first.wf(),
        second.wf(),
        same_elements(first.written, second.written),
    ensures
        same_elements(rule.completions(first, set), rule.completions(second, set)),
{
    let loaded = rule.load(set);
    if loaded.ground() {
    } else if loaded.unsupported() {
        assert(loaded.select(first) =~= loaded.select(second));
    } else {
        lemma_select(first, loaded);
        lemma_select(second, loaded);
        lemma_filter_same_elements(first.written, second.written, loaded.agrees());
        lemma_filter_same_elements(loaded.select(first), loaded.select(second), loaded.unifies(set));
        lemma_map_same_elements(
            loaded.select(first).filter(loaded.unifies(set)),
            loaded.select(second).filter(loaded.unifies(set)),
            loaded.binder(set),
        );
    }
}

/// The solutions of a query depend only on which triplets were written and
/// how often, not on the order in which they were written, except for the
/// order of the solutions: in any two consistent databases with the same
/// written triplets, from the same partial solutions in any order, the rules
/// give the same solutions, each equally often.
pub proof fn lemma_order_independence(
    first: DatabaseView,
    second: DatabaseView,
    rules: Seq<RuleView>,
    from_first: Seq<VariableSetView>,
    from_second: Seq<VariableSetView>,
)
    requires
        first.wf(),
        second.wf(),
        same_elements(first.written, second.written),
        same_elements(from_first, from_second),
    ensures
        same_elements(solve(first, rules, from_first), solve(second, rules, from_second)),
    decreases rules.len(), from_first.len(),
{
    lemma_same_elements_len(from_first, from_second);
    if rules.len() == 0 {
    } else if from_first.len() == 0 {
    } else {
        let set = from_first.last();
        let i = lemma_same_elements_step(from_first, from_second);
        let rest = rules.drop_first();
        let head = from_second.take(i);
        let tail = from_second.skip(i + 1);
        lemma_split_at(from_second, i);
        lemma_solve_concat(second, rules, head + seq![set], tail);
        lemma_solve_concat(second, rules, head, seq![set]);
        lemma_solve_concat(second, rules, head, tail);
        lemma_solve_one(second, rules, set);
        lemma_order_independence(first, second, rules, from_first.drop_last(), from_second.remove(i));
        lemma_completions_order_independent(first, second, rules[0], set);
        lemma_order_independence(
            first,
            second,
            rest,
            rules[0].completions(first, set),
            rules[0].completions(second, set),
        );
        let a = solve(second, rules, head);
        let b = solve(second, rest, rules[0].completions(second, set));
        let c = solve(second, rules, tail);
        lemma_multiset_commutative(a + b, c);
        lemma_multiset_commutative(a, b);
        lemma_multiset_commutative(a, c);
        lemma_multiset_commutative(
            solve(first, rules, from_first.drop_last()),
            solve(first, rest, rules[0].completions(first, set)),
        );
        assert(solve(second, rules, from_second).to_multiset() =~= (a + c).to_multiset().add(
            b.to_multiset(),
        ));
    }
}

/// Whether a query meets the unsupported pattern depends only on which
/// triplets were written and how often, not on the order in which they were
/// written, nor on the order of the partial solutions from which it starts.
pub proof fn lemma_supported_order_independent(
    first: DatabaseView,
    second: DatabaseView,
    rules: Seq<RuleView>,
    from_first: Seq<VariableSetView>,
    from_second: Seq<VariableSetView>,
)
    requires
        first.wf(),
        second.wf(),
        same_elements(first.written, second.written),
        same_elements(from_first, from_second),
    ensures
        supported(first, rules, from_first) == supported(second, rules, from_second),
    decreases rules.len(), from_first.len(),
{
    lemma_same_elements_len(from_first, from_second);
    if rules.len() > 0 && from_first.len() > 0 {
        let set = from_first.last();
        let i = lemma_same_elements_step(from_first, from_second);
        let head = from_second.take(i);
        let tail = from_second.skip(i + 1);
        lemma_split_at(from_second, i);
        lemma_solve_concat(second, rules, head + seq![set], tail);
        lemma_solve_concat(second, rules, head, seq![set]);
        lemma_solve_concat(second, rules, head, tail);
        lemma_solve_one(second, rules, set);
        lemma_supported_order_independent(
            first,
            second,
            rules,
            from_first.drop_last(),
            from_second.remove(i),
        );
        lemma_completions_order_independent(first, second, rules[0], set);
        lemma_supported_order_independent(
            first,
            second,
            rules.drop_first(),
            rules[0].completions(first, set),
            rules[0].completions(second, set),
        );
    }
}

/// A query that a consistent database supports is supported after the
/// derived indices were rebuilt, and has the same solutions, each equally
/// often: `query` can be called on the rebuilt database.
pub proof fn lemma_rebuild_keeps_supported(db: DatabaseView, rules: Seq<RuleView>)
    requires
        db.wf(),
    ensures
        db.rebuild().wf(),
        supported(db.rebuild(), rules, seq![VariableSetView::empty()]) == supported(
            db,
            rules,
            seq![VariableSetView::empty()],
        ),
{
    crate::db::lemma_rebuild(db);
    lemma_supported_order_independent(
        db.rebuild(),
        db,
        rules,
        seq![VariableSetView::empty()],
        seq![VariableSetView::empty()],
    );
}

/// A query has the same solutions, each equally often, before and after the
/// derived indices of a consistent database are rebuilt.
pub proof fn lemma_rebuild_keeps_solutions(db: DatabaseView, rules: Seq<RuleView>)
    requires
        db.wf(),
    ensures
        same_elements(
            solve(db.rebuild(), rules, seq![VariableSetView::empty()]),
            solve(db, rules, seq![VariableSetView::empty()]),
        ),
{
    crate::db::lemma_rebuild(db);
    lemma_order_independence(
        db.rebuild(),
        db,
        rules,
        seq![VariableSetView::empty()],
        seq![VariableSetView::empty()],
    );
}

/// Whatever two calls of `query` on the same database with the same rules
/// return, they return the same solutions in the same order.
pub proof fn lemma_query_repeatable(
    db: &Database,
    rules: &Vec<Rule>,
    once: Vec<VariableSet>,
    again: Vec<VariableSet>,
)
    requires
        call_ensures(Database::query, (db, rules), once),
        call_ensures(Database::query, (db, rules), again),
    ensures
        set_views(once@) == set_views(again@),
{
}

/// A query without rules has exactly one solution: the set that binds nothing.
pub proof fn lemma_no_rules(db: DatabaseView)
    ensures
        solve(db, Seq::empty(), seq![VariableSetView::empty()]) == seq![VariableSetView::empty()],
{
}

/// A rule that, loaded against a partial solution, holds constants only
/// passes the partial solution on as it is: the solutions are those of the
/// remaining rules.
pub proof fn lemma_ground_rule_passes(db: DatabaseView, rules: Seq<RuleView>, set: VariableSetView)
    requires
        rules.len() > 0,
        rules[0].load(set).ground(),
    ensures
        rules[0].completions(db, set) == seq![set],
        solve(db, rules, seq![set]) == solve(db, rules.drop_first(), seq![set]),
{
    lemma_solve_one(db, rules, set);
}

/// Where the first rule gives no extension of a partial solution, the partial
/// solution gives no solution, whatever the remaining rules are.
pub proof fn lemma_no_completion_drops_branch(db: DatabaseView, rules: Seq<RuleView>, set: VariableSetView)
    requires
        rules.len() > 0,
        rules[0].completions(db, set).len() == 0,
    ensures
        solve(db, rules, seq![set]) == Seq::<VariableSetView>::empty(),
{
    lemma_solve_one(db, rules, set);
    assert(rules[0].completions(db, set) =~= Seq::<VariableSetView>::empty());
}

/// Rules whose attribute slots all hold constants never meet the unsupported
/// pattern, whatever the store holds.
pub proof fn lemma_constant_attributes_supported(
    db: DatabaseView,
    rules: Seq<RuleView>,
    sets: Seq<VariableSetView>,
)
    requires
        forall|i: int| 0 <= i < rules.len() ==> (#[trigger] rules[i]).attribute is Constant,
    ensures
        supported(db, rules, sets),
    decreases rules.len(), sets.len(),
{
    if rules.len() > 0 && sets.len() > 0 {
        lemma_constant_attributes_supported(db, rules, sets.drop_last());
        assert forall|i: int| 0 <= i < rules.drop_first().len() implies (#[trigger] rules.drop_first()[i]).attribute is Constant by {
            assert(rules.drop_first()[i] == rules[i + 1]);
        }
        lemma_constant_attributes_supported(
            db,
            rules.drop_first(),
            rules[0].completions(db, sets.last()),
        );
    }
}

/// What a rule extends a coherent set to is coherent.
pub proof fn lemma_bind_coherent(rule: RuleView, set: VariableSetView, t: Triplet)
    requires
        set.coherent(),
    ensures
        rule.bind(set, t) matches Some(extended) ==> extended.coherent(),
{
    match (rule.entity, rule.attribute, rule.value) {
        (RuleValView::Variable(x), RuleValView::Constant(_), RuleValView::Constant(_)) => {
            lemma_constrain_coherent(set, x);
        },
        (RuleValView::Constant(_), RuleValView::Constant(_), RuleValView::Variable(z)) => {
            lemma_constrain_coherent(set, z);
        },
        (RuleValView::Variable(x), RuleValView::Variable(y), RuleValView::Constant(_)) => {
            lemma_constrain_coherent(set, y);
            if let Some(bound) = set.constrain_attribute(y, t.1) {
                lemma_constrain_coherent(bound, x);
            }
        },
        (RuleValView::Constant(_), RuleValView::Variable(y), RuleValView::Variable(z)) => {
            lemma_constrain_coherent(set, y);
            if let Some(bound) = set.constrain_attribute(y, t.1) {
                lemma_constrain_coherent(bound, z);
            }
        },
        (RuleValView::Variable(x), RuleValView::Constant(_), RuleValView::Variable(z)) => {
            lemma_constrain_coherent(set, z);
            if let Some(bound) = set.constrain_value(z, t.2) {
                lemma_constrain_coherent(bound, x);
            }
        },
        (RuleValView::Variable(x), RuleValView::Variable(y), RuleValView::Variable(z)) => {
            lemma_constrain_coherent(set, x);
            if let Some(first) = set.constrain_entity(x, t.0) {
                lemma_constrain_coherent(first, y);
                if let Some(second) = first.constrain_attribute(y, t.1) {
                    lemma_constrain_coherent(second, z);
                }
            }
        },
        _ => {},
    }
}

/// In every solution the entity variables and the value variables of the
/// same name are bound together, if they are so in the partial solutions
/// from which the rules start; they are in the set that binds nothing.
pub proof fn lemma_solutions_coherent(db: DatabaseView, rules: Seq<RuleView>, sets: Seq<VariableSetView>)
    requires
        forall|i: int| 0 <= i < sets.len() ==> (#[trigger] sets[i]).coherent(),
    ensures
        forall|i: int|
            0 <= i < solve(db, rules, sets).len() ==> (#[trigger] solve(db, rules, sets)[i]).coherent(),
        VariableSetView::empty().coherent(),
    decreases rules.len(), sets.len(),
{
    if rules.len() > 0 && sets.len() > 0 {
        let set = sets.last();
        let loaded = rules[0].load(set);
        let extended = rules[0].completions(db, set);
        lemma_solutions_coherent(db, rules, sets.drop_last());
        assert forall|i: int| 0 <= i < extended.len() implies (#[trigger] extended[i]).coherent() by {
            if !loaded.ground() {
                let fitting = loaded.select(db).filter(loaded.unifies(set));
                loaded.select(db).lemma_filter_pred(loaded.unifies(set), i);
                lemma_bind_coherent(loaded, set, fitting[i]);
            }
        }
        lemma_solutions_coherent(db, rules.drop_first(), extended);
        let before = solve(db, rules, sets.drop_last());
        let after = solve(db, rules.drop_first(), extended);
        assert forall|i: int| 0 <= i < (before + after).len() implies (#[trigger] (before + after)[i]).coherent() by {
            if i < before.len() {
                assert((before + after)[i] == before[i]);
            } else {
                assert((before + after)[i] == after[i - before.len()]);
            }
        }
    }
}

} // verus!
