//! Rules: one triple pattern each, with a variable or a constant in every
//! slot, and how a rule extends a partial solution from the store.

use crate::db::query::binding::{
    option_view, set_views, Variable, VariableSet, VariableSetExt, VariableSetView,
};
use crate::db::triplet_tree::{matching, triple_views};
use crate::db::{
    from_ave, from_vae, Attribute, Component, Database, DatabaseView, Entity, Triplet, Value,
    ValueView,
};
use vstd::prelude::*;
use vstd::std_specs::convert::FromSpecImpl;

verus! {

/// A slot of a rule: a variable of kind `T`, or a constant.
#[derive(Debug)]
pub enum RuleVal<T> {
    Variable(Variable<T>),
    Constant(T),
}

/// The mathematical content of a slot: the variable's name, or the constant.
pub enum RuleValView<X> {
    Variable(Seq<char>),
    Constant(X),
}

impl<T: View> View for RuleVal<T> {
    type V = RuleValView<T::V>;

    open spec fn view(&self) -> RuleValView<T::V> {
        match self {
            RuleVal::Variable(variable) => RuleValView::Variable(variable@),
            RuleVal::Constant(constant) => RuleValView::Constant(constant@),
        }
    }
}

/// The slot after substitution: a bound variable becomes the constant that it
/// is bound to; an unbound variable and a constant stay.
pub open spec fn substituted<X>(slot: RuleValView<X>, bindings: Map<Seq<char>, X>) -> RuleValView<X> {
    match slot {
        RuleValView::Variable(name) => if bindings.contains_key(name) {
            RuleValView::Constant(bindings[name])
        } else {
            slot
        },
        RuleValView::Constant(_) => slot,
    }
}

impl<T: Component> RuleVal<T> {
    /// The slot loaded against the set: see [`substituted`].
    fn load(&self, set: &VariableSet) -> (loaded: Self) where VariableSet: VariableSetExt<T>
        ensures
            loaded@ == match self@ {
                RuleValView::Variable(name) => match <VariableSet as VariableSetExt<T>>::bound(
                    set@,
                    name,
                ) {
                    Some(entry) => RuleValView::Constant(entry),
                    None => self@,
                },
                RuleValView::Constant(_) => self@,
            },
    {
        match self {
            RuleVal::Variable(variable) => match set.get(variable) {
                Some(entry) => RuleVal::Constant(entry.duplicate()),
                None => RuleVal::Variable(variable.clone()),
            },
            RuleVal::Constant(constant) => RuleVal::Constant(constant.duplicate()),
        }
    }
}

impl From<&Variable<Entity>> for RuleVal<Entity> {
    /// A slot that holds the variable.
    fn from(variable: &Variable<Entity>) -> (slot: Self)
        ensures
            slot@ == RuleValView::<Seq<char>>::Variable(variable@),
    {
        RuleVal::Variable(variable.clone())
    }
}

impl FromSpecImpl<&Variable<Entity>> for RuleVal<Entity> {
    open spec fn obeys_from_spec() -> bool {
        false
    }

    open spec fn from_spec(variable: &Variable<Entity>) -> Self {
        arbitrary()
    }
}

impl From<&Variable<Attribute>> for RuleVal<Attribute> {
    /// A slot that holds the variable.
    fn from(variable: &Variable<Attribute>) -> (slot: Self)
        ensures
            slot@ == RuleValView::<Seq<char>>::Variable(variable@),
    {
        RuleVal::Variable(variable.clone())
    }
}

impl FromSpecImpl<&Variable<Attribute>> for RuleVal<Attribute> {
    open spec fn obeys_from_spec() -> bool {
        false
    }

    open spec fn from_spec(variable: &Variable<Attribute>) -> Self {
        arbitrary()
    }
}

impl From<&Variable<Value>> for RuleVal<Value> {
    /// A slot that holds the variable.
    fn from(variable: &Variable<Value>) -> (slot: Self)
        ensures
            slot@ == RuleValView::<ValueView>::Variable(variable@),
    {
        RuleVal::Variable(variable.clone())
    }
}

impl FromSpecImpl<&Variable<Value>> for RuleVal<Value> {
    open spec fn obeys_from_spec() -> bool {
        false
    }

    open spec fn from_spec(variable: &Variable<Value>) -> Self {
        arbitrary()
    }
}

impl From<&Variable<Entity>> for RuleVal<Value> {
    /// A value slot that holds the value variable of the same name as the entity variable.
    fn from(variable: &Variable<Entity>) -> (slot: Self)
        ensures
            slot@ == RuleValView::<ValueView>::Variable(variable@),
    {
        RuleVal::Variable(Variable::<Value>::from(variable.clone()))
    }
}

impl FromSpecImpl<&Variable<Entity>> for RuleVal<Value> {
    open spec fn obeys_from_spec() -> bool {
        false
    }

    open spec fn from_spec(variable: &Variable<Entity>) -> Self {
        arbitrary()
    }
}

impl From<&str> for RuleVal<Entity> {
    /// A slot that holds the entity of that name.
    fn from(name: &str) -> (slot: Self)
        ensures
            slot@ == RuleValView::Constant(name@),
    {
        RuleVal::Constant(Entity::from(name))
    }
}

impl FromSpecImpl<&str> for RuleVal<Entity> {
    open spec fn obeys_from_spec() -> bool {
        false
    }

    open spec fn from_spec(name: &str) -> Self {
        arbitrary()
    }
}

impl From<&str> for RuleVal<Attribute> {
    /// A slot that holds the attribute of that label.
    fn from(label: &str) -> (slot: Self)
        ensures
            slot@ == RuleValView::Constant(label@),
    {
        RuleVal::Constant(Attribute::from(label))
    }
}

impl FromSpecImpl<&str> for RuleVal<Attribute> {
    open spec fn obeys_from_spec() -> bool {
        false
    }

    open spec fn from_spec(label: &str) -> Self {
        arbitrary()
    }
}

impl From<&str> for RuleVal<Value> {
    /// A slot that holds the data as a value.
    fn from(data: &str) -> (slot: Self)
        ensures
            slot@ == RuleValView::Constant(ValueView::Data(data@)),
    {
        RuleVal::Constant(Value::from(data))
    }
}

impl FromSpecImpl<&str> for RuleVal<Value> {
    open spec fn obeys_from_spec() -> bool {
        false
    }

    open spec fn from_spec(data: &str) -> Self {
        arbitrary()
    }
}

impl From<&Entity> for RuleVal<Entity> {
    /// A slot that holds a copy of the constant.
    fn from(constant: &Entity) -> (slot: Self)
        ensures
            slot@ == RuleValView::Constant(constant@),
    {
        RuleVal::Constant(constant.clone())
    }
}

impl FromSpecImpl<&Entity> for RuleVal<Entity> {
    open spec fn obeys_from_spec() -> bool {
        false
    }

    open spec fn from_spec(constant: &Entity) -> Self {
        arbitrary()
    }
}

impl From<Entity> for RuleVal<Entity> {
    /// A slot that holds the constant.
    fn from(constant: Entity) -> (slot: Self)
        ensures
            slot@ == RuleValView::Constant(constant@),
    {
        RuleVal::Constant(constant)
    }
}

impl FromSpecImpl<Entity> for RuleVal<Entity> {
    open spec fn obeys_from_spec() -> bool {
        false
    }

    open spec fn from_spec(constant: Entity) -> Self {
        arbitrary()
    }
}

impl From<&Attribute> for RuleVal<Attribute> {
    /// A slot that holds a copy of the constant.
    fn from(constant: &Attribute) -> (slot: Self)
        ensures
            slot@ == RuleValView::Constant(constant@),
    {
        RuleVal::Constant(constant.clone())
    }
}

impl FromSpecImpl<&Attribute> for RuleVal<Attribute> {
    open spec fn obeys_from_spec() -> bool {
        false
    }

    open spec fn from_spec(constant: &Attribute) -> Self {
        arbitrary()
    }
}

impl From<Attribute> for RuleVal<Attribute> {
    /// A slot that holds the constant.
    fn from(constant: Attribute) -> (slot: Self)
        ensures
            slot@ == RuleValView::Constant(constant@),
    {
        RuleVal::Constant(constant)
    }
}

impl FromSpecImpl<Attribute> for RuleVal<Attribute> {
    open spec fn obeys_from_spec() -> bool {
        false
    }

    open spec fn from_spec(constant: Attribute) -> Self {
        arbitrary()
    }
}

impl From<&Value> for RuleVal<Value> {
    /// A slot that holds a copy of the constant.
    fn from(constant: &Value) -> (slot: Self)
        ensures
            slot@ == RuleValView::Constant(constant@),
    {
        RuleVal::Constant(constant.clone())
    }
}

impl FromSpecImpl<&Value> for RuleVal<Value> {
    open spec fn obeys_from_spec() -> bool {
        false
    }

    open spec fn from_spec(constant: &Value) -> Self {
        arbitrary()
    }
}

impl From<Value> for RuleVal<Value> {
    /// A slot that holds the constant.
    fn from(constant: Value) -> (slot: Self)
        ensures
            slot@ == RuleValView::Constant(constant@),
    {
        RuleVal::Constant(constant)
    }
}

impl FromSpecImpl<Value> for RuleVal<Value> {
    open spec fn obeys_from_spec() -> bool {
        false
    }

    open spec fn from_spec(constant: Value) -> Self {
        arbitrary()
    }
}

impl From<&Entity> for RuleVal<Value> {
    /// A value slot that holds a reference to the entity.
    fn from(entity: &Entity) -> (slot: Self)
        ensures
            slot@ == RuleValView::Constant(ValueView::Reference(entity@)),
    {
        RuleVal::Constant(Value::from(entity))
    }
}

impl FromSpecImpl<&Entity> for RuleVal<Value> {
    open spec fn obeys_from_spec() -> bool {
        false
    }

    open spec fn from_spec(entity: &Entity) -> Self {
        arbitrary()
    }
}

/// A single triple pattern.
#[derive(Debug)]
pub struct Rule {
    entity: RuleVal<Entity>,
    attribute: RuleVal<Attribute>,
    value: RuleVal<Value>,
}

/// The mathematical content of a [`Rule`].
pub struct RuleView {
    pub entity: RuleValView<Seq<char>>,
    pub attribute: RuleValView<Seq<char>>,
    pub value: RuleValView<ValueView>,
}

impl View for Rule {
    type V = RuleView;

    closed spec fn view(&self) -> RuleView {
        RuleView { entity: self.entity@, attribute: self.attribute@, value: self.value@ }
    }
}

/// The views of a list of rules.
pub open spec fn rule_views(rules: Seq<Rule>) -> Seq<RuleView> {
    Seq::new(rules.len(), |i: int| rules[i]@)
}

impl RuleView {
    /// The rule with every bound variable replaced by what the set binds it to.
    pub open spec fn load(self, set: VariableSetView) -> RuleView {
        RuleView {
            entity: substituted(self.entity, set.entity),
            attribute: substituted(self.attribute, set.attribute),
            value: substituted(self.value, set.value),
        }
    }

    /// All three slots hold constants.
    pub open spec fn ground(self) -> bool {
        self.entity is Constant && self.attribute is Constant && self.value is Constant
    }

    /// The one pattern that no index serves: a constant entity and a constant
    /// value around a variable attribute.
    pub open spec fn unsupported(self) -> bool {
        self.entity is Constant && self.attribute is Variable && self.value is Constant
    }

    /// The same name stands in the entity slot and in the value slot, so the
    /// value of a triplet must refer to the entity of the triplet.
    pub open spec fn self_joined(self) -> bool {
        self.entity matches RuleValView::Variable(x) && self.value matches RuleValView::Variable(z)
            && x == z
    }

    /// Whether a triplet agrees with the constants of the rule.
    pub open spec fn agrees(self) -> spec_fn(Triplet) -> bool {
        |t: Triplet|
            {
                &&& self.entity matches RuleValView::Constant(entity) ==> t.0 == entity
                &&& self.attribute matches RuleValView::Constant(attribute) ==> t.1 == attribute
                &&& self.value matches RuleValView::Constant(value) ==> t.2 == value
            }
    }

    /// The set extended by binding the variables of the rule to the components
    /// of the triplet, or nothing where the set binds one of them otherwise.
    /// Variables are bound in the order attribute, value, entity, but in the
    /// order entity, attribute, value where all three slots hold variables.
    pub open spec fn bind(self, set: VariableSetView, t: Triplet) -> Option<VariableSetView> {
        match (self.entity, self.attribute, self.value) {
            (RuleValView::Variable(x), RuleValView::Constant(_), RuleValView::Constant(_)) => {
                set.constrain_entity(x, t.0)
            },
            (RuleValView::Constant(_), RuleValView::Constant(_), RuleValView::Variable(z)) => {
                set.constrain_value(z, t.2)
            },
            (RuleValView::Variable(x), RuleValView::Variable(y), RuleValView::Constant(_)) => {
                match set.constrain_attribute(y, t.1) {
                    Some(bound) => bound.constrain_entity(x, t.0),
                    None => None,
                }
            },
            (RuleValView::Constant(_), RuleValView::Variable(y), RuleValView::Variable(z)) => {
                match set.constrain_attribute(y, t.1) {
                    Some(bound) => bound.constrain_value(z, t.2),
                    None => None,
                }
            },
            (RuleValView::Variable(x), RuleValView::Constant(_), RuleValView::Variable(z)) => {
                match set.constrain_value(z, t.2) {
                    Some(bound) => bound.constrain_entity(x, t.0),
                    None => None,
                }
            },
            (RuleValView::Variable(x), RuleValView::Variable(y), RuleValView::Variable(z)) => {
                match set.constrain_entity(x, t.0) {
                    Some(first) => match first.constrain_attribute(y, t.1) {
                        Some(second) => second.constrain_value(z, t.2),
                        None => None,
                    },
                    None => None,
                }
            },
            _ => Some(set),
        }
    }

    /// Whether the set can be extended by the triplet: see [`RuleView::bind`].
    pub open spec fn unifies(self, set: VariableSetView) -> spec_fn(Triplet) -> bool {
        |t: Triplet| self.bind(set, t) is Some
    }

    /// The set extended by a triplet that it can be extended by: see
    /// [`RuleView::bind`].
    pub open spec fn binder(self, set: VariableSetView) -> spec_fn(Triplet) -> VariableSetView {
        |t: Triplet|
            match self.bind(set, t) {
                Some(extended) => extended,
                None => set,
            }
    }

    /// The stored triplets that a loaded rule with a variable asks for, from
    /// the index that serves its pattern and in that index's order.
    pub open spec fn select(self, db: DatabaseView) -> Seq<Triplet> {
        match (self.entity, self.attribute, self.value) {
            (RuleValView::Variable(_), RuleValView::Constant(a), RuleValView::Constant(v)) => {
                matching(db.vae, Some(v), Some(a)).map_values(from_vae())
            },
            (RuleValView::Constant(e), RuleValView::Constant(a), RuleValView::Variable(_)) => {
                matching(db.eav, Some(e), Some(a))
            },
            (RuleValView::Variable(_), RuleValView::Variable(_), RuleValView::Constant(v)) => {
                matching(db.vae, Some(v), None).map_values(from_vae())
            },
            (RuleValView::Constant(e), RuleValView::Variable(_), RuleValView::Variable(_)) => {
                matching(db.eav, Some(e), None)
            },
            (RuleValView::Variable(_), RuleValView::Constant(a), RuleValView::Variable(_)) => {
                matching(db.ave, Some(a), None).map_values(from_ave())
            },
            (RuleValView::Variable(_), RuleValView::Variable(_), RuleValView::Variable(_)) => {
                matching(db.eav, None, None)
            },
            _ => Seq::empty(),
        }
    }

    /// The extensions of a partial solution by this rule: the set itself
    /// where the loaded rule holds constants only, and else one extension for
    /// each stored triplet that the loaded rule asks for and that the set can
    /// be extended by.
    pub open spec fn completions(self, db: DatabaseView, set: VariableSetView) -> Seq<VariableSetView> {
        let loaded = self.load(set);
        if loaded.ground() {
            seq![set]
        } else {
            loaded.extensions(set, loaded.select(db))
        }
    }

    /// The extensions of the set by those of the triplets that it can be
    /// extended by, in the order of the triplets.
    pub open spec fn extensions(self, set: VariableSetView, triplets: Seq<Triplet>) -> Seq<
        VariableSetView,
    > {
        triplets.filter(self.unifies(set)).map_values(self.binder(set))
    }
}

/// What an index hands out for a triple of it: the three components of the
/// triplet that the triple stands for.
trait Found: Sized {
    /// The triplet that the triple stands for.
    spec fn triplet(&self) -> Triplet;

    /// Entity, attribute and value of the triplet.
    fn parts(&self) -> (parts: (&Entity, &Attribute, &Value))
        ensures
            (parts.0@, parts.1@, parts.2@) == self.triplet(),
    ;
}

impl Found for (Entity, Attribute, Value) {
    spec fn triplet(&self) -> Triplet {
        (self.0@, self.1@, self.2@)
    }

    fn parts(&self) -> (parts: (&Entity, &Attribute, &Value)) {
        (&self.0, &self.1, &self.2)
    }
}

impl Found for (Attribute, Value, Entity) {
    spec fn triplet(&self) -> Triplet {
        (self.2@, self.0@, self.1@)
    }

    fn parts(&self) -> (parts: (&Entity, &Attribute, &Value)) {
        (&self.2, &self.0, &self.1)
    }
}

impl Found for (Value, Attribute, Entity) {
    spec fn triplet(&self) -> Triplet {
        (self.2@, self.1@, self.0@)
    }

    fn parts(&self) -> (parts: (&Entity, &Attribute, &Value)) {
        (&self.2, &self.1, &self.0)
    }
}

/// The triplets that a list of triples stands for.
spec fn found_triplets<T: Found>(found: Seq<T>) -> Seq<Triplet> {
    Seq::new(found.len(), |i: int| found[i].triplet())
}

/// The set extended for one stored triplet, given by its components, or
/// nothing where the set binds a variable otherwise.
fn bind(
    set: &VariableSet,
    entity_slot: &RuleVal<Entity>,
    attribute_slot: &RuleVal<Attribute>,
    value_slot: &RuleVal<Value>,
    entity: &Entity,
    attribute: &Attribute,
    value: &Value,
) -> (extended: Option<VariableSet>)
    ensures
        option_view(extended) == (RuleView {
            entity: entity_slot@,
            attribute: attribute_slot@,
            value: value_slot@,
        }).bind(set@, (entity@, attribute@, value@)),
{
    match (entity_slot, attribute_slot, value_slot) {
        (RuleVal::Variable(x), RuleVal::Constant(_), RuleVal::Constant(_)) => {
            set.constrain(x, entity.clone())
        },
        (RuleVal::Constant(_), RuleVal::Constant(_), RuleVal::Variable(z)) => {
            set.constrain(z, value.clone())
        },
        (RuleVal::Variable(x), RuleVal::Variable(y), RuleVal::Constant(_)) => {
            match set.constrain(y, attribute.clone()) {
                Some(bound) => bound.constrain(x, entity.clone()),
                None => None,
            }
        },
        (RuleVal::Constant(_), RuleVal::Variable(y), RuleVal::Variable(z)) => {
            match set.constrain(y, attribute.clone()) {
                Some(bound) => bound.constrain(z, value.clone()),
                None => None,
            }
        },
        (RuleVal::Variable(x), RuleVal::Constant(_), RuleVal::Variable(z)) => {
            match set.constrain(z, value.clone()) {
                Some(bound) => bound.constrain(x, entity.clone()),
                None => None,
            }
        },
        (RuleVal::Variable(x), RuleVal::Variable(y), RuleVal::Variable(z)) => {
            match set.constrain(x, entity.clone()) {
                Some(first) => match first.constrain(y, attribute.clone()) {
                    Some(second) => second.constrain(z, value.clone()),
                    None => None,
                },
                None => None,
            }
        },
        _ => Some(set.clone()),
    }
}

impl Rule {
    pub fn new(entity: RuleVal<Entity>, attribute: RuleVal<Attribute>, value: RuleVal<Value>) -> (rule: Self)
        ensures
            rule@ == (RuleView { entity: entity@, attribute: attribute@, value: value@ }),
    {
        Rule { entity, attribute, value }
    }

    /// The rule with every bound variable replaced by what the set binds it to.
    fn load(&self, set: &VariableSet) -> (loaded: Rule)
        ensures
            loaded@ == self@.load(set@),
    {
        Rule {
            entity: self.entity.load(set),
            attribute: self.attribute.load(set),
            value: self.value.load(set),
        }
    }

    /// One extension of the set for each of the triplets found that the set
    /// can be extended by, in the order in which they were found.
    fn extend<T: Found>(&self, set: &VariableSet, found: &Vec<T>) -> (extended: Vec<VariableSet>)
        ensures
            set_views(extended@) == self@.extensions(set@, found_triplets(found@)),
    {
        let mut extended: Vec<VariableSet> = Vec::new();
        let ghost all = found_triplets(found@);
        let mut i: usize = 0;
        proof {
            assert(all.take(0) =~= Seq::empty());
            all.take(0).lemma_filter_len(self@.unifies(set@));
            assert(set_views(extended@) =~= self@.extensions(set@, all.take(0)));
        }
        while i < found.len()
            invariant
                i <= found.len(),
                all == found_triplets(found@),
                set_views(extended@) == self@.extensions(set@, all.take(i as int)),
            decreases found.len() - i,
        {
            let (entity, attribute, value) = found[i].parts();
            let ghost before = set_views(extended@);
            proof {
                assert(all.take(i + 1) =~= all.take(i as int).push(all[i as int]));
                all.take(i as int).lemma_filter_push(all[i as int], self@.unifies(set@));
            }
            match bind(set, &self.entity, &self.attribute, &self.value, entity, attribute, value) {
                Some(bound) => {
                    extended.push(bound);
                    assert(set_views(extended@) =~= before.push(self@.binder(set@)(all[i as int])));
                    assert(all.take(i as int).filter(self@.unifies(set@)).push(all[i as int]).map_values(
                        self@.binder(set@),
                    ) =~= before.push(self@.binder(set@)(all[i as int])));
                },
                None => {},
            }
            i += 1;
        }
        assert(all.take(found.len() as int) =~= all);
        extended
    }

    /// The extensions of the set by this rule, or nothing where the rule,
    /// loaded against the set, has the unsupported pattern.
    pub fn try_constrain(&self, set: &VariableSet, db: &Database) -> (extended: Option<Vec<VariableSet>>)
        ensures
            match extended {
                Some(sets) => !self@.load(set@).unsupported() && set_views(sets@)
                    == self@.completions(db@, set@),
                None => self@.load(set@).unsupported(),
            },
    {
        let loaded = self.load(set);
        match (&loaded.entity, &loaded.attribute, &loaded.value) {
            // Constants only: nothing is left to bind.
            (RuleVal::Constant(_), RuleVal::Constant(_), RuleVal::Constant(_)) => {
                let mut sets: Vec<VariableSet> = Vec::new();
                sets.push(set.clone());
                assert(set_views(sets@) =~= seq![set@]);
                Some(sets)
            },
            // One variable.
            (RuleVal::Variable(_), RuleVal::Constant(attribute), RuleVal::Constant(value)) => {
                let found = db.vae.matching(Some(value), Some(attribute));
                assert(found_triplets(found@) =~= triple_views(found@).map_values(from_vae()));
                Some(loaded.extend(set, &found))
            },
            (RuleVal::Constant(entity), RuleVal::Constant(attribute), RuleVal::Variable(_)) => {
                let found = db.eav.matching(Some(entity), Some(attribute));
                assert(found_triplets(found@) =~= triple_views(found@));
                Some(loaded.extend(set, &found))
            },
            (RuleVal::Constant(_), RuleVal::Variable(_), RuleVal::Constant(_)) => None,
            // Two variables.
            (RuleVal::Variable(_), RuleVal::Variable(_), RuleVal::Constant(value)) => {
                let found = db.vae.matching(Some(value), None);
                assert(found_triplets(found@) =~= triple_views(found@).map_values(from_vae()));
                Some(loaded.extend(set, &found))
            },
            (RuleVal::Constant(entity), RuleVal::Variable(_), RuleVal::Variable(_)) => {
                let found = db.eav.matching(Some(entity), None);
                assert(found_triplets(found@) =~= triple_views(found@));
                Some(loaded.extend(set, &found))
            },
            (RuleVal::Variable(_), RuleVal::Constant(attribute), RuleVal::Variable(_)) => {
                let found = db.ave.matching(Some(attribute), None);
                assert(found_triplets(found@) =~= triple_views(found@).map_values(from_ave()));
                Some(loaded.extend(set, &found))
            },
            // Three variables.
            (RuleVal::Variable(_), RuleVal::Variable(_), RuleVal::Variable(_)) => {
                let found = db.eav.matching(None, None);
                assert(found_triplets(found@) =~= triple_views(found@));
                Some(loaded.extend(set, &found))
            },
        }
    }

    /// The extensions of the set by this rule: the set itself where the rule,
    /// loaded against the set, holds constants only, and else one extension for
    /// each stored triplet that agrees with its constants and that the set
    /// can be extended by.
    pub fn constrain(&self, set: VariableSet, db: &Database) -> (extended: Vec<VariableSet>)
        requires
            !self@.load(set@).unsupported(),
        ensures
            set_views(extended@) == self@.completions(db@, set@),
    {
        match self.try_constrain(&set, db) {
            Some(sets) => sets,
            None => Vec::new(),
        }
    }
}

} // verus!
