//! Typed query variables and the partial solutions that bind them.

use crate::db::{Attribute, Entity, Value, ValueView};
use std::marker::PhantomData;
use vstd::prelude::*;
use vstd::std_specs::cmp::PartialEqSpecImpl;
use vstd::std_specs::convert::FromSpecImpl;

verus! {

/// A query variable that ranges over components of kind `T`. Two variables
/// are the same if they have the same name and the same kind.
#[derive(Debug)]
pub struct Variable<T>(String, PhantomData<T>);

impl<T> View for Variable<T> {
    type V = Seq<char>;

    /// The variable's name.
    closed spec fn view(&self) -> Seq<char> {
        self.0@
    }
}

impl<T> Variable<T> {
    pub fn new(name: &str) -> (variable: Self)
        ensures
            variable@ == name@,
    {
        Variable(name.to_owned(), PhantomData)
    }

    /// The variable's name.
    pub fn name(&self) -> (name: &str)
        ensures
            name@ == self@,
    {
        self.0.as_str()
    }
}

impl<T> Clone for Variable<T> {
    fn clone(&self) -> (copy: Self)
        ensures
            copy@ == self@,
    {
        Variable(self.0.clone(), PhantomData)
    }
}

impl<T> PartialEq for Variable<T> {
    fn eq(&self, other: &Self) -> (equal: bool) {
        self.0 == other.0
    }
}

impl<T> PartialEqSpecImpl for Variable<T> {
    open spec fn obeys_eq_spec() -> bool {
        true
    }

    open spec fn eq_spec(&self, other: &Self) -> bool {
        self@ == other@
    }
}

impl<T> Eq for Variable<T> {

}

impl From<Variable<Value>> for Variable<Entity> {
    /// The entity variable of the same name.
    fn from(variable: Variable<Value>) -> (coerced: Self)
        ensures
            coerced@ == variable@,
    {
        Variable(variable.0, PhantomData)
    }
}

impl FromSpecImpl<Variable<Value>> for Variable<Entity> {
    open spec fn obeys_from_spec() -> bool {
        false
    }

    open spec fn from_spec(variable: Variable<Value>) -> Self {
        arbitrary()
    }
}

impl From<Variable<Entity>> for Variable<Value> {
    /// The value variable of the same name.
    fn from(variable: Variable<Entity>) -> (coerced: Self)
        ensures
            coerced@ == variable@,
    {
        Variable(variable.0, PhantomData)
    }
}

impl FromSpecImpl<Variable<Entity>> for Variable<Value> {
    open spec fn obeys_from_spec() -> bool {
        false
    }

    open spec fn from_spec(variable: Variable<Entity>) -> Self {
        arbitrary()
    }
}

/// The mathematical content of a [`VariableSet`]: for each kind of variable,
/// what each bound name is bound to.
pub struct VariableSetView {
    pub entity: Map<Seq<char>, Seq<char>>,
    pub attribute: Map<Seq<char>, Seq<char>>,
    pub value: Map<Seq<char>, ValueView>,
}

/// Whether `name` can be constrained to `entry`: it is unbound, or bound to
/// `entry` already.
pub open spec fn accepts<X>(bindings: Map<Seq<char>, X>, name: Seq<char>, entry: X) -> bool {
    !bindings.contains_key(name) || bindings[name] == entry
}

/// The map with `name` bound to `entry` if it was unbound, and the map itself
/// if `name` is bound already: a binding is never overwritten.
pub open spec fn bind<X>(bindings: Map<Seq<char>, X>, name: Seq<char>, entry: X) -> Map<Seq<char>, X> {
    if bindings.contains_key(name) {
        bindings
    } else {
        bindings.insert(name, entry)
    }
}

/// What `name` is bound to, if it is bound.
pub open spec fn bound_in<X>(bindings: Map<Seq<char>, X>, name: Seq<char>) -> Option<X> {
    if bindings.contains_key(name) {
        Some(bindings[name])
    } else {
        None
    }
}

impl VariableSetView {
    /// The set that binds nothing.
    pub open spec fn empty() -> VariableSetView {
        VariableSetView { entity: Map::empty(), attribute: Map::empty(), value: Map::empty() }
    }

    /// Binds the entity variable `name`, and with it the value variable of the
    /// same name to a reference to the entity. Nothing where one of the two is
    /// bound to something else.
    pub open spec fn constrain_entity(self, name: Seq<char>, entity: Seq<char>) -> Option<
        VariableSetView,
    > {
        if accepts(self.entity, name, entity) && accepts(
            self.value,
            name,
            ValueView::Reference(entity),
        ) {
            Some(
                VariableSetView {
                    entity: bind(self.entity, name, entity),
                    attribute: self.attribute,
                    value: bind(self.value, name, ValueView::Reference(entity)),
                },
            )
        } else {
            None
        }
    }

    /// Binds the attribute variable `name`. Nothing where it is bound to
    /// another attribute.
    pub open spec fn constrain_attribute(self, name: Seq<char>, attribute: Seq<char>) -> Option<
        VariableSetView,
    > {
        if accepts(self.attribute, name, attribute) {
            Some(
                VariableSetView {
                    entity: self.entity,
                    attribute: bind(self.attribute, name, attribute),
                    value: self.value,
                },
            )
        } else {
            None
        }
    }

    /// Binds the value variable `name`, and where the value is a reference,
    /// the entity variable of the same name to the entity referred to.
    /// Nothing where the value variable is bound to another value, or the
    /// entity variable to another entity; data cannot be bound where the
    /// entity variable is bound at all.
    pub open spec fn constrain_value(self, name: Seq<char>, value: ValueView) -> Option<
        VariableSetView,
    > {
        match value {
            ValueView::Reference(entity) => if accepts(self.value, name, value) && accepts(
                self.entity,
                name,
                entity,
            ) {
                Some(
                    VariableSetView {
                        entity: bind(self.entity, name, entity),
                        attribute: self.attribute,
                        value: bind(self.value, name, value),
                    },
                )
            } else {
                None
            },
            ValueView::Data(_) => if accepts(self.value, name, value) && !self.entity.contains_key(
                name,
            ) {
                Some(
                    VariableSetView {
                        entity: self.entity,
                        attribute: self.attribute,
                        value: bind(self.value, name, value),
                    },
                )
            } else {
                None
            },
        }
    }
}

impl VariableSetView {
    /// The entity variables and the value variables of the same name are
    /// bound together: where an entity variable is bound, the value variable
    /// of its name is bound to a reference to that entity; and where a value
    /// variable is bound to a reference, the entity variable of its name is
    /// bound to the entity referred to.
    pub open spec fn coherent(self) -> bool {
        &&& forall|name: Seq<char>| #[trigger]
            self.entity.contains_key(name) ==> self.value.contains_key(name) && self.value[name]
                == ValueView::Reference(self.entity[name])
        &&& forall|name: Seq<char>| #[trigger]
            self.value.contains_key(name) ==> (self.value[name] matches ValueView::Reference(entity)
                ==> self.entity.contains_key(name) && self.entity[name] == entity)
    }
}

/// Constraining a variable keeps the variables of one name bound together.
pub proof fn lemma_constrain_coherent(set: VariableSetView, name: Seq<char>)
    requires
        set.coherent(),
    ensures
        forall|entity: Seq<char>| #[trigger]
            set.constrain_entity(name, entity) matches Some(extended) ==> extended.coherent(),
        forall|attribute: Seq<char>| #[trigger]
            set.constrain_attribute(name, attribute) matches Some(extended) ==> extended.coherent(),
        forall|value: ValueView| #[trigger]
            set.constrain_value(name, value) matches Some(extended) ==> extended.coherent(),
{
}

/// The bindings that a list of (name, entry) pairs stands for: each name with
/// the entry of its first pair.
pub open spec fn bindings_of<X>(pairs: Seq<(Seq<char>, X)>) -> Map<Seq<char>, X>
    decreases pairs.len(),
{
    if pairs.len() == 0 {
        Map::empty()
    } else {
        bind(bindings_of(pairs.drop_last()), pairs.last().0, pairs.last().1)
    }
}

/// A name is bound by a list of pairs to the entry of the first pair that
/// holds it, and unbound where no pair holds it.
proof fn lemma_bindings_of<X>(pairs: Seq<(Seq<char>, X)>, name: Seq<char>, i: int)
    requires
        0 <= i <= pairs.len(),
        forall|j: int| 0 <= j < i ==> (#[trigger] pairs[j]).0 != name,
        i < pairs.len() ==> pairs[i].0 == name,
    ensures
        bound_in(bindings_of(pairs), name) == if i < pairs.len() {
            Some(pairs[i].1)
        } else {
            None
        },
    decreases pairs.len(),
{
    if pairs.len() > 0 {
        let front = pairs.drop_last();
        if i < front.len() {
            lemma_bindings_of(front, name, i);
        } else {
            lemma_bindings_of(front, name, front.len() as int);
        }
    }
}

proof fn lemma_bindings_of_push<X>(pairs: Seq<(Seq<char>, X)>, name: Seq<char>, entry: X)
    ensures
        bindings_of(pairs.push((name, entry))) == bind(bindings_of(pairs), name, entry),
{
    assert(pairs.push((name, entry)).drop_last() =~= pairs);
}

/// A partial or complete solution of a query: what each bound variable is
/// bound to, by kind.
#[derive(Debug)]
pub struct VariableSet {
    entity: Vec<(String, Entity)>,
    attribute: Vec<(String, Attribute)>,
    value: Vec<(String, Value)>,
}

spec fn pairs_view<T: View>(pairs: Seq<(String, T)>) -> Seq<(Seq<char>, T::V)> {
    Seq::new(pairs.len(), |i: int| (pairs[i].0@, pairs[i].1@))
}

impl View for VariableSet {
    type V = VariableSetView;

    closed spec fn view(&self) -> VariableSetView {
        VariableSetView {
            entity: bindings_of(pairs_view(self.entity@)),
            attribute: bindings_of(pairs_view(self.attribute@)),
            value: bindings_of(pairs_view(self.value@)),
        }
    }
}

/// The views of a list of solutions.
pub open spec fn set_views(sets: Seq<VariableSet>) -> Seq<VariableSetView> {
    Seq::new(sets.len(), |i: int| sets[i]@)
}

/// The index of the first pair that holds `name`, or the number of pairs.
fn find<T: View>(pairs: &Vec<(String, T)>, name: &String) -> (i: usize)
    ensures
        i <= pairs.len(),
        forall|j: int| 0 <= j < i ==> (#[trigger] pairs_view(pairs@)[j]).0 != name@,
        i < pairs.len() ==> pairs_view(pairs@)[i as int].0 == name@,
{
    let mut i: usize = 0;
    while i < pairs.len()
        invariant
            i <= pairs.len(),
            forall|j: int| 0 <= j < i ==> (#[trigger] pairs_view(pairs@)[j]).0 != name@,
        decreases pairs.len() - i,
    {
        if pairs[i].0 == *name {
            return i;
        }
        i += 1;
    }
    i
}

fn clone_pairs<T: View + Clone>(pairs: &Vec<(String, T)>) -> (copies: Vec<(String, T)>)
    requires
        forall|item: T, copy: T| call_ensures(T::clone, (&item,), copy) ==> copy@ == item@,
    ensures
        pairs_view(copies@) == pairs_view(pairs@),
{
    let mut copies: Vec<(String, T)> = Vec::new();
    let mut i: usize = 0;
    while i < pairs.len()
        invariant
            i <= pairs.len(),
            copies.len() == i,
            forall|item: T, copy: T| call_ensures(T::clone, (&item,), copy) ==> copy@ == item@,
            forall|j: int| 0 <= j < i ==> (#[trigger] pairs_view(copies@)[j]) == pairs_view(pairs@)[j],
        decreases pairs.len() - i,
    {
        let ghost before = copies@;
        copies.push((pairs[i].0.clone(), pairs[i].1.clone()));
        assert forall|j: int| 0 <= j < i + 1 implies (#[trigger] pairs_view(copies@)[j]) == pairs_view(
            pairs@,
        )[j] by {
            if j < i {
                assert(copies@[j] == before[j]);
                assert(pairs_view(before)[j] == pairs_view(pairs@)[j]);
            }
        }
        i += 1;
    }
    assert(pairs_view(copies@) =~= pairs_view(pairs@));
    copies
}

impl Default for VariableSet {
    /// The set that binds nothing.
    fn default() -> (set: Self)
        ensures
            set@ == VariableSetView::empty(),
    {
        let set = VariableSet { entity: Vec::new(), attribute: Vec::new(), value: Vec::new() };
        assert(pairs_view(set.entity@) =~= Seq::empty());
        assert(pairs_view(set.attribute@) =~= Seq::empty());
        assert(pairs_view(set.value@) =~= Seq::empty());
        set
    }
}

impl Clone for VariableSet {
    fn clone(&self) -> (copy: Self)
        ensures
            copy@ == self@,
    {
        VariableSet {
            entity: clone_pairs(&self.entity),
            attribute: clone_pairs(&self.attribute),
            value: clone_pairs(&self.value),
        }
    }
}

/// The view of a set that may be missing.
pub open spec fn option_view(set: Option<VariableSet>) -> Option<VariableSetView> {
    match set {
        Some(set) => Some(set@),
        None => None,
    }
}

/// Binding and looking up variables of kind `T` in a set of bindings.
pub trait VariableSetExt<T: View>: View<V = VariableSetView> + Sized {
    /// What a set binds a variable of this kind to, if it binds it.
    spec fn bound(set: VariableSetView, variable: Seq<char>) -> Option<T::V>;

    /// The set after the variable was constrained to the entry, or nothing
    /// where the set binds otherwise.
    spec fn constrained(set: VariableSetView, variable: Seq<char>, entry: T::V) -> Option<
        VariableSetView,
    >;

    /// A copy of the set in which the variable is bound to the entry. Where
    /// the set binds the variable to the entry already, the copy binds what
    /// the set binds. Where the set binds the variable to something else,
    /// there is no such copy: a binding is never overwritten.
    fn constrain(&self, variable: &Variable<T>, entry: T) -> (extended: Option<Self>)
        ensures
            match extended {
                Some(extended) => Self::constrained(self@, variable@, entry@) == Some(extended@),
                None => Self::constrained(self@, variable@, entry@) is None,
            },
    ;

    /// What the variable is bound to, if it is bound.
    fn get(&self, variable: &Variable<T>) -> (entry: Option<&T>)
        ensures
            match entry {
                Some(entry) => Self::bound(self@, variable@) == Some(entry@),
                None => Self::bound(self@, variable@) is None,
            },
    ;
}

impl VariableSetExt<Entity> for VariableSet {
    open spec fn bound(set: VariableSetView, variable: Seq<char>) -> Option<Seq<char>> {
        bound_in(set.entity, variable)
    }

    open spec fn constrained(set: VariableSetView, variable: Seq<char>, entry: Seq<char>) -> Option<
        VariableSetView,
    > {
        set.constrain_entity(variable, entry)
    }

    fn constrain(&self, variable: &Variable<Entity>, entry: Entity) -> (extended: Option<Self>) {
        let mut instance = self.clone();
        let i = find(&instance.entity, &variable.0);
        let k = find(&instance.value, &variable.0);
        let reference = Value::Reference(entry.clone());
        proof {
            lemma_bindings_of(pairs_view(instance.entity@), variable@, i as int);
            lemma_bindings_of(pairs_view(instance.value@), variable@, k as int);
            lemma_bindings_of_push(pairs_view(instance.entity@), variable@, entry@);
            lemma_bindings_of_push(pairs_view(instance.value@), variable@, reference@);
        }
        if i < instance.entity.len() && !(instance.entity[i].1 == entry) {
            return None;
        }
        if k < instance.value.len() && !(instance.value[k].1 == reference) {
            return None;
        }
        let ghost entities = pairs_view(instance.entity@);
        let ghost values = pairs_view(instance.value@);
        if k == instance.value.len() {
            instance.value.push((variable.0.clone(), reference));
            assert(pairs_view(instance.value@) =~= values.push((variable@, reference@)));
        }
        if i == instance.entity.len() {
            instance.entity.push((variable.0.clone(), entry));
            assert(pairs_view(instance.entity@) =~= entities.push((variable@, entry@)));
        }
        Some(instance)
    }

    fn get(&self, variable: &Variable<Entity>) -> (entry: Option<&Entity>) {
        let i = find(&self.entity, &variable.0);
        proof {
            lemma_bindings_of(pairs_view(self.entity@), variable@, i as int);
        }
        if i < self.entity.len() {
            Some(&self.entity[i].1)
        } else {
            None
        }
    }
}

impl VariableSetExt<Attribute> for VariableSet {
    open spec fn bound(set: VariableSetView, variable: Seq<char>) -> Option<Seq<char>> {
        bound_in(set.attribute, variable)
    }

    open spec fn constrained(set: VariableSetView, variable: Seq<char>, entry: Seq<char>) -> Option<
        VariableSetView,
    > {
        set.constrain_attribute(variable, entry)
    }

    fn constrain(&self, variable: &Variable<Attribute>, entry: Attribute) -> (extended: Option<Self>) {
        let mut instance = self.clone();
        let i = find(&instance.attribute, &variable.0);
        proof {
            lemma_bindings_of(pairs_view(instance.attribute@), variable@, i as int);
            lemma_bindings_of_push(pairs_view(instance.attribute@), variable@, entry@);
        }
        if i < instance.attribute.len() && !(instance.attribute[i].1 == entry) {
            return None;
        }
        let ghost attributes = pairs_view(instance.attribute@);
        if i == instance.attribute.len() {
            instance.attribute.push((variable.0.clone(), entry));
            assert(pairs_view(instance.attribute@) =~= attributes.push((variable@, entry@)));
        }
        Some(instance)
    }

    fn get(&self, variable: &Variable<Attribute>) -> (entry: Option<&Attribute>) {
        let i = find(&self.attribute, &variable.0);
        proof {
            lemma_bindings_of(pairs_view(self.attribute@), variable@, i as int);
        }
        if i < self.attribute.len() {
            Some(&self.attribute[i].1)
        } else {
            None
        }
    }
}

impl VariableSetExt<Value> for VariableSet {
    open spec fn bound(set: VariableSetView, variable: Seq<char>) -> Option<ValueView> {
        bound_in(set.value, variable)
    }

    open spec fn constrained(set: VariableSetView, variable: Seq<char>, entry: ValueView) -> Option<
        VariableSetView,
    > {
        set.constrain_value(variable, entry)
    }

    fn constrain(&self, variable: &Variable<Value>, entry: Value) -> (extended: Option<Self>) {
        let mut instance = self.clone();
        let i = find(&instance.entity, &variable.0);
        let k = find(&instance.value, &variable.0);
        proof {
            lemma_bindings_of(pairs_view(instance.entity@), variable@, i as int);
            lemma_bindings_of(pairs_view(instance.value@), variable@, k as int);
            lemma_bindings_of_push(pairs_view(instance.value@), variable@, entry@);
        }
        if k < instance.value.len() && !(instance.value[k].1 == entry) {
            return None;
        }
        match &entry {
            Value::Reference(entity) => {
                if i < instance.entity.len() && !(instance.entity[i].1 == *entity) {
                    return None;
                }
            },
            Value::Data(_) => {
                if i < instance.entity.len() {
                    return None;
                }
            },
        }
        let ghost entities = pairs_view(instance.entity@);
        let ghost values = pairs_view(instance.value@);
        if let Value::Reference(entity) = &entry {
            proof {
                lemma_bindings_of_push(pairs_view(instance.entity@), variable@, entity@);
            }
            if i == instance.entity.len() {
                instance.entity.push((variable.0.clone(), entity.clone()));
                assert(pairs_view(instance.entity@) =~= entities.push((variable@, entity@)));
            }
        }
        if k == instance.value.len() {
            instance.value.push((variable.0.clone(), entry));
            assert(pairs_view(instance.value@) =~= values.push((variable@, entry@)));
        }
        Some(instance)
    }

    fn get(&self, variable: &Variable<Value>) -> (entry: Option<&Value>) {
        let i = find(&self.value, &variable.0);
        proof {
            lemma_bindings_of(pairs_view(self.value@), variable@, i as int);
        }
        if i < self.value.len() {
            Some(&self.value[i].1)
        } else {
            None
        }
    }
}

} // verus!
