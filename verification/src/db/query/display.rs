//! Solutions as text: each variable with its sigil, and what it is bound to.

use crate::db::query::binding::{Variable, VariableSet, VariableSetExt, VariableSetView};
use crate::db::{Attribute, Entity, Value, ValueView};
use vstd::prelude::*;
use vstd::std_specs::convert::FromSpecImpl;
use vstd::string::StringExecFns;

verus! {

/// The text of a value: the data itself, or `Ref(..)` around the name of the
/// entity referred to.
pub open spec fn value_text(value: ValueView) -> Seq<char> {
    match value {
        ValueView::Reference(entity) => "Ref("@ + entity + ")"@,
        ValueView::Data(data) => data,
    }
}

impl Entity {
    /// The entity's name.
    pub fn to_text(&self) -> (text: String)
        ensures
            text@ == self@,
    {
        self.0.clone()
    }
}

impl Attribute {
    /// The attribute's label.
    pub fn to_text(&self) -> (text: String)
        ensures
            text@ == self@,
    {
        self.0.clone()
    }
}

impl Value {
    /// The text of the value: see [`value_text`].
    pub fn to_text(&self) -> (text: String)
        ensures
            text@ == value_text(self@),
    {
        match self {
            Value::Reference(entity) => {
                let mut text = String::from_str("Ref(");
                text.append(entity.0.as_str());
                text.append(")");
                text
            },
            Value::Data(data) => data.clone(),
        }
    }
}

impl Variable<Entity> {
    /// The variable's name behind the sigil of entity variables.
    pub fn label(&self) -> (label: String)
        ensures
            label@ == "#"@ + self@,
    {
        let mut label = String::from_str("#");
        label.append(self.name());
        label
    }
}

impl Variable<Attribute> {
    /// The variable's name behind the sigil of attribute variables.
    pub fn label(&self) -> (label: String)
        ensures
            label@ == ":"@ + self@,
    {
        let mut label = String::from_str(":");
        label.append(self.name());
        label
    }
}

impl Variable<Value> {
    /// The variable's name behind the sigil of value variables.
    pub fn label(&self) -> (label: String)
        ensures
            label@ == "?"@ + self@,
    {
        let mut label = String::from_str("?");
        label.append(self.name());
        label
    }
}

/// A variable of any of the three kinds.
#[derive(Debug)]
pub enum AnyVariable {
    Entity(Variable<Entity>),
    Attribute(Variable<Attribute>),
    Value(Variable<Value>),
}

/// The kind and the name of a variable.
pub enum AnyVariableView {
    Entity(Seq<char>),
    Attribute(Seq<char>),
    Value(Seq<char>),
}

impl View for AnyVariable {
    type V = AnyVariableView;

    open spec fn view(&self) -> AnyVariableView {
        match self {
            AnyVariable::Entity(variable) => AnyVariableView::Entity(variable@),
            AnyVariable::Attribute(variable) => AnyVariableView::Attribute(variable@),
            AnyVariable::Value(variable) => AnyVariableView::Value(variable@),
        }
    }
}

impl From<&Variable<Entity>> for AnyVariable {
    fn from(variable: &Variable<Entity>) -> (any: Self)
        ensures
            any@ == AnyVariableView::Entity(variable@),
    {
        AnyVariable::Entity(variable.clone())
    }
}

impl FromSpecImpl<&Variable<Entity>> for AnyVariable {
    open spec fn obeys_from_spec() -> bool {
        false
    }

    open spec fn from_spec(variable: &Variable<Entity>) -> Self {
        arbitrary()
    }
}

impl From<&Variable<Attribute>> for AnyVariable {
    fn from(variable: &Variable<Attribute>) -> (any: Self)
        ensures
            any@ == AnyVariableView::Attribute(variable@),
    {
        AnyVariable::Attribute(variable.clone())
    }
}

impl FromSpecImpl<&Variable<Attribute>> for AnyVariable {
    open spec fn obeys_from_spec() -> bool {
        false
    }

    open spec fn from_spec(variable: &Variable<Attribute>) -> Self {
        arbitrary()
    }
}

impl From<&Variable<Value>> for AnyVariable {
    fn from(variable: &Variable<Value>) -> (any: Self)
        ensures
            any@ == AnyVariableView::Value(variable@),
    {
        AnyVariable::Value(variable.clone())
    }
}

impl FromSpecImpl<&Variable<Value>> for AnyVariable {
    open spec fn obeys_from_spec() -> bool {
        false
    }

    open spec fn from_spec(variable: &Variable<Value>) -> Self {
        arbitrary()
    }
}

/// One variable as text: its label, a colon and a blank, and the text of what
/// the set binds it to, which is empty where it is unbound.
pub open spec fn described(set: VariableSetView, variable: AnyVariableView) -> Seq<char> {
    match variable {
        AnyVariableView::Entity(name) => "#"@ + name + ": "@ + (if set.entity.contains_key(name) {
            set.entity[name]
        } else {
            Seq::empty()
        }),
        AnyVariableView::Attribute(name) => ":"@ + name + ": "@ + (if set.attribute.contains_key(
            name,
        ) {
            set.attribute[name]
        } else {
            Seq::empty()
        }),
        AnyVariableView::Value(name) => "?"@ + name + ": "@ + (if set.value.contains_key(name) {
            value_text(set.value[name])
        } else {
            Seq::empty()
        }),
    }
}

/// The parts one after the other, with the separator between each two.
pub open spec fn joined(parts: Seq<Seq<char>>, separator: Seq<char>) -> Seq<char>
    decreases parts.len(),
{
    if parts.len() == 0 {
        Seq::empty()
    } else if parts.len() == 1 {
        parts[0]
    } else {
        joined(parts.drop_last(), separator) + separator + parts.last()
    }
}

/// The text of each of the variables in turn: see [`described`].
pub open spec fn descriptions(set: VariableSetView, variables: Seq<AnyVariable>) -> Seq<Seq<char>> {
    Seq::new(variables.len(), |i: int| described(set, variables[i]@))
}

/// One variable of a solution as text.
pub fn describe(result: &VariableSet, variable: &AnyVariable) -> (text: String)
    ensures
        text@ == described(result@, variable@),
{
    match variable {
        AnyVariable::Entity(v) => {
            let mut text = v.label();
            text.append(": ");
            match result.get(v) {
                Some(entity) => {
                    text.append(entity.0.as_str());
                },
                None => {
                    assert(text@ + Seq::<char>::empty() =~= text@);
                },
            }
            text
        },
        AnyVariable::Attribute(v) => {
            let mut text = v.label();
            text.append(": ");
            match result.get(v) {
                Some(attribute) => {
                    text.append(attribute.0.as_str());
                },
                None => {
                    assert(text@ + Seq::<char>::empty() =~= text@);
                },
            }
            text
        },
        AnyVariable::Value(v) => {
            let mut text = v.label();
            text.append(": ");
            match result.get(v) {
                Some(value) => {
                    let bound = value.to_text();
                    text.append(bound.as_str());
                },
                None => {
                    assert(text@ + Seq::<char>::empty() =~= text@);
                },
            }
            text
        },
    }
}

/// The given variables of a solution as one line of text: each as
/// [`describe`] gives it, with a comma and a blank between each two.
pub fn format_variables(result: &VariableSet, variables: &Vec<AnyVariable>) -> (line: String)
    ensures
        line@ == joined(descriptions(result@, variables@), ", "@),
{
    let mut line = String::new();
    let ghost all = descriptions(result@, variables@);
    let mut i: usize = 0;
    proof {
        assert(all.take(0) =~= Seq::empty());
    }
    while i < variables.len()
        invariant
            i <= variables.len(),
            all == descriptions(result@, variables@),
            line@ == joined(all.take(i as int), ", "@),
        decreases variables.len() - i,
    {
        proof {
            assert(all.take(i + 1).drop_last() =~= all.take(i as int));
            assert(all.take(i + 1).last() == all[i as int]);
        }
        if i > 0 {
            line.append(", ");
        } else {
            assert(line@ + all[i as int] =~= all[i as int]);
        }
        let text = describe(result, &variables[i]);
        line.append(text.as_str());
        i += 1;
    }
    assert(all.take(variables.len() as int) =~= all);
    line
}

} // verus!
