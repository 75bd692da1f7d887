//! Geocoding against a gazetteer: the places that it knows by number, and
//! what is recorded for an entity that was located or that names a place.

use crate::db::query::binding::{bound_in, Variable, VariableSetExt, VariableSetView};
use crate::db::query::laws::lemma_constant_attributes_supported;
use crate::db::query::rule::{Rule, RuleValView, RuleView};
use crate::db::query::solve;
use crate::db::triplet_tree::entry;
use crate::db::{Attribute, DatabaseView, Entity, Value, ValueView};
use crate::handle::Handle;
use crate::text::{parse_i64, parsed_i64, signed_decimal, strip_prefix, to_signed_decimal};
use std::collections::HashMap;
use vstd::prelude::*;
use vstd::string::StringExecFns;

verus! {

/// The class of a feature of the gazetteer.
#[derive(Debug, Clone, Copy, PartialEq, Eq, Structural)]
pub enum FeatureClass {
    /// country, state, region
    A,
    /// stream, lake
    H,
    /// parks, area
    L,
    /// city, village
    P,
    /// road, railroad
    R,
    /// spot, building, farm
    S,
    /// mountain, hill, rock
    T,
    /// undersea
    U,
    /// forest, heath
    V,
    Other,
}

impl FeatureClass {
    /// The letter of the class; `X` for any other.
    pub fn to_string(&self) -> (letter: String)
        ensures
            letter@ == match *self {
                FeatureClass::A => "A"@,
                FeatureClass::H => "H"@,
                FeatureClass::L => "L"@,
                FeatureClass::P => "P"@,
                FeatureClass::R => "R"@,
                FeatureClass::S => "S"@,
                FeatureClass::T => "T"@,
                FeatureClass::U => "U"@,
                FeatureClass::V => "V"@,
                FeatureClass::Other => "X"@,
            },
    {
        match *self {
            FeatureClass::A => String::from_str("A"),
            FeatureClass::H => String::from_str("H"),
            FeatureClass::L => String::from_str("L"),
            FeatureClass::P => String::from_str("P"),
            FeatureClass::R => String::from_str("R"),
            FeatureClass::S => String::from_str("S"),
            FeatureClass::T => String::from_str("T"),
            FeatureClass::U => String::from_str("U"),
            FeatureClass::V => String::from_str("V"),
            FeatureClass::Other => String::from_str("X"),
        }
    }

    /// Whether features of the class are kept: populated places and
    /// administrative areas are.
    pub fn is_kept(&self) -> (kept: bool)
        ensures
            kept == (*self == FeatureClass::P || *self == FeatureClass::A),
    {
        match *self {
            FeatureClass::P => true,
            FeatureClass::A => true,
            _ => false,
        }
    }
}

/// What the gazetteer knows of a place.
#[derive(Debug)]
pub struct Place {
    pub name: String,
    pub parent: Option<i64>,
}

/// The mathematical content of a [`Place`].
pub struct PlaceView {
    pub name: Seq<char>,
    pub parent: Option<i64>,
}

impl View for Place {
    type V = PlaceView;

    open spec fn view(&self) -> PlaceView {
        PlaceView { name: self.name@, parent: self.parent }
    }
}

/// The places of the gazetteer, by number.
pub struct GeoNames {
    places: HashMap<i64, Place>,
}

impl View for GeoNames {
    type V = Map<i64, PlaceView>;

    closed spec fn view(&self) -> Map<i64, PlaceView> {
        Map::new(|id: i64| self.places@.contains_key(id), |id: i64| self.places@[id]@)
    }
}

/// The name of the entity that stands for the place of the number.
pub open spec fn geoname(id: i64) -> Seq<char> {
    "geoname:"@ + signed_decimal(id as int)
}

/// The places after `child` was put below `parent`: nothing changes unless
/// both are known.
pub open spec fn linked(places: Map<i64, PlaceView>, parent: i64, child: i64) -> Map<i64, PlaceView> {
    if places.contains_key(parent) && places.contains_key(child) {
        places.insert(child, PlaceView { name: places[child].name, parent: Some(parent) })
    } else {
        places
    }
}

/// The database after a place was described: its name as the label of the
/// entity, unless the entity has a label, and a reference to its parent,
/// where it has one.
pub open spec fn described(db: DatabaseView, entity: Seq<char>, place: PlaceView) -> DatabaseView {
    let labelled = if entry(db.eav, entity, "text/label"@).len() == 0 {
        db.insert(entity, "text/label"@, ValueView::Data(place.name))
    } else {
        db
    };
    match place.parent {
        Some(parent) => labelled.insert(entity, "relation/parent"@, ValueView::Reference(geoname(parent))),
        None => labelled,
    }
}

/// The number of the place that a value refers to: the value is a reference
/// to an entity named `geoname:` and a number.
pub open spec fn referenced(value: ValueView) -> Option<i64> {
    match value {
        ValueView::Reference(entity) => if "geoname:"@.is_prefix_of(entity) {
            parsed_i64(entity.skip("geoname:"@.len() as int))
        } else {
            None
        },
        ValueView::Data(_) => None,
    }
}

/// A reference to the entity that stands for a place refers to the place.
pub proof fn lemma_referenced_geoname(id: i64)
    ensures
        referenced(ValueView::Reference(geoname(id))) == Some(id),
{
    crate::text::lemma_parse_signed_decimal(id);
    assert(geoname(id).skip("geoname:"@.len() as int) =~= signed_decimal(id as int));
}

/// The query for the coordinates of an entity: its latitude as `lat`, its
/// longitude as `lng`.
pub open spec fn coordinate_rules(entity: Seq<char>) -> Seq<RuleView> {
    seq![
        RuleView {
            entity: RuleValView::Constant(entity),
            attribute: RuleValView::Constant("location/latitude"@),
            value: RuleValView::Variable("lat"@),
        },
        RuleView {
            entity: RuleValView::Constant(entity),
            attribute: RuleValView::Constant("location/longitude"@),
            value: RuleValView::Variable("lng"@),
        },
    ]
}

/// The data that a solution binds a value variable to, if it binds it to
/// data.
pub open spec fn bound_data(set: VariableSetView, name: Seq<char>) -> Option<Seq<char>> {
    match bound_in(set.value, name) {
        Some(ValueView::Data(data)) => Some(data),
        _ => None,
    }
}

/// The coordinates by which an entity is still to be located: the latitude
/// and the longitude of the first solution of [`coordinate_rules`], where
/// both are data. Nothing where a place is recorded for the entity already.
pub open spec fn pending(db: DatabaseView, entity: Seq<char>) -> Option<(Seq<char>, Seq<char>)> {
    let solutions = solve(db, coordinate_rules(entity), seq![VariableSetView::empty()]);
    if entry(db.eav, entity, "location/geoname"@).len() > 0 || solutions.len() == 0 {
        None
    } else {
        match (bound_data(solutions[0], "lat"@), bound_data(solutions[0], "lng"@)) {
            (Some(lat), Some(lng)) => Some((lat, lng)),
            _ => None,
        }
    }
}

/// The data that the solution binds the value variable to.
fn data_of(set: &crate::db::query::binding::VariableSet, variable: &Variable<Value>) -> (data: Option<String>)
    ensures
        match data {
            Some(text) => bound_data(set@, variable@) == Some(text@),
            None => bound_data(set@, variable@) is None,
        },
{
    match set.get(variable) {
        Some(Value::Data(data)) => Some(data.clone()),
        _ => None,
    }
}

impl GeoNames {
    /// The coordinates by which the entity is still to be located: see
    /// [`pending`].
    pub fn pending_coordinates(handle: &Handle, entity: &Entity) -> (found: Option<(String, String)>)
        ensures
            match found {
                Some((lat, lng)) => pending(handle@, entity@) == Some((lat@, lng@)),
                None => pending(handle@, entity@) is None,
            },
    {
        let lat = Variable::<Value>::new("lat");
        let lng = Variable::<Value>::new("lng");
        let mut rules: Vec<Rule> = Vec::new();
        rules.push(Rule::new(entity.into(), "location/latitude".into(), (&lat).into()));
        rules.push(Rule::new(entity.into(), "location/longitude".into(), (&lng).into()));
        proof {
            assert(crate::db::query::rule::rule_views(rules@) =~= coordinate_rules(entity@));
            lemma_constant_attributes_supported(
                handle@,
                coordinate_rules(entity@),
                seq![VariableSetView::empty()],
            );
        }
        let coordinates = handle.query(&rules);
        // Do not do the work twice.
        let places = handle.get(entity, &Attribute::from("location/geoname"));
        if places.len() > 0 || coordinates.len() == 0 {
            return None;
        }
        assert(crate::db::query::binding::set_views(coordinates@)[0] == coordinates[0]@);
        match (data_of(&coordinates[0], &lat), data_of(&coordinates[0], &lng)) {
            (Some(lat), Some(lng)) => Some((lat, lng)),
            _ => None,
        }
    }

    /// A gazetteer without places.
    pub fn new() -> (names: Self)
        ensures
            names@ == Map::<i64, PlaceView>::empty(),
    {
        let names = GeoNames { places: HashMap::new() };
        assert(names@ =~= Map::empty());
        names
    }

    /// Adds a feature, if features of its class are kept; a feature that is
    /// known already is replaced. Returns whether it was kept.
    pub fn add(&mut self, id: i64, name: String, class: FeatureClass) -> (kept: bool)
        ensures
            kept == (class == FeatureClass::P || class == FeatureClass::A),
            final(self)@ == if kept {
                old(self)@.insert(id, PlaceView { name: name@, parent: None })
            } else {
                old(self)@
            },
    {
        broadcast use vstd::std_specs::hash::group_hash_axioms;

        if class.is_kept() {
            self.places.insert(id, Place { name, parent: None });
            assert(self@ =~= old(self)@.insert(id, PlaceView { name: name@, parent: None }));
            true
        } else {
            false
        }
    }

    /// Puts `child` below `parent`, if both are known.
    pub fn link(&mut self, parent: i64, child: i64)
        ensures
            final(self)@ == linked(old(self)@, parent, child),
    {
        broadcast use vstd::std_specs::hash::group_hash_axioms;

        if !self.places.contains_key(&parent) {
            return ;
        }
        let name = match self.places.get(&child) {
            Some(place) => place.name.clone(),
            None => {
                return ;
            },
        };
        self.places.insert(child, Place { name, parent: Some(parent) });
        assert(self@ =~= linked(old(self)@, parent, child));
    }

    /// What is known of the place of the number.
    pub fn get(&self, id: i64) -> (place: Option<&Place>)
        ensures
            match place {
                Some(place) => self@.contains_key(id) && self@[id] == place@,
                None => !self@.contains_key(id),
            },
    {
        broadcast use vstd::std_specs::hash::group_hash_axioms;

        self.places.get(&id)
    }

    /// The number of places.
    pub fn len(&self) -> (count: usize)
        ensures
            count == self@.dom().len(),
    {
        broadcast use vstd::std_specs::hash::group_hash_axioms;

        assert(self@.dom() =~= self.places@.dom());
        self.places.len()
    }

    /// The entity that stands for the place of the number.
    pub fn entity_of(id: i64) -> (entity: Entity)
        ensures
            entity@ == geoname(id),
    {
        let mut name = String::from_str("geoname:");
        name.append(to_signed_decimal(id).as_str());
        Entity(name)
    }

    /// Whether the attribute gives a coordinate of its entity.
    pub fn is_coordinate(attribute: &Attribute) -> (found: bool)
        ensures
            found == (attribute@ == "location/latitude"@ || attribute@ == "location/longitude"@),
    {
        *attribute == Attribute::from("location/latitude") || *attribute == Attribute::from(
            "location/longitude",
        )
    }

    /// The number of the place that the value refers to: see [`referenced`].
    pub fn referenced_geoname(value: &Value) -> (id: Option<i64>)
        ensures
            id == referenced(value@),
    {
        match value {
            Value::Reference(entity) => match strip_prefix(entity.0.as_str(), "geoname:") {
                Some(rest) => parse_i64(rest),
                None => None,
            },
            Value::Data(_) => None,
        }
    }

    /// Records for the entity what is known of the place of the number: see
    /// [`described`]. Nothing is recorded for a place that is not known.
    pub fn handle_geoname(&self, handle: &mut Handle, entity: Entity, id: i64)
        ensures
            final(handle)@ == if self@.contains_key(id) {
                described(old(handle)@, entity@, self@[id])
            } else {
                old(handle)@
            },
            old(handle).wf() ==> final(handle).wf(),
    {
        if let Some(place) = self.get(id) {
            let labels = handle.get(&entity, &Attribute::from("text/label"));
            if labels.len() == 0 {
                handle.insert(entity.clone(), Attribute::from("text/label"), Value::Data(place.name.clone()));
            }
            if let Some(parent_id) = place.parent {
                let parent = Self::entity_of(parent_id);
                handle.insert(entity, Attribute::from("relation/parent"), Value::Reference(parent));
            }
        }
    }

    /// Records the place of the number as the place of the entity.
    pub fn locate(handle: &mut Handle, entity: Entity, id: i64)
        ensures
            final(handle)@ == old(handle)@.insert(
                entity@,
                "location/geoname"@,
                ValueView::Reference(geoname(id)),
            ),
            old(handle).wf() ==> final(handle).wf(),
    {
        handle.insert(entity, Attribute::from("location/geoname"), Value::Reference(Self::entity_of(id)));
    }
}

} // verus!
