//! The triplet store: entities, attributes and values, and the database that
//! indexes every inserted triplet three ways.

use crate::sequences::lemma_map_same_elements;
use triplet_tree::{
    appended, distinct_keys, entry, expand, fits, group_views, indexed, lemma_indexed,
    lemma_indexed_push, lemma_triples_appended, lemma_triples_push, third, triples, views,
    GroupView, TripletTree,
};
use vstd::multiset::Multiset;
use vstd::prelude::*;
use vstd::seq_lib::*;
use vstd::std_specs::cmp::PartialEqSpecImpl;
use vstd::std_specs::convert::FromSpecImpl;

pub mod query;
pub mod triplet_tree;
pub mod write_log;

pub use query::{QueryError, Rule, RuleVal, Variable, VariableSet, VariableSetExt};

verus! {

/// What a component of a triplet must offer so that an index can be keyed on
/// it: a mathematical view, a comparison that decides equality of views, and a
/// copy with the same view.
pub trait Component: View + Sized {
    fn same(&self, other: &Self) -> (equal: bool)
        ensures
            equal == (self@ == other@),
    ;

    fn duplicate(&self) -> (copy: Self)
        ensures
            copy@ == self@,
    ;
}

/// An opaque identifier naming a subject.
#[derive(Debug)]
pub struct Entity(pub String);

/// A namespaced label such as `time/creation`; opaque apart from equality.
#[derive(Debug)]
pub struct Attribute(pub String);

/// The object of a triplet: scalar data, or a reference to another entity.
#[derive(Debug)]
pub enum Value {
    Reference(Entity),
    Data(String),
}

/// The mathematical content of a [`Value`].
pub enum ValueView {
    Reference(Seq<char>),
    Data(Seq<char>),
}

/// A stored fact as (entity, attribute, value).
pub type Triplet = (Seq<char>, Seq<char>, ValueView);

impl View for Entity {
    type V = Seq<char>;

    open spec fn view(&self) -> Seq<char> {
        self.0@
    }
}

impl View for Attribute {
    type V = Seq<char>;

    open spec fn view(&self) -> Seq<char> {
        self.0@
    }
}

impl View for Value {
    type V = ValueView;

    open spec fn view(&self) -> ValueView {
        match self {
            Value::Reference(entity) => ValueView::Reference(entity@),
            Value::Data(data) => ValueView::Data(data@),
        }
    }
}

impl Clone for Entity {
    fn clone(&self) -> (copy: Self)
        ensures
            copy@ == self@,
    {
        Entity(self.0.clone())
    }
}

impl Clone for Attribute {
    fn clone(&self) -> (copy: Self)
        ensures
            copy@ == self@,
    {
        Attribute(self.0.clone())
    }
}

impl Clone for Value {
    fn clone(&self) -> (copy: Self)
        ensures
            copy@ == self@,
    {
        match self {
            Value::Reference(entity) => Value::Reference(entity.clone()),
            Value::Data(data) => Value::Data(data.clone()),
        }
    }
}

impl PartialEq for Entity {
    fn eq(&self, other: &Self) -> (equal: bool) {
        self.0 == other.0
    }
}

impl PartialEqSpecImpl for Entity {
    open spec fn obeys_eq_spec() -> bool {
        true
    }

    open spec fn eq_spec(&self, other: &Self) -> bool {
        self@ == other@
    }
}

impl Eq for Entity {

}

impl PartialEq for Attribute {
    fn eq(&self, other: &Self) -> (equal: bool) {
        self.0 == other.0
    }
}

impl PartialEqSpecImpl for Attribute {
    open spec fn obeys_eq_spec() -> bool {
        true
    }

    open spec fn eq_spec(&self, other: &Self) -> bool {
        self@ == other@
    }
}

impl Eq for Attribute {

}

impl PartialEq for Value {
    fn eq(&self, other: &Self) -> (equal: bool) {
        self.same(other)
    }
}

impl PartialEqSpecImpl for Value {
    open spec fn obeys_eq_spec() -> bool {
        true
    }

    open spec fn eq_spec(&self, other: &Self) -> bool {
        self@ == other@
    }
}

impl Eq for Value {

}

impl Component for Entity {
    fn same(&self, other: &Self) -> (equal: bool) {
        self.0 == other.0
    }

    fn duplicate(&self) -> (copy: Self) {
        self.clone()
    }
}

impl Component for Attribute {
    fn same(&self, other: &Self) -> (equal: bool) {
        self.0 == other.0
    }

    fn duplicate(&self) -> (copy: Self) {
        self.clone()
    }
}

impl Component for Value {
    fn same(&self, other: &Self) -> (equal: bool) {
        match self {
            Value::Reference(a) => match other {
                Value::Reference(b) => a.0 == b.0,
                Value::Data(_) => false,
            },
            Value::Data(a) => match other {
                Value::Reference(_) => false,
                Value::Data(b) => *a == *b,
            },
        }
    }

    fn duplicate(&self) -> (copy: Self) {
        self.clone()
    }
}

impl From<&str> for Entity {
    fn from(name: &str) -> (entity: Self)
        ensures
            entity@ == name@,
    {
        Entity(name.to_owned())
    }
}

impl FromSpecImpl<&str> for Entity {
    open spec fn obeys_from_spec() -> bool {
        false
    }

    open spec fn from_spec(name: &str) -> Self {
        arbitrary()
    }
}

impl From<String> for Entity {
    fn from(name: String) -> (entity: Self)
        ensures
            entity@ == name@,
    {
        Entity(name)
    }
}

impl FromSpecImpl<String> for Entity {
    open spec fn obeys_from_spec() -> bool {
        true
    }

    open spec fn from_spec(name: String) -> Self {
        Entity(name)
    }
}

impl From<&str> for Attribute {
    fn from(label: &str) -> (attribute: Self)
        ensures
            attribute@ == label@,
    {
        Attribute(label.to_owned())
    }
}

impl FromSpecImpl<&str> for Attribute {
    open spec fn obeys_from_spec() -> bool {
        false
    }

    open spec fn from_spec(label: &str) -> Self {
        arbitrary()
    }
}

impl From<String> for Attribute {
    fn from(label: String) -> (attribute: Self)
        ensures
            attribute@ == label@,
    {
        Attribute(label)
    }
}

impl FromSpecImpl<String> for Attribute {
    open spec fn obeys_from_spec() -> bool {
        true
    }

    open spec fn from_spec(label: String) -> Self {
        Attribute(label)
    }
}

impl From<&str> for Value {
    fn from(data: &str) -> (value: Self)
        ensures
            value@ == ValueView::Data(data@),
    {
        Value::Data(data.to_owned())
    }
}

impl FromSpecImpl<&str> for Value {
    open spec fn obeys_from_spec() -> bool {
        false
    }

    open spec fn from_spec(data: &str) -> Self {
        arbitrary()
    }
}

impl From<String> for Value {
    fn from(data: String) -> (value: Self)
        ensures
            value@ == ValueView::Data(data@),
    {
        Value::Data(data)
    }
}

impl FromSpecImpl<String> for Value {
    open spec fn obeys_from_spec() -> bool {
        true
    }

    open spec fn from_spec(data: String) -> Self {
        Value::Data(data)
    }
}

impl From<Entity> for Value {
    fn from(entity: Entity) -> (value: Self)
        ensures
            value@ == ValueView::Reference(entity@),
    {
        Value::Reference(entity)
    }
}

impl FromSpecImpl<Entity> for Value {
    open spec fn obeys_from_spec() -> bool {
        true
    }

    open spec fn from_spec(entity: Entity) -> Self {
        Value::Reference(entity)
    }
}

impl From<&Entity> for Value {
    fn from(entity: &Entity) -> (value: Self)
        ensures
            value@ == ValueView::Reference(entity@),
    {
        Value::Reference(entity.clone())
    }
}

impl FromSpecImpl<&Entity> for Value {
    open spec fn obeys_from_spec() -> bool {
        false
    }

    open spec fn from_spec(entity: &Entity) -> Self {
        arbitrary()
    }
}

/// A triple of the attribute-value-entity index as a triplet.
pub open spec fn from_ave() -> spec_fn((Seq<char>, ValueView, Seq<char>)) -> Triplet {
    |t: (Seq<char>, ValueView, Seq<char>)| (t.2, t.0, t.1)
}

/// A triple of the value-attribute-entity index as a triplet.
pub open spec fn from_vae() -> spec_fn((ValueView, Seq<char>, Seq<char>)) -> Triplet {
    |t: (ValueView, Seq<char>, Seq<char>)| (t.2, t.1, t.0)
}

/// A triplet as the attribute-value-entity index holds it.
pub open spec fn to_ave() -> spec_fn(Triplet) -> (Seq<char>, ValueView, Seq<char>) {
    |t: Triplet| (t.1, t.2, t.0)
}

/// A triplet as the value-attribute-entity index holds it.
pub open spec fn to_vae() -> spec_fn(Triplet) -> (ValueView, Seq<char>, Seq<char>) {
    |t: Triplet| (t.2, t.1, t.0)
}

/// The view of an event of the write log.
pub open spec fn triplet_view(event: (Entity, Attribute, Value)) -> Triplet {
    (event.0@, event.1@, event.2@)
}

/// The views of a list of events.
pub open spec fn triplet_views(events: Seq<(Entity, Attribute, Value)>) -> Seq<Triplet> {
    Seq::new(events.len(), |i: int| triplet_view(events[i]))
}

/// The mathematical content of a [`Database`]: its three indices and the log
/// of every triplet that was inserted, in the order of insertion.
pub struct DatabaseView {
    pub eav: Seq<GroupView<Seq<char>, Seq<char>, ValueView>>,
    pub ave: Seq<GroupView<Seq<char>, ValueView, Seq<char>>>,
    pub vae: Seq<GroupView<ValueView, Seq<char>, Seq<char>>>,
    pub written: Seq<Triplet>,
}

impl DatabaseView {
    /// A database into which nothing was inserted.
    pub open spec fn empty() -> DatabaseView {
        DatabaseView { eav: Seq::empty(), ave: Seq::empty(), vae: Seq::empty(), written: Seq::empty() }
    }

    /// The triplets that the entity-attribute-value index holds.
    pub open spec fn eav_content(self) -> Multiset<Triplet> {
        triples(self.eav).to_multiset()
    }

    /// The triplets that the attribute-value-entity index holds.
    pub open spec fn ave_content(self) -> Multiset<Triplet> {
        triples(self.ave).map_values(from_ave()).to_multiset()
    }

    /// The triplets that the value-attribute-entity index holds.
    pub open spec fn vae_content(self) -> Multiset<Triplet> {
        triples(self.vae).map_values(from_vae()).to_multiset()
    }

    /// The entity-attribute-value index is the index of the log, each of the
    /// other two holds every pair of keys once, and all three hold the
    /// triplets of the log, each as often as it was inserted.
    pub open spec fn wf(self) -> bool {
        &&& self.eav == indexed(self.written)
        &&& distinct_keys(self.ave)
        &&& distinct_keys(self.vae)
        &&& self.ave_content() =~= self.written.to_multiset()
        &&& self.vae_content() =~= self.written.to_multiset()
    }

    /// The database after the triplet was inserted.
    pub open spec fn insert(self, entity: Seq<char>, attribute: Seq<char>, value: ValueView) -> DatabaseView {
        DatabaseView {
            eav: appended(self.eav, entity, attribute, value),
            ave: appended(self.ave, attribute, value, entity),
            vae: appended(self.vae, value, attribute, entity),
            written: self.written.push((entity, attribute, value)),
        }
    }

    /// The database after the two derived indices were built anew from the
    /// entity-attribute-value index.
    pub open spec fn rebuild(self) -> DatabaseView {
        DatabaseView {
            eav: self.eav,
            ave: indexed(triples(self.eav).map_values(to_ave())),
            vae: indexed(triples(self.eav).map_values(to_vae())),
            written: self.written,
        }
    }
}

/// The store: three indices over the same triplets, and the log of what was
/// written, from which a [`WriteLogReceiver`] reads.
pub struct Database {
    pub(crate) eav: TripletTree<Entity, Attribute, Value>,
    pub(crate) ave: TripletTree<Attribute, Value, Entity>,
    pub(crate) vae: TripletTree<Value, Attribute, Entity>,
    write_log: Vec<(Entity, Attribute, Value)>,
}

/// The reading end of a database's write log. It hands out the triplets in the
/// order in which they were written, each once.
pub struct WriteLogReceiver {
    position: usize,
}

impl View for Database {
    type V = DatabaseView;

    closed spec fn view(&self) -> DatabaseView {
        DatabaseView {
            eav: self.eav@,
            ave: self.ave@,
            vae: self.vae@,
            written: triplet_views(self.write_log@),
        }
    }
}

impl WriteLogReceiver {
    /// How many events this end has handed out.
    pub closed spec fn received(&self) -> nat {
        self.position as nat
    }

    /// The count of events handed out is a machine number.
    pub proof fn lemma_received_bounded(&self)
        ensures
            self.received() <= usize::MAX,
    {
    }

    /// The next event of the log, if one is waiting. None means that every
    /// triplet written so far was handed out already.
    pub fn recv(&mut self, db: &Database) -> (event: Option<(Entity, Attribute, Value)>)
        ensures
            match event {
                Some(triplet) => {
                    &&& old(self).received() < db@.written.len()
                    &&& triplet_view(triplet) == db@.written[old(self).received() as int]
                    &&& final(self).received() == old(self).received() + 1
                    &&& final(self).received() <= usize::MAX
                },
                None => {
                    &&& old(self).received() >= db@.written.len()
                    &&& final(self).received() == old(self).received()
                },
            },
    {
        if self.position < db.write_log.len() {
            let next = &db.write_log[self.position];
            let event = (next.0.clone(), next.1.clone(), next.2.clone());
            self.position = self.position + 1;
            Some(event)
        } else {
            None
        }
    }

    /// Whether every triplet written so far was handed out.
    pub fn caught_up(&self, db: &Database) -> (quiescent: bool)
        ensures
            quiescent == (self.received() >= db@.written.len()),
    {
        self.position >= db.write_log.len()
    }
}

impl Database {
    /// The database holds what its view says in a consistent way.
    pub open spec fn wf(&self) -> bool {
        self@.wf()
    }

    /// An empty database and the reading end of its write log.
    pub fn new() -> (created: (Self, WriteLogReceiver))
        ensures
            created.0@ == DatabaseView::empty(),
            created.0.wf(),
            created.1.received() == 0,
    {
        let eav = TripletTree::default();
        let ave = TripletTree::default();
        let vae = TripletTree::default();
        let db = Database { eav, ave, vae, write_log: Vec::new() };
        proof {
            assert(db@.written =~= Seq::empty());
            assert(triples(db@.ave).map_values(from_ave()) =~= Seq::empty());
            assert(triples(db@.vae).map_values(from_vae()) =~= Seq::empty());
        }
        (db, WriteLogReceiver { position: 0 })
    }

    /// The number of (entity, attribute) pairs that hold a value.
    pub fn len(&self) -> (count: usize)
        ensures
            count == self@.eav.len(),
    {
        self.eav.len()
    }

    /// The index from entity and attribute to values.
    pub fn eav(&self) -> (index: &TripletTree<Entity, Attribute, Value>)
        ensures
            index@ == self@.eav,
    {
        &self.eav
    }

    /// The index from attribute and value to entities.
    pub fn ave(&self) -> (index: &TripletTree<Attribute, Value, Entity>)
        ensures
            index@ == self@.ave,
    {
        &self.ave
    }

    /// The index from value and attribute to entities.
    pub fn vae(&self) -> (index: &TripletTree<Value, Attribute, Entity>)
        ensures
            index@ == self@.vae,
    {
        &self.vae
    }

    /// Stores the triplet in all three indices and writes it to the log.
    /// A triplet that is already stored is stored once more.
    pub fn insert(&mut self, entity: Entity, attribute: Attribute, value: Value)
        ensures
            final(self)@ == old(self)@.insert(entity@, attribute@, value@),
            old(self).wf() ==> final(self).wf(),
    {
        proof {
            if self.wf() {
                lemma_insert_wf(self@, entity@, attribute@, value@);
            }
        }
        let ghost before = triplet_views(self.write_log@);
        self.write_log.push((entity.clone(), attribute.clone(), value.clone()));
        assert(triplet_views(self.write_log@) =~= before.push((entity@, attribute@, value@)));
        self.eav.append(entity.clone(), attribute.clone(), value.clone());
        self.insert_into_indices(entity, attribute, value);
    }

    fn insert_into_indices(&mut self, entity: Entity, attribute: Attribute, value: Value)
        ensures
            final(self)@ == (DatabaseView {
                ave: appended(old(self)@.ave, attribute@, value@, entity@),
                vae: appended(old(self)@.vae, value@, attribute@, entity@),
                ..old(self)@
            }),
    {
        self.ave.append(attribute.clone(), value.clone(), entity.clone());
        self.vae.append(value, attribute, entity);
    }

    /// Empties the two derived indices and fills them again from a full scan
    /// of the entity-attribute-value index.
    pub fn rebuild_indices(&mut self)
        ensures
            final(self)@ == old(self)@.rebuild(),
            old(self).wf() ==> final(self).wf(),
    {
        proof {
            lemma_rebuild(self@);
        }
        self.ave.clear();
        self.vae.clear();
        let groups = self.eav.scan();
        let ghost eav = self@.eav;
        let n = groups.len();
        let mut i: usize = 0;
        proof {
            assert(eav.take(0) =~= Seq::empty());
            assert(triples(eav.take(0)).map_values(to_ave()) =~= Seq::empty());
            assert(triples(eav.take(0)).map_values(to_vae()) =~= Seq::empty());
        }
        while i < n
            invariant
                i <= n,
                n == groups.len(),
                group_views(groups@) == eav,
                self@.eav == eav,
                self@.eav == old(self)@.eav,
                self@.written == old(self)@.written,
                self@.ave == indexed(triples(eav.take(i as int)).map_values(to_ave())),
                self@.vae == indexed(triples(eav.take(i as int)).map_values(to_vae())),
            decreases n - i,
        {
            let group = &groups[i];
            let ghost done = triples(eav.take(i as int));
            let ghost here = expand(eav[i as int]);
            let m = group.2.len();
            let mut j: usize = 0;
            proof {
                assert(group_views(groups@)[i as int] == eav[i as int]);
                assert(done + here.take(0) =~= done);
            }
            while j < m
                invariant
                    j <= m,
                    i < n,
                    n == groups.len(),
                    m == group.2.len(),
                    group == groups[i as int],
                    group_views(groups@) == eav,
                    here == expand(eav[i as int]),
                    here.len() == m,
                    self@.eav == eav,
                    self@.eav == old(self)@.eav,
                    self@.written == old(self)@.written,
                    self@.ave == indexed((done + here.take(j as int)).map_values(to_ave())),
                    self@.vae == indexed((done + here.take(j as int)).map_values(to_vae())),
                decreases m - j,
            {
                let value = &group.2[j];
                proof {
                    let sofar = done + here.take(j as int);
                    let item = here[j as int];
                    assert(group_views(groups@)[i as int] == eav[i as int]);
                    assert(item == (group.0@, group.1@, value@));
                    assert(done + here.take(j + 1) =~= sofar.push(item));
                    assert(sofar.push(item).map_values(to_ave()) =~= sofar.map_values(to_ave()).push(
                        to_ave()(item),
                    ));
                    assert(sofar.push(item).map_values(to_vae()) =~= sofar.map_values(to_vae()).push(
                        to_vae()(item),
                    ));
                    lemma_indexed_push(sofar.map_values(to_ave()), to_ave()(item));
                    lemma_indexed_push(sofar.map_values(to_vae()), to_vae()(item));
                }
                self.ave.append(group.1.clone(), value.clone(), group.0.clone());
                self.vae.append(value.clone(), group.1.clone(), group.0.clone());
                j += 1;
            }
            proof {
                assert(here.take(m as int) =~= here);
                assert(eav.take(i + 1) =~= eav.take(i as int).push(eav[i as int]));
                lemma_triples_push(eav.take(i as int), eav[i as int]);
            }
            i += 1;
        }
        assert(eav.take(n as int) =~= eav);
    }

    /// The values that were inserted for the entity under the attribute, in
    /// the order of insertion.
    pub fn get(&self, entity: &Entity, attribute: &Attribute) -> (values: Vec<Value>)
        ensures
            views(values@) == entry(self@.eav, entity@, attribute@),
    {
        self.eav.values(entity, attribute)
    }
}

/// Inserting keeps a consistent database consistent.
pub proof fn lemma_insert_wf(db: DatabaseView, entity: Seq<char>, attribute: Seq<char>, value: ValueView)
    requires
        db.wf(),
    ensures
        db.insert(entity, attribute, value).wf(),
{
    broadcast use group_to_multiset_ensures;

    let after = db.insert(entity, attribute, value);
    let item = (entity, attribute, value);
    lemma_indexed_push(db.written, item);
    triplet_tree::lemma_appended_distinct(db.ave, attribute, value, entity);
    triplet_tree::lemma_appended_distinct(db.vae, value, attribute, entity);
    lemma_triples_appended(db.ave, attribute, value, entity);
    lemma_triples_appended(db.vae, value, attribute, entity);
    lemma_map_same_elements(triples(after.ave), triples(db.ave).push((attribute, value, entity)), from_ave());
    lemma_map_same_elements(triples(after.vae), triples(db.vae).push((value, attribute, entity)), from_vae());
    assert(triples(db.ave).push((attribute, value, entity)).map_values(from_ave()) =~= triples(
        db.ave,
    ).map_values(from_ave()).push(item));
    assert(triples(db.vae).push((value, attribute, entity)).map_values(from_vae()) =~= triples(
        db.vae,
    ).map_values(from_vae()).push(item));
}

/// After a rebuild the three indices hold exactly the same triplets, each as
/// often as the entity-attribute-value index held it before, whatever the two
/// derived indices held; and a consistent database stays consistent.
pub proof fn lemma_rebuild(db: DatabaseView)
    ensures
        db.rebuild().eav_content() == db.eav_content(),
        db.rebuild().ave_content() == db.eav_content(),
        db.rebuild().vae_content() == db.eav_content(),
        distinct_keys(db.rebuild().ave),
        distinct_keys(db.rebuild().vae),
        db.wf() ==> db.rebuild().wf(),
{
    let all = triples(db.eav);
    let after = db.rebuild();
    lemma_indexed(all.map_values(to_ave()));
    lemma_indexed(all.map_values(to_vae()));
    lemma_map_same_elements(triples(after.ave), all.map_values(to_ave()), from_ave());
    lemma_map_same_elements(triples(after.vae), all.map_values(to_vae()), from_vae());
    assert(all.map_values(to_ave()).map_values(from_ave()) =~= all);
    assert(all.map_values(to_vae()).map_values(from_vae()) =~= all);
    if db.wf() {
        lemma_indexed(db.written);
    }
}

/// In a consistent database the three indices hold the same triplets: those
/// that were ever inserted, each as often as it was inserted.
pub proof fn lemma_indices_agree(db: DatabaseView)
    requires
        db.wf(),
    ensures
        db.eav_content() == db.written.to_multiset(),
        db.ave_content() == db.written.to_multiset(),
        db.vae_content() == db.written.to_multiset(),
        distinct_keys(db.eav),
{
    lemma_indexed(db.written);
}

/// Inserting a triplet twice stores two more occurrences of it in every index
/// and writes two events to the log, one after the other.
pub proof fn lemma_insert_twice(db: DatabaseView, entity: Seq<char>, attribute: Seq<char>, value: ValueView)
    requires
        db.wf(),
    ensures
        ({
            let twice = db.insert(entity, attribute, value).insert(entity, attribute, value);
            let item = (entity, attribute, value);
            &&& twice.wf()
            &&& twice.written == db.written.push(item).push(item)
            &&& twice.eav_content().count(item) == db.eav_content().count(item) + 2
            &&& twice.ave_content().count(item) == db.ave_content().count(item) + 2
            &&& twice.vae_content().count(item) == db.vae_content().count(item) + 2
        }),
{
    broadcast use group_to_multiset_ensures;

    let once = db.insert(entity, attribute, value);
    let twice = once.insert(entity, attribute, value);
    lemma_insert_wf(db, entity, attribute, value);
    lemma_insert_wf(once, entity, attribute, value);
    lemma_indices_agree(db);
    lemma_indices_agree(twice);
}

/// In a consistent database the values under an entity and an attribute are
/// those of the triplets that were written for the two, in the order in which
/// they were written.
pub proof fn lemma_get_in_insertion_order(db: DatabaseView, entity: Seq<char>, attribute: Seq<char>)
    requires
        db.wf(),
    ensures
        entry(db.eav, entity, attribute) == db.written.filter(
            fits(Some(entity), Some(attribute)),
        ).map_values(third()),
{
    lemma_indexed(db.written);
}

impl Value {
    /// The scalar payload of a value that holds data.
    pub fn data(&self) -> (data: &str)
        requires
            self is Data,
        ensures
            self@ == ValueView::Data(data@),
    {
        match self {
            Value::Reference(_) => "",
            Value::Data(data) => data.as_str(),
        }
    }
}

} // verus!
