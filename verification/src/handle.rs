//! The facade that extractors work on: the database, and the root directory
//! under which the blob of each entity lies.

use crate::db::query::binding::{VariableSet, VariableSetView, set_views};
use crate::db::query::rule::{rule_views, Rule};
use crate::db::query::{solve, supported, QueryError};
use crate::db::triplet_tree::{entry, views};
use crate::db::{Attribute, Database, DatabaseView, Entity, Value};
use std::path::PathBuf;
use vstd::prelude::*;

verus! {

/// A path of the file system, as std holds it. Nothing is stated of what it
/// holds: the library carries it and hands it back.
#[verifier::external_type_specification]
#[verifier::external_body]
pub struct ExPathBuf(std::path::PathBuf);

/// `str::contains` of std with a `char` as the pattern: whether the character
/// occurs in the string.
#[verifier::external_body]
fn contains_char(text: &str, wanted: char) -> (found: bool)
    ensures
        found == text@.contains(wanted),
{
    text.contains(wanted)
}

/// A blob was asked for under a name that no blob can have.
#[derive(Debug, PartialEq, Eq, Structural, Clone, Copy)]
pub struct LookupMiss;

/// The database together with the root directory of the blob store.
pub struct Handle {
    db: Database,
    storage: PathBuf,
    clock: Ghost<nat>,
}

impl View for Handle {
    type V = DatabaseView;

    closed spec fn view(&self) -> DatabaseView {
        self.db@
    }
}

impl std::ops::Deref for Handle {
    type Target = Database;

    /// The database, for reading.
    fn deref(&self) -> (db: &Database)
        ensures
            db@ == self@,
    {
        &self.db
    }
}

impl Handle {
    /// The database of the handle is consistent.
    pub open spec fn wf(&self) -> bool {
        self@.wf()
    }

    /// The root directory of the blob store.
    pub closed spec fn root(&self) -> PathBuf {
        self.storage
    }

    /// How many callbacks of extractors have worked on this handle. Only a
    /// callback moves the clock on, by one, so the clock at which a callback
    /// began tells where it stands among all callbacks.
    pub closed spec fn clock(&self) -> nat {
        self.clock@
    }

    pub fn new(db: Database, storage: PathBuf) -> (handle: Self)
        ensures
            handle@ == db@,
            handle.root() == storage,
            handle.clock() == 0,
    {
        Handle { db, storage, clock: Ghost(0) }
    }

    /// Moves the clock on by one: the mark that a callback leaves. It does
    /// nothing else.
    pub fn tick(&mut self)
        ensures
            final(self).clock() == old(self).clock() + 1,
            final(self)@ == old(self)@,
            final(self).root() == old(self).root(),
    {
        proof {
            self.clock@ = self.clock@ + 1;
        }
    }

    /// The database.
    pub fn db(&self) -> (db: &Database)
        ensures
            db@ == self@,
    {
        &self.db
    }

    /// The root directory of the blob store.
    pub fn storage(&self) -> (storage: &PathBuf)
        ensures
            *storage == self.root(),
    {
        &self.storage
    }

    /// The name, below the root directory, of the file that holds the blob of
    /// the entity. An entity whose name holds a path separator has no blob:
    /// it would name a file outside the store.
    pub fn blob_name<'a>(&self, entity: &'a Entity) -> (name: Result<&'a str, LookupMiss>)
        ensures
            match name {
                Ok(name) => !entity@.contains('/') && name@ == entity@,
                Err(_) => entity@.contains('/'),
            },
    {
        if contains_char(entity.0.as_str(), '/') {
            Err(LookupMiss)
        } else {
            Ok(entity.0.as_str())
        }
    }

    /// The number of (entity, attribute) pairs that hold a value.
    pub fn len(&self) -> (count: usize)
        ensures
            count == self@.eav.len(),
    {
        self.db.len()
    }

    /// Stores the triplet: see [`Database::insert`].
    pub fn insert(&mut self, entity: Entity, attribute: Attribute, value: Value)
        ensures
            final(self)@ == old(self)@.insert(entity@, attribute@, value@),
            final(self).root() == old(self).root(),
            final(self).clock() == old(self).clock(),
            old(self).wf() ==> final(self).wf(),
    {
        self.db.insert(entity, attribute, value);
    }

    /// Builds the derived indices anew: see [`Database::rebuild_indices`].
    pub fn rebuild_indices(&mut self)
        ensures
            final(self)@ == old(self)@.rebuild(),
            final(self).root() == old(self).root(),
            final(self).clock() == old(self).clock(),
            old(self).wf() ==> final(self).wf(),
    {
        self.db.rebuild_indices();
    }

    /// The values of the entity under the attribute: see [`Database::get`].
    pub fn get(&self, entity: &Entity, attribute: &Attribute) -> (values: Vec<Value>)
        ensures
            views(values@) == entry(self@.eav, entity@, attribute@),
    {
        self.db.get(entity, attribute)
    }

    /// The solutions of the rules: see [`Database::query`].
    pub fn query(&self, rules: &Vec<Rule>) -> (solutions: Vec<VariableSet>)
        requires
            supported(self@, rule_views(rules@), seq![VariableSetView::empty()]),
        ensures
            set_views(solutions@) == solve(self@, rule_views(rules@), seq![VariableSetView::empty()]),
    {
        self.db.query(rules)
    }

    /// The solutions of the rules, or the error: see [`Database::try_query`].
    pub fn try_query(&self, rules: &Vec<Rule>) -> (outcome: Result<Vec<VariableSet>, QueryError>)
        ensures
            match outcome {
                Ok(solutions) => {
                    &&& supported(self@, rule_views(rules@), seq![VariableSetView::empty()])
                    &&& set_views(solutions@) == solve(
                        self@,
                        rule_views(rules@),
                        seq![VariableSetView::empty()],
                    )
                },
                Err(error) => {
                    &&& !supported(self@, rule_views(rules@), seq![VariableSetView::empty()])
                    &&& error == QueryError::UnsupportedPattern
                },
            },
    {
        self.db.try_query(rules)
    }
}

} // verus!
