//! The contract between the pipeline and the extractors that it drives.

use crate::db::{Attribute, Entity, Triplet, Value};
use crate::handle::{Handle, LookupMiss};
use vstd::prelude::*;
use vstd::std_specs::convert::FromSpecImpl;
use vstd::string::StringExecFns;

pub mod blob;
pub mod exif;
pub mod geonames;
pub mod mime;

pub use blob::BlobLoader;
pub use exif::ExifExtractor;
pub use geonames::GeoNames;
pub use mime::MimeInfer;

verus! {

/// Why a callback of an extractor failed.
#[derive(Debug)]
pub enum ExtractorError {
    /// A blob was asked for that the store does not hold, or under a name
    /// that no blob can have.
    LookupMiss,
    /// Any other failure, in the extractor's words.
    Failed(String),
}

impl From<LookupMiss> for ExtractorError {
    fn from(miss: LookupMiss) -> (error: Self)
        ensures
            error is LookupMiss,
    {
        ExtractorError::LookupMiss
    }
}

impl FromSpecImpl<LookupMiss> for ExtractorError {
    open spec fn obeys_from_spec() -> bool {
        true
    }

    open spec fn from_spec(miss: LookupMiss) -> Self {
        ExtractorError::LookupMiss
    }
}

/// A callback of an extractor.
pub enum Call {
    /// `init`
    Init,
    /// `entry_added` with the triplet
    EntryAdded(Triplet),
}

/// The callbacks that were made on an extractor, in the order in which they
/// were made, each with the clock of the handle at which it began.
pub type Journal = Seq<(nat, Call)>;

/// An extractor looks at triplets as they are written and may insert more.
///
/// Whatever a callback does to the handle, it only adds to what was written:
/// the core offers no way to take a triplet back. Every callback leaves its
/// mark: it enters itself in the journal of its extractor, under the clock of
/// the handle at which it began, and moves that clock on by one, which
/// [`Handle::tick`] does. By these marks the pipeline states which callbacks
/// it made, on which extractor and in which order.
pub trait Extractor {
    /// The callbacks that were made on this extractor. The journal is a
    /// matter of proof alone: it is never computed, and an extractor that is
    /// not verified gives it a body that is never reached.
    spec fn journal(&self) -> Journal;

    /// Called once, before any triplet is dispatched.
    fn init(&mut self, handle: &mut Handle) -> (outcome: Result<(), ExtractorError>)
        ensures
            final(self).journal() == old(self).journal().push((old(handle).clock(), Call::Init)),
            final(handle).clock() == old(handle).clock() + 1,
            old(handle)@.written.is_prefix_of(final(handle)@.written),
            old(handle).wf() ==> final(handle).wf(),
    ;

    /// Called for each triplet of the write log, in the order of the log.
    fn entry_added(
        &mut self,
        handle: &mut Handle,
        entity: &Entity,
        attribute: &Attribute,
        value: &Value,
    ) -> (outcome: Result<(), ExtractorError>)
        ensures
            final(self).journal() == old(self).journal().push(
                (old(handle).clock(), Call::EntryAdded((entity@, attribute@, value@))),
            ),
            final(handle).clock() == old(handle).clock() + 1,
            old(handle)@.written.is_prefix_of(final(handle)@.written),
            old(handle).wf() ==> final(handle).wf(),
    ;
}

/// An extractor that keeps every triplet that it is handed as one line of a
/// log, and leaves the store as it is.
pub struct Logger {
    lines: Vec<String>,
    journal: Ghost<Journal>,
}

/// The line that [`Logger::line`] gives for a triplet.
pub open spec fn log_line(entity: Seq<char>, attribute: Seq<char>, value: Seq<char>) -> Seq<char> {
    "+ "@ + entity + " :"@ + attribute + " "@ + value
}

/// The lines of a list of strings.
pub open spec fn line_views(lines: Seq<String>) -> Seq<Seq<char>> {
    Seq::new(lines.len(), |i: int| lines[i]@)
}

impl Logger {
    /// The lines that were kept, in the order of the triplets.
    pub closed spec fn kept(&self) -> Seq<Seq<char>> {
        line_views(self.lines@)
    }

    /// A logger that has kept nothing, and on which no callback was made.
    pub fn new() -> (logger: Self)
        ensures
            logger.kept() == Seq::<Seq<char>>::empty(),
            logger.journal() == Seq::<(nat, Call)>::empty(),
    {
        let logger = Logger { lines: Vec::new(), journal: Ghost(Seq::empty()) };
        assert(logger.kept() =~= Seq::empty());
        logger
    }

    /// The lines that were kept.
    pub fn lines(&self) -> (lines: &Vec<String>)
        ensures
            line_views(lines@) == self.kept(),
    {
        &self.lines
    }

    /// The triplet as a line: a plus sign, the entity, the attribute behind a
    /// colon, and the text of the value.
    pub fn line(entity: &Entity, attribute: &Attribute, value: &Value) -> (line: String)
        ensures
            line@ == log_line(entity@, attribute@, crate::db::query::display::value_text(value@)),
    {
        let mut line = String::from_str("+ ");
        line.append(entity.0.as_str());
        line.append(" :");
        line.append(attribute.0.as_str());
        line.append(" ");
        let text = value.to_text();
        line.append(text.as_str());
        line
    }
}

impl Extractor for Logger {
    closed spec fn journal(&self) -> Journal {
        self.journal@
    }

    /// Nothing to prepare.
    fn init(&mut self, handle: &mut Handle) -> (outcome: Result<(), ExtractorError>)
        ensures
            outcome is Ok,
            final(self).kept() == old(self).kept(),
            final(handle)@ == old(handle)@,
    {
        proof {
            self.journal@ = self.journal@.push((handle.clock(), Call::Init));
        }
        handle.tick();
        Ok(())
    }

    /// Keeps the line of the triplet.
    fn entry_added(
        &mut self,
        handle: &mut Handle,
        entity: &Entity,
        attribute: &Attribute,
        value: &Value,
    ) -> (outcome: Result<(), ExtractorError>)
        ensures
            outcome is Ok,
            final(self).kept() == old(self).kept().push(
                log_line(entity@, attribute@, crate::db::query::display::value_text(value@)),
            ),
            final(handle)@ == old(handle)@,
    {
        proof {
            self.journal@ = self.journal@.push(
                (handle.clock(), Call::EntryAdded((entity@, attribute@, value@))),
            );
        }
        let ghost before = self.kept();
        self.lines.push(Self::line(entity, attribute, value));
        assert(self.kept() =~= before.push(
            log_line(entity@, attribute@, crate::db::query::display::value_text(value@)),
        ));
        handle.tick();
        Ok(())
    }
}

} // verus!
