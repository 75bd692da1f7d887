//! Blob enumeration: what is recorded for a file of the blob store.

use crate::db::{Attribute, Entity, Value, ValueView};
use crate::handle::Handle;
use crate::text::{decimal, to_decimal};
use std::path::PathBuf;
use vstd::prelude::*;

verus! {

/// The extractor that enters the files of a directory into the store.
pub struct BlobLoader(pub PathBuf);

impl BlobLoader {
    /// Records a file of the blob store: its name is the entity, and its size
    /// in bytes is stored in decimal digits.
    pub fn record(handle: &mut Handle, name: String, size: u64)
        ensures
            final(handle)@ == old(handle)@.insert(
                name@,
                "blob/size"@,
                ValueView::Data(decimal(size as nat)),
            ),
            old(handle).wf() ==> final(handle).wf(),
    {
        handle.insert(Entity::from(name), Attribute::from("blob/size"), Value::Data(to_decimal(size)));
    }
}

} // verus!
