//! MIME detection: which entities it applies to, and what is recorded for
//! the first bytes of a blob.

use crate::db::triplet_tree::entry;
use crate::db::{Attribute, Entity, Value, ValueView};
use crate::handle::Handle;
use vstd::prelude::*;

verus! {

/// The extractor that records the MIME type of blobs.
pub struct MimeInfer;

/// The brand that a HEIC container carries from its fifth byte on: `ftypheic`.
pub open spec fn heic_brand() -> Seq<u8> {
    seq![0x66u8, 0x74u8, 0x79u8, 0x70u8, 0x68u8, 0x65u8, 0x69u8, 0x63u8]
}

/// Whether the bytes begin as a HEIC container does.
pub open spec fn is_heic(bytes: Seq<u8>) -> bool {
    bytes.len() >= 12 && bytes.subrange(4, 12) == heic_brand()
}

/// Whether the buffer begins as a HEIC container does. A buffer of eight to
/// eleven bytes is too short to hold the brand and long enough to be asked
/// for it: such a buffer is not accepted.
pub fn heic(buf: &[u8]) -> (found: bool)
    requires
        buf.len() < 8 || buf.len() >= 12,
    ensures
        found == is_heic(buf@),
{
    let pattern: [u8; 8] = [0x66, 0x74, 0x79, 0x70, 0x68, 0x65, 0x69, 0x63];
    if buf.len() < 8 {
        return false;
    }
    let mut i: usize = 0;
    while i < 8
        invariant
            i <= 8,
            buf.len() >= 12,
            pattern@ == heic_brand(),
            forall|k: int| 0 <= k < i ==> buf@[4 + k] == heic_brand()[k],
        decreases 8 - i,
    {
        if buf[4 + i] != pattern[i] {
            assert(buf@.subrange(4, 12)[i as int] != heic_brand()[i as int]);
            return false;
        }
        i += 1;
    }
    assert(buf@.subrange(4, 12) =~= heic_brand());
    true
}

/// What `infer` makes of the first bytes of a file: the MIME type of the
/// first of its matchers that accepts them, asked after the HEIC matcher of
/// this library, or nothing where none accepts them.
pub uninterp spec fn inferred_mime(bytes: Seq<u8>) -> Option<Seq<char>>;

/// `infer::Infer::get` on an `Infer` to which [`heic`] was added as the
/// matcher of `image/heic`; of the type found, its `mime_type`. The result is
/// named, not stated: it is a function of the bytes alone. Stated is what
/// the added matcher decides: it is asked before all others.
#[verifier::external_body]
fn infer_mime(buf: &[u8]) -> (mime: Option<String>)
    requires
        buf.len() < 8 || buf.len() >= 12,
    ensures
        match mime {
            Some(found) => inferred_mime(buf@) == Some(found@),
            None => inferred_mime(buf@) is None,
        },
        match mime {
            Some(found) => is_heic(buf@) ==> found@ == "image/heic"@,
            None => !is_heic(buf@),
        },
{
    let mut info = infer::Infer::new();
    info.add("image/heic", "heic", heic);
    info.get(buf).map(|kind| kind.mime_type().to_string())
}

/// The MIME type to record: the one that was inferred, or that of arbitrary
/// bytes where none was.
pub open spec fn mime_or_default(inferred: Option<Seq<char>>) -> Seq<char> {
    match inferred {
        Some(mime) => mime,
        None => "application/octet-stream"@,
    }
}

impl MimeInfer {
    /// The attribute under which the MIME type of a blob is recorded.
    pub fn attribute() -> (attribute: Attribute)
        ensures
            attribute@ == "type/mime"@,
    {
        Attribute::from("type/mime")
    }

    /// Whether the extractor has work to do for the entity: it is a blob, so
    /// it has a size, and no MIME type is recorded for it yet.
    pub fn wants(handle: &Handle, entity: &Entity) -> (wanted: bool)
        ensures
            wanted == (entry(handle@.eav, entity@, "blob/size"@).len() > 0 && entry(
                handle@.eav,
                entity@,
                "type/mime"@,
            ).len() == 0),
    {
        let sizes = handle.get(entity, &Attribute::from("blob/size"));
        if sizes.len() == 0 {
            // Ignore non-blobs.
            return false;
        }
        // Do not do the work twice.
        let mimes = handle.get(entity, &Self::attribute());
        mimes.len() == 0
    }

    /// The MIME type to record for what was inferred: see [`mime_or_default`].
    pub fn or_default(inferred: Option<String>) -> (mime: String)
        ensures
            mime@ == mime_or_default(
                match inferred {
                    Some(found) => Some(found@),
                    None => None,
                },
            ),
    {
        match inferred {
            Some(found) => found,
            None => "application/octet-stream".to_owned(),
        }
    }

    /// The MIME type of a blob that begins with the given bytes.
    pub fn classify(header: &[u8]) -> (mime: String)
        requires
            header.len() < 8 || header.len() >= 12,
        ensures
            mime@ == mime_or_default(inferred_mime(header@)),
            is_heic(header@) ==> mime@ == "image/heic"@,
    {
        Self::or_default(infer_mime(header))
    }

    /// Records the MIME type of the blob of the entity, given the first bytes
    /// of the blob.
    pub fn record(handle: &mut Handle, entity: &Entity, header: &[u8])
        requires
            header.len() < 8 || header.len() >= 12,
        ensures
            final(handle)@ == old(handle)@.insert(
                entity@,
                "type/mime"@,
                ValueView::Data(mime_or_default(inferred_mime(header@))),
            ),
            is_heic(header@) ==> final(handle)@ == old(handle)@.insert(
                entity@,
                "type/mime"@,
                ValueView::Data("image/heic"@),
            ),
            old(handle).wf() ==> final(handle).wf(),
    {
        let mime = Self::classify(header);
        handle.insert(entity.clone(), Self::attribute(), Value::Data(mime));
    }
}

} // verus!
