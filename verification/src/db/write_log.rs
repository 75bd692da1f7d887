//! How a triplet of text is packed into one buffer of bytes, as a persistent
//! write log stores it: the byte lengths of the entity and of the attribute,
//! each as an unsigned LEB128 number, then the bytes of the entity, of the
//! attribute and of the value.

use crate::text::from_utf8;
use vstd::prelude::*;
use vstd::slice::slice_subrange;
use vstd::string::StringSliceAdditionalSpecFns;
use vstd::utf8::{decode_utf8, encode_utf8, encode_utf8_decode_utf8, encode_utf8_valid_utf8, valid_utf8};

verus! {

/// The unsigned LEB128 encoding of a number: seven bits to a byte, the low
/// bits first, and the high bit set in every byte but the last.
pub open spec fn leb128(value: nat) -> Seq<u8>
    decreases value,
{
    if value < 128 {
        seq![value as u8]
    } else {
        seq![(value % 128 + 128) as u8] + leb128(value / 128)
    }
}

/// The number that stands in unsigned LEB128 at the start of the bytes, and
/// the bytes that follow it. `position` counts the bytes of the number that
/// were read before: the tenth byte may hold one bit only. Nothing where the
/// bytes end within the number, or the number does not fit 64 bits.
pub open spec fn leb128_decode(bytes: Seq<u8>, position: nat) -> Option<(nat, Seq<u8>)>
    decreases bytes.len(),
{
    if bytes.len() == 0 {
        None
    } else if position >= 9 && bytes[0] != 0 && bytes[0] != 1 {
        None
    } else if bytes[0] < 128 {
        Some((bytes[0] as nat, bytes.drop_first()))
    } else {
        match leb128_decode(bytes.drop_first(), position + 1) {
            Some((high, rest)) => Some(((bytes[0] - 128 + 128 * high) as nat, rest)),
            None => None,
        }
    }
}

/// `leb128::write::unsigned` on a vector: it appends the encoding of the
/// number, and on a vector it cannot fail.
#[verifier::external_body]
fn write_unsigned(buf: &mut Vec<u8>, value: u64)
    ensures
        final(buf)@ == old(buf)@ + leb128(value as nat),
{
    let _ = leb128::write::unsigned(buf, value);
}

/// `leb128::read::unsigned` on a slice: the number read and the rest of the
/// slice, or nothing where the slice ends within the number or the number
/// does not fit 64 bits.
#[verifier::external_body]
fn read_unsigned(bytes: &[u8]) -> (read: Option<(u64, &[u8])>)
    ensures
        match read {
            Some((value, rest)) => leb128_decode(bytes@, 0) == Some((value as nat, rest@)),
            None => leb128_decode(bytes@, 0) is None,
        },
{
    let mut rest = bytes;
    match leb128::read::unsigned(&mut rest) {
        Ok(value) => Some((value, rest)),
        Err(_) => None,
    }
}

/// The buffer that holds the triplet.
pub open spec fn packed(entity: Seq<char>, attribute: Seq<char>, value: Seq<char>) -> Seq<u8> {
    leb128(encode_utf8(entity).len()) + leb128(encode_utf8(attribute).len()) + encode_utf8(entity)
        + encode_utf8(attribute) + encode_utf8(value)
}

/// The text of a part of a buffer, where the part is valid UTF-8.
pub open spec fn text_at(bytes: Seq<u8>, from: int, to: int) -> Option<Seq<char>> {
    if valid_utf8(bytes.subrange(from, to)) {
        Some(decode_utf8(bytes.subrange(from, to)))
    } else {
        None
    }
}

/// The triplet that the body of a buffer holds, given the two lengths that
/// were read before it: nothing where the body is shorter than the lengths
/// ask or a part is not valid UTF-8.
pub open spec fn unpacked_body(body: Seq<u8>, len_entity: nat, len_attribute: nat) -> Option<
    (Seq<char>, Seq<char>, Seq<char>),
> {
    if len_entity + len_attribute > body.len() {
        None
    } else {
        match (
            text_at(body, 0, len_entity as int),
            text_at(body, len_entity as int, (len_entity + len_attribute) as int),
            text_at(body, (len_entity + len_attribute) as int, body.len() as int),
        ) {
            (Some(entity), Some(attribute), Some(value)) => Some((entity, attribute, value)),
            _ => None,
        }
    }
}

/// The triplet that a buffer holds: nothing where a length cannot be read or
/// the body does not hold what the lengths ask.
pub open spec fn unpacked(buffer: Seq<u8>) -> Option<(Seq<char>, Seq<char>, Seq<char>)> {
    match leb128_decode(buffer, 0) {
        Some((len_entity, rest)) => match leb128_decode(rest, 0) {
            Some((len_attribute, body)) => unpacked_body(body, len_entity, len_attribute),
            None => None,
        },
        None => None,
    }
}

/// Packs the triplet into one buffer.
pub fn pack(entity: &str, attribute: &str, value: &str) -> (buf: Vec<u8>)
    ensures
        buf@ == packed(entity@, attribute@, value@),
{
    let entity_bytes = entity.as_bytes();
    let attribute_bytes = attribute.as_bytes();
    let value_bytes = value.as_bytes();
    let mut buf: Vec<u8> = Vec::new();
    write_unsigned(&mut buf, entity_bytes.len() as u64);
    write_unsigned(&mut buf, attribute_bytes.len() as u64);
    let ghost lengths = buf@;
    assert(lengths =~= leb128(encode_utf8(entity@).len()) + leb128(encode_utf8(attribute@).len()));
    buf.extend_from_slice(entity_bytes);
    assert(buf@ =~= lengths + entity_bytes@);
    buf.extend_from_slice(attribute_bytes);
    assert(buf@ =~= lengths + entity_bytes@ + attribute_bytes@);
    buf.extend_from_slice(value_bytes);
    assert(buf@ =~= lengths + entity_bytes@ + attribute_bytes@ + value_bytes@);
    buf
}

/// The text of `bytes[from..to]`, where it is valid UTF-8.
fn text_between(bytes: &[u8], from: usize, to: usize) -> (text: Option<String>)
    requires
        from <= to <= bytes.len(),
    ensures
        match text {
            Some(text) => text_at(bytes@, from as int, to as int) == Some(text@),
            None => text_at(bytes@, from as int, to as int) is None,
        },
{
    let part = slice_subrange(bytes, from, to);
    let mut copy: Vec<u8> = Vec::new();
    copy.extend_from_slice(part);
    assert(copy@ =~= part@);
    from_utf8(copy)
}

/// The triplet that the body of a buffer holds, given the two lengths that
/// were read before it.
pub fn unpack_body(body: &[u8], len_entity: u64, len_attribute: u64) -> (triplet: Option<
    (String, String, String),
>)
    ensures
        match triplet {
            Some((entity, attribute, value)) => unpacked_body(
                body@,
                len_entity as nat,
                len_attribute as nat,
            ) == Some((entity@, attribute@, value@)),
            None => unpacked_body(body@, len_entity as nat, len_attribute as nat) is None,
        },
{
    let total = body.len() as u64;
    if len_entity > total || len_attribute > total - len_entity {
        return None;
    }
    let end_entity = len_entity as usize;
    let end_attribute = (len_entity + len_attribute) as usize;
    let entity = text_between(body, 0, end_entity);
    let attribute = text_between(body, end_entity, end_attribute);
    let value = text_between(body, end_attribute, body.len());
    match (entity, attribute, value) {
        (Some(entity), Some(attribute), Some(value)) => Some((entity, attribute, value)),
        _ => None,
    }
}

/// The triplet that the buffer holds, or nothing where the buffer does not
/// hold one.
pub fn unpack(buffer: &[u8]) -> (triplet: Option<(String, String, String)>)
    ensures
        match triplet {
            Some((entity, attribute, value)) => unpacked(buffer@) == Some(
                (entity@, attribute@, value@),
            ),
            None => unpacked(buffer@) is None,
        },
{
    let (len_entity, rest) = match read_unsigned(buffer) {
        Some(read) => read,
        None => {
            return None;
        },
    };
    let (len_attribute, body) = match read_unsigned(rest) {
        Some(read) => read,
        None => {
            return None;
        },
    };
    unpack_body(body, len_entity, len_attribute)
}

/// How large a number may be whose bytes are read from `position` on.
pub open spec fn leb128_limit(position: nat) -> nat
    decreases 9 - position,
{
    if position >= 9 {
        2
    } else {
        128 * leb128_limit(position + 1)
    }
}

/// Decoding reads back a number that was encoded, whatever follows it.
pub proof fn lemma_decode_encoded(value: nat, rest: Seq<u8>, position: nat)
    requires
        value < leb128_limit(position),
    ensures
        leb128_decode(leb128(value) + rest, position) == Some((value, rest)),
    decreases value,
{
    let bytes = leb128(value) + rest;
    if value < 128 {
        assert(bytes[0] == value as u8);
        assert(bytes.drop_first() =~= rest);
    } else {
        assert(position < 9);
        assert(bytes[0] == (value % 128 + 128) as u8);
        assert(bytes.drop_first() =~= leb128(value / 128) + rest);
        lemma_decode_encoded(value / 128, rest, position + 1);
    }
}

/// Every 64-bit number can be read back from the first position.
pub proof fn lemma_leb128_limit()
    ensures
        leb128_limit(0) == 0x1_0000_0000_0000_0000,
{
    reveal_with_fuel(leb128_limit, 11);
}

/// What was packed is what unpacking gives back.
pub proof fn lemma_unpack_packed(entity: Seq<char>, attribute: Seq<char>, value: Seq<char>)
    requires
        encode_utf8(entity).len() <= u64::MAX,
        encode_utf8(attribute).len() <= u64::MAX,
    ensures
        unpacked(packed(entity, attribute, value)) == Some((entity, attribute, value)),
{
    let e = encode_utf8(entity);
    let a = encode_utf8(attribute);
    let v = encode_utf8(value);
    let body = e + a + v;
    lemma_leb128_limit();
    assert(packed(entity, attribute, value) =~= leb128(e.len()) + (leb128(a.len()) + body));
    lemma_decode_encoded(e.len(), leb128(a.len()) + body, 0);
    lemma_decode_encoded(a.len(), body, 0);
    assert(body.subrange(0, e.len() as int) =~= e);
    assert(body.subrange(e.len() as int, (e.len() + a.len()) as int) =~= a);
    assert(body.subrange((e.len() + a.len()) as int, body.len() as int) =~= v);
    encode_utf8_valid_utf8(entity);
    encode_utf8_valid_utf8(attribute);
    encode_utf8_valid_utf8(value);
    encode_utf8_decode_utf8(entity);
    encode_utf8_decode_utf8(attribute);
    encode_utf8_decode_utf8(value);
}

} // verus!
