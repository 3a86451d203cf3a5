//! How the entities of the protocol travel: a version byte, a byte that says
//! which entity follows, then the entity's fields, 32 bytes each.

use vstd::prelude::*;

verus! {

/// The version of the encoding, the first byte of every frame.
pub const PROTOCOL_VERSION: u8 = 1;

/// Number of bytes before the first field.
pub const HEADER_LEN: usize = 2;

/// Number of bytes in a field.
pub const FIELD_LEN: usize = 32;

/// The frame holds an issuer's key pair: the secret scalar.
pub const TAG_KEYPAIR: u8 = 1;

/// The frame holds public parameters: the public element.
pub const TAG_PUBLIC_PARAMS: u8 = 2;

/// The frame holds a client's blinded token: nonce and blinding factor.
pub const TAG_BLINDED: u8 = 3;

/// The frame holds what a client sends to the issuer: the blinded element.
pub const TAG_REQUEST: u8 = 4;

/// The frame holds the issuer's answer: the signed element.
pub const TAG_SIGNED: u8 = 5;

/// The frame holds a token: nonce and unblinded element.
pub const TAG_TOKEN: u8 = 6;

/// Number of fields in a frame of `tag`; none for a byte that names no entity.
pub open spec fn field_count(tag: u8) -> Option<nat> {
    if tag == TAG_KEYPAIR || tag == TAG_PUBLIC_PARAMS || tag == TAG_REQUEST || tag
        == TAG_SIGNED {
        Some(1)
    } else if tag == TAG_BLINDED || tag == TAG_TOKEN {
        Some(2)
    } else {
        None
    }
}

/// The two bytes that open a frame of `tag`.
pub open spec fn header(tag: u8) -> Seq<u8> {
    seq![PROTOCOL_VERSION, tag]
}

/// `bytes` is a frame of `tag`: it has this version, names that entity and
/// has the length of its fields.
pub open spec fn is_frame(bytes: Seq<u8>, tag: u8) -> bool {
    &&& field_count(tag) is Some
    &&& bytes.len() == HEADER_LEN + FIELD_LEN * field_count(tag).unwrap()
    &&& bytes[0] == PROTOCOL_VERSION
    &&& bytes[1] == tag
}

/// The field of a frame at `index`, counted from 0.
pub open spec fn field(bytes: Seq<u8>, index: nat) -> Seq<u8> {
    bytes.subrange(HEADER_LEN + FIELD_LEN * index, HEADER_LEN + FIELD_LEN * (index + 1))
}

/// The entity that `bytes` frames, where it frames one.
pub open spec fn framed_tag(bytes: Seq<u8>) -> Option<u8> {
    if bytes.len() >= HEADER_LEN && is_frame(bytes, bytes[1]) {
        Some(bytes[1])
    } else {
        None
    }
}

/// A frame of one field.
pub open spec fn frame_of_one(tag: u8, first: Seq<u8>) -> Seq<u8> {
    header(tag) + first
}

/// A frame of two fields.
pub open spec fn frame_of_two(tag: u8, first: Seq<u8>, second: Seq<u8>) -> Seq<u8> {
    header(tag) + first + second
}

/// Number of fields in a frame of `tag`, 0 for a byte that names no entity.
fn fields_of(tag: u8) -> (count: usize)
    ensures
        match field_count(tag) {
            Some(n) => count == n,
            None => count == 0,
        },
        count <= 2,
{
    if tag == TAG_KEYPAIR || tag == TAG_PUBLIC_PARAMS || tag == TAG_REQUEST || tag
        == TAG_SIGNED {
        1
    } else if tag == TAG_BLINDED || tag == TAG_TOKEN {
        2
    } else {
        0
    }
}

/// Whether `bytes` is a frame of `tag`.
pub fn check_frame(bytes: &[u8], tag: u8) -> (ok: bool)
    ensures
        ok == is_frame(bytes@, tag),
{
    let count: usize = fields_of(tag);
    count > 0 && bytes.len() == HEADER_LEN + FIELD_LEN * count && bytes[0] == PROTOCOL_VERSION
        && bytes[1] == tag
}

/// The entity that `bytes` frames, where it frames one.
pub fn tag_of_frame(bytes: &[u8]) -> (tag: Option<u8>)
    ensures
        tag == framed_tag(bytes@),
{
    if bytes.len() >= HEADER_LEN && check_frame(bytes, bytes[1]) {
        Some(bytes[1])
    } else {
        None
    }
}

/// Copies the field at `index` out of a frame.
pub fn read_field(bytes: &[u8], index: usize) -> (out: [u8; 32])
    requires
        HEADER_LEN + FIELD_LEN * (index + 1) <= bytes@.len(),
    ensures
        out@ == field(bytes@, index as nat),
{
    let len: usize = bytes.len();
    let start: usize = HEADER_LEN + FIELD_LEN * index;
    let mut out: [u8; 32] = [0u8; 32];
    let mut i: usize = 0;
    while i < FIELD_LEN
        invariant
            i <= FIELD_LEN,
            start == HEADER_LEN + FIELD_LEN * index,
            start + FIELD_LEN <= len,
            len == bytes@.len(),
            forall|j: int| 0 <= j < i ==> out@[j] == bytes@[start + j],
        decreases FIELD_LEN - i,
    {
        out[i] = bytes[start + i];
        i = i + 1;
    }
    assert(out@ =~= field(bytes@, index as nat));
    out
}

/// The frame of `tag` with the one field `first`.
pub fn write_one(tag: u8, first: &[u8; 32]) -> (out: Vec<u8>)
    ensures
        out@ == frame_of_one(tag, first@),
{
    let mut out: Vec<u8> = Vec::with_capacity(HEADER_LEN + FIELD_LEN);
    out.push(PROTOCOL_VERSION);
    out.push(tag);
    out.extend_from_slice(first.as_slice());
    assert(out@ =~= frame_of_one(tag, first@));
    out
}

/// The frame of `tag` with the fields `first` and `second`.
pub fn write_two(tag: u8, first: &[u8; 32], second: &[u8; 32]) -> (out: Vec<u8>)
    ensures
        out@ == frame_of_two(tag, first@, second@),
{
    let mut out: Vec<u8> = Vec::with_capacity(HEADER_LEN + FIELD_LEN + FIELD_LEN);
    out.push(PROTOCOL_VERSION);
    out.push(tag);
    out.extend_from_slice(first.as_slice());
    out.extend_from_slice(second.as_slice());
    assert(out@ =~= frame_of_two(tag, first@, second@));
    out
}

/// A frame of one field is a frame of its tag, and its field is what went in.
pub proof fn lemma_frame_of_one(tag: u8, first: Seq<u8>)
    requires
        field_count(tag) == Some(1nat),
        first.len() == FIELD_LEN,
    ensures
        is_frame(frame_of_one(tag, first), tag),
        field(frame_of_one(tag, first), 0) == first,
        framed_tag(frame_of_one(tag, first)) == Some(tag),
{
    assert(field(frame_of_one(tag, first), 0) =~= first);
}

/// A frame of two fields is a frame of its tag, and its fields are what went
/// in.
pub proof fn lemma_frame_of_two(tag: u8, first: Seq<u8>, second: Seq<u8>)
    requires
        field_count(tag) == Some(2nat),
        first.len() == FIELD_LEN,
        second.len() == FIELD_LEN,
    ensures
        is_frame(frame_of_two(tag, first, second), tag),
        field(frame_of_two(tag, first, second), 0) == first,
        field(frame_of_two(tag, first, second), 1) == second,
        framed_tag(frame_of_two(tag, first, second)) == Some(tag),
{
    assert(field(frame_of_two(tag, first, second), 0) =~= first);
    assert(field(frame_of_two(tag, first, second), 1) =~= second);
}

} // verus!
