//! The group in which the protocol works: the Ristretto group, an element of
//! which travels as 32 bytes.
//!
//! The arithmetic is that of curve25519-dalek. What the contracts of this
//! library say of an element, they say of its encoding, through the names
//! below.

use crate::constant_time::{is_zero_bytes, zero_bytes};
use crate::error::Error;
use crate::scalar::{group_order, is_canonical, le_value};
use curve25519_dalek::ristretto::{CompressedRistretto, RistrettoPoint};
use curve25519_dalek::scalar::Scalar;
use sha2::Sha512;
use vstd::prelude::*;

verus! {

/// Number of bytes in the encoding of a group element.
pub const ELEMENT_LEN: usize = 32;

/// Whether `encoding` is the canonical encoding of a group element.
pub uninterp spec fn is_group_element(encoding: Seq<u8>) -> bool;

/// The encoding of `k` times the element that `encoding` stands for.
pub uninterp spec fn scalar_multiple(k: nat, encoding: Seq<u8>) -> Seq<u8>;

/// The encoding of `k` times the generator of the group.
pub uninterp spec fn generator_multiple(k: nat) -> Seq<u8>;

/// The encoding of the element to which `message` is hashed.
pub uninterp spec fn hash_to_element(message: Seq<u8>) -> Seq<u8>;

/// The encoding of the identity: 32 zero bytes.
pub open spec fn identity_encoding() -> Seq<u8> {
    zero_bytes()
}

/// `encoding` stands for an element of the group other than the identity.
pub open spec fn is_proper_element(encoding: Seq<u8>) -> bool {
    is_group_element(encoding) && encoding != identity_encoding()
}

/// `product` is `k` times `element`, as a group element: it has that
/// encoding, and a multiple of it is the matching multiple of `element`.
pub open spec fn is_scaling(product: Seq<u8>, k: nat, element: Seq<u8>) -> bool {
    &&& product == scalar_multiple(k, element)
    &&& product.len() == ELEMENT_LEN
    &&& is_group_element(product)
    &&& forall|t: nat|
        t < group_order() ==> #[trigger] scalar_multiple(t, product) == scalar_multiple(
            (t * k) % group_order(),
            element,
        )
}

/// `CompressedRistretto::decompress` of curve25519-dalek, asked only whether
/// it accepts the 32 bytes.
#[verifier::external_body]
pub(crate) fn decodes(encoding: &[u8; 32]) -> (ok: bool)
    ensures
        ok == is_group_element(encoding@),
{
    CompressedRistretto(*encoding).decompress().is_some()
}

/// The product of a `Scalar` and a `RistrettoPoint` of curve25519-dalek, from
/// encoding to encoding. The group has the order that scalars are reduced by,
/// so a multiple of the product is a multiple of the element that went in.
#[verifier::external_body]
pub(crate) fn multiply(scalar: &[u8; 32], element: &[u8; 32]) -> (product: [u8; 32])
    requires
        is_canonical(scalar@),
        is_group_element(element@),
    ensures
        product@ == scalar_multiple(le_value(scalar@), element@),
        is_group_element(product@),
        forall|t: nat|
            t < group_order() ==> #[trigger] scalar_multiple(t, product@) == scalar_multiple(
                (t * le_value(scalar@)) % group_order(),
                element@,
            ),
{
    let point = CompressedRistretto(*element).decompress().unwrap();
    let factor = Scalar::from_canonical_bytes(*scalar).unwrap();
    (factor * point).compress().to_bytes()
}

/// `RistrettoPoint::mul_base` of curve25519-dalek, from the scalar's bytes to
/// the encoding of the product.
#[verifier::external_body]
pub(crate) fn multiply_generator(scalar: &[u8; 32]) -> (product: [u8; 32])
    requires
        is_canonical(scalar@),
    ensures
        product@ == generator_multiple(le_value(scalar@)),
        is_group_element(product@),
{
    let factor = Scalar::from_canonical_bytes(*scalar).unwrap();
    RistrettoPoint::mul_base(&factor).compress().to_bytes()
}

/// `RistrettoPoint::hash_from_bytes` of curve25519-dalek with SHA-512, to the
/// encoding of the element.
#[verifier::external_body]
pub(crate) fn hash_message(message: &[u8; 32]) -> (element: [u8; 32])
    ensures
        element@ == hash_to_element(message@),
        is_group_element(element@),
{
    RistrettoPoint::hash_from_bytes::<Sha512>(message).compress().to_bytes()
}

/// What the check of a received element finds: an encoding of no element
/// cannot be decoded, and the identity is refused as an element of no use.
pub open spec fn element_check(encoding: Seq<u8>) -> Result<(), Error> {
    if !is_group_element(encoding) {
        Err(Error::Decoding)
    } else if encoding == identity_encoding() {
        Err(Error::SubgroupValidation)
    } else {
        Ok(())
    }
}

/// Whether the 32 bytes are the encoding of the identity.
pub fn is_identity(encoding: &[u8; 32]) -> (identity: bool)
    ensures
        identity == (encoding@ == identity_encoding()),
{
    is_zero_bytes(encoding)
}

/// Checks an element that came from outside: it must decode, and it must not
/// be the identity.
pub fn check_element(encoding: &[u8; 32]) -> (outcome: Result<(), Error>)
    ensures
        outcome == element_check(encoding@),
        outcome is Ok <==> is_proper_element(encoding@),
{
    if !decodes(encoding) {
        Err(Error::Decoding)
    } else if is_identity(encoding) {
        Err(Error::SubgroupValidation)
    } else {
        Ok(())
    }
}

} // verus!
