//! Scalars: the integers below the order of the group, as 32 bytes with the
//! least significant byte first.

use crate::constant_time::is_zero_bytes;
use curve25519_dalek::scalar::Scalar;
use vstd::arithmetic::div_mod::*;
use vstd::arithmetic::mul::*;
use vstd::arithmetic::power2::*;
use vstd::prelude::*;

verus! {

/// Number of bytes in the encoding of a scalar.
pub const SCALAR_LEN: usize = 32;

/// The order of the group, 2^252 + 27742317777372353535851937790883648493.
pub open spec fn group_order() -> nat {
    pow2(252) + 27742317777372353535851937790883648493
}

/// The number that `bytes` stands for, least significant byte first.
pub open spec fn le_value(bytes: Seq<u8>) -> nat
    decreases bytes.len(),
{
    if bytes.len() == 0 {
        0
    } else {
        bytes[0] as nat + 256 * le_value(bytes.drop_first())
    }
}

/// `bytes` is the encoding of a scalar: 32 bytes whose value is below the
/// order of the group.
pub open spec fn is_canonical(bytes: Seq<u8>) -> bool {
    bytes.len() == SCALAR_LEN && le_value(bytes) < group_order()
}

/// `a` and `b` are scalars whose product is 1 modulo the order of the group.
pub open spec fn is_inverse_pair(a: nat, b: nat) -> bool {
    a < group_order() && b < group_order() && (a * b) % group_order() == 1
}

/// The scalar that multiplies `a` to 1, where there is one.
pub open spec fn inverse_of(a: nat) -> nat {
    choose|b: nat| is_inverse_pair(a, b)
}

/// The order of the group is positive.
pub proof fn lemma_group_order_positive()
    ensures
        group_order() > 1,
{
    lemma_pow2_pos(252);
}

/// A byte string stands for zero exactly when each of its bytes is zero.
pub proof fn lemma_zero_value(bytes: Seq<u8>)
    ensures
        le_value(bytes) == 0 <==> (forall|i: int| 0 <= i < bytes.len() ==> bytes[i] == 0),
    decreases bytes.len(),
{
    if bytes.len() > 0 {
        let rest = bytes.drop_first();
        lemma_zero_value(rest);
        if le_value(bytes) == 0 {
            assert forall|i: int| 0 <= i < bytes.len() implies bytes[i] == 0 by {
                if i > 0 {
                    assert(rest[i - 1] == bytes[i]);
                }
            }
        }
        if forall|i: int| 0 <= i < bytes.len() ==> bytes[i] == 0 {
            assert forall|i: int| 0 <= i < rest.len() implies rest[i] == 0 by {
                assert(rest[i] == bytes[i + 1]);
            }
        }
    }
}

/// A scalar has at most one inverse.
pub proof fn lemma_inverse_unique(a: nat, b: nat, c: nat)
    requires
        is_inverse_pair(a, b),
        is_inverse_pair(a, c),
    ensures
        b == c,
{
    lemma_group_order_positive();
    let m = group_order() as int;
    let (x, y, z) = (a as int, b as int, c as int);
    // b = b * (a * c) = (b * a) * c = c, all modulo the order.
    lemma_mul_mod_noop_right(y, x * z, m);
    lemma_mul_mod_noop_left(x * y, z, m);
    lemma_mul_is_associative(y, x, z);
    lemma_mul_is_commutative(x, y);
    lemma_small_mod(b, group_order());
    lemma_small_mod(c, group_order());
    assert((y * 1) % m == (y * (x * z)) % m);
    assert((1 * z) % m == ((x * y) * z) % m);
}

/// The inverse that `is_inverse_pair` shows is the one that `inverse_of` names.
pub proof fn lemma_inverse_of(a: nat, b: nat)
    requires
        is_inverse_pair(a, b),
    ensures
        inverse_of(a) == b,
        is_inverse_pair(a, inverse_of(a)),
{
    lemma_inverse_unique(a, b, inverse_of(a));
}

/// `bytes` is the encoding of a scalar other than zero: what a secret key and
/// a blinding factor have to be.
pub open spec fn is_nonzero_scalar(bytes: Seq<u8>) -> bool {
    is_canonical(bytes) && le_value(bytes) != 0
}

/// Whether the 32 bytes are the encoding of a scalar other than zero.
pub fn check_nonzero_scalar(bytes: &[u8; 32]) -> (ok: bool)
    ensures
        ok == is_nonzero_scalar(bytes@),
{
    proof {
        lemma_zero_value(bytes@);
    }
    accepts_canonical(bytes) && !is_zero_bytes(bytes)
}

/// The scalar that 64 random bytes give, unless it is zero. Reducing 64
/// bytes leaves the scalar as good as uniformly distributed.
pub fn scalar_from_seed(seed: &[u8; 64]) -> (scalar: Option<[u8; 32]>)
    ensures
        match scalar {
            Some(bytes) => is_nonzero_scalar(bytes@) && le_value(bytes@) == le_value(seed@)
                % group_order(),
            None => le_value(seed@) % group_order() == 0,
        },
{
    let bytes = reduce_wide(seed);
    proof {
        lemma_group_order_positive();
        lemma_mod_bound(le_value(seed@) as int, group_order() as int);
        lemma_zero_value(bytes@);
    }
    if is_zero_bytes(&bytes) {
        None
    } else {
        Some(bytes)
    }
}

/// `Scalar::from_canonical_bytes` of curve25519-dalek, asked only whether it
/// accepts: it does exactly when the 32 bytes, read least significant byte
/// first, are below the order of the group.
#[verifier::external_body]
pub(crate) fn accepts_canonical(bytes: &[u8; 32]) -> (ok: bool)
    ensures
        ok == is_canonical(bytes@),
{
    bool::from(Scalar::from_canonical_bytes(*bytes).is_some())
}

/// `Scalar::from_bytes_mod_order_wide` of curve25519-dalek: the 64 bytes, read
/// least significant byte first, reduced modulo the order of the group.
#[verifier::external_body]
pub(crate) fn reduce_wide(bytes: &[u8; 64]) -> (out: [u8; 32])
    ensures
        le_value(out@) == le_value(bytes@) % group_order(),
{
    Scalar::from_bytes_mod_order_wide(bytes).to_bytes()
}

/// `Scalar::invert` of curve25519-dalek: the scalar whose product with a
/// nonzero scalar is 1 modulo the order of the group.
#[verifier::external_body]
pub(crate) fn invert(bytes: &[u8; 32]) -> (out: [u8; 32])
    requires
        is_canonical(bytes@),
        le_value(bytes@) != 0,
    ensures
        is_inverse_pair(le_value(bytes@), le_value(out@)),
{
    Scalar::from_canonical_bytes(*bytes).unwrap().invert().to_bytes()
}

} // verus!
