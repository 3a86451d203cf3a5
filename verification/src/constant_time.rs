//! Comparisons whose running time does not depend on the bytes compared.

use subtle::ConstantTimeEq;
use vstd::prelude::*;

verus! {

/// `ConstantTimeEq::ct_eq` of subtle on two strings of 32 bytes: whether they
/// are equal, found in a time that does not depend on what they hold.
#[verifier::external_body]
pub(crate) fn same_bytes(left: &[u8; 32], right: &[u8; 32]) -> (same: bool)
    ensures
        same == (left@ == right@),
{
    bool::from(left.ct_eq(right))
}

/// 32 zero bytes.
pub open spec fn zero_bytes() -> Seq<u8> {
    Seq::new(32, |i: int| 0u8)
}

/// Whether each of the 32 bytes is zero.
pub fn is_zero_bytes(bytes: &[u8; 32]) -> (zero: bool)
    ensures
        zero == (bytes@ == zero_bytes()),
        zero == (forall|i: int| 0 <= i < 32 ==> bytes@[i] == 0),
{
    let zeros: [u8; 32] = [0u8; 32];
    assert(zeros@ =~= zero_bytes());
    let zero = same_bytes(bytes, &zeros);
    proof {
        if forall|i: int| 0 <= i < 32 ==> bytes@[i] == 0 {
            assert(bytes@ =~= zero_bytes());
        }
    }
    zero
}

} // verus!
