//! What holds of the protocol as a whole, proved from what its steps
//! guarantee.

use crate::api::{answer_of, public_params_of, request_of, token_of, verdict_of};
use crate::codec::{
    field, frame_of_one, is_frame, lemma_frame_of_one, lemma_frame_of_two, TAG_REQUEST, TAG_TOKEN,
};
use crate::error::Error;
use crate::group::{
    hash_to_element, identity_encoding, is_group_element, is_scaling, scalar_multiple,
};
use crate::keys::{accepts, decode_keypair};
use crate::scalar::{
    group_order, inverse_of, is_inverse_pair, is_nonzero_scalar, le_value,
    lemma_group_order_positive,
};
use crate::tokens::{
    decode_blinded, decode_request, decode_signed, is_blinding, is_unblinding, unblinded_element,
    BlindedView, TokenView,
};
use vstd::arithmetic::div_mod::*;
use vstd::arithmetic::mul::*;
use vstd::prelude::*;

verus! {

/// Multiplying by a factor and then by its inverse leaves a scalar as it
/// was: for `k` below the order and `r`, `s` with product 1 modulo the
/// order, `((s * k) mod order) * r` is `k` modulo the order.
pub proof fn lemma_inverse_cancels(k: nat, r: nat, s: nat)
    requires
        k < group_order(),
        is_inverse_pair(r, s),
    ensures
        (((s * k) % group_order()) * r) % group_order() == k,
{
    lemma_group_order_positive();
    let m = group_order() as int;
    let (x, y, z) = (k as int, r as int, s as int);
    lemma_mul_mod_noop_left(z * x, y, m);
    assert((z * x) * y == x * (y * z)) by (nonlinear_arith);
    lemma_mul_mod_noop_right(x, y * z, m);
    lemma_small_mod(k, group_order());
    assert(((z * x) % m * y) % m == ((z * x) * y) % m);
    assert((x * ((y * z) % m)) % m == (x * (y * z)) % m);
    assert(x * 1 == x);
}

/// A token that was issued is accepted. Where a client blinds a nonce, the
/// issuer signs the blinded element under its secret, and the client
/// unblinds the answer, the issuer accepts the token under that secret.
pub proof fn law_issued_token_is_accepted(
    secret: Seq<u8>,
    blinded: BlindedView,
    signed: Seq<u8>,
    token: TokenView,
)
    requires
        is_nonzero_scalar(secret),
        is_blinding(blinded),
        is_scaling(signed, le_value(secret), blinded.element),
        is_unblinding(token, blinded, signed),
    ensures
        accepts(secret, token),
{
    lemma_group_order_positive();
    let order = group_order();
    let k = le_value(secret);
    let r = le_value(blinded.factor);
    let s = inverse_of(r);
    let hashed = hash_to_element(blinded.nonce);
    let t = (s * k) % order;
    lemma_mod_bound((s * k) as int, order as int);
    // The token's element is s times the signed element, which is k times
    // the blinded element, which is r times the hashed nonce.
    assert(token.element == scalar_multiple(s, signed));
    assert(scalar_multiple(s, signed) == scalar_multiple(t, blinded.element));
    assert(scalar_multiple(t, blinded.element) == scalar_multiple((t * r) % order, hashed));
    lemma_inverse_cancels(k, r, s);
}

/// The same, with the request as it travels: the issuer signs what the
/// frame of the blinded token's element decodes to.
pub proof fn law_issued_token_is_accepted_over_the_wire(
    secret: Seq<u8>,
    blinded: BlindedView,
    signed: Seq<u8>,
    token: TokenView,
)
    requires
        is_nonzero_scalar(secret),
        is_blinding(blinded),
        decode_request(frame_of_one(TAG_REQUEST, blinded.element)) is Ok,
        is_scaling(
            signed,
            le_value(secret),
            decode_request(frame_of_one(TAG_REQUEST, blinded.element)).unwrap(),
        ),
        is_unblinding(token, blinded, signed),
    ensures
        accepts(secret, token),
{
    lemma_frame_of_one(TAG_REQUEST, blinded.element);
    law_issued_token_is_accepted(secret, blinded, signed, token);
}

/// The same from frame to frame. Where a key pair and a blinded token decode,
/// the request of the blinded token is answered under the key pair, and the
/// answer is unblinded, the key pair accepts the frame of the token.
pub proof fn law_issued_frame_is_accepted(
    keypair: Seq<u8>,
    blinded: Seq<u8>,
    request: Seq<u8>,
    signed: Seq<u8>,
    token: Seq<u8>,
)
    requires
        decode_keypair(keypair) is Ok,
        decode_blinded(blinded) is Ok,
        is_blinding(decode_blinded(blinded).unwrap()),
        request_of(blinded) == Ok::<Seq<u8>, Error>(request),
        answer_of(keypair, request) == Ok::<Seq<u8>, Error>(signed),
        is_scaling(
            field(signed, 0),
            le_value(decode_keypair(keypair).unwrap()),
            decode_request(request).unwrap(),
        ),
        token_of(blinded, signed) == Ok::<Seq<u8>, Error>(token),
        is_unblinding(
            TokenView { nonce: field(token, 0), element: field(token, 1) },
            decode_blinded(blinded).unwrap(),
            decode_signed(signed).unwrap(),
        ),
    ensures
        verdict_of(keypair, token) == Ok::<bool, Error>(true),
{
    let secret = decode_keypair(keypair).unwrap();
    let state = decode_blinded(blinded).unwrap();
    let answer = decode_signed(signed).unwrap();
    let element = unblinded_element(state, answer);
    lemma_frame_of_one(TAG_REQUEST, state.element);
    assert(decode_request(request) == Ok::<Seq<u8>, Error>(state.element));
    assert(answer == field(signed, 0));
    assert(element == field(token, 1));
    lemma_frame_of_two(TAG_TOKEN, state.nonce, element);
    let view = TokenView { nonce: state.nonce, element };
    law_issued_token_is_accepted(secret, state, answer, view);
}

/// A token whose element was changed is rejected. Where the issuer accepts
/// a token, it accepts no other element with the same nonce.
pub proof fn law_tampered_token_is_rejected(secret: Seq<u8>, token: TokenView, tampered: TokenView)
    requires
        accepts(secret, token),
        tampered.nonce == token.nonce,
        tampered.element != token.element,
    ensures
        !accepts(secret, tampered),
{
}

/// The issuer's answer depends on its secret and on the blinded element
/// alone: two blinded tokens with the same element get the same answer,
/// whatever their nonces and blinding factors.
pub proof fn law_answer_depends_on_request_alone(
    secret: Seq<u8>,
    first: BlindedView,
    second: BlindedView,
    first_answer: Seq<u8>,
    second_answer: Seq<u8>,
)
    requires
        first.element == second.element,
        is_scaling(first_answer, le_value(secret), first.element),
        is_scaling(second_answer, le_value(secret), second.element),
    ensures
        first_answer == second_answer,
{
}

/// An element of no use is never signed. Where the key pair decodes and the
/// request is a frame of a request, an element that is no encoding of a group
/// element is a decoding error, and the identity is refused.
pub proof fn law_sign_refuses_improper_elements(keypair: Seq<u8>, request: Seq<u8>)
    requires
        decode_keypair(keypair) is Ok,
        is_frame(request, TAG_REQUEST),
    ensures
        !is_group_element(field(request, 0)) ==> answer_of(keypair, request) == Err::<
            Seq<u8>,
            Error,
        >(Error::Decoding),
        is_group_element(field(request, 0)) && field(request, 0) == identity_encoding()
            ==> answer_of(keypair, request) == Err::<Seq<u8>, Error>(Error::SubgroupValidation),
{
}

/// A token with an element of no use is never accepted. Where the key pair
/// decodes and the token is a frame of a token, an element that is no
/// encoding of a group element is a decoding error, and the identity is
/// refused.
pub proof fn law_verify_refuses_improper_elements(keypair: Seq<u8>, token: Seq<u8>)
    requires
        decode_keypair(keypair) is Ok,
        is_frame(token, TAG_TOKEN),
    ensures
        !is_group_element(field(token, 1)) ==> verdict_of(keypair, token) == Err::<bool, Error>(
            Error::Decoding,
        ),
        is_group_element(field(token, 1)) && field(token, 1) == identity_encoding() ==> verdict_of(
            keypair,
            token,
        ) == Err::<bool, Error>(Error::SubgroupValidation),
{
}

/// The public parameters are a function of the key pair: deriving them twice
/// from the same frame gives the same frame.
pub proof fn law_public_params_are_determined(keypair: Seq<u8>, first: Seq<u8>, second: Seq<u8>)
    requires
        public_params_of(keypair) == Ok::<Seq<u8>, Error>(first),
        public_params_of(keypair) == Ok::<Seq<u8>, Error>(second),
    ensures
        first == second,
{
}

} // verus!
