//! The six operations of the protocol from frame to frame, for a caller that
//! holds nothing but bytes.

use crate::codec::{
    field, frame_of_one, frame_of_two, framed_tag, lemma_frame_of_one, lemma_frame_of_two,
    tag_of_frame, TAG_BLINDED, TAG_KEYPAIR, TAG_PUBLIC_PARAMS, TAG_REQUEST, TAG_SIGNED, TAG_TOKEN,
};
use crate::error::Error;
use crate::group::{generator_multiple, identity_encoding, is_scaling, scalar_multiple};
use crate::keys::{accepts, decode_keypair, decode_public_params, KeyPair, PublicParams};
use crate::scalar::le_value;
use crate::tokens::{
    decode_blinded, decode_request, decode_signed, decode_token, is_blinding, is_unblinding,
    unblinded_element, Token, TokenBlinded, TokenSigned, TokenView,
};
use vstd::prelude::*;

verus! {

/// The frame of the public parameters of the key pair in `keypair`.
pub open spec fn public_params_of(keypair: Seq<u8>) -> Result<Seq<u8>, Error> {
    match decode_keypair(keypair) {
        Ok(secret) => Ok(frame_of_one(TAG_PUBLIC_PARAMS, generator_multiple(le_value(secret)))),
        Err(e) => Err(e),
    }
}

/// The request that the blinded token in `blinded` sends to the issuer.
pub open spec fn request_of(blinded: Seq<u8>) -> Result<Seq<u8>, Error> {
    match decode_blinded(blinded) {
        Ok(state) => Ok(frame_of_one(TAG_REQUEST, state.element)),
        Err(e) => Err(e),
    }
}

/// The issuer's answer to `request` under the key pair in `keypair`. The key
/// pair is decoded first.
pub open spec fn answer_of(keypair: Seq<u8>, request: Seq<u8>) -> Result<Seq<u8>, Error> {
    match decode_keypair(keypair) {
        Ok(secret) => match decode_request(request) {
            Ok(element) => Ok(
                frame_of_one(TAG_SIGNED, scalar_multiple(le_value(secret), element)),
            ),
            Err(e) => Err(e),
        },
        Err(e) => Err(e),
    }
}

/// `bytes` frames an entity of the protocol, and not the one of `tag`.
pub open spec fn is_other_stage(bytes: Seq<u8>, tag: u8) -> bool {
    framed_tag(bytes) is Some && framed_tag(bytes) != Some(tag)
}

/// The token that the blinded token in `blinded` makes of the answer in
/// `signed`. The blinded token is decoded first; an answer that frames
/// another entity of the protocol does not belong to this exchange; an
/// answer that unblinds to the identity is refused.
pub open spec fn token_of(blinded: Seq<u8>, signed: Seq<u8>) -> Result<Seq<u8>, Error> {
    match decode_blinded(blinded) {
        Ok(state) => if is_other_stage(signed, TAG_SIGNED) {
            Err(Error::ProtocolMismatch)
        } else {
            match decode_signed(signed) {
                Ok(element) => if unblinded_element(state, element) == identity_encoding() {
                    Err(Error::SubgroupValidation)
                } else {
                    Ok(frame_of_two(TAG_TOKEN, state.nonce, unblinded_element(state, element)))
                },
                Err(e) => Err(e),
            }
        },
        Err(e) => Err(e),
    }
}

/// Whether the key pair in `keypair` accepts the token in `token`. The key
/// pair is decoded first.
pub open spec fn verdict_of(keypair: Seq<u8>, token: Seq<u8>) -> Result<bool, Error> {
    match decode_keypair(keypair) {
        Ok(secret) => match decode_token(token) {
            Ok(view) => Ok(accepts(secret, view)),
            Err(e) => Err(e),
        },
        Err(e) => Err(e),
    }
}

/// A fresh key pair, framed. Fails only where the random source does.
pub fn generate_keypair() -> (outcome: Result<Vec<u8>, Error>)
    ensures
        match outcome {
            Ok(bytes) => decode_keypair(bytes@) is Ok,
            Err(e) => e == Error::RandomSource,
        },
{
    match KeyPair::generate() {
        Ok(pair) => {
            let bytes = pair.to_bytes();
            proof {
                lemma_frame_of_one(TAG_KEYPAIR, pair@);
            }
            Ok(bytes)
        },
        Err(e) => Err(e),
    }
}

/// The public parameters of a framed key pair, framed.
pub fn get_public_params(keypair: &[u8]) -> (outcome: Result<Vec<u8>, Error>)
    ensures
        match outcome {
            Ok(bytes) => public_params_of(keypair@) == Ok::<Seq<u8>, Error>(bytes@),
            Err(e) => public_params_of(keypair@) == Err::<Seq<u8>, Error>(e),
        },
{
    match KeyPair::from_bytes(keypair) {
        Ok(pair) => Ok(pair.public_params().to_bytes()),
        Err(e) => Err(e),
    }
}

/// A fresh blinded token for an issuer with the framed public parameters,
/// framed for the client to keep. Parameters that do not decode are refused
/// with their error; after that only the random source can fail.
pub fn generate_token(public_params: &[u8]) -> (outcome: Result<Vec<u8>, Error>)
    ensures
        match outcome {
            Ok(bytes) => {
                &&& decode_public_params(public_params@) is Ok
                &&& decode_blinded(bytes@) is Ok
                &&& is_blinding(decode_blinded(bytes@).unwrap())
            },
            Err(e) => match decode_public_params(public_params@) {
                Ok(_) => e == Error::RandomSource,
                Err(refusal) => e == refusal,
            },
        },
{
    let params = match PublicParams::from_bytes(public_params) {
        Ok(params) => params,
        Err(e) => {
            return Err(e);
        },
    };
    match params.generate_token() {
        Ok(blinded) => {
            let bytes = blinded.to_secret_bytes();
            proof {
                lemma_frame_of_two(TAG_BLINDED, blinded@.nonce, blinded@.factor);
            }
            Ok(bytes)
        },
        Err(e) => Err(e),
    }
}

/// The request that a framed blinded token sends to the issuer: the frame of
/// its blinded element.
pub fn blinded_request(blinded: &[u8]) -> (outcome: Result<Vec<u8>, Error>)
    ensures
        match outcome {
            Ok(bytes) => request_of(blinded@) == Ok::<Seq<u8>, Error>(bytes@),
            Err(e) => request_of(blinded@) == Err::<Seq<u8>, Error>(e),
        },
{
    match TokenBlinded::from_secret_bytes(blinded) {
        Ok(state) => Ok(state.to_bytes()),
        Err(e) => Err(e),
    }
}

/// The issuer's answer to a request, framed. The answer holds the secret
/// times the blinded element of the request and nothing else.
pub fn sign_token(keypair: &[u8], request: &[u8]) -> (outcome: Result<Vec<u8>, Error>)
    ensures
        match outcome {
            Ok(bytes) => {
                &&& answer_of(keypair@, request@) == Ok::<Seq<u8>, Error>(bytes@)
                &&& is_scaling(
                    field(bytes@, 0),
                    le_value(decode_keypair(keypair@).unwrap()),
                    decode_request(request@).unwrap(),
                )
            },
            Err(e) => answer_of(keypair@, request@) == Err::<Seq<u8>, Error>(e),
        },
{
    let pair = match KeyPair::from_bytes(keypair) {
        Ok(pair) => pair,
        Err(e) => {
            return Err(e);
        },
    };
    match pair.sign(request) {
        Ok(signed) => {
            let bytes = signed.to_bytes();
            proof {
                lemma_frame_of_one(TAG_SIGNED, signed@);
            }
            Ok(bytes)
        },
        Err(e) => Err(e),
    }
}

/// The token that a framed blinded token makes of the issuer's framed
/// answer, framed.
pub fn unblind_token(blinded: &[u8], signed: &[u8]) -> (outcome: Result<Vec<u8>, Error>)
    ensures
        match outcome {
            Ok(bytes) => {
                &&& token_of(blinded@, signed@) == Ok::<Seq<u8>, Error>(bytes@)
                &&& decode_token(bytes@) is Ok
                &&& is_unblinding(
                    TokenView { nonce: field(bytes@, 0), element: field(bytes@, 1) },
                    decode_blinded(blinded@).unwrap(),
                    decode_signed(signed@).unwrap(),
                )
            },
            Err(e) => token_of(blinded@, signed@) == Err::<Seq<u8>, Error>(e),
        },
{
    let state = match TokenBlinded::from_secret_bytes(blinded) {
        Ok(state) => state,
        Err(e) => {
            return Err(e);
        },
    };
    match tag_of_frame(signed) {
        Some(tag) => {
            if tag != TAG_SIGNED {
                return Err(Error::ProtocolMismatch);
            }
        },
        None => {},
    }
    let answer = match TokenSigned::from_bytes(signed) {
        Ok(answer) => answer,
        Err(e) => {
            return Err(e);
        },
    };
    match state.unblind(&answer) {
        Ok(token) => {
            let bytes = token.to_bytes();
            proof {
                lemma_frame_of_two(TAG_TOKEN, token@.nonce, token@.element);
            }
            Ok(bytes)
        },
        Err(e) => Err(e),
    }
}

/// Whether a framed key pair accepts a framed token. A token whose element
/// does not decode, or is the identity, is refused with an error and never
/// accepted.
pub fn verify_token(keypair: &[u8], token: &[u8]) -> (outcome: Result<bool, Error>)
    ensures
        outcome == verdict_of(keypair@, token@),
{
    let pair = match KeyPair::from_bytes(keypair) {
        Ok(pair) => pair,
        Err(e) => {
            return Err(e);
        },
    };
    match Token::from_bytes(token) {
        Ok(presented) => Ok(pair.verify(&presented)),
        Err(e) => Err(e),
    }
}

} // verus!
