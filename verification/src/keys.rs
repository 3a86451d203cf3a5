//! The issuer's key pair and the public parameters that it publishes.

use crate::codec::{
    check_frame, field, frame_of_one, is_frame, lemma_frame_of_one, read_field, write_one,
    TAG_KEYPAIR, TAG_PUBLIC_PARAMS, TAG_REQUEST,
};
use crate::constant_time::same_bytes;
use crate::error::Error;
use crate::group::{
    generator_multiple, hash_message, hash_to_element, is_group_element, is_scaling, multiply,
    multiply_generator, scalar_multiple,
};
use crate::random::draw;
use crate::scalar::{
    check_nonzero_scalar, group_order, is_nonzero_scalar, le_value, scalar_from_seed,
};
use crate::tokens::{
    decode_element, decode_request, is_blinding, read_element, Token, TokenBlinded, TokenSigned,
    TokenView,
};
use vstd::prelude::*;

verus! {

/// How often a scalar is drawn before the random source is given up: a
/// source that gives zero this often is not random.
pub const MAX_DRAWS: usize = 4;

/// The secret scalar that a frame holds. A frame of another entity or length
/// does not decode, nor does a scalar that is zero or not reduced.
pub open spec fn decode_keypair(bytes: Seq<u8>) -> Result<Seq<u8>, Error> {
    if !is_frame(bytes, TAG_KEYPAIR) || !is_nonzero_scalar(field(bytes, 0)) {
        Err(Error::Decoding)
    } else {
        Ok(field(bytes, 0))
    }
}

/// The public element that a frame holds.
pub open spec fn decode_public_params(bytes: Seq<u8>) -> Result<Seq<u8>, Error> {
    decode_element(bytes, TAG_PUBLIC_PARAMS)
}

/// The issuer under the secret scalar `secret` accepts `token`: the token's
/// element is the secret times the element to which the nonce is hashed.
pub open spec fn accepts(secret: Seq<u8>, token: TokenView) -> bool {
    token.element == scalar_multiple(le_value(secret), hash_to_element(token.nonce))
}

/// The public half of an issuer's key: the generator times the secret scalar.
pub struct PublicParams {
    element: [u8; 32],
}

impl View for PublicParams {
    type V = Seq<u8>;

    closed spec fn view(&self) -> Seq<u8> {
        self.element@
    }
}

impl PublicParams {
    #[verifier::type_invariant]
    spec fn well_formed(self) -> bool {
        is_group_element(self.element@)
    }

    /// The encoding of the public element.
    pub fn element_bytes(&self) -> (element: [u8; 32])
        ensures
            element@ == self@,
            is_group_element(self@),
    {
        proof {
            use_type_invariant(self);
        }
        self.element
    }

    /// The frame in which the parameters are published.
    pub fn to_bytes(&self) -> (bytes: Vec<u8>)
        ensures
            bytes@ == frame_of_one(TAG_PUBLIC_PARAMS, self@),
            self@.len() == 32,
    {
        write_one(TAG_PUBLIC_PARAMS, &self.element)
    }

    /// The parameters that a frame holds. A frame of another entity or length
    /// does not decode, nor does an encoding of no element; the identity is
    /// refused.
    pub fn from_bytes(bytes: &[u8]) -> (outcome: Result<PublicParams, Error>)
        ensures
            match outcome {
                Ok(params) => decode_public_params(bytes@) == Ok::<Seq<u8>, Error>(params@),
                Err(e) => decode_public_params(bytes@) == Err::<Seq<u8>, Error>(e),
            },
    {
        match read_element(bytes, TAG_PUBLIC_PARAMS) {
            Ok(element) => Ok(PublicParams { element }),
            Err(e) => Err(e),
        }
    }

    /// A fresh blinded token: a random nonce, blinded with a random factor.
    /// The parameters take no part in the blinding. Fails only where the
    /// random source does.
    pub fn generate_token(&self) -> (outcome: Result<TokenBlinded, Error>)
        ensures
            match outcome {
                Ok(blinded) => is_blinding(blinded@),
                Err(e) => e == Error::RandomSource,
            },
    {
        let nonce: [u8; 32] = match draw::<32>() {
            Some(bytes) => bytes,
            None => {
                return Err(Error::RandomSource);
            },
        };
        let mut draws: usize = 0;
        while draws < MAX_DRAWS
            invariant
                draws <= MAX_DRAWS,
            decreases MAX_DRAWS - draws,
        {
            let seed: [u8; 64] = match draw::<64>() {
                Some(bytes) => bytes,
                None => {
                    return Err(Error::RandomSource);
                },
            };
            match TokenBlinded::from_seed(nonce, &seed) {
                Some(blinded) => {
                    return Ok(blinded);
                },
                None => {},
            }
            draws = draws + 1;
        }
        Err(Error::RandomSource)
    }
}

/// The issuer's long-term secret: a scalar other than zero.
pub struct KeyPair {
    secret: [u8; 32],
}

impl View for KeyPair {
    type V = Seq<u8>;

    closed spec fn view(&self) -> Seq<u8> {
        self.secret@
    }
}

impl KeyPair {
    #[verifier::type_invariant]
    spec fn well_formed(self) -> bool {
        is_nonzero_scalar(self.secret@)
    }

    /// The key pair of 64 random bytes, from which the secret scalar is
    /// taken; none where that scalar would be zero.
    pub fn from_seed(seed: &[u8; 64]) -> (outcome: Option<KeyPair>)
        ensures
            match outcome {
                Some(pair) => is_nonzero_scalar(pair@) && le_value(pair@) == le_value(seed@)
                    % group_order(),
                None => le_value(seed@) % group_order() == 0,
            },
    {
        match scalar_from_seed(seed) {
            Some(secret) => Some(KeyPair { secret }),
            None => None,
        }
    }

    /// A fresh key pair, its secret drawn from the operating system's random
    /// source. Fails only where that source does.
    pub fn generate() -> (outcome: Result<KeyPair, Error>)
        ensures
            match outcome {
                Ok(pair) => is_nonzero_scalar(pair@),
                Err(e) => e == Error::RandomSource,
            },
    {
        let mut draws: usize = 0;
        while draws < MAX_DRAWS
            invariant
                draws <= MAX_DRAWS,
            decreases MAX_DRAWS - draws,
        {
            let seed: [u8; 64] = match draw::<64>() {
                Some(bytes) => bytes,
                None => {
                    return Err(Error::RandomSource);
                },
            };
            match KeyPair::from_seed(&seed) {
                Some(pair) => {
                    return Ok(pair);
                },
                None => {},
            }
            draws = draws + 1;
        }
        Err(Error::RandomSource)
    }

    /// The frame in which the issuer keeps the key pair.
    pub fn to_bytes(&self) -> (bytes: Vec<u8>)
        ensures
            bytes@ == frame_of_one(TAG_KEYPAIR, self@),
            is_nonzero_scalar(self@),
    {
        proof {
            use_type_invariant(self);
        }
        write_one(TAG_KEYPAIR, &self.secret)
    }

    /// The key pair that a frame holds. A frame of another entity or length
    /// does not decode, nor does a scalar that is zero or not reduced.
    pub fn from_bytes(bytes: &[u8]) -> (outcome: Result<KeyPair, Error>)
        ensures
            match outcome {
                Ok(pair) => decode_keypair(bytes@) == Ok::<Seq<u8>, Error>(pair@),
                Err(e) => decode_keypair(bytes@) == Err::<Seq<u8>, Error>(e),
            },
    {
        if !check_frame(bytes, TAG_KEYPAIR) {
            return Err(Error::Decoding);
        }
        let secret = read_field(bytes, 0);
        if !check_nonzero_scalar(&secret) {
            return Err(Error::Decoding);
        }
        Ok(KeyPair { secret })
    }

    /// The public parameters of this key pair: the generator times the
    /// secret.
    pub fn public_params(&self) -> (params: PublicParams)
        ensures
            params@ == generator_multiple(le_value(self@)),
            is_nonzero_scalar(self@),
    {
        proof {
            use_type_invariant(self);
        }
        PublicParams { element: multiply_generator(&self.secret) }
    }

    /// Signs the blinded element of a client's request. A request that is no
    /// frame of a request, or whose element does not decode, is a decoding
    /// error; the identity is refused. Any other element is multiplied by
    /// the secret.
    pub fn sign(&self, request: &[u8]) -> (outcome: Result<TokenSigned, Error>)
        ensures
            match outcome {
                Ok(signed) => decode_request(request@) is Ok && is_scaling(
                    signed@,
                    le_value(self@),
                    decode_request(request@).unwrap(),
                ),
                Err(e) => decode_request(request@) == Err::<Seq<u8>, Error>(e),
            },
            is_nonzero_scalar(self@),
    {
        proof {
            use_type_invariant(self);
        }
        match read_element(request, TAG_REQUEST) {
            Ok(element) => Ok(TokenSigned::new(multiply(&self.secret, &element))),
            Err(e) => Err(e),
        }
    }

    /// Whether `token` was issued under this key pair: the token's element is
    /// compared, in constant time, with the secret times the element to which
    /// the nonce is hashed.
    pub fn verify(&self, token: &Token) -> (valid: bool)
        ensures
            valid == accepts(self@, token@),
            is_nonzero_scalar(self@),
    {
        proof {
            use_type_invariant(self);
        }
        let hashed = hash_message(&token.nonce_bytes());
        let expected = multiply(&self.secret, &hashed);
        same_bytes(&expected, &token.element_bytes())
    }
}

/// A frame of a key pair decodes to its secret.
pub proof fn lemma_keypair_round_trip(secret: Seq<u8>)
    requires
        is_nonzero_scalar(secret),
    ensures
        decode_keypair(frame_of_one(TAG_KEYPAIR, secret)) == Ok::<Seq<u8>, Error>(secret),
{
    lemma_frame_of_one(TAG_KEYPAIR, secret);
}

} // verus!
