//! The three stages of a token: blinded by the client, signed by the issuer,
//! unblinded into the token that is later presented.

use crate::codec::{
    check_frame, field, field_count, frame_of_one, frame_of_two, is_frame, lemma_frame_of_one,
    lemma_frame_of_two, read_field, write_one, write_two, TAG_BLINDED, TAG_REQUEST, TAG_SIGNED,
    TAG_TOKEN,
};
use crate::error::Error;
use crate::group::{
    check_element, element_check, hash_message, hash_to_element, identity_encoding,
    is_group_element, is_identity, is_proper_element, is_scaling, multiply, scalar_multiple,
};
use crate::scalar::{
    check_nonzero_scalar, group_order, inverse_of, invert, is_inverse_pair, is_nonzero_scalar,
    le_value, lemma_inverse_of, scalar_from_seed,
};
use vstd::prelude::*;

verus! {

/// Number of bytes in a nonce.
pub const NONCE_LEN: usize = 32;

/// What a blinded token holds: the nonce, the blinding factor's encoding and
/// the encoding of the blinded element.
pub struct BlindedView {
    pub nonce: Seq<u8>,
    pub factor: Seq<u8>,
    pub element: Seq<u8>,
}

/// What a token holds: the nonce and the encoding of the unblinded element.
pub struct TokenView {
    pub nonce: Seq<u8>,
    pub element: Seq<u8>,
}

/// `blinded` is what blinding makes of its nonce and factor: the factor is a
/// scalar other than zero, and the element is the factor times the element
/// to which the nonce is hashed.
pub open spec fn is_blinding(blinded: BlindedView) -> bool {
    &&& blinded.nonce.len() == NONCE_LEN
    &&& is_nonzero_scalar(blinded.factor)
    &&& blinded.element.len() == 32
    &&& is_scaling(blinded.element, le_value(blinded.factor), hash_to_element(blinded.nonce))
}

/// `token` is what unblinding makes of `blinded` and the signed element: it
/// keeps the nonce, and its element is the signed element times the inverse
/// of the blinding factor.
pub open spec fn is_unblinding(token: TokenView, blinded: BlindedView, signed: Seq<u8>) -> bool {
    &&& token.nonce == blinded.nonce
    &&& is_inverse_pair(le_value(blinded.factor), inverse_of(le_value(blinded.factor)))
    &&& is_scaling(token.element, inverse_of(le_value(blinded.factor)), signed)
}

/// The element that unblinding makes of the signed element: the signed
/// element times the inverse of the blinding factor.
pub open spec fn unblinded_element(blinded: BlindedView, signed: Seq<u8>) -> Seq<u8> {
    scalar_multiple(inverse_of(le_value(blinded.factor)), signed)
}

/// The blinded token that a frame holds: nonce and factor travel, and the
/// element is made from them again.
pub open spec fn decode_blinded(bytes: Seq<u8>) -> Result<BlindedView, Error> {
    if !is_frame(bytes, TAG_BLINDED) || !is_nonzero_scalar(field(bytes, 1)) {
        Err(Error::Decoding)
    } else {
        Ok(
            BlindedView {
                nonce: field(bytes, 0),
                factor: field(bytes, 1),
                element: scalar_multiple(
                    le_value(field(bytes, 1)),
                    hash_to_element(field(bytes, 0)),
                ),
            },
        )
    }
}

/// The element that a frame of `tag` with one element holds.
pub open spec fn decode_element(bytes: Seq<u8>, tag: u8) -> Result<Seq<u8>, Error> {
    if !is_frame(bytes, tag) {
        Err(Error::Decoding)
    } else {
        match element_check(field(bytes, 0)) {
            Ok(_) => Ok(field(bytes, 0)),
            Err(e) => Err(e),
        }
    }
}

/// The blinded element that a client's request holds.
pub open spec fn decode_request(bytes: Seq<u8>) -> Result<Seq<u8>, Error> {
    decode_element(bytes, TAG_REQUEST)
}

/// The signed element that an issuer's answer holds.
pub open spec fn decode_signed(bytes: Seq<u8>) -> Result<Seq<u8>, Error> {
    decode_element(bytes, TAG_SIGNED)
}

/// The token that a frame holds.
pub open spec fn decode_token(bytes: Seq<u8>) -> Result<TokenView, Error> {
    if !is_frame(bytes, TAG_TOKEN) {
        Err(Error::Decoding)
    } else {
        match element_check(field(bytes, 1)) {
            Ok(_) => Ok(TokenView { nonce: field(bytes, 0), element: field(bytes, 1) }),
            Err(e) => Err(e),
        }
    }
}

/// Reads the one element of a frame of `tag` and checks it.
pub fn read_element(bytes: &[u8], tag: u8) -> (outcome: Result<[u8; 32], Error>)
    ensures
        match outcome {
            Ok(element) => decode_element(bytes@, tag) == Ok::<Seq<u8>, Error>(element@)
                && is_proper_element(element@),
            Err(e) => decode_element(bytes@, tag) == Err::<Seq<u8>, Error>(e),
        },
{
    if !check_frame(bytes, tag) {
        return Err(Error::Decoding);
    }
    let element = read_field(bytes, 0);
    match check_element(&element) {
        Ok(_) => Ok(element),
        Err(e) => Err(e),
    }
}

/// The issuer's answer to a request: the signed element.
pub struct TokenSigned {
    element: [u8; 32],
}

impl View for TokenSigned {
    type V = Seq<u8>;

    closed spec fn view(&self) -> Seq<u8> {
        self.element@
    }
}

impl TokenSigned {
    #[verifier::type_invariant]
    spec fn well_formed(self) -> bool {
        is_group_element(self.element@)
    }

    /// A signed element that the issuer has just computed.
    pub(crate) fn new(element: [u8; 32]) -> (signed: TokenSigned)
        requires
            is_group_element(element@),
        ensures
            signed@ == element@,
    {
        TokenSigned { element }
    }

    /// The encoding of the signed element.
    pub fn element_bytes(&self) -> (element: [u8; 32])
        ensures
            element@ == self@,
            is_group_element(self@),
    {
        proof {
            use_type_invariant(self);
        }
        self.element
    }

    /// The frame in which the answer travels to the client.
    pub fn to_bytes(&self) -> (bytes: Vec<u8>)
        ensures
            bytes@ == frame_of_one(TAG_SIGNED, self@),
            self@.len() == 32,
    {
        write_one(TAG_SIGNED, &self.element)
    }

    /// The answer that a frame holds. A frame of another entity or length does
    /// not decode, nor does an encoding of no element; the identity is refused.
    pub fn from_bytes(bytes: &[u8]) -> (outcome: Result<TokenSigned, Error>)
        ensures
            match outcome {
                Ok(signed) => decode_signed(bytes@) == Ok::<Seq<u8>, Error>(signed@),
                Err(e) => decode_signed(bytes@) == Err::<Seq<u8>, Error>(e),
            },
    {
        match read_element(bytes, TAG_SIGNED) {
            Ok(element) => Ok(TokenSigned { element }),
            Err(e) => Err(e),
        }
    }
}

/// The credential that a client presents: the nonce and the issuer's
/// signature on it, with the blinding taken off.
pub struct Token {
    nonce: [u8; 32],
    element: [u8; 32],
}

impl View for Token {
    type V = TokenView;

    closed spec fn view(&self) -> TokenView {
        TokenView { nonce: self.nonce@, element: self.element@ }
    }
}

impl Token {
    #[verifier::type_invariant]
    spec fn well_formed(self) -> bool {
        is_proper_element(self.element@)
    }

    /// The nonce of the token.
    pub fn nonce_bytes(&self) -> (nonce: [u8; 32])
        ensures
            nonce@ == self@.nonce,
    {
        self.nonce
    }

    /// The encoding of the token's element.
    pub fn element_bytes(&self) -> (element: [u8; 32])
        ensures
            element@ == self@.element,
            is_proper_element(self@.element),
    {
        proof {
            use_type_invariant(self);
        }
        self.element
    }

    /// The token of a nonce and an element that came from outside: the
    /// element must decode and must not be the identity.
    pub fn from_parts(nonce: [u8; 32], element: [u8; 32]) -> (outcome: Result<Token, Error>)
        ensures
            match outcome {
                Ok(token) => element_check(element@) is Ok && token@ == (TokenView {
                    nonce: nonce@,
                    element: element@,
                }),
                Err(e) => element_check(element@) == Err::<(), Error>(e),
            },
    {
        match check_element(&element) {
            Ok(_) => Ok(Token { nonce, element }),
            Err(e) => Err(e),
        }
    }

    /// The frame in which the token travels.
    pub fn to_bytes(&self) -> (bytes: Vec<u8>)
        ensures
            bytes@ == frame_of_two(TAG_TOKEN, self@.nonce, self@.element),
            self@.nonce.len() == NONCE_LEN,
            self@.element.len() == 32,
    {
        write_two(TAG_TOKEN, &self.nonce, &self.element)
    }

    /// The token that a frame holds. A frame of another entity or length does
    /// not decode, nor does an encoding of no element; the identity is refused.
    pub fn from_bytes(bytes: &[u8]) -> (outcome: Result<Token, Error>)
        ensures
            match outcome {
                Ok(token) => decode_token(bytes@) == Ok::<TokenView, Error>(token@),
                Err(e) => decode_token(bytes@) == Err::<TokenView, Error>(e),
            },
    {
        if !check_frame(bytes, TAG_TOKEN) {
            return Err(Error::Decoding);
        }
        let nonce = read_field(bytes, 0);
        let element = read_field(bytes, 1);
        match check_element(&element) {
            Ok(_) => Ok(Token { nonce, element }),
            Err(e) => Err(e),
        }
    }
}

/// What the client keeps between its request and the issuer's answer: the
/// nonce, the blinding factor and the blinded element. Only the element is
/// sent.
pub struct TokenBlinded {
    nonce: [u8; 32],
    factor: [u8; 32],
    element: [u8; 32],
}

impl View for TokenBlinded {
    type V = BlindedView;

    closed spec fn view(&self) -> BlindedView {
        BlindedView { nonce: self.nonce@, factor: self.factor@, element: self.element@ }
    }
}

impl TokenBlinded {
    #[verifier::type_invariant]
    spec fn well_formed(self) -> bool {
        is_blinding(self@)
    }

    /// Blinds `nonce` with `factor`.
    fn blind(nonce: [u8; 32], factor: [u8; 32]) -> (blinded: TokenBlinded)
        requires
            is_nonzero_scalar(factor@),
        ensures
            blinded@.nonce == nonce@,
            blinded@.factor == factor@,
            is_blinding(blinded@),
    {
        let hashed = hash_message(&nonce);
        let element = multiply(&factor, &hashed);
        TokenBlinded { nonce, factor, element }
    }

    /// The blinded token of a nonce and of 64 random bytes, from which the
    /// blinding factor is taken; none where that factor would be zero.
    pub fn from_seed(nonce: [u8; 32], seed: &[u8; 64]) -> (outcome: Option<TokenBlinded>)
        ensures
            match outcome {
                Some(blinded) => {
                    &&& blinded@.nonce == nonce@
                    &&& le_value(blinded@.factor) == le_value(seed@) % group_order()
                    &&& is_blinding(blinded@)
                },
                None => le_value(seed@) % group_order() == 0,
            },
    {
        match scalar_from_seed(seed) {
            Some(factor) => Some(TokenBlinded::blind(nonce, factor)),
            None => None,
        }
    }

    /// The nonce that was blinded.
    pub fn nonce_bytes(&self) -> (nonce: [u8; 32])
        ensures
            nonce@ == self@.nonce,
            is_blinding(self@),
    {
        proof {
            use_type_invariant(self);
        }
        self.nonce
    }

    /// The encoding of the blinded element, the one part that the issuer sees.
    pub fn element_bytes(&self) -> (element: [u8; 32])
        ensures
            element@ == self@.element,
            is_blinding(self@),
    {
        proof {
            use_type_invariant(self);
        }
        self.element
    }

    /// The frame that is sent to the issuer: it holds the blinded element and
    /// nothing else.
    pub fn to_bytes(&self) -> (bytes: Vec<u8>)
        ensures
            bytes@ == frame_of_one(TAG_REQUEST, self@.element),
    {
        write_one(TAG_REQUEST, &self.element)
    }

    /// The frame in which the client keeps the blinded token: nonce and
    /// blinding factor. It is not for the issuer.
    pub fn to_secret_bytes(&self) -> (bytes: Vec<u8>)
        ensures
            bytes@ == frame_of_two(TAG_BLINDED, self@.nonce, self@.factor),
    {
        write_two(TAG_BLINDED, &self.nonce, &self.factor)
    }

    /// The blinded token that the client kept in a frame. A frame of another
    /// entity or length does not decode, nor does a factor that is zero or no
    /// scalar.
    pub fn from_secret_bytes(bytes: &[u8]) -> (outcome: Result<TokenBlinded, Error>)
        ensures
            match outcome {
                Ok(blinded) => decode_blinded(bytes@) == Ok::<BlindedView, Error>(blinded@)
                    && is_blinding(blinded@),
                Err(e) => decode_blinded(bytes@) == Err::<BlindedView, Error>(e),
            },
    {
        if !check_frame(bytes, TAG_BLINDED) {
            return Err(Error::Decoding);
        }
        let nonce = read_field(bytes, 0);
        let factor = read_field(bytes, 1);
        if !check_nonzero_scalar(&factor) {
            return Err(Error::Decoding);
        }
        Ok(TokenBlinded::blind(nonce, factor))
    }

    /// Takes the blinding off the issuer's answer. The identity is refused,
    /// as an answer and as what the answer unblinds to; any other answer gives
    /// a token with the nonce of the blinded token.
    pub fn unblind(&self, signed: &TokenSigned) -> (outcome: Result<Token, Error>)
        ensures
            match outcome {
                Ok(token) => {
                    &&& signed@ != identity_encoding()
                    &&& is_unblinding(token@, self@, signed@)
                    &&& is_proper_element(token@.element)
                },
                Err(e) => {
                    &&& e == Error::SubgroupValidation
                    &&& signed@ == identity_encoding() || unblinded_element(self@, signed@)
                        == identity_encoding()
                },
            },
    {
        proof {
            use_type_invariant(self);
        }
        let answer = signed.element_bytes();
        if is_identity(&answer) {
            return Err(Error::SubgroupValidation);
        }
        let inverse = invert(&self.factor);
        proof {
            lemma_inverse_of(le_value(self.factor@), le_value(inverse@));
        }
        let element = multiply(&inverse, &answer);
        if is_identity(&element) {
            return Err(Error::SubgroupValidation);
        }
        Ok(Token { nonce: self.nonce, element })
    }
}

/// A frame of a blinded token decodes to what it was made from.
pub proof fn lemma_blinded_round_trip(blinded: BlindedView)
    requires
        is_blinding(blinded),
    ensures
        decode_blinded(frame_of_two(TAG_BLINDED, blinded.nonce, blinded.factor)) == Ok::<
            BlindedView,
            Error,
        >(blinded),
{
    lemma_frame_of_two(TAG_BLINDED, blinded.nonce, blinded.factor);
}

/// A frame of a proper element decodes to that element.
pub proof fn lemma_element_round_trip(element: Seq<u8>, tag: u8)
    requires
        field_count(tag) == Some(1nat),
        element.len() == 32,
        is_proper_element(element),
    ensures
        decode_element(frame_of_one(tag, element), tag) == Ok::<Seq<u8>, Error>(element),
{
    lemma_frame_of_one(tag, element);
}

/// A frame of a token with a proper element decodes to that token.
pub proof fn lemma_token_round_trip(token: TokenView)
    requires
        token.nonce.len() == NONCE_LEN,
        token.element.len() == 32,
        is_proper_element(token.element),
    ensures
        decode_token(frame_of_two(TAG_TOKEN, token.nonce, token.element)) == Ok::<
            TokenView,
            Error,
        >(token),
{
    lemma_frame_of_two(TAG_TOKEN, token.nonce, token.element);
}

} // verus!
