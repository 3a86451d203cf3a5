use anon_tokens::codec::{check_frame, tag_of_frame, read_field, write_one, write_two};
use anon_tokens::constant_time::is_zero_bytes;
use anon_tokens::error::Error;
use anon_tokens::group::{check_element, is_identity};
use anon_tokens::keys::KeyPair;
use anon_tokens::scalar::{check_nonzero_scalar, scalar_from_seed};
use anon_tokens::tokens::{Token, TokenBlinded, TokenSigned};
use curve25519_dalek::ristretto::RistrettoPoint;
use curve25519_dalek::scalar::Scalar;
use sha2::Sha512;

const ORDER: [u8; 32] = [
    0xed, 0xd3, 0xf5, 0x5c, 0x1a, 0x63, 0x12, 0x58, 0xd6, 0x9c, 0xf7, 0xa2, 0xde, 0xf9, 0xde, 0x14,
    0x00, 0x00, 0x00, 0x00, 0x00, 0x00, 0x00, 0x00, 0x00, 0x00, 0x00, 0x00, 0x00, 0x00, 0x00, 0x10,
];

const BASE: [u8; 32] = [
    226, 242, 174, 10, 106, 188, 78, 113, 168, 132, 169, 97, 197, 0, 81, 95, 88, 227, 11, 106, 165,
    130, 221, 141, 182, 166, 89, 69, 224, 141, 45, 118,
];

fn wide(low: &[u8; 32]) -> [u8; 64] {
    let mut seed = [0u8; 64];
    seed[..32].copy_from_slice(low);
    seed
}

fn small(value: u8) -> [u8; 32] {
    let mut bytes = [0u8; 32];
    bytes[0] = value;
    bytes
}

#[test]
fn seed_is_reduced_by_the_order() {
    assert_eq!(scalar_from_seed(&wide(&small(5))), Some(small(5)));
    let mut above = ORDER;
    above[0] += 2;
    assert_eq!(scalar_from_seed(&wide(&above)), Some(small(2)));
    let mut high = [0u8; 64];
    high[32] = 1;
    let expected = Scalar::from_bytes_mod_order_wide(&high).to_bytes();
    assert_eq!(scalar_from_seed(&high), Some(expected));
    assert_ne!(expected, [0u8; 32]);
}

#[test]
fn seed_of_a_zero_scalar_gives_none() {
    assert_eq!(scalar_from_seed(&[0u8; 64]), None);
    assert_eq!(scalar_from_seed(&wide(&ORDER)), None);
    assert!(KeyPair::from_seed(&[0u8; 64]).is_none());
    assert!(KeyPair::from_seed(&wide(&ORDER)).is_none());
    assert!(TokenBlinded::from_seed([1u8; 32], &[0u8; 64]).is_none());
    assert!(TokenBlinded::from_seed([1u8; 32], &wide(&ORDER)).is_none());
}

#[test]
fn scalars_below_the_order_are_accepted() {
    assert!(check_nonzero_scalar(&small(1)));
    let mut below = ORDER;
    below[0] -= 1;
    assert!(check_nonzero_scalar(&below));
    assert!(!check_nonzero_scalar(&ORDER));
    assert!(!check_nonzero_scalar(&[0u8; 32]));
    assert!(!check_nonzero_scalar(&[255u8; 32]));
    let mut above = ORDER;
    above[0] += 1;
    assert!(!check_nonzero_scalar(&above));
}

#[test]
fn zero_bytes_are_recognised() {
    assert!(is_zero_bytes(&[0u8; 32]));
    assert!(!is_zero_bytes(&small(1)));
    let mut last = [0u8; 32];
    last[31] = 128;
    assert!(!is_zero_bytes(&last));
    assert!(is_identity(&[0u8; 32]));
    assert!(!is_identity(&BASE));
}

#[test]
fn elements_are_checked() {
    assert_eq!(check_element(&BASE), Ok(()));
    assert_eq!(check_element(&[0u8; 32]), Err(Error::SubgroupValidation));
    assert_eq!(check_element(&small(1)), Err(Error::Decoding));
    assert_eq!(check_element(&[255u8; 32]), Err(Error::Decoding));
}

#[test]
fn blinding_is_the_factor_times_the_hashed_nonce() {
    let nonce = [42u8; 32];
    let blinded = TokenBlinded::from_seed(nonce, &wide(&small(3))).unwrap();
    let hashed = RistrettoPoint::hash_from_bytes::<Sha512>(&nonce);
    let expected = (Scalar::from(3u8) * hashed).compress().to_bytes();
    assert_eq!(blinded.element_bytes(), expected);
    assert_eq!(blinded.nonce_bytes(), nonce);
    assert_ne!(expected, hashed.compress().to_bytes());
    let by_one = TokenBlinded::from_seed(nonce, &wide(&small(1))).unwrap();
    assert_eq!(by_one.element_bytes(), hashed.compress().to_bytes());
    assert_ne!(by_one.element_bytes(), nonce);
}

#[test]
fn hashing_tells_nonces_apart() {
    let one = TokenBlinded::from_seed([1u8; 32], &wide(&small(1))).unwrap();
    let other = TokenBlinded::from_seed([2u8; 32], &wide(&small(1))).unwrap();
    assert_ne!(one.element_bytes(), other.element_bytes());
}

#[test]
fn verify_compares_with_the_secret_times_the_hashed_nonce() {
    let nonce = [17u8; 32];
    let pair = KeyPair::from_seed(&wide(&small(9))).unwrap();
    let hashed = RistrettoPoint::hash_from_bytes::<Sha512>(&nonce);
    let element = (Scalar::from(9u8) * hashed).compress().to_bytes();
    let token = Token::from_parts(nonce, element).ok().unwrap();
    assert!(pair.verify(&token));
    let other = (Scalar::from(10u8) * hashed).compress().to_bytes();
    let forged = Token::from_parts(nonce, other).ok().unwrap();
    assert!(!pair.verify(&forged));
    let unsigned = Token::from_parts(nonce, hashed.compress().to_bytes()).ok().unwrap();
    assert!(!pair.verify(&unsigned));
}

#[test]
fn unblinding_multiplies_by_the_inverse() {
    let nonce = [3u8; 32];
    let factor = Scalar::from(123456789u64);
    let blinded = TokenBlinded::from_seed(nonce, &wide(&factor.to_bytes())).unwrap();
    let signed_point = RistrettoPoint::hash_from_bytes::<Sha512>(b"an answer");
    let mut answer = vec![1u8, 5];
    answer.extend_from_slice(&signed_point.compress().to_bytes());
    let signed = TokenSigned::from_bytes(&answer).ok().unwrap();
    let token = blinded.unblind(&signed).ok().unwrap();
    let expected = (factor.invert() * signed_point).compress().to_bytes();
    assert_eq!(token.element_bytes(), expected);
    assert_ne!(token.element_bytes(), signed.element_bytes());
}

#[test]
fn frames_are_written_and_read() {
    let one = write_one(4, &BASE);
    assert_eq!(one.len(), 34);
    assert_eq!(&one[..2], &[1u8, 4]);
    assert_eq!(&one[2..], &BASE);
    assert!(check_frame(&one, 4));
    assert!(!check_frame(&one, 5));
    assert!(!check_frame(&one, 6));
    assert_eq!(tag_of_frame(&one), Some(4));
    assert_eq!(read_field(&one, 0), BASE);
    let two = write_two(6, &[8u8; 32], &BASE);
    assert_eq!(two.len(), 66);
    assert_eq!(read_field(&two, 0), [8u8; 32]);
    assert_eq!(read_field(&two, 1), BASE);
    assert_eq!(tag_of_frame(&two), Some(6));
}

#[test]
fn what_is_no_frame_has_no_tag() {
    assert_eq!(tag_of_frame(&[]), None);
    assert_eq!(tag_of_frame(&[1]), None);
    assert_eq!(tag_of_frame(&[1, 4]), None);
    assert_eq!(tag_of_frame(&write_one(0, &BASE)), None);
    assert_eq!(tag_of_frame(&write_one(7, &BASE)), None);
    assert_eq!(tag_of_frame(&write_one(6, &BASE)), None);
    assert_eq!(tag_of_frame(&write_two(4, &BASE, &BASE)), None);
    let mut other_version = write_one(4, &BASE);
    other_version[0] = 0;
    assert_eq!(tag_of_frame(&other_version), None);
    assert!(!check_frame(&other_version, 4));
}

#[test]
fn multiples_compose() {
    let first = Scalar::from(987654321u64);
    let second = Scalar::from_bytes_mod_order([0xa7u8; 32]);
    let inner = KeyPair::from_seed(&wide(&first.to_bytes())).unwrap();
    let outer = KeyPair::from_seed(&wide(&second.to_bytes())).unwrap();
    let both = KeyPair::from_seed(&wide(&(second * first).to_bytes())).unwrap();
    let once = inner.sign(&write_one(4, &BASE)).ok().unwrap();
    let twice = outer.sign(&write_one(4, &once.element_bytes())).ok().unwrap();
    let at_once = both.sign(&write_one(4, &BASE)).ok().unwrap();
    assert_eq!(twice.element_bytes(), at_once.element_bytes());
    assert_ne!(twice.element_bytes(), once.element_bytes());
}

#[test]
fn unblinding_undoes_blinding() {
    let nonce = [77u8; 32];
    let factor = Scalar::from_bytes_mod_order([0x5cu8; 32]);
    let blinded = TokenBlinded::from_seed(nonce, &wide(&factor.to_bytes())).unwrap();
    let echoed = TokenSigned::from_bytes(&write_one(5, &blinded.element_bytes())).ok().unwrap();
    let token = blinded.unblind(&echoed).ok().unwrap();
    let hashed = RistrettoPoint::hash_from_bytes::<Sha512>(&nonce).compress().to_bytes();
    assert_eq!(token.element_bytes(), hashed);
    let one = KeyPair::from_seed(&wide(&small(1))).unwrap();
    assert!(one.verify(&token));
}
