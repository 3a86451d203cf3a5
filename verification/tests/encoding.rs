use anon_tokens::error::Error;
use anon_tokens::keys::{KeyPair, PublicParams};
use anon_tokens::tokens::{Token, TokenBlinded, TokenSigned};

const ORDER: [u8; 32] = [
    0xed, 0xd3, 0xf5, 0x5c, 0x1a, 0x63, 0x12, 0x58, 0xd6, 0x9c, 0xf7, 0xa2, 0xde, 0xf9, 0xde, 0x14,
    0x00, 0x00, 0x00, 0x00, 0x00, 0x00, 0x00, 0x00, 0x00, 0x00, 0x00, 0x00, 0x00, 0x00, 0x00, 0x10,
];

const BASE: [u8; 32] = [
    226, 242, 174, 10, 106, 188, 78, 113, 168, 132, 169, 97, 197, 0, 81, 95, 88, 227, 11, 106, 165,
    130, 221, 141, 182, 166, 89, 69, 224, 141, 45, 118,
];

fn frame(tag: u8, fields: &[&[u8]]) -> Vec<u8> {
    let mut out = vec![1u8, tag];
    for field in fields {
        out.extend_from_slice(field);
    }
    out
}

fn seed_of(value: u8) -> [u8; 64] {
    let mut seed = [0u8; 64];
    seed[0] = value;
    seed
}

fn small(value: u8) -> [u8; 32] {
    let mut bytes = [0u8; 32];
    bytes[0] = value;
    bytes
}

#[test]
fn keypair_frame_holds_the_secret() {
    let pair = KeyPair::from_seed(&seed_of(5)).unwrap();
    assert_eq!(pair.to_bytes(), frame(1, &[&small(5)]));
    let again = KeyPair::from_bytes(&pair.to_bytes()).ok().unwrap();
    assert_eq!(again.to_bytes(), pair.to_bytes());
}

#[test]
fn keypair_frame_is_checked() {
    assert_eq!(KeyPair::from_bytes(&frame(1, &[&[0u8; 32]])).err(), Some(Error::Decoding));
    assert_eq!(KeyPair::from_bytes(&frame(1, &[&ORDER])).err(), Some(Error::Decoding));
    assert_eq!(KeyPair::from_bytes(&frame(1, &[&[255u8; 32]])).err(), Some(Error::Decoding));
    assert_eq!(KeyPair::from_bytes(&frame(2, &[&small(5)])).err(), Some(Error::Decoding));
    assert_eq!(KeyPair::from_bytes(&small(5)).err(), Some(Error::Decoding));
    assert_eq!(KeyPair::from_bytes(&[]).err(), Some(Error::Decoding));
    assert_eq!(KeyPair::from_bytes(&[1]).err(), Some(Error::Decoding));
    assert_eq!(KeyPair::from_bytes(&frame(1, &[&small(5), &[0u8]])).err(), Some(Error::Decoding));
    let mut other_version = frame(1, &[&small(5)]);
    other_version[0] = 3;
    assert_eq!(KeyPair::from_bytes(&other_version).err(), Some(Error::Decoding));
    assert!(KeyPair::from_bytes(&frame(1, &[&small(5)])).is_ok());
}

#[test]
fn public_params_frame_holds_the_element() {
    let params = PublicParams::from_bytes(&frame(2, &[&BASE])).ok().unwrap();
    assert_eq!(params.element_bytes(), BASE);
    assert_eq!(params.to_bytes(), frame(2, &[&BASE]));
    assert_eq!(PublicParams::from_bytes(&frame(2, &[&small(1)])).err(), Some(Error::Decoding));
    assert_eq!(PublicParams::from_bytes(&frame(4, &[&BASE])).err(), Some(Error::Decoding));
}

#[test]
fn blinded_frames_hold_what_they_should() {
    let blinded = TokenBlinded::from_seed([6u8; 32], &seed_of(4)).unwrap();
    let kept = blinded.to_secret_bytes();
    assert_eq!(kept, frame(3, &[&[6u8; 32], &small(4)]));
    let sent = blinded.to_bytes();
    assert_eq!(sent, frame(4, &[&blinded.element_bytes()]));
    let again = TokenBlinded::from_secret_bytes(&kept).ok().unwrap();
    assert_eq!(again.element_bytes(), blinded.element_bytes());
    assert_eq!(again.nonce_bytes(), [6u8; 32]);
    assert_eq!(again.to_secret_bytes(), kept);
}

#[test]
fn blinded_frame_is_checked() {
    let nonce = [6u8; 32];
    assert_eq!(
        TokenBlinded::from_secret_bytes(&frame(3, &[&nonce, &[0u8; 32]])).err(),
        Some(Error::Decoding)
    );
    assert_eq!(
        TokenBlinded::from_secret_bytes(&frame(3, &[&nonce, &ORDER])).err(),
        Some(Error::Decoding)
    );
    assert_eq!(TokenBlinded::from_secret_bytes(&frame(3, &[&nonce])).err(), Some(Error::Decoding));
    assert_eq!(
        TokenBlinded::from_secret_bytes(&frame(6, &[&nonce, &small(4)])).err(),
        Some(Error::Decoding)
    );
}

#[test]
fn signed_frame_holds_the_element() {
    let signed = TokenSigned::from_bytes(&frame(5, &[&BASE])).ok().unwrap();
    assert_eq!(signed.element_bytes(), BASE);
    assert_eq!(signed.to_bytes(), frame(5, &[&BASE]));
    assert_eq!(
        TokenSigned::from_bytes(&frame(5, &[&[0u8; 32]])).err(),
        Some(Error::SubgroupValidation)
    );
    assert_eq!(TokenSigned::from_bytes(&frame(5, &[&small(1)])).err(), Some(Error::Decoding));
    assert_eq!(TokenSigned::from_bytes(&frame(4, &[&BASE])).err(), Some(Error::Decoding));
}

#[test]
fn token_frame_holds_nonce_and_element() {
    let token = Token::from_parts([7u8; 32], BASE).ok().unwrap();
    assert_eq!(token.to_bytes(), frame(6, &[&[7u8; 32], &BASE]));
    let again = Token::from_bytes(&token.to_bytes()).ok().unwrap();
    assert_eq!(again.nonce_bytes(), [7u8; 32]);
    assert_eq!(again.element_bytes(), BASE);
    assert_eq!(
        Token::from_bytes(&frame(6, &[&[7u8; 32], &[0u8; 32]])).err(),
        Some(Error::SubgroupValidation)
    );
    assert_eq!(Token::from_bytes(&frame(6, &[&[7u8; 32], &small(1)])).err(), Some(Error::Decoding));
    assert_eq!(Token::from_bytes(&frame(6, &[&BASE])).err(), Some(Error::Decoding));
    assert_eq!(Token::from_bytes(&frame(3, &[&[7u8; 32], &BASE])).err(), Some(Error::Decoding));
}
