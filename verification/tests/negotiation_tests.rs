use strange_cipher::error::SessionError;
use strange_cipher::negotiation::{scalar_of, KeyMaterial, KEY_LEN, SCALAR_INDEX};

fn hex(text: &str) -> Vec<u8> {
    (0..text.len() / 2).map(|i| u8::from_str_radix(&text[2 * i..2 * i + 2], 16).unwrap()).collect()
}

const ALICE_SECRET: &str = "77076d0a7318a57d3c16c17251b26645df4c2f87ebc0992ab177fba51db92c2a";
const ALICE_PUBLIC: &str = "8520f0098930a754748b7ddcb43ef75a0dbf3a0d26381af4eba4a98eaa9b4e6a";
const BOB_SECRET: &str = "5dab087e624a8a4b79e17f8b83800ee66f3bb1292618b6fd1c2f8b27ff88e0eb";
const BOB_PUBLIC: &str = "de9edb7d7b7dc1b4d35b61c2ece435373f8343c85b78674dadfc7e146f882b4f";
const SHARED: &str = "4a5d9d5ba4ce2de1728e3bf480350f25e07e21c947d19e3376f09b3c1e161742";

#[test]
fn public_keys_match_the_known_answers() {
    let alice = KeyMaterial::from_secret(&hex(ALICE_SECRET)).unwrap();
    let bob = KeyMaterial::from_secret(&hex(BOB_SECRET)).unwrap();
    assert_eq!(alice.public_key(), hex(ALICE_PUBLIC));
    assert_eq!(bob.public_key(), hex(BOB_PUBLIC));
}

#[test]
fn both_peers_derive_the_same_scalar() {
    let alice = KeyMaterial::from_secret(&hex(ALICE_SECRET)).unwrap();
    let bob = KeyMaterial::from_secret(&hex(BOB_SECRET)).unwrap();
    let alice_public = alice.public_key();
    let bob_public = bob.public_key();

    let expected = hex(SHARED)[SCALAR_INDEX];
    assert_eq!(expected, 0x3b);
    assert_eq!(alice.agree(&bob_public), Ok(expected));
    assert_eq!(bob.agree(&alice_public), Ok(expected));
}

#[test]
fn scalar_is_read_at_offset_ten() {
    assert_eq!(SCALAR_INDEX, 10);
    assert_eq!(KEY_LEN, 32);

    let numbered: Vec<u8> = (100..132u8).collect();
    assert_eq!(scalar_of(&numbered), 110);
    assert_eq!(scalar_of(&hex(SHARED)), 0x3b);

    let mut marked = [0u8; 32];
    marked[10] = 255;
    assert_eq!(scalar_of(&marked), 255);
    marked[10] = 0;
    marked[9] = 7;
    marked[11] = 9;
    assert_eq!(scalar_of(&marked), 0);
}

#[test]
fn secret_of_wrong_length_gives_no_key_pair() {
    assert!(KeyMaterial::from_secret(&[0u8; 31]).is_none());
    assert!(KeyMaterial::from_secret(&[0u8; 33]).is_none());
    assert!(KeyMaterial::from_secret(&[]).is_none());
    assert!(KeyMaterial::from_secret(&[0u8; 32]).is_some());
}

#[test]
fn key_frame_of_wrong_length_is_a_protocol_violation() {
    let alice = KeyMaterial::from_secret(&hex(ALICE_SECRET)).unwrap();
    assert_eq!(alice.agree(&[0u8; 31]), Err(SessionError::ProtocolViolation));
    let alice = KeyMaterial::from_secret(&hex(ALICE_SECRET)).unwrap();
    assert_eq!(alice.agree(&[0u8; 33]), Err(SessionError::ProtocolViolation));
    let alice = KeyMaterial::from_secret(&hex(ALICE_SECRET)).unwrap();
    assert_eq!(alice.agree(&[]), Err(SessionError::ProtocolViolation));
}

#[test]
fn generated_key_pairs_are_fresh_and_agree() {
    let first = KeyMaterial::generate().unwrap();
    let second = KeyMaterial::generate().unwrap();
    let first_public = first.public_key();
    let second_public = second.public_key();
    assert_eq!(first_public.len(), KEY_LEN);
    assert_eq!(second_public.len(), KEY_LEN);
    assert_ne!(first_public, second_public);

    let one = first.agree(&second_public).unwrap();
    let other = second.agree(&first_public).unwrap();
    assert_eq!(one, other);
}
