use base64::prelude::{Engine, BASE64_STANDARD};
use strange_cipher::cipher::{decipher, decrypt, encipher, encrypt, seal};
use strange_cipher::error::SessionError;
use strange_cipher::keystream::generate_key_stream;

fn lorenz_attractor(
    x: f64,
    x_prime: Option<f64>,
    y: f64,
    z: f64,
    sigma: f64,
    rho: f64,
    beta: f64,
    h: f64,
) -> (f64, f64, f64) {
    let used_x = x_prime.unwrap_or(x);
    let new_x = used_x + (sigma * (y - used_x)) * h;
    let new_y = y + (used_x * (rho - z) - y) * h;
    let new_z = z + (used_x * y - beta * z) * h;
    (new_x, new_y, new_z)
}

fn first_sample() -> u64 {
    let state = lorenz_attractor(-10.0, None, -7.0, 35.0, 25.0, 2.0, 8.0 / 3.0, 0.01);
    state.1.to_bits()
}

#[test]
fn test_encrypt() {
    let key_stream = generate_key_stream(first_sample());
    let message = "Hello, Testing!";

    let encrypted = BASE64_STANDARD.encode(encrypt(message, &key_stream));

    assert_eq!("QrLPHFImLZRvpNcZU20s", encrypted);
}

#[test]
fn test_encrypt_empty_message() {
    let key_stream = generate_key_stream(first_sample());
    let message = "";

    let encrypted = BASE64_STANDARD.encode(encrypt(message, &key_stream));

    assert_eq!("", encrypted);
}

#[test]
fn test_decrypt_synced() {
    let key_stream = generate_key_stream(first_sample());

    let encrypted_message = "QrLPHFImLZRvpNcZU20s";
    let decrypted =
        String::from_utf8(decrypt(encrypted_message, &key_stream).unwrap()).unwrap();
    assert_eq!("Hello, Testing!", decrypted);
}

#[test]
fn test_decrypt_empty_message_synced() {
    let key_stream = generate_key_stream(first_sample());

    let encrypted_message = "";
    let decrypted =
        String::from_utf8(decrypt(encrypted_message, &key_stream).unwrap()).unwrap();
    assert_eq!("", decrypted);
}

#[test]
fn key_stream_repeats_one_sample() {
    let key_stream = generate_key_stream(first_sample());
    assert_eq!(
        key_stream,
        vec![
            0x0a, 0xd7, 0xa3, 0x70, 0x3d, 0x0a, 0x0d, 0xc0, 0x0a, 0xd7, 0xa3, 0x70, 0x3d, 0x0a,
            0x0d, 0xc0
        ]
    );
}

#[test]
fn encipher_xors_with_the_repeating_window() {
    let window = [0x01u8, 0x02, 0x04];
    let message = [0xffu8, 0xff, 0xff, 0x00, 0x10];
    assert_eq!(encipher(&message, &window), vec![0xfe, 0xfd, 0xfb, 0x01, 0x12]);
}

#[test]
fn decipher_inverts_encipher() {
    let window: Vec<u8> = (0u8..16).map(|i| i.wrapping_mul(37).wrapping_add(11)).collect();
    let message: Vec<u8> = (0u8..=255).collect();
    let ciphertext = encipher(&message, &window);
    assert_ne!(ciphertext, message);
    assert_eq!(decipher(&ciphertext, &window), message);
}

#[test]
fn empty_message_gives_empty_ciphertext() {
    let window = [7u8; 16];
    assert_eq!(encipher(&[], &window), Vec::<u8>::new());
    assert_eq!(decipher(&[], &window), Vec::<u8>::new());
}

#[test]
fn seal_is_the_base64_of_the_ciphertext() {
    let key_stream = generate_key_stream(first_sample());
    assert_eq!(
        seal("Hello, Testing!", &key_stream),
        Some("QrLPHFImLZRvpNcZU20s".to_string())
    );
    assert_eq!(seal("", &key_stream), Some(String::new()));
}

#[test]
fn decrypt_rejects_text_that_is_not_base64() {
    let key_stream = generate_key_stream(first_sample());
    assert_eq!(
        decrypt("not base64!", &key_stream),
        Err(SessionError::ProtocolViolation)
    );
    assert_eq!(decrypt("QrLPH", &key_stream), Err(SessionError::ProtocolViolation));
}
