use strange_cipher::cipher::{find_fingerprint, locate_window, FINGERPRINT_LEN, WINDOW_LEN};
use strange_cipher::error::SessionError;
use strange_cipher::keystream::{generate_key_stream, KeyStreamBuffer, SAMPLE_LEN};

#[test]
fn harvest_appends_eight_bytes_per_sample() {
    let mut buffer = KeyStreamBuffer::new();
    assert_eq!(buffer.len(), 0);
    buffer.harvest(0x0807060504030201);
    assert_eq!(buffer.len(), SAMPLE_LEN);
    assert_eq!(buffer.as_slice(), &[1, 2, 3, 4, 5, 6, 7, 8]);
    buffer.harvest((-3.63f64).to_bits());
    assert_eq!(
        buffer.as_slice(),
        &[1, 2, 3, 4, 5, 6, 7, 8, 0x0a, 0xd7, 0xa3, 0x70, 0x3d, 0x0a, 0x0d, 0xc0]
    );
}

#[test]
fn window_is_taken_from_the_start_and_never_seen_again() {
    let mut buffer = KeyStreamBuffer::new();
    assert_eq!(buffer.take_window(), None);
    buffer.harvest(1);
    assert_eq!(buffer.take_window(), None);
    assert_eq!(buffer.len(), 8);
    buffer.harvest(2);
    buffer.harvest(3);
    assert_eq!(
        buffer.take_window(),
        Some(vec![1, 0, 0, 0, 0, 0, 0, 0, 2, 0, 0, 0, 0, 0, 0, 0])
    );
    assert_eq!(buffer.as_slice(), &[3, 0, 0, 0, 0, 0, 0, 0]);
    assert_eq!(buffer.take_window(), None);
}

#[test]
fn generated_key_stream_is_one_window_long() {
    let key_stream = generate_key_stream(0x1122334455667788);
    assert_eq!(key_stream.len(), WINDOW_LEN);
    assert_eq!(
        key_stream,
        vec![
            0x88, 0x77, 0x66, 0x55, 0x44, 0x33, 0x22, 0x11, 0x88, 0x77, 0x66, 0x55, 0x44, 0x33,
            0x22, 0x11
        ]
    );
}

fn numbered(n: usize) -> Vec<u8> {
    (0..n).map(|i| i as u8).collect()
}

#[test]
fn fingerprint_is_found_at_the_offset_of_its_window() {
    let buffer = numbered(64);
    for k in 0..=(64 - WINDOW_LEN) {
        let window = &buffer[k..k + WINDOW_LEN];
        let fingerprint = &window[..FINGERPRINT_LEN];
        assert_eq!(find_fingerprint(&buffer, fingerprint), Some(k));
        assert_eq!(locate_window(&buffer, fingerprint), Ok(window.to_vec()));
    }
}

#[test]
fn search_returns_the_first_of_several_occurrences() {
    let mut buffer = vec![9u8; 5];
    buffer.extend_from_slice(&[1, 2, 3, 4, 5, 6, 7, 8]);
    buffer.extend_from_slice(&[0u8; 11]);
    buffer.extend_from_slice(&[1, 2, 3, 4, 5, 6, 7, 8]);
    buffer.extend_from_slice(&[7u8; 20]);
    let fingerprint = [1, 2, 3, 4, 5, 6, 7, 8];
    assert_eq!(find_fingerprint(&buffer, &fingerprint), Some(5));
    let mut expected = vec![1, 2, 3, 4, 5, 6, 7, 8];
    expected.extend_from_slice(&[0u8; 8]);
    assert_eq!(locate_window(&buffer, &fingerprint), Ok(expected));
}

#[test]
fn overlapping_candidates_are_told_apart() {
    let buffer = [1u8, 1, 1, 1, 1, 1, 1, 1, 2, 0, 0, 0, 0, 0, 0, 0, 0, 0, 0, 0, 0, 0, 0, 0, 0];
    let fingerprint = [1u8, 1, 1, 1, 1, 1, 1, 2];
    assert_eq!(find_fingerprint(&buffer, &fingerprint), Some(1));
}

#[test]
fn missing_fingerprint_is_a_lookup_failure() {
    let buffer = numbered(64);
    let fingerprint = [1u8, 2, 3, 4, 5, 6, 7, 9];
    assert_eq!(find_fingerprint(&buffer, &fingerprint), None);
    assert_eq!(locate_window(&buffer, &fingerprint), Err(SessionError::LookupFailure));
    assert_eq!(find_fingerprint(&[], &fingerprint), None);
    assert_eq!(find_fingerprint(&[1, 2, 3], &fingerprint), None);
    assert_eq!(locate_window(&[], &fingerprint), Err(SessionError::LookupFailure));
}

#[test]
fn fingerprint_too_close_to_the_end_is_a_lookup_failure() {
    let buffer = numbered(64);
    let fingerprint = &buffer[49..57];
    assert_eq!(find_fingerprint(&buffer, fingerprint), Some(49));
    assert_eq!(locate_window(&buffer, fingerprint), Err(SessionError::LookupFailure));
    let fingerprint = &buffer[48..56];
    assert_eq!(locate_window(&buffer, fingerprint), Ok(buffer[48..64].to_vec()));
}

#[test]
fn empty_fingerprint_occurs_at_the_start() {
    assert_eq!(find_fingerprint(&[4, 5, 6], &[]), Some(0));
    assert_eq!(find_fingerprint(&[], &[]), Some(0));
}
