use vstd::prelude::*;
use vstd::slice::slice_subrange;
use vstd::string::StringSliceAdditionalSpecFns;
use crate::encoding::{base64_bytes, base64_text, encodable_len, from_text, to_text};
use crate::error::SessionError;

verus! {

/// Length in bytes of the keystream window that enciphers one message.
pub const WINDOW_LEN: usize = 16;

/// Length in bytes of the fingerprint: the leading bytes of a window.
pub const FINGERPRINT_LEN: usize = 8;

/// `data` XORed byte by byte with `window`, the window repeating cyclically.
pub open spec fn xor_stream(data: Seq<u8>, window: Seq<u8>) -> Seq<u8> {
    Seq::new(data.len(), |i: int| data[i] ^ window[i % (window.len() as int)])
}

/// XOR transform of `plaintext` under `window`.
pub fn encipher(plaintext: &[u8], window: &[u8]) -> (ciphertext: Vec<u8>)
    requires
        window@.len() > 0,
    ensures
        ciphertext@ == xor_stream(plaintext@, window@),
{
    let mut out: Vec<u8> = Vec::new();
    let n: usize = plaintext.len();
    let w: usize = window.len();
    let mut i: usize = 0;
    while i < n
        invariant
            i <= n,
            n == plaintext@.len(),
            w == window@.len(),
            w > 0,
            out@.len() == i,
            forall|j: int| 0 <= j < i ==> out@[j] == plaintext@[j] ^ window@[j % (w as int)],
        decreases n - i,
    {
        out.push(plaintext[i] ^ window[i % w]);
        i += 1;
    }
    out
}

/// XOR transform of `ciphertext` under `window`: the same operation as
/// [`encipher`], since XOR is its own inverse.
pub fn decipher(ciphertext: &[u8], window: &[u8]) -> (plaintext: Vec<u8>)
    requires
        window@.len() > 0,
    ensures
        plaintext@ == xor_stream(ciphertext@, window@),
{
    encipher(ciphertext, window)
}

/// Deciphering under the window that enciphered gives the message back, and
/// the empty message enciphers to the empty ciphertext.
pub proof fn lemma_cipher_round_trip(message: Seq<u8>, window: Seq<u8>)
    requires
        window.len() > 0,
    ensures
        xor_stream(xor_stream(message, window), window) == message,
        xor_stream(message, window).len() == message.len(),
        xor_stream(Seq::<u8>::empty(), window) == Seq::<u8>::empty(),
{
    let once = xor_stream(message, window);
    assert forall|i: int| 0 <= i < message.len() implies #[trigger] xor_stream(once, window)[i]
        == message[i] by {
        let m: u8 = message[i];
        let k: u8 = window[i % (window.len() as int)];
        assert((m ^ k) ^ k == m) by (bit_vector);
    }
    assert(xor_stream(once, window) =~= message);
    assert(xor_stream(Seq::<u8>::empty(), window) =~= Seq::<u8>::empty());
}

/// Enciphers the UTF-8 bytes of `message` under `key_stream`.
pub fn encrypt(message: &str, key_stream: &[u8]) -> (ciphertext: Vec<u8>)
    requires
        key_stream@.len() > 0,
    ensures
        ciphertext@ == xor_stream(message.spec_bytes(), key_stream@),
{
    encipher(message.as_bytes(), key_stream)
}

/// What [`decrypt`] returns once the text frame has been decoded to `decoded`.
pub open spec fn decrypted(decoded: Option<Seq<u8>>, key_stream: Seq<u8>) -> Result<
    Seq<u8>,
    SessionError,
> {
    match decoded {
        Some(bytes) => Ok(xor_stream(bytes, key_stream)),
        None => Err(SessionError::ProtocolViolation),
    }
}

/// Deciphers a decoded ciphertext frame: the bytes of the plaintext, or a
/// protocol violation where the frame held no valid payload.
pub fn decrypt_decoded(decoded: Option<Vec<u8>>, key_stream: &[u8]) -> (plaintext: Result<
    Vec<u8>,
    SessionError,
>)
    requires
        key_stream@.len() > 0,
    ensures
        match decoded {
            Some(bytes) => plaintext is Ok && plaintext->Ok_0@ == xor_stream(
                bytes@,
                key_stream@,
            ),
            None => plaintext == Err::<Vec<u8>, SessionError>(SessionError::ProtocolViolation),
        },
{
    match decoded {
        Some(bytes) => Ok(decipher(bytes.as_slice(), key_stream)),
        None => Err(SessionError::ProtocolViolation),
    }
}

/// Decodes a base64 ciphertext frame and deciphers it under `key_stream`.
pub fn decrypt(base64_message: &str, key_stream: &[u8]) -> (plaintext: Result<
    Vec<u8>,
    SessionError,
>)
    requires
        key_stream@.len() > 0,
    ensures
        match base64_bytes(base64_message@) {
            Some(bytes) => plaintext is Ok && plaintext->Ok_0@ == xor_stream(bytes, key_stream@),
            None => plaintext == Err::<Vec<u8>, SessionError>(SessionError::ProtocolViolation),
        },
{
    decrypt_decoded(from_text(base64_message), key_stream)
}

/// Enciphers `message` under `key_stream` and puts the result in the text
/// form of a ciphertext frame; `None` where the message is too long for that.
pub fn seal(message: &str, key_stream: &[u8]) -> (frame_text: Option<String>)
    requires
        key_stream@.len() > 0,
    ensures
        match frame_text {
            Some(t) => {
                &&& encodable_len(message.spec_bytes().len())
                &&& t@ == base64_text(xor_stream(message.spec_bytes(), key_stream@))
                &&& base64_bytes(t@) == Some(xor_stream(message.spec_bytes(), key_stream@))
            },
            None => !encodable_len(message.spec_bytes().len()),
        },
{
    let ciphertext = encrypt(message, key_stream);
    to_text(ciphertext.as_slice())
}

/// Whether `needle` occurs in `buffer` starting at offset `k`.
pub open spec fn occurs_at(buffer: Seq<u8>, needle: Seq<u8>, k: int) -> bool {
    &&& 0 <= k
    &&& k + needle.len() <= buffer.len()
    &&& buffer.subrange(k, k + needle.len()) == needle
}

/// Whether `k` is the least offset at which `needle` occurs in `buffer`.
pub open spec fn first_occurrence(buffer: Seq<u8>, needle: Seq<u8>, k: int) -> bool {
    &&& occurs_at(buffer, needle, k)
    &&& forall|j: int| 0 <= j < k ==> !occurs_at(buffer, needle, j)
}

/// Whether `needle` occurs nowhere in `buffer`.
pub open spec fn absent(buffer: Seq<u8>, needle: Seq<u8>) -> bool {
    forall|j: int| !occurs_at(buffer, needle, j)
}

fn matches_at(buffer: &[u8], needle: &[u8], k: usize) -> (hit: bool)
    requires
        k + needle@.len() <= buffer@.len(),
    ensures
        hit == occurs_at(buffer@, needle@, k as int),
{
    let n: usize = buffer.len();
    let m: usize = needle.len();
    let mut i: usize = 0;
    while i < m
        invariant
            i <= m,
            m == needle@.len(),
            n == buffer@.len(),
            k + m <= n,
            forall|j: int| 0 <= j < i ==> buffer@[k + j] == needle@[j],
        decreases m - i,
    {
        if buffer[k + i] != needle[i] {
            proof {
                let window = buffer@.subrange(k as int, k + m);
                assert(window[i as int] == buffer@[k + i]);
            }
            return false;
        }
        i += 1;
    }
    proof {
        assert(buffer@.subrange(k as int, k + m) =~= needle@);
    }
    true
}

/// Sliding-window search: the least offset at which `fingerprint` occurs in
/// `buffer`, or `None` where it occurs nowhere.
pub fn find_fingerprint(buffer: &[u8], fingerprint: &[u8]) -> (offset: Option<usize>)
    ensures
        match offset {
            Some(k) => first_occurrence(buffer@, fingerprint@, k as int),
            None => absent(buffer@, fingerprint@),
        },
{
    let n: usize = buffer.len();
    let m: usize = fingerprint.len();
    if m > n {
        return None;
    }
    let last: usize = n - m;
    let mut k: usize = 0;
    loop
        invariant
            k <= last,
            last == n - m,
            n == buffer@.len(),
            m == fingerprint@.len(),
            forall|j: int| 0 <= j < k ==> !occurs_at(buffer@, fingerprint@, j),
        decreases last - k,
    {
        if matches_at(buffer, fingerprint, k) {
            return Some(k);
        }
        if k == last {
            return None;
        }
        k += 1;
    }
}

/// What [`locate_window`] returns: the window of `WINDOW_LEN` bytes that
/// starts where `fingerprint` first occurs, provided all of it lies in `buffer`.
pub open spec fn located_window(buffer: Seq<u8>, fingerprint: Seq<u8>) -> Option<Seq<u8>> {
    if exists|k: int|
        first_occurrence(buffer, fingerprint, k) && k + WINDOW_LEN <= buffer.len() {
        let k = choose|k: int|
            first_occurrence(buffer, fingerprint, k) && k + WINDOW_LEN <= buffer.len();
        Some(buffer.subrange(k, k + WINDOW_LEN))
    } else {
        None
    }
}

/// Two least offsets of one needle in one buffer are the same offset.
pub proof fn lemma_first_occurrence_unique(buffer: Seq<u8>, needle: Seq<u8>, a: int, b: int)
    requires
        first_occurrence(buffer, needle, a),
        first_occurrence(buffer, needle, b),
    ensures
        a == b,
{
}

/// Relocates the keystream window named by `fingerprint` in the receiver's
/// own `buffer`. A fingerprint that is missing, or found too close to the end
/// for a whole window to follow it, is a lookup failure.
pub fn locate_window(buffer: &[u8], fingerprint: &[u8]) -> (window: Result<
    Vec<u8>,
    SessionError,
>)
    ensures
        match located_window(buffer@, fingerprint@) {
            Some(w) => window is Ok && window->Ok_0@ == w,
            None => window == Err::<Vec<u8>, SessionError>(SessionError::LookupFailure),
        },
        window is Ok ==> window->Ok_0@.len() == WINDOW_LEN,
{
    match find_fingerprint(buffer, fingerprint) {
        Some(k) => {
            if buffer.len() - k < WINDOW_LEN {
                proof {
                    assert forall|j: int|
                        !(first_occurrence(buffer@, fingerprint@, j) && j + WINDOW_LEN
                            <= buffer@.len()) by {
                        if first_occurrence(buffer@, fingerprint@, j) {
                            lemma_first_occurrence_unique(buffer@, fingerprint@, j, k as int);
                        }
                    }
                }
                Err(SessionError::LookupFailure)
            } else {
                proof {
                    let c = choose|c: int|
                        first_occurrence(buffer@, fingerprint@, c) && c + WINDOW_LEN
                            <= buffer@.len();
                    lemma_first_occurrence_unique(buffer@, fingerprint@, c, k as int);
                }
                let window = slice_subrange(buffer, k, k + WINDOW_LEN);
                Ok(vstd::slice::slice_to_vec(window))
            }
        },
        None => Err(SessionError::LookupFailure),
    }
}

/// A window that lies in the buffer at offset `k`, with no earlier occurrence
/// of its leading `FINGERPRINT_LEN` bytes, is found again at `k` by its
/// fingerprint, and the window located there is that window.
pub proof fn lemma_fingerprint_relocation(buffer: Seq<u8>, window: Seq<u8>, k: int)
    requires
        window.len() == WINDOW_LEN,
        occurs_at(buffer, window, k),
        forall|j: int| 0 <= j < k ==> !occurs_at(buffer, window.take(FINGERPRINT_LEN as int), j),
    ensures
        first_occurrence(buffer, window.take(FINGERPRINT_LEN as int), k),
        forall|r: int|
            first_occurrence(buffer, window.take(FINGERPRINT_LEN as int), r) ==> r == k,
        located_window(buffer, window.take(FINGERPRINT_LEN as int)) == Some(window),
{
    let fp = window.take(FINGERPRINT_LEN as int);
    assert(buffer.subrange(k, k + FINGERPRINT_LEN) =~= fp) by {
        assert forall|i: int| 0 <= i < FINGERPRINT_LEN implies buffer.subrange(
            k,
            k + FINGERPRINT_LEN,
        )[i] == fp[i] by {
            assert(buffer.subrange(k, k + WINDOW_LEN)[i] == window[i]);
        }
    }
    assert(first_occurrence(buffer, fp, k));
    let c = choose|c: int| first_occurrence(buffer, fp, c) && c + WINDOW_LEN <= buffer.len();
    assert(first_occurrence(buffer, fp, c) && c + WINDOW_LEN <= buffer.len());
    lemma_first_occurrence_unique(buffer, fp, c, k);
}

/// A ciphertext frame that decodes to the ciphertext of `message` under
/// `window` is deciphered under `window` to `message`.
pub proof fn lemma_sealed_round_trip(message: Seq<u8>, window: Seq<u8>, decoded: Option<Seq<u8>>)
    requires
        window.len() > 0,
        decoded == Some(xor_stream(message, window)),
    ensures
        decrypted(decoded, window) == Ok::<Seq<u8>, SessionError>(message),
{
    lemma_cipher_round_trip(message, window);
}

} // verus!
