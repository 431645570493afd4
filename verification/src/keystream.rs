use vstd::prelude::*;
use vstd::bytes::{
    lemma_auto_spec_u64_to_from_le_bytes, spec_u64_to_le_bytes, u64_to_le_bytes,
};
use vstd::slice::slice_to_vec;
use crate::cipher::WINDOW_LEN;

verus! {

/// Number of keystream bytes that one trajectory sample yields.
pub const SAMPLE_LEN: usize = 8;

/// The keystream bytes of one sample: the binary64 bit pattern of the
/// y-coordinate, least significant byte first.
pub open spec fn sample_bytes(y: u64) -> Seq<u8> {
    spec_u64_to_le_bytes(y)
}

/// Every sample yields exactly `SAMPLE_LEN` bytes.
pub proof fn lemma_sample_len(y: u64)
    ensures
        sample_bytes(y).len() == SAMPLE_LEN,
{
    lemma_auto_spec_u64_to_from_le_bytes();
}

/// Append-only buffer of keystream bytes, filled one sample per tick.
pub struct KeyStreamBuffer {
    bytes: Vec<u8>,
}

impl View for KeyStreamBuffer {
    type V = Seq<u8>;

    closed spec fn view(&self) -> Seq<u8> {
        self.bytes@
    }
}

impl KeyStreamBuffer {
    /// An empty buffer.
    pub fn new() -> (buffer: Self)
        ensures
            buffer@ == Seq::<u8>::empty(),
    {
        KeyStreamBuffer { bytes: Vec::new() }
    }

    /// Number of bytes held.
    pub fn len(&self) -> (n: usize)
        ensures
            n == self@.len(),
    {
        self.bytes.len()
    }

    /// The bytes held, oldest first.
    pub fn as_slice(&self) -> (bytes: &[u8])
        ensures
            bytes@ == self@,
    {
        self.bytes.as_slice()
    }

    /// Appends the bytes of one sample. What was held stays in front.
    pub fn harvest(&mut self, y: u64)
        ensures
            final(self)@ == old(self)@ + sample_bytes(y),
            final(self)@.len() == old(self)@.len() + SAMPLE_LEN,
    {
        let chunk = u64_to_le_bytes(y);
        proof {
            lemma_sample_len(y);
        }
        let ghost before = self.bytes@;
        let mut i: usize = 0;
        while i < SAMPLE_LEN
            invariant
                i <= SAMPLE_LEN,
                chunk@ == sample_bytes(y),
                chunk@.len() == SAMPLE_LEN,
                self.bytes@ == before + chunk@.take(i as int),
            decreases SAMPLE_LEN - i,
        {
            self.bytes.push(chunk[i]);
            proof {
                assert(self.bytes@ =~= before + chunk@.take(i + 1));
            }
            i += 1;
        }
        proof {
            assert(chunk@.take(SAMPLE_LEN as int) =~= chunk@);
        }
    }

    /// Takes the window at the start of the buffer and advances past it, so
    /// that no later message can be enciphered with the same bytes. `None`,
    /// with the buffer untouched, where no whole window is held yet.
    pub fn take_window(&mut self) -> (window: Option<Vec<u8>>)
        ensures
            match window {
                Some(w) => {
                    &&& old(self)@.len() >= WINDOW_LEN
                    &&& w@ == old(self)@.take(WINDOW_LEN as int)
                    &&& final(self)@ == old(self)@.skip(WINDOW_LEN as int)
                },
                None => old(self)@.len() < WINDOW_LEN && final(self)@ == old(self)@,
            },
    {
        if self.bytes.len() < WINDOW_LEN {
            return None;
        }
        let rest = self.bytes.split_off(WINDOW_LEN);
        let mut window = rest;
        std::mem::swap(&mut self.bytes, &mut window);
        proof {
            assert(window@ =~= old(self)@.take(WINDOW_LEN as int));
            assert(self.bytes@ =~= old(self)@.skip(WINDOW_LEN as int));
        }
        Some(window)
    }
}

/// A window's worth of keystream drawn from a single sample: the bytes of
/// `y`, repeated until `WINDOW_LEN` bytes are held.
pub fn generate_key_stream(y: u64) -> (key_stream: Vec<u8>)
    ensures
        key_stream@ == sample_bytes(y) + sample_bytes(y),
        key_stream@.len() == WINDOW_LEN,
{
    let mut buffer = KeyStreamBuffer::new();
    proof {
        lemma_sample_len(y);
    }
    while buffer.len() < WINDOW_LEN
        invariant
            buffer@ == Seq::<u8>::empty() || buffer@ == sample_bytes(y) || buffer@ == sample_bytes(
                y,
            ) + sample_bytes(y),
            sample_bytes(y).len() == SAMPLE_LEN,
        decreases 2 * WINDOW_LEN - buffer@.len(),
    {
        let ghost before = buffer@;
        buffer.harvest(y);
        proof {
            if before == Seq::<u8>::empty() {
                assert(buffer@ =~= sample_bytes(y));
            }
        }
    }
    slice_to_vec(buffer.as_slice())
}

} // verus!
