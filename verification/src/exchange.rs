use vstd::prelude::*;
use vstd::utf8::encode_utf8;
use crate::cipher::{
    lemma_cipher_round_trip, lemma_fingerprint_relocation, occurs_at, xor_stream, FINGERPRINT_LEN,
    WINDOW_LEN,
};
use crate::encoding::base64_bytes;
use crate::frame::{lemma_control_frame_round_trip, ControlCode, FrameView};
use crate::initiator::{initiate, lemma_transmission_shape, sealed, transmission, InitiatorView};
use crate::negotiation::{negotiated_scalar, public_key_of, shared_secret_of, KEY_LEN};
use crate::responder::{respond, ResponderView};
use crate::session::{quiet, sending, DirectiveView, EventView, RequestView, Trajectory};

verus! {

/// The responder's state after `frames` have arrived one after another.
pub open spec fn after_frames(s: ResponderView, frames: Seq<FrameView>) -> ResponderView
    decreases frames.len(),
{
    if frames.len() == 0 {
        s
    } else {
        respond(after_frames(s, frames.drop_last()), EventView::Frame(frames.last())).0
    }
}

/// The directive that the responder gives on the last of `frames`.
pub open spec fn last_directive(s: ResponderView, frames: Seq<FrameView>) -> DirectiveView {
    respond(after_frames(s, frames.drop_last()), EventView::Frame(frames.last())).1
}

/// Whether the responder, having taken the first `n` frames of the
/// transmission of `message` under `window`, holds the ciphertext and the
/// first `n - 2` bytes of the fingerprint, with its keystream untouched.
pub open spec fn collecting(
    s: ResponderView,
    message: Seq<char>,
    window: Seq<u8>,
    n: int,
) -> bool {
    let held = after_frames(s, transmission(message, window).take(n));
    &&& held.phase is AwaitingFingerprint
    &&& held.key_stream == s.key_stream
    &&& held.ciphertext == sealed(message, window)
    &&& held.fingerprint == window.take(n - 2)
    &&& held.run == s.run
}

proof fn lemma_take_step(frames: Seq<FrameView>, n: int)
    requires
        0 <= n < frames.len(),
    ensures
        frames.take(n + 1).drop_last() == frames.take(n),
        frames.take(n + 1).last() == frames[n],
        frames.take(n + 1).len() == n + 1,
{
    assert(frames.take(n + 1).drop_last() =~= frames.take(n));
}

proof fn lemma_collecting(s: ResponderView, message: Seq<char>, window: Seq<u8>, n: int)
    requires
        s.wf(),
        s.phase is SyncedPolling,
        window.len() == WINDOW_LEN,
        2 <= n < 2 + FINGERPRINT_LEN,
    ensures
        collecting(s, message, window, n),
        forall|m: int|
            1 <= m <= n ==> #[trigger] last_directive(s, transmission(message, window).take(m))
                == quiet(RequestView::Receive),
    decreases n,
{
    let frames = transmission(message, window);
    lemma_transmission_shape(message, window);
    lemma_control_frame_round_trip(ControlCode::EncryptionComplete);
    if n == 2 {
        lemma_take_step(frames, 0);
        lemma_take_step(frames, 1);
        assert(frames.take(0) =~= Seq::<FrameView>::empty());
        let s0 = after_frames(s, frames.take(0));
        assert(s0 == s);
        let s1 = after_frames(s, frames.take(1));
        assert(s1 == respond(s0, EventView::Frame(frames[0])).0);
        assert(s1.phase is AwaitingCiphertext);
        let s2 = after_frames(s, frames.take(2));
        assert(s2 == respond(s1, EventView::Frame(frames[1])).0);
        assert(window.take(0) =~= Seq::<u8>::empty());
        assert(last_directive(s, frames.take(1)) == quiet(RequestView::Receive));
        assert(last_directive(s, frames.take(2)) == quiet(RequestView::Receive));
    } else {
        lemma_collecting(s, message, window, n - 1);
        lemma_take_step(frames, n - 1);
        let before = after_frames(s, frames.take(n - 1));
        let held = after_frames(s, frames.take(n));
        assert(held == respond(before, EventView::Frame(frames[n - 1])).0);
        assert(frames[2 + (n - 3)] == FrameView::Binary(seq![window[n - 3]]));
        assert(window.take(n - 3).push(window[n - 3]) =~= window.take(n - 2));
        assert(last_directive(s, frames.take(n)) == quiet(RequestView::Receive));
    }
}

/// A transmission reaches its reader. Let a synced responder hold, somewhere
/// in its keystream, the window that enciphered `message`, with no earlier
/// occurrence of the window's fingerprint, and let the ciphertext text
/// decode to the ciphertext. Then, as the frames of the transmission arrive
/// in order, the responder asks for the next frame after each but the last,
/// and on the last hands the bytes of `message` to the collaborator.
pub proof fn lemma_transmission_is_delivered(
    s: ResponderView,
    message: Seq<char>,
    window: Seq<u8>,
    k: int,
)
    requires
        s.wf(),
        s.phase is SyncedPolling,
        window.len() == WINDOW_LEN,
        occurs_at(s.key_stream, window, k),
        forall|j: int|
            0 <= j < k ==> !occurs_at(s.key_stream, window.take(FINGERPRINT_LEN as int), j),
        base64_bytes(sealed(message, window)) == Some(xor_stream(encode_utf8(message), window)),
    ensures
        after_frames(s, transmission(message, window)).phase is Delivering,
        last_directive(s, transmission(message, window)) == quiet(
            RequestView::Deliver(encode_utf8(message)),
        ),
        forall|m: int|
            1 <= m < transmission(message, window).len() ==> #[trigger] last_directive(
                s,
                transmission(message, window).take(m),
            ) == quiet(RequestView::Receive),
{
    let frames = transmission(message, window);
    let n = 1 + FINGERPRINT_LEN as int;
    lemma_transmission_shape(message, window);
    lemma_collecting(s, message, window, n);
    assert(frames.take(n + 1) =~= frames);
    lemma_take_step(frames, n);
    let before = after_frames(s, frames.take(n));
    assert(frames[2 + (n - 2)] == FrameView::Binary(seq![window[n - 2]]));
    assert(window.take(n - 2).push(window[n - 2]) =~= window.take(FINGERPRINT_LEN as int));
    lemma_fingerprint_relocation(s.key_stream, window, k);
    lemma_cipher_round_trip(encode_utf8(message), window);
}

/// The key exchange gives both peers the same scalar. Let the initiator
/// hold the secret `a` and the responder the secret `b`, let both public
/// keys have `KEY_LEN` bytes, and let the two secrets share one secret, as
/// Diffie-Hellman keys do. Then the initiator opens with its public key; the
/// responder answers that frame with its own public key and asks for the
/// parameters of a scalar; and the initiator, on that answer, asks for the
/// parameters of the same scalar. Both key pairs are used up.
pub proof fn lemma_handshake_agrees(
    a: Seq<u8>,
    b: Seq<u8>,
    initiator_seed: Trajectory,
    responder_seed: Trajectory,
)
    requires
        a.len() == KEY_LEN,
        b.len() == KEY_LEN,
        public_key_of(a).len() == KEY_LEN,
        public_key_of(b).len() == KEY_LEN,
        shared_secret_of(a, public_key_of(b)) == shared_secret_of(b, public_key_of(a)),
    ensures
        ({
            let scalar = negotiated_scalar(shared_secret_of(a, public_key_of(b)));
            let (i1, opening) = initiate(
                InitiatorView::initial(a, initiator_seed),
                EventView::Start,
            );
            let (r1, listening) = respond(
                ResponderView::initial(b, responder_seed),
                EventView::Start,
            );
            let (r2, answer) = respond(r1, EventView::Frame(opening.outgoing[0]));
            let (i2, settled) = initiate(i1, EventView::Frame(answer.outgoing[0]));
            &&& opening == sending(FrameView::Binary(public_key_of(a)), RequestView::Receive)
            &&& listening == quiet(RequestView::Receive)
            &&& answer == sending(
                FrameView::Binary(public_key_of(b)),
                RequestView::Derive { scalar },
            )
            &&& settled == quiet(RequestView::Derive { scalar })
            &&& r2.phase is Deriving && r2.secret is None
            &&& i2.phase is Deriving && i2.secret is None
        }),
{
}

} // verus!
