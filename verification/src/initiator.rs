use vstd::prelude::*;
use vstd::slice::slice_to_vec;
use vstd::string::StringSliceAdditionalSpecFns;
use vstd::utf8::encode_utf8;
use crate::cipher::{seal, xor_stream, FINGERPRINT_LEN, WINDOW_LEN};
use crate::encoding::{base64_text, encodable_len};
use crate::error::SessionError;
use crate::frame::{
    control_frame, control_of, coordinate_frame, encode_byte, encode_control, encode_coordinate,
    frames_view, parse_control, text_of, ControlCode, Frame, FrameView,
};
use crate::keystream::{lemma_sample_len, sample_bytes, KeyStreamBuffer, SAMPLE_LEN};
use crate::negotiation::{agreed, public_key_of, KeyMaterial, KEY_LEN};
use crate::session::{
    free_step, make_quiet, make_sending, quiet, sending, Directive, DirectiveView, Event,
    EventView, Request, RequestView, SessionParameters, Trajectory,
};

verus! {

/// Where the initiator stands: the state of the protocol, refined by the
/// answer that the initiator is waiting for.
#[derive(Clone, Copy, Debug, PartialEq, Eq)]
pub enum InitiatorPhase {
    /// Unverified: nothing has happened yet.
    Start,
    /// Unverified: own key sent, waiting for the responder's public key.
    AwaitingKey,
    /// Unverified: waiting for the parameters of the negotiated scalar.
    Deriving,
    /// Unverified: waiting for the first tick from the seed.
    Seeding,
    /// Unsynced: waiting for the collaborator's next message.
    Prompting,
    /// Unsynced: no message yet, waiting for a free-running tick.
    UnsyncedStepping,
    /// Unsynced: synchronisation requested, waiting for the acknowledgment.
    AwaitingAck,
    /// Unsynced: cancellation handed out, waiting to hear that it is written.
    Cancelling,
    /// Syncing: waiting for the tick whose coordinates go out next.
    SyncStepping,
    /// Syncing: coordinates sent, looking for the notice of convergence.
    SyncPolling,
    /// Synced: waiting for a free-running tick to harvest.
    Harvesting,
    /// Completed: waiting for the collaborator to take the ciphertext.
    Delivering,
    /// The session is over, orderly or with an error.
    Finished(Result<(), SessionError>),
}

/// What an initiator holds.
pub struct InitiatorView {
    pub phase: InitiatorPhase,
    /// The secret key, until the shared secret has been derived.
    pub secret: Option<Seq<u8>>,
    pub trajectory: Trajectory,
    pub parameters: SessionParameters,
    pub key_stream: Seq<u8>,
    /// The message that the current episode is to carry.
    pub message: Seq<char>,
}

impl InitiatorView {
    /// The key pair is held exactly while the session is unverified and no
    /// key has arrived; the keystream buffer never holds a whole window at
    /// rest; a message under way can be put in a text frame.
    pub open spec fn wf(self) -> bool {
        &&& (self.phase is Start || self.phase is AwaitingKey) <==> self.secret is Some
        &&& self.secret matches Some(secret) ==> secret.len() == KEY_LEN
        &&& self.key_stream.len() < WINDOW_LEN
        &&& encodable_len(encode_utf8(self.message).len())
    }

    /// The initiator that has seen nothing yet.
    pub open spec fn initial(secret: Seq<u8>, seed: Trajectory) -> InitiatorView {
        InitiatorView {
            phase: InitiatorPhase::Start,
            secret: Some(secret),
            trajectory: seed,
            parameters: SessionParameters { rho: 0, sigma: 0, beta: 0, h: 0 },
            key_stream: Seq::empty(),
            message: Seq::empty(),
        }
    }

    /// This initiator in another phase.
    pub open spec fn at(self, phase: InitiatorPhase) -> InitiatorView {
        InitiatorView { phase, ..self }
    }

    /// This initiator with the oscillator at `trajectory`.
    pub open spec fn moved(self, trajectory: Trajectory) -> InitiatorView {
        InitiatorView { trajectory, ..self }
    }

    /// The request for one free-running tick from where the oscillator is.
    pub open spec fn tick(self) -> RequestView {
        free_step(self.trajectory, self.parameters)
    }
}

/// The session ends with `error`.
pub open spec fn failed(s: InitiatorView, error: SessionError) -> (InitiatorView, DirectiveView) {
    (
        InitiatorView { phase: InitiatorPhase::Finished(Err(error)), secret: None, ..s },
        quiet(RequestView::Stop(Err(error))),
    )
}

/// The three coordinate frames of one tick, in the order x, y, z.
pub open spec fn coordinate_frames(t: Trajectory) -> Seq<FrameView> {
    seq![coordinate_frame(t.x), coordinate_frame(t.y), coordinate_frame(t.z)]
}

/// The fingerprint of `window`, one byte to a frame.
pub open spec fn fingerprint_frames(window: Seq<u8>) -> Seq<FrameView> {
    Seq::new(FINGERPRINT_LEN as nat, |i: int| FrameView::Binary(seq![window[i]]))
}

/// The ciphertext text of `message` under `window`.
pub open spec fn sealed(message: Seq<char>, window: Seq<u8>) -> Seq<char> {
    base64_text(xor_stream(encode_utf8(message), window))
}

/// The frames of one transmission: the notice that a ciphertext follows,
/// the ciphertext, and the fingerprint of the window that enciphered it.
pub open spec fn transmission(message: Seq<char>, window: Seq<u8>) -> Seq<FrameView> {
    seq![
        control_frame(ControlCode::EncryptionComplete),
        FrameView::Text(sealed(message, window)),
    ] + fingerprint_frames(window)
}

/// Unverified. The session opens by sending the initiator's key. The
/// responder's key frame yields the scalar and uses the key pair up. The
/// parameters seed the oscillator, whose first tick leads to the unsynced
/// state, where the collaborator is asked for a message.
pub open spec fn initiate_unverified(s: InitiatorView, e: EventView) -> (
    InitiatorView,
    DirectiveView,
) {
    match (s.phase, e) {
        (InitiatorPhase::Start, EventView::Start) => match s.secret {
            Some(secret) => (
                s.at(InitiatorPhase::AwaitingKey),
                sending(FrameView::Binary(public_key_of(secret)), RequestView::Receive),
            ),
            None => failed(s, SessionError::ProtocolViolation),
        },
        (InitiatorPhase::AwaitingKey, EventView::Frame(FrameView::Binary(key))) => match s.secret {
            Some(secret) => match agreed(secret, key) {
                Ok(scalar) => (
                    InitiatorView { phase: InitiatorPhase::Deriving, secret: None, ..s },
                    quiet(RequestView::Derive { scalar }),
                ),
                Err(error) => failed(s, error),
            },
            None => failed(s, SessionError::ProtocolViolation),
        },
        (InitiatorPhase::Deriving, EventView::Derived(parameters)) => (
            InitiatorView { phase: InitiatorPhase::Seeding, parameters, ..s },
            quiet(free_step(s.trajectory, parameters)),
        ),
        (InitiatorPhase::Seeding, EventView::Stepped(t)) => (
            s.moved(t).at(InitiatorPhase::Prompting),
            quiet(RequestView::Prompt),
        ),
        _ => failed(s, SessionError::ProtocolViolation),
    }
}

/// Unsynced. While the collaborator has no message, the oscillator runs
/// free, one tick between two prompts. An empty message cancels: the
/// cancellation goes out, and the session ends in order once it is reported
/// written; a channel failure in its place ends the session with that
/// error. Any other message is kept and a synchronisation episode is
/// requested; the responder's text acknowledgment starts the syncing state.
/// A message too long for a text frame is refused.
pub open spec fn initiate_unsynced(s: InitiatorView, e: EventView) -> (
    InitiatorView,
    DirectiveView,
) {
    match (s.phase, e) {
        (InitiatorPhase::Prompting, EventView::Message(message)) => if message.len() == 0 {
            (
                s.at(InitiatorPhase::Cancelling),
                sending(control_frame(ControlCode::Cancel), RequestView::Confirm),
            )
        } else if encodable_len(encode_utf8(message).len()) {
            (
                InitiatorView { phase: InitiatorPhase::AwaitingAck, message, ..s },
                sending(control_frame(ControlCode::SyncRequest), RequestView::Receive),
            )
        } else {
            failed(s, SessionError::ProtocolViolation)
        },
        (InitiatorPhase::Prompting, EventView::Idle) => (
            s.at(InitiatorPhase::UnsyncedStepping),
            quiet(s.tick()),
        ),
        (InitiatorPhase::UnsyncedStepping, EventView::Stepped(t)) => (
            s.moved(t).at(InitiatorPhase::Prompting),
            quiet(RequestView::Prompt),
        ),
        (InitiatorPhase::Cancelling, EventView::Sent) => (
            s.at(InitiatorPhase::Finished(Ok(()))),
            quiet(RequestView::Stop(Ok(()))),
        ),
        (InitiatorPhase::AwaitingAck, EventView::Frame(frame)) => match text_of(frame) {
            Ok(_) => (s.at(InitiatorPhase::SyncStepping), quiet(s.tick())),
            Err(error) => failed(s, error),
        },
        _ => failed(s, SessionError::ProtocolViolation),
    }
}

/// Syncing. Every tick's coordinates go out as three frames, and the channel
/// is then polled: the notice of convergence starts the synced state, no
/// frame leads to the next tick, and any other frame is a protocol
/// violation.
pub open spec fn initiate_syncing(s: InitiatorView, e: EventView) -> (
    InitiatorView,
    DirectiveView,
) {
    match (s.phase, e) {
        (InitiatorPhase::SyncStepping, EventView::Stepped(t)) => (
            s.moved(t).at(InitiatorPhase::SyncPolling),
            DirectiveView { outgoing: coordinate_frames(t), next: RequestView::Poll },
        ),
        (InitiatorPhase::SyncPolling, EventView::Idle) => (
            s.at(InitiatorPhase::SyncStepping),
            quiet(s.tick()),
        ),
        (InitiatorPhase::SyncPolling, EventView::Frame(frame)) => if control_of(frame) == Ok::<
            ControlCode,
            SessionError,
        >(ControlCode::SyncComplete) {
            (s.at(InitiatorPhase::Harvesting), quiet(s.tick()))
        } else {
            failed(s, SessionError::ProtocolViolation)
        },
        _ => failed(s, SessionError::ProtocolViolation),
    }
}

/// Synced, transmitting and completed. Every tick's y is harvested until a
/// whole window is held. The window at the start of the buffer then
/// enciphers the message and is dropped from the buffer; the transmission
/// goes out and the ciphertext text goes to the collaborator, who is then
/// asked for the next message.
pub open spec fn initiate_synced(s: InitiatorView, e: EventView) -> (InitiatorView, DirectiveView) {
    match (s.phase, e) {
        (InitiatorPhase::Harvesting, EventView::Stepped(t)) => {
            let key_stream = s.key_stream + sample_bytes(t.y);
            if key_stream.len() < WINDOW_LEN {
                (InitiatorView { trajectory: t, key_stream, ..s }, quiet(s.moved(t).tick()))
            } else {
                let window = key_stream.take(WINDOW_LEN as int);
                let spent = InitiatorView {
                    trajectory: t,
                    key_stream: key_stream.skip(WINDOW_LEN as int),
                    ..s
                };
                if encodable_len(encode_utf8(s.message).len()) {
                    (
                        spent.at(InitiatorPhase::Delivering),
                        DirectiveView {
                            outgoing: transmission(s.message, window),
                            next: RequestView::Deliver(encode_utf8(sealed(s.message, window))),
                        },
                    )
                } else {
                    failed(spent, SessionError::ProtocolViolation)
                }
            }
        },
        (InitiatorPhase::Delivering, EventView::Delivered) => (
            s.at(InitiatorPhase::Prompting),
            quiet(RequestView::Prompt),
        ),
        _ => failed(s, SessionError::ProtocolViolation),
    }
}

/// The initiator's transition: the state and the directive that follow from
/// state `s` on event `e`. A finished session stays finished and asks to
/// stop; a channel failure ends any other session; an event that does not answer
/// the pending request is a protocol violation.
pub open spec fn initiate(s: InitiatorView, e: EventView) -> (InitiatorView, DirectiveView) {
    if let InitiatorPhase::Finished(outcome) = s.phase {
        (s, quiet(RequestView::Stop(outcome)))
    } else if e is ChannelFailed {
        failed(s, SessionError::ChannelFailure)
    } else {
        match s.phase {
            InitiatorPhase::Start
            | InitiatorPhase::AwaitingKey
            | InitiatorPhase::Deriving
            | InitiatorPhase::Seeding => initiate_unverified(s, e),
            InitiatorPhase::Prompting
            | InitiatorPhase::UnsyncedStepping
            | InitiatorPhase::AwaitingAck
            | InitiatorPhase::Cancelling => initiate_unsynced(s, e),
            InitiatorPhase::SyncStepping | InitiatorPhase::SyncPolling => initiate_syncing(s, e),
            _ => initiate_synced(s, e),
        }
    }
}

/// The transition keeps the invariant.
pub proof fn lemma_initiate_keeps_wf(s: InitiatorView, e: EventView)
    requires
        s.wf(),
    ensures
        initiate(s, e).0.wf(),
{
    if s.phase is Harvesting {
        if let EventView::Stepped(t) = e {
            lemma_sample_len(t.y);
        }
    }
}

/// A finished session stays as it is, whatever arrives, and asks to stop
/// with the outcome that ended it.
pub proof fn lemma_finished_is_final(s: InitiatorView, e: EventView)
    requires
        s.phase is Finished,
    ensures
        initiate(s, e) == (s, quiet(RequestView::Stop(s.phase->Finished_0))),
{
}

/// A channel failure ends every session that is not over yet, with nothing
/// sent and nothing retried.
pub proof fn lemma_channel_failure_is_fatal(s: InitiatorView)
    requires
        !(s.phase is Finished),
    ensures
        initiate(s, EventView::ChannelFailed).0.phase == InitiatorPhase::Finished(
            Err(SessionError::ChannelFailure),
        ),
        initiate(s, EventView::ChannelFailed).1 == quiet(
            RequestView::Stop(Err(SessionError::ChannelFailure)),
        ),
{
}

/// The transition asks to stop exactly when it leaves the session finished,
/// and then with the outcome that it finished with.
pub proof fn lemma_stop_means_finished(s: InitiatorView, e: EventView)
    requires
        s.wf(),
    ensures
        initiate(s, e).1.next is Stop <==> initiate(s, e).0.phase is Finished,
        initiate(s, e).0.phase matches InitiatorPhase::Finished(outcome) ==> initiate(s, e).1.next
            == RequestView::Stop(outcome),
{
}

/// No write goes unreported: a directive that asks to stop sends nothing,
/// so every frame handed out is followed by a request whose answer can
/// still be a channel failure.
pub proof fn lemma_stop_sends_nothing(s: InitiatorView, e: EventView)
    ensures
        initiate(s, e).1.next is Stop ==> initiate(s, e).1.outgoing == Seq::<FrameView>::empty(),
{
}

/// A cancellation ends the session in order only once it is written. The
/// empty message hands out the cancellation and leaves the session
/// unfinished; the report that it is written then ends the session in
/// order, and a channel failure in its place ends it with that error.
pub proof fn lemma_cancel_waits_for_the_write(s: InitiatorView)
    requires
        s.phase is Prompting,
    ensures
        ({
            let (cancelling, directive) = initiate(s, EventView::Message(Seq::empty()));
            &&& directive == sending(control_frame(ControlCode::Cancel), RequestView::Confirm)
            &&& cancelling == s.at(InitiatorPhase::Cancelling)
            &&& initiate(cancelling, EventView::Sent) == (
                s.at(InitiatorPhase::Finished(Ok(()))),
                quiet(RequestView::Stop(Ok(()))),
            )
            &&& initiate(cancelling, EventView::ChannelFailed).0.phase == InitiatorPhase::Finished(
                Err(SessionError::ChannelFailure),
            )
            &&& initiate(cancelling, EventView::ChannelFailed).1 == quiet(
                RequestView::Stop(Err(SessionError::ChannelFailure)),
            )
        }),
{
}

/// The parameters are negotiated exactly once: only the arrival of the
/// responder's key asks for the parameters of a scalar, that step uses the
/// key pair up, and no step brings a key pair back.
pub proof fn lemma_negotiates_once(s: InitiatorView, e: EventView)
    requires
        s.wf(),
    ensures
        initiate(s, e).1.next is Derive ==> s.phase is AwaitingKey && initiate(s, e).0.secret
            is None,
        s.secret is None ==> initiate(s, e).0.secret is None && !(initiate(s, e).1.next
            is Derive),
{
}

/// A window enciphers one message only. The tick that completes a window
/// sends the transmission made with the first `WINDOW_LEN` bytes harvested
/// and leaves in the buffer only what was harvested behind them, which is
/// less than one sample; a tick that completes none sends nothing and keeps
/// all that was harvested.
pub proof fn lemma_window_used_once(s: InitiatorView, t: Trajectory)
    requires
        s.wf(),
        s.phase is Harvesting,
    ensures
        ({
            let (after, directive) = initiate(s, EventView::Stepped(t));
            let harvest = s.key_stream + sample_bytes(t.y);
            if harvest.len() >= WINDOW_LEN {
                &&& directive.outgoing == transmission(s.message, harvest.take(WINDOW_LEN as int))
                &&& harvest == harvest.take(WINDOW_LEN as int) + after.key_stream
                &&& after.key_stream.len() < SAMPLE_LEN
                &&& after.phase is Delivering
            } else {
                &&& directive.outgoing == Seq::<FrameView>::empty()
                &&& after.key_stream == harvest
                &&& after.phase is Harvesting
            }
        }),
{
    lemma_sample_len(t.y);
    let harvest = s.key_stream + sample_bytes(t.y);
    if harvest.len() >= WINDOW_LEN {
        assert(harvest =~= harvest.take(WINDOW_LEN as int) + harvest.skip(WINDOW_LEN as int));
    }
}

/// The frames of a transmission: `2 + FINGERPRINT_LEN` of them, the notice
/// first, the ciphertext second, and then the leading bytes of the window
/// in order, each in a frame of one byte.
pub proof fn lemma_transmission_shape(message: Seq<char>, window: Seq<u8>)
    ensures
        transmission(message, window).len() == 2 + FINGERPRINT_LEN,
        transmission(message, window)[0] == control_frame(ControlCode::EncryptionComplete),
        transmission(message, window)[1] == FrameView::Text(sealed(message, window)),
        forall|i: int|
            0 <= i < FINGERPRINT_LEN ==> #[trigger] transmission(message, window)[2 + i]
                == FrameView::Binary(seq![window[i]]),
{
}

/// Appends `frame` to the frames that a directive will send.
fn push_frame(outgoing: &mut Vec<Frame>, frame: Frame)
    ensures
        frames_view(final(outgoing)@) == frames_view(old(outgoing)@).push(frame@),
{
    outgoing.push(frame);
    proof {
        assert(frames_view(outgoing@) =~= frames_view(old(outgoing)@).push(frame@));
    }
}

/// Builds the frames of one transmission from the ciphertext text and the
/// window that enciphered it.
fn build_transmission(text: String, window: &[u8]) -> (outgoing: Vec<Frame>)
    requires
        window@.len() >= FINGERPRINT_LEN,
    ensures
        frames_view(outgoing@) == seq![
            control_frame(ControlCode::EncryptionComplete),
            FrameView::Text(text@),
        ] + fingerprint_frames(window@),
{
    let mut outgoing: Vec<Frame> = Vec::new();
    proof {
        assert(frames_view(outgoing@) =~= Seq::<FrameView>::empty());
    }
    push_frame(&mut outgoing, encode_control(ControlCode::EncryptionComplete));
    push_frame(&mut outgoing, Frame::Text(text));
    let ghost head = seq![
        control_frame(ControlCode::EncryptionComplete),
        FrameView::Text(text@),
    ];
    proof {
        assert(frames_view(outgoing@) =~= head);
    }
    let mut i: usize = 0;
    while i < FINGERPRINT_LEN
        invariant
            i <= FINGERPRINT_LEN,
            window@.len() >= FINGERPRINT_LEN,
            frames_view(outgoing@) == head + fingerprint_frames(window@).take(i as int),
        decreases FINGERPRINT_LEN - i,
    {
        push_frame(&mut outgoing, encode_byte(window[i]));
        proof {
            assert(frames_view(outgoing@) =~= head + fingerprint_frames(window@).take(i + 1));
        }
        i += 1;
    }
    proof {
        assert(fingerprint_frames(window@).take(FINGERPRINT_LEN as int) =~= fingerprint_frames(
            window@,
        ));
    }
    outgoing
}

/// The initiator's side of a session: owns the key pair, the trajectory,
/// the keystream buffer and the message under way, and decides every step.
pub struct Initiator {
    phase: InitiatorPhase,
    material: Option<KeyMaterial>,
    trajectory: Trajectory,
    parameters: SessionParameters,
    key_stream: KeyStreamBuffer,
    message: String,
}

impl View for Initiator {
    type V = InitiatorView;

    closed spec fn view(&self) -> InitiatorView {
        InitiatorView {
            phase: self.phase,
            secret: match self.material {
                Some(material) => Some(material.secret()),
                None => None,
            },
            trajectory: self.trajectory,
            parameters: self.parameters,
            key_stream: self.key_stream@,
            message: self.message@,
        }
    }
}

impl Initiator {
    /// An initiator that owns `material` and starts its oscillator at `seed`.
    pub fn new(material: KeyMaterial, seed: Trajectory) -> (initiator: Self)
        ensures
            initiator@ == InitiatorView::initial(material.secret(), seed),
            initiator@.wf(),
    {
        material.recall_key_len();
        let message = String::new();
        proof {
            assert(encode_utf8(message@) =~= Seq::<u8>::empty()) by {
                reveal_with_fuel(encode_utf8, 1);
            }
        }
        Initiator {
            phase: InitiatorPhase::Start,
            material: Some(material),
            trajectory: seed,
            parameters: SessionParameters { rho: 0, sigma: 0, beta: 0, h: 0 },
            key_stream: KeyStreamBuffer::new(),
            message,
        }
    }

    /// Where the initiator stands.
    pub fn phase(&self) -> (phase: InitiatorPhase)
        ensures
            phase == self@.phase,
    {
        self.phase
    }

    /// Whether the session is over.
    pub fn is_finished(&self) -> (done: bool)
        ensures
            done == (self@.phase is Finished),
    {
        match self.phase {
            InitiatorPhase::Finished(_) => true,
            _ => false,
        }
    }

    /// Number of keystream bytes harvested and still held.
    pub fn key_stream_len(&self) -> (n: usize)
        ensures
            n == self@.key_stream.len(),
    {
        self.key_stream.len()
    }

    fn fail(&mut self, error: SessionError) -> (directive: Directive)
        ensures
            (final(self)@, directive@) == failed(old(self)@, error),
    {
        self.phase = InitiatorPhase::Finished(Err(error));
        self.material = None;
        make_quiet(Request::Stop(Err(error)))
    }

    fn tick(&self) -> (request: Request)
        ensures
            request@ == self@.tick(),
    {
        Request::Step { from: self.trajectory, coupling: None, parameters: self.parameters }
    }

    fn on_unverified(&mut self, event: Event) -> (directive: Directive)
        requires
            old(self)@.phase is Start || old(self)@.phase is AwaitingKey || old(self)@.phase
                is Deriving || old(self)@.phase is Seeding,
        ensures
            (final(self)@, directive@) == initiate_unverified(old(self)@, event@),
    {
        match (self.phase, event) {
            (InitiatorPhase::Start, Event::Start) => {
                match &self.material {
                    Some(material) => {
                        let public = material.public_key();
                        self.phase = InitiatorPhase::AwaitingKey;
                        make_sending(Frame::Binary(public), Request::Receive)
                    },
                    None => self.fail(SessionError::ProtocolViolation),
                }
            },
            (InitiatorPhase::AwaitingKey, Event::Frame(Frame::Binary(key))) => {
                match self.material.take() {
                    Some(material) => {
                        match material.agree(key.as_slice()) {
                            Ok(scalar) => {
                                self.phase = InitiatorPhase::Deriving;
                                make_quiet(Request::Derive { scalar })
                            },
                            Err(error) => self.fail(error),
                        }
                    },
                    None => self.fail(SessionError::ProtocolViolation),
                }
            },
            (InitiatorPhase::Deriving, Event::Derived(parameters)) => {
                self.phase = InitiatorPhase::Seeding;
                self.parameters = parameters;
                make_quiet(self.tick())
            },
            (InitiatorPhase::Seeding, Event::Stepped(t)) => {
                self.phase = InitiatorPhase::Prompting;
                self.trajectory = t;
                make_quiet(Request::Prompt)
            },
            _ => self.fail(SessionError::ProtocolViolation),
        }
    }

    fn on_unsynced(&mut self, event: Event) -> (directive: Directive)
        requires
            old(self)@.phase is Prompting || old(self)@.phase is UnsyncedStepping || old(
                self,
            )@.phase is AwaitingAck || old(self)@.phase is Cancelling,
        ensures
            (final(self)@, directive@) == initiate_unsynced(old(self)@, event@),
    {
        match (self.phase, event) {
            (InitiatorPhase::Prompting, Event::Message(message)) => {
                if message.as_str().is_empty() {
                    self.phase = InitiatorPhase::Cancelling;
                    make_sending(encode_control(ControlCode::Cancel), Request::Confirm)
                } else if message.as_str().as_bytes().len() / 3 <= (usize::MAX - 4) / 4 {
                    self.phase = InitiatorPhase::AwaitingAck;
                    self.message = message;
                    make_sending(encode_control(ControlCode::SyncRequest), Request::Receive)
                } else {
                    self.fail(SessionError::ProtocolViolation)
                }
            },
            (InitiatorPhase::Prompting, Event::Idle) => {
                self.phase = InitiatorPhase::UnsyncedStepping;
                make_quiet(self.tick())
            },
            (InitiatorPhase::UnsyncedStepping, Event::Stepped(t)) => {
                self.phase = InitiatorPhase::Prompting;
                self.trajectory = t;
                make_quiet(Request::Prompt)
            },
            (InitiatorPhase::Cancelling, Event::Sent) => {
                self.phase = InitiatorPhase::Finished(Ok(()));
                make_quiet(Request::Stop(Ok(())))
            },
            (InitiatorPhase::AwaitingAck, Event::Frame(Frame::Text(_))) => {
                self.phase = InitiatorPhase::SyncStepping;
                make_quiet(self.tick())
            },
            _ => self.fail(SessionError::ProtocolViolation),
        }
    }

    fn on_syncing(&mut self, event: Event) -> (directive: Directive)
        requires
            old(self)@.phase is SyncStepping || old(self)@.phase is SyncPolling,
        ensures
            (final(self)@, directive@) == initiate_syncing(old(self)@, event@),
    {
        match (self.phase, event) {
            (InitiatorPhase::SyncStepping, Event::Stepped(t)) => {
                self.phase = InitiatorPhase::SyncPolling;
                self.trajectory = t;
                let mut outgoing: Vec<Frame> = Vec::new();
                proof {
                    assert(frames_view(outgoing@) =~= Seq::<FrameView>::empty());
                }
                push_frame(&mut outgoing, encode_coordinate(t.x));
                push_frame(&mut outgoing, encode_coordinate(t.y));
                push_frame(&mut outgoing, encode_coordinate(t.z));
                proof {
                    assert(frames_view(outgoing@) =~= coordinate_frames(t));
                }
                Directive { outgoing, next: Request::Poll }
            },
            (InitiatorPhase::SyncPolling, Event::Idle) => {
                self.phase = InitiatorPhase::SyncStepping;
                make_quiet(self.tick())
            },
            (InitiatorPhase::SyncPolling, Event::Frame(frame)) => {
                match parse_control(&frame) {
                    Ok(ControlCode::SyncComplete) => {
                        self.phase = InitiatorPhase::Harvesting;
                        make_quiet(self.tick())
                    },
                    _ => self.fail(SessionError::ProtocolViolation),
                }
            },
            _ => self.fail(SessionError::ProtocolViolation),
        }
    }

    fn on_synced(&mut self, event: Event) -> (directive: Directive)
        requires
            old(self)@.phase is Harvesting || old(self)@.phase is Delivering,
        ensures
            (final(self)@, directive@) == initiate_synced(old(self)@, event@),
    {
        match (self.phase, event) {
            (InitiatorPhase::Harvesting, Event::Stepped(t)) => {
                self.trajectory = t;
                self.key_stream.harvest(t.y);
                proof {
                    lemma_sample_len(t.y);
                }
                match self.key_stream.take_window() {
                    None => make_quiet(self.tick()),
                    Some(window) => {
                        match seal(self.message.as_str(), window.as_slice()) {
                            Some(text) => {
                                self.phase = InitiatorPhase::Delivering;
                                let report = slice_to_vec(text.as_str().as_bytes());
                                let outgoing = build_transmission(text, window.as_slice());
                                Directive { outgoing, next: Request::Deliver(report) }
                            },
                            None => self.fail(SessionError::ProtocolViolation),
                        }
                    },
                }
            },
            (InitiatorPhase::Delivering, Event::Delivered) => {
                self.phase = InitiatorPhase::Prompting;
                make_quiet(Request::Prompt)
            },
            _ => self.fail(SessionError::ProtocolViolation),
        }
    }

    /// Takes the event that answers the pending request and decides what
    /// happens next: the new state and the directive are those of
    /// [`initiate`].
    pub fn advance(&mut self, event: Event) -> (directive: Directive)
        ensures
            (final(self)@, directive@) == initiate(old(self)@, event@),
    {
        if let InitiatorPhase::Finished(outcome) = self.phase {
            return make_quiet(Request::Stop(outcome));
        }
        if let Event::ChannelFailed = event {
            return self.fail(SessionError::ChannelFailure);
        }
        match self.phase {
            InitiatorPhase::Start
            | InitiatorPhase::AwaitingKey
            | InitiatorPhase::Deriving
            | InitiatorPhase::Seeding => self.on_unverified(event),
            InitiatorPhase::Prompting
            | InitiatorPhase::UnsyncedStepping
            | InitiatorPhase::AwaitingAck
            | InitiatorPhase::Cancelling => self.on_unsynced(event),
            InitiatorPhase::SyncStepping | InitiatorPhase::SyncPolling => self.on_syncing(event),
            _ => self.on_synced(event),
        }
    }
}

} // verus!
