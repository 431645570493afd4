use vstd::prelude::*;
use crate::cipher::{decrypt, located_window, locate_window, decrypted, FINGERPRINT_LEN};
use crate::encoding::base64_bytes;
use crate::error::SessionError;
use crate::frame::{
    byte_of, control_frame, control_of, coordinate_of, encode_control, parse_byte, parse_control,
    parse_coordinate, text_of, ControlCode, Frame, FrameView,
};
use crate::keystream::{sample_bytes, KeyStreamBuffer};
use crate::negotiation::{agreed, public_key_of, KeyMaterial, KEY_LEN};
use crate::session::{
    coupled_step, free_step, make_quiet, make_sending, quiet, sending, Directive, DirectiveView,
    Event, EventView, Request, RequestView, SessionParameters, Trajectory, SYNC_TICKS,
};

verus! {

/// Where the responder stands: the state of the protocol, refined by the
/// answer that the responder is waiting for.
#[derive(Clone, Copy, Debug, PartialEq, Eq)]
pub enum ResponderPhase {
    /// Unverified: nothing has happened yet.
    Start,
    /// Unverified: waiting for the initiator's public key.
    AwaitingKey,
    /// Unverified: waiting for the parameters of the negotiated scalar.
    Deriving,
    /// Unverified: waiting for the first tick from the seed.
    Seeding,
    /// Unsynced: waiting for a free-running tick.
    UnsyncedStepping,
    /// Unsynced: looking for a control frame.
    UnsyncedPolling,
    /// Syncing: waiting for the initiator's x.
    AwaitingX,
    /// Syncing: holding the initiator's x, waiting for its y.
    AwaitingY { x: u64 },
    /// Syncing: holding the initiator's x, waiting for its z.
    AwaitingZ { x: u64 },
    /// Syncing: waiting for the tick driven by the initiator's x.
    CoupledStepping,
    /// Synced: waiting for a free-running tick to harvest.
    SyncedStepping,
    /// Synced: looking for the notice that a ciphertext follows.
    SyncedPolling,
    /// Transmitting: waiting for the ciphertext.
    AwaitingCiphertext,
    /// Transmitting: waiting for the next byte of the fingerprint.
    AwaitingFingerprint,
    /// Completed: waiting for the collaborator to take the plaintext.
    Delivering,
    /// Completed: waiting for the perturbed trajectory.
    Perturbing,
    /// The session is over, orderly or with an error.
    Finished(Result<(), SessionError>),
}

/// The text of the acknowledgment that answers a synchronisation request.
pub open spec fn acknowledgment() -> Seq<char> {
    "Sync Request approved"@
}

/// What a responder holds.
pub struct ResponderView {
    pub phase: ResponderPhase,
    /// The secret key, until the shared secret has been derived.
    pub secret: Option<Seq<u8>>,
    pub trajectory: Trajectory,
    pub parameters: SessionParameters,
    /// How many driven ticks in a row left y and z unchanged.
    pub run: nat,
    pub key_stream: Seq<u8>,
    pub ciphertext: Seq<char>,
    pub fingerprint: Seq<u8>,
}

impl ResponderView {
    /// The key pair is held exactly while the session is unverified and no
    /// key has arrived; the run is short of `SYNC_TICKS`; a fingerprint under
    /// collection is incomplete.
    pub open spec fn wf(self) -> bool {
        &&& (self.phase is Start || self.phase is AwaitingKey) <==> self.secret is Some
        &&& self.secret matches Some(secret) ==> secret.len() == KEY_LEN
        &&& self.run < SYNC_TICKS
        &&& self.phase is AwaitingFingerprint ==> self.fingerprint.len() < FINGERPRINT_LEN
    }

    /// The responder that has seen nothing yet.
    pub open spec fn initial(secret: Seq<u8>, seed: Trajectory) -> ResponderView {
        ResponderView {
            phase: ResponderPhase::Start,
            secret: Some(secret),
            trajectory: seed,
            parameters: SessionParameters { rho: 0, sigma: 0, beta: 0, h: 0 },
            run: 0,
            key_stream: Seq::empty(),
            ciphertext: Seq::empty(),
            fingerprint: Seq::empty(),
        }
    }

    /// This responder in another phase.
    pub open spec fn at(self, phase: ResponderPhase) -> ResponderView {
        ResponderView { phase, ..self }
    }

    /// This responder with the oscillator at `trajectory`.
    pub open spec fn moved(self, trajectory: Trajectory) -> ResponderView {
        ResponderView { trajectory, ..self }
    }

    /// The request for one free-running tick from where the oscillator is.
    pub open spec fn tick(self) -> RequestView {
        free_step(self.trajectory, self.parameters)
    }
}

/// The session ends with `error`.
pub open spec fn failed(s: ResponderView, error: SessionError) -> (ResponderView, DirectiveView) {
    (
        ResponderView { phase: ResponderPhase::Finished(Err(error)), secret: None, ..s },
        quiet(RequestView::Stop(Err(error))),
    )
}

/// Unverified. The session opens by waiting for the initiator's key. The key
/// frame yields the scalar, is answered with the responder's own key, and
/// uses the key pair up. The parameters seed the oscillator, whose first
/// tick leads to the unsynced state.
pub open spec fn respond_unverified(s: ResponderView, e: EventView) -> (
    ResponderView,
    DirectiveView,
) {
    match (s.phase, e) {
        (ResponderPhase::Start, EventView::Start) => (
            s.at(ResponderPhase::AwaitingKey),
            quiet(RequestView::Receive),
        ),
        (ResponderPhase::AwaitingKey, EventView::Frame(FrameView::Binary(key))) => match s.secret {
            Some(secret) => match agreed(secret, key) {
                Ok(scalar) => (
                    ResponderView { phase: ResponderPhase::Deriving, secret: None, ..s },
                    sending(
                        FrameView::Binary(public_key_of(secret)),
                        RequestView::Derive { scalar },
                    ),
                ),
                Err(error) => failed(s, error),
            },
            None => failed(s, SessionError::ProtocolViolation),
        },
        (ResponderPhase::Deriving, EventView::Derived(parameters)) => (
            ResponderView { phase: ResponderPhase::Seeding, parameters, ..s },
            quiet(free_step(s.trajectory, parameters)),
        ),
        (ResponderPhase::Seeding, EventView::Stepped(t)) => (
            s.moved(t).at(ResponderPhase::UnsyncedStepping),
            quiet(s.moved(t).tick()),
        ),
        _ => failed(s, SessionError::ProtocolViolation),
    }
}

/// Unsynced. The oscillator runs free, and after every tick the channel is
/// polled. A synchronisation request is acknowledged and starts the syncing
/// state; a cancellation ends the session in order; any other frame is a
/// protocol violation.
pub open spec fn respond_unsynced(s: ResponderView, e: EventView) -> (
    ResponderView,
    DirectiveView,
) {
    match (s.phase, e) {
        (ResponderPhase::UnsyncedStepping, EventView::Stepped(t)) => (
            s.moved(t).at(ResponderPhase::UnsyncedPolling),
            quiet(RequestView::Poll),
        ),
        (ResponderPhase::UnsyncedPolling, EventView::Idle) => (
            s.at(ResponderPhase::UnsyncedStepping),
            quiet(s.tick()),
        ),
        (ResponderPhase::UnsyncedPolling, EventView::Frame(frame)) => match control_of(frame) {
            Ok(ControlCode::SyncRequest) => (
                s.at(ResponderPhase::AwaitingX),
                sending(FrameView::Text(acknowledgment()), RequestView::Receive),
            ),
            Ok(ControlCode::Cancel) => (
                s.at(ResponderPhase::Finished(Ok(()))),
                quiet(RequestView::Stop(Ok(()))),
            ),
            _ => failed(s, SessionError::ProtocolViolation),
        },
        _ => failed(s, SessionError::ProtocolViolation),
    }
}

/// Whether a tick from `before` to `after` left y and z as they were, bit
/// for bit.
pub open spec fn fixed_point(before: Trajectory, after: Trajectory) -> bool {
    after.y == before.y && after.z == before.z
}

/// The run of fixed-point ticks after a driven tick from `before` to
/// `after`: one longer where the tick was a fixed-point tick, and zero
/// otherwise.
pub open spec fn next_run(run: nat, before: Trajectory, after: Trajectory) -> nat {
    if fixed_point(before, after) {
        run + 1
    } else {
        0
    }
}

/// Whether a run of fixed-point ticks is long enough to declare convergence.
pub open spec fn converged(run: nat) -> bool {
    run >= SYNC_TICKS
}

/// Syncing. The initiator's x, y and z arrive in that order, each a
/// coordinate frame; its x then drives one tick. When the run of fixed-point
/// ticks reaches `SYNC_TICKS`, convergence is announced and the synced state
/// begins with an empty run; otherwise the next triple is awaited.
pub open spec fn respond_syncing(s: ResponderView, e: EventView) -> (
    ResponderView,
    DirectiveView,
) {
    match (s.phase, e) {
        (ResponderPhase::AwaitingX, EventView::Frame(frame)) => match coordinate_of(frame) {
            Ok(x) => (s.at(ResponderPhase::AwaitingY { x }), quiet(RequestView::Receive)),
            Err(error) => failed(s, error),
        },
        (ResponderPhase::AwaitingY { x }, EventView::Frame(frame)) => match coordinate_of(frame) {
            Ok(_) => (s.at(ResponderPhase::AwaitingZ { x }), quiet(RequestView::Receive)),
            Err(error) => failed(s, error),
        },
        (ResponderPhase::AwaitingZ { x }, EventView::Frame(frame)) => match coordinate_of(frame) {
            Ok(_) => (
                s.at(ResponderPhase::CoupledStepping),
                quiet(coupled_step(s.trajectory, x, s.parameters)),
            ),
            Err(error) => failed(s, error),
        },
        (ResponderPhase::CoupledStepping, EventView::Stepped(t)) => {
            let run = next_run(s.run, s.trajectory, t);
            let seen = s.moved(t);
            if converged(run) {
                (
                    ResponderView { phase: ResponderPhase::SyncedStepping, run: 0, ..seen },
                    sending(control_frame(ControlCode::SyncComplete), seen.tick()),
                )
            } else {
                (
                    ResponderView { phase: ResponderPhase::AwaitingX, run, ..seen },
                    quiet(RequestView::Receive),
                )
            }
        },
        _ => failed(s, SessionError::ProtocolViolation),
    }
}

/// Synced. The oscillator runs free and every tick's y is harvested. After
/// every tick the channel is polled. The notice that a ciphertext follows
/// starts the transmitting state. A coordinate frame is passed over: the
/// initiator keeps sending its coordinates until the announcement reaches
/// it, so those frames are still under way when the synced state begins.
/// Any other frame is a protocol violation.
pub open spec fn respond_synced(s: ResponderView, e: EventView) -> (ResponderView, DirectiveView) {
    match (s.phase, e) {
        (ResponderPhase::SyncedStepping, EventView::Stepped(t)) => (
            ResponderView {
                phase: ResponderPhase::SyncedPolling,
                trajectory: t,
                key_stream: s.key_stream + sample_bytes(t.y),
                ..s
            },
            quiet(RequestView::Poll),
        ),
        (ResponderPhase::SyncedPolling, EventView::Idle) => (
            s.at(ResponderPhase::SyncedStepping),
            quiet(s.tick()),
        ),
        (ResponderPhase::SyncedPolling, EventView::Frame(frame)) => if control_of(frame) == Ok::<
            ControlCode,
            SessionError,
        >(ControlCode::EncryptionComplete) {
            (s.at(ResponderPhase::AwaitingCiphertext), quiet(RequestView::Receive))
        } else if coordinate_of(frame) is Ok {
            (s.at(ResponderPhase::SyncedStepping), quiet(s.tick()))
        } else {
            failed(s, SessionError::ProtocolViolation)
        },
        _ => failed(s, SessionError::ProtocolViolation),
    }
}

/// What the receiver makes of a ciphertext and its fingerprint: the window
/// is located in the keystream first, and the ciphertext is then decoded and
/// deciphered under it.
pub open spec fn received_plaintext(
    key_stream: Seq<u8>,
    fingerprint: Seq<u8>,
    ciphertext: Seq<char>,
) -> Result<Seq<u8>, SessionError> {
    match located_window(key_stream, fingerprint) {
        Some(window) => decrypted(base64_bytes(ciphertext), window),
        None => Err(SessionError::LookupFailure),
    }
}

/// Transmitting and completed. A text frame brings the ciphertext, and
/// `FINGERPRINT_LEN` one-byte frames bring the fingerprint. The plaintext
/// goes to the collaborator; then the trajectory is perturbed and the
/// unsynced state begins again.
pub open spec fn respond_transmitting(s: ResponderView, e: EventView) -> (
    ResponderView,
    DirectiveView,
) {
    match (s.phase, e) {
        (ResponderPhase::AwaitingCiphertext, EventView::Frame(frame)) => match text_of(frame) {
            Ok(ciphertext) => (
                ResponderView {
                    phase: ResponderPhase::AwaitingFingerprint,
                    ciphertext,
                    fingerprint: Seq::empty(),
                    ..s
                },
                quiet(RequestView::Receive),
            ),
            Err(error) => failed(s, error),
        },
        (ResponderPhase::AwaitingFingerprint, EventView::Frame(frame)) => match byte_of(frame) {
            Ok(byte) => {
                let fingerprint = s.fingerprint.push(byte);
                let held = ResponderView { fingerprint, ..s };
                if fingerprint.len() < FINGERPRINT_LEN {
                    (held, quiet(RequestView::Receive))
                } else {
                    match received_plaintext(s.key_stream, fingerprint, s.ciphertext) {
                        Ok(plaintext) => (
                            held.at(ResponderPhase::Delivering),
                            quiet(RequestView::Deliver(plaintext)),
                        ),
                        Err(error) => failed(held, error),
                    }
                }
            },
            Err(error) => failed(s, error),
        },
        (ResponderPhase::Delivering, EventView::Delivered) => (
            s.at(ResponderPhase::Perturbing),
            quiet(RequestView::Perturb { from: s.trajectory }),
        ),
        (ResponderPhase::Perturbing, EventView::Stepped(t)) => (
            s.moved(t).at(ResponderPhase::UnsyncedStepping),
            quiet(s.moved(t).tick()),
        ),
        _ => failed(s, SessionError::ProtocolViolation),
    }
}

/// The responder's transition: the state and the directive that follow from
/// state `s` on event `e`. A finished session stays finished and asks to
/// stop; a channel failure ends any other session; an event that does not answer
/// the pending request is a protocol violation.
pub open spec fn respond(s: ResponderView, e: EventView) -> (ResponderView, DirectiveView) {
    if let ResponderPhase::Finished(outcome) = s.phase {
        (s, quiet(RequestView::Stop(outcome)))
    } else if e is ChannelFailed {
        failed(s, SessionError::ChannelFailure)
    } else {
        match s.phase {
            ResponderPhase::Start
            | ResponderPhase::AwaitingKey
            | ResponderPhase::Deriving
            | ResponderPhase::Seeding => respond_unverified(s, e),
            ResponderPhase::UnsyncedStepping | ResponderPhase::UnsyncedPolling => respond_unsynced(
                s,
                e,
            ),
            ResponderPhase::AwaitingX
            | ResponderPhase::AwaitingY { .. }
            | ResponderPhase::AwaitingZ { .. }
            | ResponderPhase::CoupledStepping => respond_syncing(s, e),
            ResponderPhase::SyncedStepping | ResponderPhase::SyncedPolling => respond_synced(s, e),
            _ => respond_transmitting(s, e),
        }
    }
}

/// The transition keeps the invariant.
pub proof fn lemma_respond_keeps_wf(s: ResponderView, e: EventView)
    requires
        s.wf(),
    ensures
        respond(s, e).0.wf(),
{
}

/// A finished session stays as it is, whatever arrives, and asks to stop
/// with the outcome that ended it.
pub proof fn lemma_finished_is_final(s: ResponderView, e: EventView)
    requires
        s.phase is Finished,
    ensures
        respond(s, e) == (s, quiet(RequestView::Stop(s.phase->Finished_0))),
{
}

/// A channel failure ends every session that is not over yet, with nothing
/// sent and nothing retried.
pub proof fn lemma_channel_failure_is_fatal(s: ResponderView)
    requires
        !(s.phase is Finished),
    ensures
        respond(s, EventView::ChannelFailed).0.phase == ResponderPhase::Finished(
            Err(SessionError::ChannelFailure),
        ),
        respond(s, EventView::ChannelFailed).1 == quiet(
            RequestView::Stop(Err(SessionError::ChannelFailure)),
        ),
{
}

/// The transition asks to stop exactly when it leaves the session finished,
/// and then with the outcome that it finished with.
pub proof fn lemma_stop_means_finished(s: ResponderView, e: EventView)
    requires
        s.wf(),
    ensures
        respond(s, e).1.next is Stop <==> respond(s, e).0.phase is Finished,
        respond(s, e).0.phase matches ResponderPhase::Finished(outcome) ==> respond(s, e).1.next
            == RequestView::Stop(outcome),
{
}

/// No write goes unreported: a directive that asks to stop sends nothing,
/// so every frame handed out is followed by a request whose answer can
/// still be a channel failure.
pub proof fn lemma_stop_sends_nothing(s: ResponderView, e: EventView)
    ensures
        respond(s, e).1.next is Stop ==> respond(s, e).1.outgoing == Seq::<FrameView>::empty(),
{
}

/// The parameters are negotiated exactly once: only the arrival of the
/// initiator's key asks for the parameters of a scalar, that step uses the
/// key pair up, and no step brings a key pair back.
pub proof fn lemma_negotiates_once(s: ResponderView, e: EventView)
    requires
        s.wf(),
    ensures
        respond(s, e).1.next is Derive ==> s.phase is AwaitingKey && respond(s, e).0.secret
            is None,
        s.secret is None ==> respond(s, e).0.secret is None && !(respond(s, e).1.next is Derive),
{
}

/// The keystream buffer is append-only: no transition drops or rewrites a
/// harvested byte, and only a tick of the synced state adds any, namely the
/// bytes of that tick's y.
pub proof fn lemma_key_stream_append_only(s: ResponderView, e: EventView)
    ensures
        s.key_stream.is_prefix_of(respond(s, e).0.key_stream),
        respond(s, e).0.key_stream != s.key_stream ==> s.phase is SyncedStepping && e is Stepped,
        (s.phase is SyncedStepping && e is Stepped) ==> respond(s, e).0.key_stream
            == s.key_stream + sample_bytes(e->Stepped_0.y),
{
    let after = respond(s, e).0.key_stream;
    if s.phase is SyncedStepping && e is Stepped {
        assert(after == s.key_stream + sample_bytes(e->Stepped_0.y));
        assert(after.subrange(0, s.key_stream.len() as int) =~= s.key_stream);
    } else {
        assert(after == s.key_stream);
        assert(after.subrange(0, s.key_stream.len() as int) =~= s.key_stream);
    }
}

/// Convergence is announced on exactly one occasion: a driven tick that
/// leaves y and z as they were, bit for bit, and that is the
/// `SYNC_TICKS`-th such tick in a row. Any other driven tick sends nothing;
/// a mismatch empties the run, and a match short of `SYNC_TICKS` lengthens
/// it by one.
pub proof fn lemma_convergence_rule(s: ResponderView, t: Trajectory)
    requires
        s.wf(),
        s.phase is CoupledStepping,
    ensures
        ({
            let (after, directive) = respond(s, EventView::Stepped(t));
            let matched = fixed_point(s.trajectory, t);
            let announced = matched && s.run + 1 == SYNC_TICKS;
            &&& announced ==> directive.outgoing == seq![
                control_frame(ControlCode::SyncComplete),
            ] && after.phase is SyncedStepping && after.run == 0
            &&& !announced ==> directive.outgoing == Seq::<FrameView>::empty() && after.phase
                is AwaitingX
            &&& !matched ==> after.run == 0
            &&& matched && !announced ==> after.run == s.run + 1
            &&& after.trajectory == t
        }),
{
}

/// Once the keys are exchanged, no transition but a driven tick of the
/// syncing state announces convergence.
pub proof fn lemma_convergence_only_when_syncing(s: ResponderView, e: EventView, i: int)
    requires
        s.wf(),
        s.secret is None,
        0 <= i < respond(s, e).1.outgoing.len(),
        respond(s, e).1.outgoing[i] == control_frame(ControlCode::SyncComplete),
    ensures
        s.phase is CoupledStepping,
        e is Stepped,
{
}

/// The responder's side of a session: owns the key pair, the trajectory, the
/// run counter and the keystream buffer, and decides every step.
pub struct Responder {
    phase: ResponderPhase,
    material: Option<KeyMaterial>,
    trajectory: Trajectory,
    parameters: SessionParameters,
    run: u32,
    key_stream: KeyStreamBuffer,
    ciphertext: String,
    fingerprint: Vec<u8>,
}

impl View for Responder {
    type V = ResponderView;

    closed spec fn view(&self) -> ResponderView {
        ResponderView {
            phase: self.phase,
            secret: match self.material {
                Some(material) => Some(material.secret()),
                None => None,
            },
            trajectory: self.trajectory,
            parameters: self.parameters,
            run: self.run as nat,
            key_stream: self.key_stream@,
            ciphertext: self.ciphertext@,
            fingerprint: self.fingerprint@,
        }
    }
}

impl Responder {
    /// A responder that owns `material` and starts its oscillator at `seed`.
    pub fn new(material: KeyMaterial, seed: Trajectory) -> (responder: Self)
        ensures
            responder@ == ResponderView::initial(material.secret(), seed),
            responder@.wf(),
    {
        material.recall_key_len();
        Responder {
            phase: ResponderPhase::Start,
            material: Some(material),
            trajectory: seed,
            parameters: SessionParameters { rho: 0, sigma: 0, beta: 0, h: 0 },
            run: 0,
            key_stream: KeyStreamBuffer::new(),
            ciphertext: String::new(),
            fingerprint: Vec::new(),
        }
    }

    /// Where the responder stands.
    pub fn phase(&self) -> (phase: ResponderPhase)
        ensures
            phase == self@.phase,
    {
        self.phase
    }

    /// Whether the session is over.
    pub fn is_finished(&self) -> (done: bool)
        ensures
            done == (self@.phase is Finished),
    {
        match self.phase {
            ResponderPhase::Finished(_) => true,
            _ => false,
        }
    }

    /// Number of keystream bytes harvested and still held.
    pub fn key_stream_len(&self) -> (n: usize)
        ensures
            n == self@.key_stream.len(),
    {
        self.key_stream.len()
    }

    /// Length of the current run of fixed-point ticks.
    pub fn run(&self) -> (run: u32)
        ensures
            run == self@.run,
    {
        self.run
    }

    fn fail(&mut self, error: SessionError) -> (directive: Directive)
        ensures
            (final(self)@, directive@) == failed(old(self)@, error),
    {
        self.phase = ResponderPhase::Finished(Err(error));
        self.material = None;
        make_quiet(Request::Stop(Err(error)))
    }

    fn tick(&self) -> (request: Request)
        ensures
            request@ == self@.tick(),
    {
        Request::Step { from: self.trajectory, coupling: None, parameters: self.parameters }
    }

    fn on_unverified(&mut self, event: Event) -> (directive: Directive)
        requires
            old(self)@.phase is Start || old(self)@.phase is AwaitingKey || old(self)@.phase
                is Deriving || old(self)@.phase is Seeding,
        ensures
            (final(self)@, directive@) == respond_unverified(old(self)@, event@),
    {
        match (self.phase, event) {
            (ResponderPhase::Start, Event::Start) => {
                self.phase = ResponderPhase::AwaitingKey;
                make_quiet(Request::Receive)
            },
            (ResponderPhase::AwaitingKey, Event::Frame(Frame::Binary(key))) => {
                match self.material.take() {
                    Some(material) => {
                        let public = material.public_key();
                        match material.agree(key.as_slice()) {
                            Ok(scalar) => {
                                self.phase = ResponderPhase::Deriving;
                                make_sending(Frame::Binary(public), Request::Derive { scalar })
                            },
                            Err(error) => self.fail(error),
                        }
                    },
                    None => self.fail(SessionError::ProtocolViolation),
                }
            },
            (ResponderPhase::Deriving, Event::Derived(parameters)) => {
                self.phase = ResponderPhase::Seeding;
                self.parameters = parameters;
                make_quiet(self.tick())
            },
            (ResponderPhase::Seeding, Event::Stepped(t)) => {
                self.phase = ResponderPhase::UnsyncedStepping;
                self.trajectory = t;
                make_quiet(self.tick())
            },
            _ => self.fail(SessionError::ProtocolViolation),
        }
    }

    fn on_unsynced(&mut self, event: Event) -> (directive: Directive)
        requires
            old(self)@.phase is UnsyncedStepping || old(self)@.phase is UnsyncedPolling,
        ensures
            (final(self)@, directive@) == respond_unsynced(old(self)@, event@),
    {
        match (self.phase, event) {
            (ResponderPhase::UnsyncedStepping, Event::Stepped(t)) => {
                self.phase = ResponderPhase::UnsyncedPolling;
                self.trajectory = t;
                make_quiet(Request::Poll)
            },
            (ResponderPhase::UnsyncedPolling, Event::Idle) => {
                self.phase = ResponderPhase::UnsyncedStepping;
                make_quiet(self.tick())
            },
            (ResponderPhase::UnsyncedPolling, Event::Frame(frame)) => {
                match parse_control(&frame) {
                    Ok(ControlCode::SyncRequest) => {
                        self.phase = ResponderPhase::AwaitingX;
                        let text = "Sync Request approved".to_owned();
                        make_sending(Frame::Text(text), Request::Receive)
                    },
                    Ok(ControlCode::Cancel) => {
                        self.phase = ResponderPhase::Finished(Ok(()));
                        make_quiet(Request::Stop(Ok(())))
                    },
                    _ => self.fail(SessionError::ProtocolViolation),
                }
            },
            _ => self.fail(SessionError::ProtocolViolation),
        }
    }

    fn on_syncing(&mut self, event: Event) -> (directive: Directive)
        requires
            old(self)@.phase is AwaitingX || old(self)@.phase is AwaitingY || old(self)@.phase
                is AwaitingZ || old(self)@.phase is CoupledStepping,
        ensures
            (final(self)@, directive@) == respond_syncing(old(self)@, event@),
    {
        match (self.phase, event) {
            (ResponderPhase::AwaitingX, Event::Frame(frame)) => {
                match parse_coordinate(&frame) {
                    Ok(x) => {
                        self.phase = ResponderPhase::AwaitingY { x };
                        make_quiet(Request::Receive)
                    },
                    Err(error) => self.fail(error),
                }
            },
            (ResponderPhase::AwaitingY { x }, Event::Frame(frame)) => {
                match parse_coordinate(&frame) {
                    Ok(_) => {
                        self.phase = ResponderPhase::AwaitingZ { x };
                        make_quiet(Request::Receive)
                    },
                    Err(error) => self.fail(error),
                }
            },
            (ResponderPhase::AwaitingZ { x }, Event::Frame(frame)) => {
                match parse_coordinate(&frame) {
                    Ok(_) => {
                        self.phase = ResponderPhase::CoupledStepping;
                        make_quiet(
                            Request::Step {
                                from: self.trajectory,
                                coupling: Some(x),
                                parameters: self.parameters,
                            },
                        )
                    },
                    Err(error) => self.fail(error),
                }
            },
            (ResponderPhase::CoupledStepping, Event::Stepped(t)) => {
                let matched = t.y == self.trajectory.y && t.z == self.trajectory.z;
                self.trajectory = t;
                if matched && self.run >= SYNC_TICKS - 1 {
                    self.phase = ResponderPhase::SyncedStepping;
                    self.run = 0;
                    make_sending(encode_control(ControlCode::SyncComplete), self.tick())
                } else {
                    self.phase = ResponderPhase::AwaitingX;
                    self.run = if matched {
                        self.run + 1
                    } else {
                        0
                    };
                    make_quiet(Request::Receive)
                }
            },
            _ => self.fail(SessionError::ProtocolViolation),
        }
    }

    fn on_synced(&mut self, event: Event) -> (directive: Directive)
        requires
            old(self)@.phase is SyncedStepping || old(self)@.phase is SyncedPolling,
        ensures
            (final(self)@, directive@) == respond_synced(old(self)@, event@),
    {
        match (self.phase, event) {
            (ResponderPhase::SyncedStepping, Event::Stepped(t)) => {
                self.phase = ResponderPhase::SyncedPolling;
                self.trajectory = t;
                self.key_stream.harvest(t.y);
                make_quiet(Request::Poll)
            },
            (ResponderPhase::SyncedPolling, Event::Idle) => {
                self.phase = ResponderPhase::SyncedStepping;
                make_quiet(self.tick())
            },
            (ResponderPhase::SyncedPolling, Event::Frame(frame)) => {
                match parse_control(&frame) {
                    Ok(ControlCode::EncryptionComplete) => {
                        self.phase = ResponderPhase::AwaitingCiphertext;
                        make_quiet(Request::Receive)
                    },
                    _ => match parse_coordinate(&frame) {
                        Ok(_) => {
                            self.phase = ResponderPhase::SyncedStepping;
                            make_quiet(self.tick())
                        },
                        Err(error) => self.fail(error),
                    },
                }
            },
            _ => self.fail(SessionError::ProtocolViolation),
        }
    }

    fn on_transmitting(&mut self, event: Event) -> (directive: Directive)
        requires
            old(self)@.phase is AwaitingCiphertext || old(self)@.phase is AwaitingFingerprint
                || old(self)@.phase is Delivering || old(self)@.phase is Perturbing,
        ensures
            (final(self)@, directive@) == respond_transmitting(old(self)@, event@),
    {
        match (self.phase, event) {
            (ResponderPhase::AwaitingCiphertext, Event::Frame(Frame::Text(ciphertext))) => {
                self.phase = ResponderPhase::AwaitingFingerprint;
                self.ciphertext = ciphertext;
                self.fingerprint.clear();
                make_quiet(Request::Receive)
            },
            (ResponderPhase::AwaitingFingerprint, Event::Frame(frame)) => {
                match parse_byte(&frame) {
                    Ok(byte) => {
                        self.fingerprint.push(byte);
                        if self.fingerprint.len() < FINGERPRINT_LEN {
                            make_quiet(Request::Receive)
                        } else {
                            match receive_plaintext(
                                self.key_stream.as_slice(),
                                self.fingerprint.as_slice(),
                                self.ciphertext.as_str(),
                            ) {
                                Ok(plaintext) => {
                                    self.phase = ResponderPhase::Delivering;
                                    make_quiet(Request::Deliver(plaintext))
                                },
                                Err(error) => self.fail(error),
                            }
                        }
                    },
                    Err(error) => self.fail(error),
                }
            },
            (ResponderPhase::Delivering, Event::Delivered) => {
                self.phase = ResponderPhase::Perturbing;
                make_quiet(Request::Perturb { from: self.trajectory })
            },
            (ResponderPhase::Perturbing, Event::Stepped(t)) => {
                self.phase = ResponderPhase::UnsyncedStepping;
                self.trajectory = t;
                make_quiet(self.tick())
            },
            _ => self.fail(SessionError::ProtocolViolation),
        }
    }

    /// Takes the event that answers the pending request and decides what
    /// happens next: the new state and the directive are those of
    /// [`respond`].
    pub fn advance(&mut self, event: Event) -> (directive: Directive)
        ensures
            (final(self)@, directive@) == respond(old(self)@, event@),
    {
        if let ResponderPhase::Finished(outcome) = self.phase {
            return make_quiet(Request::Stop(outcome));
        }
        if let Event::ChannelFailed = event {
            return self.fail(SessionError::ChannelFailure);
        }
        match self.phase {
            ResponderPhase::Start
            | ResponderPhase::AwaitingKey
            | ResponderPhase::Deriving
            | ResponderPhase::Seeding => self.on_unverified(event),
            ResponderPhase::UnsyncedStepping | ResponderPhase::UnsyncedPolling => self.on_unsynced(
                event,
            ),
            ResponderPhase::AwaitingX
            | ResponderPhase::AwaitingY { .. }
            | ResponderPhase::AwaitingZ { .. }
            | ResponderPhase::CoupledStepping => self.on_syncing(event),
            ResponderPhase::SyncedStepping | ResponderPhase::SyncedPolling => self.on_synced(
                event,
            ),
            _ => self.on_transmitting(event),
        }
    }
}

/// Locates the window that `fingerprint` names in `key_stream`, then decodes
/// `ciphertext` and deciphers it under that window.
pub fn receive_plaintext(key_stream: &[u8], fingerprint: &[u8], ciphertext: &str) -> (plaintext:
    Result<Vec<u8>, SessionError>)
    ensures
        match received_plaintext(key_stream@, fingerprint@, ciphertext@) {
            Ok(bytes) => plaintext is Ok && plaintext->Ok_0@ == bytes,
            Err(error) => plaintext == Err::<Vec<u8>, SessionError>(error),
        },
{
    match locate_window(key_stream, fingerprint) {
        Ok(window) => decrypt(ciphertext, window.as_slice()),
        Err(error) => Err(error),
    }
}

} // verus!
