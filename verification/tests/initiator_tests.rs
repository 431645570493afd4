use strange_cipher::error::SessionError;
use strange_cipher::frame::{encode_control, encode_coordinate, ControlCode, Frame};
use strange_cipher::initiator::{Initiator, InitiatorPhase};
use strange_cipher::negotiation::KeyMaterial;
use strange_cipher::session::{Directive, Event, Request, SessionParameters, Trajectory};

fn unhex(text: &str) -> Vec<u8> {
    (0..text.len() / 2).map(|i| u8::from_str_radix(&text[2 * i..2 * i + 2], 16).unwrap()).collect()
}

const INITIATOR_SECRET: &str = "77076d0a7318a57d3c16c17251b26645df4c2f87ebc0992ab177fba51db92c2a";
const INITIATOR_PUBLIC: &str = "8520f0098930a754748b7ddcb43ef75a0dbf3a0d26381af4eba4a98eaa9b4e6a";
const RESPONDER_PUBLIC: &str = "de9edb7d7b7dc1b4d35b61c2ece435373f8343c85b78674dadfc7e146f882b4f";

fn point(x: f64, y: f64, z: f64) -> Trajectory {
    Trajectory { x: x.to_bits(), y: y.to_bits(), z: z.to_bits() }
}

fn chosen() -> SessionParameters {
    SessionParameters {
        rho: 2.0f64.to_bits(),
        sigma: 25.0f64.to_bits(),
        beta: (8.0f64 / 3.0).to_bits(),
        h: 0.01f64.to_bits(),
    }
}

fn silent(next: Request) -> Directive {
    Directive { outgoing: vec![], next }
}

fn tick_from(from: Trajectory) -> Request {
    Request::Step { from, coupling: None, parameters: chosen() }
}

fn halted(error: SessionError) -> Directive {
    silent(Request::Stop(Err(error)))
}

fn new_initiator() -> Initiator {
    let material = KeyMaterial::from_secret(&unhex(INITIATOR_SECRET)).unwrap();
    Initiator::new(material, point(-10.0, -7.0, 35.0))
}

/// An initiator that has exchanged keys and asks for a message.
fn prompting() -> Initiator {
    let mut initiator = new_initiator();
    initiator.advance(Event::Start);
    initiator.advance(Event::Frame(Frame::Binary(unhex(RESPONDER_PUBLIC))));
    initiator.advance(Event::Derived(chosen()));
    initiator.advance(Event::Stepped(point(-9.25, -3.63, 34.75)));
    assert_eq!(initiator.phase(), InitiatorPhase::Prompting);
    initiator
}

/// An initiator that carries `message` and has been told of convergence.
fn harvesting(message: &str) -> Initiator {
    let mut initiator = prompting();
    initiator.advance(Event::Message(message.to_string()));
    initiator.advance(Event::Frame(Frame::Text("Sync Request approved".to_string())));
    initiator.advance(Event::Stepped(point(1.0, 2.0, 3.0)));
    initiator.advance(Event::Frame(encode_control(ControlCode::SyncComplete)));
    assert_eq!(initiator.phase(), InitiatorPhase::Harvesting);
    initiator
}

#[test]
fn initiator_sends_its_key_first() {
    let mut initiator = new_initiator();
    assert_eq!(initiator.phase(), InitiatorPhase::Start);
    let opening = initiator.advance(Event::Start);
    assert_eq!(opening.outgoing, vec![Frame::Binary(unhex(INITIATOR_PUBLIC))]);
    assert_eq!(opening.next, Request::Receive);
    assert_eq!(initiator.phase(), InitiatorPhase::AwaitingKey);

    let derive = initiator.advance(Event::Frame(Frame::Binary(unhex(RESPONDER_PUBLIC))));
    assert_eq!(derive, silent(Request::Derive { scalar: 0x3b }));
    assert_eq!(initiator.phase(), InitiatorPhase::Deriving);

    let seed = initiator.advance(Event::Derived(chosen()));
    assert_eq!(seed, silent(tick_from(point(-10.0, -7.0, 35.0))));
    assert_eq!(initiator.phase(), InitiatorPhase::Seeding);

    let prompt = initiator.advance(Event::Stepped(point(-9.25, -3.63, 34.75)));
    assert_eq!(prompt, silent(Request::Prompt));
    assert_eq!(initiator.phase(), InitiatorPhase::Prompting);
}

#[test]
fn initiator_rejects_a_malformed_key_frame() {
    for frame in [
        Frame::Binary(vec![0; 31]),
        Frame::Binary(vec![0; 33]),
        Frame::Binary(vec![]),
        Frame::Text("key".to_string()),
    ] {
        let mut initiator = new_initiator();
        initiator.advance(Event::Start);
        assert_eq!(
            initiator.advance(Event::Frame(frame)),
            halted(SessionError::ProtocolViolation)
        );
        assert_eq!(
            initiator.phase(),
            InitiatorPhase::Finished(Err(SessionError::ProtocolViolation))
        );
    }
}

#[test]
fn unsynced_initiator_runs_free_while_no_message_is_ready() {
    let mut initiator = prompting();
    assert_eq!(
        initiator.advance(Event::Idle),
        silent(tick_from(point(-9.25, -3.63, 34.75)))
    );
    assert_eq!(initiator.phase(), InitiatorPhase::UnsyncedStepping);
    let moved = point(-7.845, -0.5627833333333334, 34.175330555555554);
    assert_eq!(initiator.advance(Event::Stepped(moved)), silent(Request::Prompt));
    assert_eq!(initiator.phase(), InitiatorPhase::Prompting);
    assert_eq!(initiator.advance(Event::Idle), silent(tick_from(moved)));
}

#[test]
fn empty_message_cancels_the_session() {
    let mut initiator = prompting();
    let cancel = initiator.advance(Event::Message(String::new()));
    assert_eq!(cancel.outgoing, vec![Frame::Binary(vec![0])]);
    assert_eq!(cancel.next, Request::Confirm);
    assert!(!initiator.is_finished());
    assert_eq!(initiator.phase(), InitiatorPhase::Cancelling);

    assert_eq!(initiator.advance(Event::Sent), silent(Request::Stop(Ok(()))));
    assert!(initiator.is_finished());
    assert_eq!(initiator.phase(), InitiatorPhase::Finished(Ok(())));
    assert_eq!(initiator.advance(Event::Idle), silent(Request::Stop(Ok(()))));
    assert_eq!(initiator.advance(Event::ChannelFailed), silent(Request::Stop(Ok(()))));
}

#[test]
fn rejected_cancellation_is_a_channel_failure() {
    let mut initiator = prompting();
    let cancel = initiator.advance(Event::Message(String::new()));
    assert_eq!(cancel.outgoing, vec![Frame::Binary(vec![0])]);
    assert_eq!(cancel.next, Request::Confirm);

    assert_eq!(
        initiator.advance(Event::ChannelFailed),
        halted(SessionError::ChannelFailure)
    );
    assert_eq!(
        initiator.phase(),
        InitiatorPhase::Finished(Err(SessionError::ChannelFailure))
    );
    assert_eq!(initiator.advance(Event::Sent), halted(SessionError::ChannelFailure));
}

#[test]
fn cancellation_accepts_no_other_answer() {
    let mut initiator = prompting();
    initiator.advance(Event::Message(String::new()));
    assert_eq!(initiator.advance(Event::Idle), halted(SessionError::ProtocolViolation));

    let mut initiator = prompting();
    assert_eq!(initiator.advance(Event::Sent), halted(SessionError::ProtocolViolation));
}

#[test]
fn only_a_stop_that_sends_nothing_ends_a_session() {
    let mut initiator = prompting();
    let request = initiator.advance(Event::Message("hello".to_string()));
    assert_eq!(request.outgoing.len(), 1);
    assert_ne!(request.next, Request::Stop(Ok(())));
    let cancel = prompting().advance(Event::Message(String::new()));
    assert_eq!(cancel.outgoing.len(), 1);
    assert_ne!(cancel.next, Request::Stop(Ok(())));
}

#[test]
fn message_starts_a_synchronisation_episode() {
    let mut initiator = prompting();
    let request = initiator.advance(Event::Message("hello".to_string()));
    assert_eq!(request.outgoing, vec![Frame::Binary(vec![1])]);
    assert_eq!(request.next, Request::Receive);
    assert_eq!(initiator.phase(), InitiatorPhase::AwaitingAck);

    let first = initiator.advance(Event::Frame(Frame::Text("Sync Request approved".to_string())));
    assert_eq!(first, silent(tick_from(point(-9.25, -3.63, 34.75))));
    assert_eq!(initiator.phase(), InitiatorPhase::SyncStepping);
}

#[test]
fn binary_frame_in_place_of_the_acknowledgment_is_a_protocol_violation() {
    let mut initiator = prompting();
    initiator.advance(Event::Message("hello".to_string()));
    assert_eq!(
        initiator.advance(Event::Frame(Frame::Binary(vec![2]))),
        halted(SessionError::ProtocolViolation)
    );
}

#[test]
fn every_tick_sends_x_y_z_in_order() {
    let mut initiator = prompting();
    initiator.advance(Event::Message("hello".to_string()));
    initiator.advance(Event::Frame(Frame::Text("ok".to_string())));

    let here = point(1.5, -2.5, 3.5);
    let sent = initiator.advance(Event::Stepped(here));
    assert_eq!(
        sent.outgoing,
        vec![
            encode_coordinate(1.5f64.to_bits()),
            encode_coordinate((-2.5f64).to_bits()),
            encode_coordinate(3.5f64.to_bits()),
        ]
    );
    assert_eq!(sent.outgoing[1], Frame::Binary(vec![0, 0, 0, 0, 0, 0, 0x04, 0xc0]));
    assert_eq!(sent.next, Request::Poll);
    assert_eq!(initiator.phase(), InitiatorPhase::SyncPolling);

    assert_eq!(initiator.advance(Event::Idle), silent(tick_from(here)));
    assert_eq!(initiator.phase(), InitiatorPhase::SyncStepping);
}

#[test]
fn only_the_notice_of_convergence_ends_the_syncing_state() {
    for frame in [
        Frame::Binary(vec![1]),
        Frame::Binary(vec![3]),
        Frame::Binary(vec![2, 2]),
        Frame::Text("2".to_string()),
    ] {
        let mut initiator = prompting();
        initiator.advance(Event::Message("hello".to_string()));
        initiator.advance(Event::Frame(Frame::Text("ok".to_string())));
        initiator.advance(Event::Stepped(point(1.0, 2.0, 3.0)));
        assert_eq!(
            initiator.advance(Event::Frame(frame)),
            halted(SessionError::ProtocolViolation)
        );
    }
    let initiator = harvesting("hello");
    assert_eq!(initiator.key_stream_len(), 0);
}

#[test]
fn two_harvested_ticks_encipher_the_message() {
    let mut initiator = harvesting("Hello, Testing!");
    let sample = point(-9.25, -3.63, 34.75);

    assert_eq!(initiator.advance(Event::Stepped(sample)), silent(tick_from(sample)));
    assert_eq!(initiator.phase(), InitiatorPhase::Harvesting);
    assert_eq!(initiator.key_stream_len(), 8);

    let sent = initiator.advance(Event::Stepped(sample));
    let mut expected = vec![
        Frame::Binary(vec![3]),
        Frame::Text("QrLPHFImLZRvpNcZU20s".to_string()),
    ];
    for byte in [0x0a, 0xd7, 0xa3, 0x70, 0x3d, 0x0a, 0x0d, 0xc0] {
        expected.push(Frame::Binary(vec![byte]));
    }
    assert_eq!(sent.outgoing, expected);
    assert_eq!(sent.next, Request::Deliver(b"QrLPHFImLZRvpNcZU20s".to_vec()));
    assert_eq!(initiator.phase(), InitiatorPhase::Delivering);
    assert_eq!(initiator.key_stream_len(), 0);

    assert_eq!(initiator.advance(Event::Delivered), silent(Request::Prompt));
    assert_eq!(initiator.phase(), InitiatorPhase::Prompting);
}

#[test]
fn a_second_message_gets_a_fresh_window() {
    let mut initiator = harvesting("first");
    initiator.advance(Event::Stepped(point(0.0, 0.1, 0.0)));
    let first = initiator.advance(Event::Stepped(point(0.0, 0.2, 0.0)));
    initiator.advance(Event::Delivered);

    initiator.advance(Event::Message("first".to_string()));
    initiator.advance(Event::Frame(Frame::Text("ok".to_string())));
    initiator.advance(Event::Stepped(point(0.0, 2.5, 0.0)));
    initiator.advance(Event::Frame(encode_control(ControlCode::SyncComplete)));
    assert_eq!(initiator.key_stream_len(), 0);
    assert_eq!(
        initiator.advance(Event::Stepped(point(0.0, 0.3, 0.0))).outgoing,
        Vec::<Frame>::new()
    );
    let second = initiator.advance(Event::Stepped(point(0.0, 0.4, 0.0)));

    assert_eq!(first.outgoing.len(), 10);
    assert_eq!(second.outgoing.len(), 10);
    assert_ne!(first.outgoing[1], second.outgoing[1]);
    assert_eq!(first.outgoing[2], Frame::Binary(vec![0x9a]));
    assert_eq!(first.outgoing[9], Frame::Binary(vec![0x3f]));
    assert_eq!(second.outgoing[2], Frame::Binary(vec![0x33]));
    assert_eq!(second.outgoing[8], Frame::Binary(vec![0xd3]));
    assert_eq!(second.outgoing[9], Frame::Binary(vec![0x3f]));
}

#[test]
fn initiator_stops_on_channel_failure() {
    let mut initiators = vec![new_initiator(), prompting(), harvesting("hello")];
    for initiator in initiators.iter_mut() {
        assert_eq!(
            initiator.advance(Event::ChannelFailed),
            halted(SessionError::ChannelFailure)
        );
        assert_eq!(
            initiator.phase(),
            InitiatorPhase::Finished(Err(SessionError::ChannelFailure))
        );
        assert_eq!(
            initiator.advance(Event::Message("again".to_string())),
            halted(SessionError::ChannelFailure)
        );
    }
}

#[test]
fn initiator_refuses_events_that_answer_nothing() {
    let mut initiator = new_initiator();
    assert_eq!(
        initiator.advance(Event::Message("early".to_string())),
        halted(SessionError::ProtocolViolation)
    );

    let mut initiator = prompting();
    assert_eq!(
        initiator.advance(Event::Stepped(point(0.0, 0.0, 0.0))),
        halted(SessionError::ProtocolViolation)
    );

    let mut initiator = harvesting("hello");
    assert_eq!(
        initiator.advance(Event::Frame(Frame::Binary(vec![2]))),
        halted(SessionError::ProtocolViolation)
    );
}
