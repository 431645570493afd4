use std::collections::VecDeque;

use strange_cipher::frame::Frame;
use strange_cipher::initiator::{Initiator, InitiatorPhase};
use strange_cipher::negotiation::KeyMaterial;
use strange_cipher::responder::{Responder, ResponderPhase};
use strange_cipher::session::{Directive, Event, Request, SessionParameters, Trajectory};

fn oscillate(
    x: f64,
    x_prime: Option<f64>,
    y: f64,
    z: f64,
    sigma: f64,
    rho: f64,
    beta: f64,
    h: f64,
) -> (f64, f64, f64) {
    let used_x = x_prime.unwrap_or(x);
    let new_x = used_x + (sigma * (y - used_x)) * h;
    let new_y = y + (used_x * (rho - z) - y) * h;
    let new_z = z + (used_x * y - beta * z) * h;
    (new_x, new_y, new_z)
}

fn bits(x: f64, y: f64, z: f64) -> Trajectory {
    Trajectory { x: x.to_bits(), y: y.to_bits(), z: z.to_bits() }
}

fn settle() -> SessionParameters {
    SessionParameters {
        rho: 2.0f64.to_bits(),
        sigma: 25.0f64.to_bits(),
        beta: (8.0f64 / 3.0).to_bits(),
        h: 0.01f64.to_bits(),
    }
}

/// One end of an in-memory channel: what the other end has sent and what
/// this end's coordinator asked for last.
struct End {
    inbox: VecDeque<Frame>,
    pending: Option<Request>,
    scalar: Option<u8>,
    delivered: Vec<Vec<u8>>,
    outcome: Option<Result<(), strange_cipher::error::SessionError>>,
    ticks: usize,
}

impl End {
    fn new() -> End {
        End {
            inbox: VecDeque::new(),
            pending: None,
            scalar: None,
            delivered: Vec::new(),
            outcome: None,
            ticks: 0,
        }
    }

    /// Carries out the pending request if it can be carried out now.
    fn answer(&mut self, messages: &mut VecDeque<String>) -> Option<Event> {
        let request = self.pending.take()?;
        match request {
            Request::Receive => match self.inbox.pop_front() {
                Some(frame) => Some(Event::Frame(frame)),
                None => {
                    self.pending = Some(Request::Receive);
                    None
                }
            },
            Request::Poll => match self.inbox.pop_front() {
                Some(frame) => Some(Event::Frame(frame)),
                None => Some(Event::Idle),
            },
            Request::Step { from, coupling, parameters } => {
                self.ticks += 1;
                let (x, y, z) = oscillate(
                    f64::from_bits(from.x),
                    coupling.map(f64::from_bits),
                    f64::from_bits(from.y),
                    f64::from_bits(from.z),
                    f64::from_bits(parameters.sigma),
                    f64::from_bits(parameters.rho),
                    f64::from_bits(parameters.beta),
                    f64::from_bits(parameters.h),
                );
                Some(Event::Stepped(bits(x, y, z)))
            }
            Request::Derive { scalar } => {
                self.scalar = Some(scalar);
                Some(Event::Derived(settle()))
            }
            Request::Perturb { from } => Some(Event::Stepped(bits(
                f64::from_bits(from.x) + 0.1,
                f64::from_bits(from.y) - 0.1,
                f64::from_bits(from.z) + 0.1,
            ))),
            Request::Prompt => Some(Event::Message(messages.pop_front().unwrap_or_default())),
            Request::Deliver(result) => {
                self.delivered.push(result);
                Some(Event::Delivered)
            }
            Request::Confirm => Some(Event::Sent),
            Request::Stop(outcome) => {
                self.outcome = Some(outcome);
                None
            }
        }
    }

    fn take(&mut self, directive: Directive, peer: &mut End) {
        for frame in directive.outgoing {
            peer.inbox.push_back(frame);
        }
        self.pending = Some(directive.next);
    }
}

#[test]
fn two_peers_exchange_messages_over_a_channel() {
    let mut initiator = Initiator::new(KeyMaterial::generate().unwrap(), bits(-10.0, -7.0, 35.0));
    let mut responder = Responder::new(KeyMaterial::generate().unwrap(), bits(1.0, 1.0, 2.0));
    let mut near = End::new();
    let mut far = End::new();
    let mut messages: VecDeque<String> =
        ["Hello, Testing!", "a second message, after a fresh episode"]
            .iter()
            .map(|m| m.to_string())
            .collect();
    let mut nobody: VecDeque<String> = VecDeque::new();

    let opening = initiator.advance(Event::Start);
    near.take(opening, &mut far);
    let listening = responder.advance(Event::Start);
    far.take(listening, &mut near);

    let mut rounds = 0;
    while near.outcome.is_none() || far.outcome.is_none() {
        rounds += 1;
        assert!(rounds < 200_000, "the peers did not finish");
        if let Some(event) = near.answer(&mut messages) {
            let directive = initiator.advance(event);
            near.take(directive, &mut far);
        }
        if let Some(event) = far.answer(&mut nobody) {
            let directive = responder.advance(event);
            far.take(directive, &mut near);
        }
    }

    assert_eq!(near.outcome, Some(Ok(())));
    assert_eq!(far.outcome, Some(Ok(())));
    assert_eq!(initiator.phase(), InitiatorPhase::Finished(Ok(())));
    assert_eq!(responder.phase(), ResponderPhase::Finished(Ok(())));
    assert!(near.scalar.is_some());
    assert_eq!(near.scalar, far.scalar);
    assert_eq!(
        far.delivered,
        vec![
            b"Hello, Testing!".to_vec(),
            b"a second message, after a fresh episode".to_vec()
        ]
    );
    assert_eq!(near.delivered.len(), 2);
    assert!(far.ticks > 200);
}
