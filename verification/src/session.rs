use vstd::prelude::*;
use crate::error::SessionError;
use crate::frame::{frames_view, Frame, FrameView};

verus! {

/// Number of consecutive fixed-point ticks after which the responder
/// declares the trajectories converged.
pub const SYNC_TICKS: u32 = 100;

/// State of the oscillator: the binary64 bit patterns of x, y and z.
#[derive(Clone, Copy, Debug, PartialEq, Eq, Structural)]
pub struct Trajectory {
    pub x: u64,
    pub y: u64,
    pub z: u64,
}

/// Parameters of the oscillator, as binary64 bit patterns. `beta` and `h`
/// are fixed by construction; `rho` and `sigma` come from the negotiated
/// scalar and must be the same bits on both peers.
#[derive(Clone, Copy, Debug, PartialEq, Eq, Structural)]
pub struct SessionParameters {
    pub rho: u64,
    pub sigma: u64,
    pub beta: u64,
    pub h: u64,
}

/// What the worker that owns the channel and the oscillator does next.
#[derive(Debug, PartialEq, Eq)]
pub enum Request {
    /// Wait for the next frame.
    Receive,
    /// Look for a frame without waiting.
    Poll,
    /// Advance the oscillator by one tick from `from`, driven by `coupling`
    /// in place of its own x where one is given.
    Step { from: Trajectory, coupling: Option<u64>, parameters: SessionParameters },
    /// Map the negotiated scalar to the session's parameters.
    Derive { scalar: u8 },
    /// Nudge the trajectory `from` by the fixed epsilon.
    Perturb { from: Trajectory },
    /// Ask the collaborator for the next message, without waiting for it.
    Prompt,
    /// Hand the result of a transmission to the collaborator.
    Deliver(Vec<u8>),
    /// Report that the frames of this directive are on the channel.
    Confirm,
    /// Tear the session down: orderly, or with the error that ended it.
    Stop(Result<(), SessionError>),
}

/// What a request holds.
pub enum RequestView {
    Receive,
    Poll,
    Step { from: Trajectory, coupling: Option<u64>, parameters: SessionParameters },
    Derive { scalar: u8 },
    Perturb { from: Trajectory },
    Prompt,
    Deliver(Seq<u8>),
    Confirm,
    Stop(Result<(), SessionError>),
}

impl View for Request {
    type V = RequestView;

    open spec fn view(&self) -> RequestView {
        match *self {
            Request::Receive => RequestView::Receive,
            Request::Poll => RequestView::Poll,
            Request::Step { from, coupling, parameters } => RequestView::Step {
                from,
                coupling,
                parameters,
            },
            Request::Derive { scalar } => RequestView::Derive { scalar },
            Request::Perturb { from } => RequestView::Perturb { from },
            Request::Prompt => RequestView::Prompt,
            Request::Deliver(bytes) => RequestView::Deliver(bytes@),
            Request::Confirm => RequestView::Confirm,
            Request::Stop(outcome) => RequestView::Stop(outcome),
        }
    }
}

/// One decision of a coordinator: the frames to put on the channel, in
/// order, and what to do once they are sent. Where a frame cannot be
/// written, the worker answers with `ChannelFailed` in place of the answer
/// to the request.
#[derive(Debug, PartialEq, Eq)]
pub struct Directive {
    pub outgoing: Vec<Frame>,
    pub next: Request,
}

/// What a directive holds.
pub struct DirectiveView {
    pub outgoing: Seq<FrameView>,
    pub next: RequestView,
}

impl View for Directive {
    type V = DirectiveView;

    open spec fn view(&self) -> DirectiveView {
        DirectiveView { outgoing: frames_view(self.outgoing@), next: self.next@ }
    }
}

/// What the worker reports back after carrying out a request.
#[derive(Debug, PartialEq, Eq)]
pub enum Event {
    /// The channel is open: the session begins.
    Start,
    /// A frame arrived.
    Frame(Frame),
    /// Nothing was waiting: no frame on a poll, no message on a prompt.
    Idle,
    /// The oscillator, stepped or perturbed, is now here.
    Stepped(Trajectory),
    /// The parameters that the negotiated scalar maps to.
    Derived(SessionParameters),
    /// The collaborator's next message; empty to cancel.
    Message(String),
    /// The collaborator has taken the result.
    Delivered,
    /// Every frame of the directive was written to the channel.
    Sent,
    /// The transport reported an I/O error.
    ChannelFailed,
}

/// What an event holds.
pub enum EventView {
    Start,
    Frame(FrameView),
    Idle,
    Stepped(Trajectory),
    Derived(SessionParameters),
    Message(Seq<char>),
    Delivered,
    Sent,
    ChannelFailed,
}

impl View for Event {
    type V = EventView;

    open spec fn view(&self) -> EventView {
        match *self {
            Event::Start => EventView::Start,
            Event::Frame(frame) => EventView::Frame(frame@),
            Event::Idle => EventView::Idle,
            Event::Stepped(trajectory) => EventView::Stepped(trajectory),
            Event::Derived(parameters) => EventView::Derived(parameters),
            Event::Message(text) => EventView::Message(text@),
            Event::Delivered => EventView::Delivered,
            Event::Sent => EventView::Sent,
            Event::ChannelFailed => EventView::ChannelFailed,
        }
    }
}

/// The directive that sends nothing and asks for `next`.
pub open spec fn quiet(next: RequestView) -> DirectiveView {
    DirectiveView { outgoing: Seq::empty(), next }
}

/// The directive that sends `frame` and then asks for `next`.
pub open spec fn sending(frame: FrameView, next: RequestView) -> DirectiveView {
    DirectiveView { outgoing: seq![frame], next }
}

/// The request for one free-running tick.
pub open spec fn free_step(from: Trajectory, parameters: SessionParameters) -> RequestView {
    RequestView::Step { from, coupling: None, parameters }
}

/// The request for one tick driven by the peer's x.
pub open spec fn coupled_step(
    from: Trajectory,
    coupling: u64,
    parameters: SessionParameters,
) -> RequestView {
    RequestView::Step { from, coupling: Some(coupling), parameters }
}

/// Builds the directive that sends nothing and asks for `next`.
pub fn make_quiet(next: Request) -> (directive: Directive)
    ensures
        directive@ == quiet(next@),
{
    let outgoing: Vec<Frame> = Vec::new();
    proof {
        assert(frames_view(outgoing@) =~= Seq::<FrameView>::empty());
    }
    Directive { outgoing, next }
}

/// Builds the directive that sends `frame` and then asks for `next`.
pub fn make_sending(frame: Frame, next: Request) -> (directive: Directive)
    ensures
        directive@ == sending(frame@, next@),
{
    let mut outgoing: Vec<Frame> = Vec::new();
    outgoing.push(frame);
    proof {
        assert(frames_view(outgoing@) =~= seq![frame@]);
    }
    Directive { outgoing, next }
}

} // verus!
