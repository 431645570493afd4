use vstd::prelude::*;
use crate::frame::{
    control_frame, coordinate_frame, lemma_coordinate_frame_round_trip, ControlCode, FrameView,
};
use crate::responder::{
    converged, fixed_point, next_run, respond, ResponderPhase, ResponderView,
};
use crate::session::{
    coupled_step, quiet, DirectiveView, EventView, RequestView, Trajectory, SYNC_TICKS,
};

verus! {

/// The responder's answer to one driven tick that arrives at `t`.
pub open spec fn driven(s: ResponderView, t: Trajectory) -> (ResponderView, DirectiveView) {
    respond(s.at(ResponderPhase::CoupledStepping), EventView::Stepped(t))
}

/// The responder's state after the driven ticks `ticks`, one after another.
pub open spec fn after_ticks(s: ResponderView, ticks: Seq<Trajectory>) -> ResponderView
    decreases ticks.len(),
{
    if ticks.len() == 0 {
        s
    } else {
        driven(after_ticks(s, ticks.drop_last()), ticks.last()).0
    }
}

/// Whether the responder announces convergence on the driven tick `t`.
pub open spec fn announces(s: ResponderView, t: Trajectory) -> bool {
    driven(s, t).1.outgoing == seq![control_frame(ControlCode::SyncComplete)]
}

/// How many ticks at the end of `ticks` were fixed-point ticks, the first
/// tick having started from `start`.
pub open spec fn trailing_fixed(start: Trajectory, ticks: Seq<Trajectory>) -> nat
    decreases ticks.len(),
{
    if ticks.len() == 0 {
        0
    } else {
        let earlier = ticks.drop_last();
        let before = if earlier.len() == 0 {
            start
        } else {
            earlier.last()
        };
        if fixed_point(before, ticks.last()) {
            trailing_fixed(start, earlier) + 1
        } else {
            0
        }
    }
}

/// Whether no tick of `ticks` completes a run of `SYNC_TICKS` fixed-point
/// ticks.
pub open spec fn short_of_convergence(start: Trajectory, ticks: Seq<Trajectory>) -> bool {
    forall|n: int| 0 <= n <= ticks.len() ==> #[trigger] trailing_fixed(start, ticks.take(n))
        < SYNC_TICKS
}

/// The three coordinate frames of a tick lead to one tick driven by its x:
/// the first two are each answered by waiting for the next, the third by
/// the request to step from where the oscillator is, with x as coupling.
/// Their y and z are read and otherwise left aside.
pub proof fn lemma_triple_drives_one_tick(s: ResponderView, x: u64, y: u64, z: u64)
    requires
        s.phase is AwaitingX,
    ensures
        ({
            let (s1, d1) = respond(s, EventView::Frame(coordinate_frame(x)));
            let (s2, d2) = respond(s1, EventView::Frame(coordinate_frame(y)));
            let (s3, d3) = respond(s2, EventView::Frame(coordinate_frame(z)));
            &&& d1 == quiet(RequestView::Receive)
            &&& d2 == quiet(RequestView::Receive)
            &&& d3 == quiet(coupled_step(s.trajectory, x, s.parameters))
            &&& s3 == s.at(ResponderPhase::CoupledStepping)
        }),
{
    lemma_coordinate_frame_round_trip(x);
    lemma_coordinate_frame_round_trip(y);
    lemma_coordinate_frame_round_trip(z);
}

proof fn lemma_announces(s: ResponderView, t: Trajectory)
    requires
        !(s.phase is Finished),
    ensures
        announces(s, t) <==> converged(next_run(s.run, s.trajectory, t)),
{
    let sent = seq![control_frame(ControlCode::SyncComplete)];
    assert(sent.len() == 1);
    assert(Seq::<FrameView>::empty().len() == 0);
}

proof fn lemma_take_all(ticks: Seq<Trajectory>)
    ensures
        ticks.take(ticks.len() as int) == ticks,
{
    assert(ticks.take(ticks.len() as int) =~= ticks);
}

proof fn lemma_short_prefix(start: Trajectory, ticks: Seq<Trajectory>)
    requires
        ticks.len() > 0,
        short_of_convergence(start, ticks),
    ensures
        short_of_convergence(start, ticks.drop_last()),
{
    let earlier = ticks.drop_last();
    assert forall|n: int| 0 <= n <= earlier.len() implies #[trigger] trailing_fixed(
        start,
        earlier.take(n),
    ) < SYNC_TICKS by {
        assert(earlier.take(n) =~= ticks.take(n));
    }
}

/// While no run of `SYNC_TICKS` fixed-point ticks has been completed, the
/// responder stays in the syncing state, has announced nothing, stands
/// where the latest tick arrived, and counts exactly the fixed-point ticks
/// at the end of what it has seen: a mismatch leaves no partial credit.
pub proof fn lemma_run_counts_trailing_fixed(s: ResponderView, ticks: Seq<Trajectory>)
    requires
        s.phase is AwaitingX,
        s.run == 0,
        short_of_convergence(s.trajectory, ticks),
    ensures
        after_ticks(s, ticks).phase is AwaitingX,
        after_ticks(s, ticks).run == trailing_fixed(s.trajectory, ticks),
        ticks.len() > 0 ==> after_ticks(s, ticks).trajectory == ticks.last(),
        ticks.len() == 0 ==> after_ticks(s, ticks) == s,
        after_ticks(s, ticks).key_stream == s.key_stream,
        after_ticks(s, ticks).secret == s.secret,
        forall|n: int|
            0 <= n < ticks.len() ==> !#[trigger] announces(after_ticks(s, ticks.take(n)), ticks[n]),
    decreases ticks.len(),
{
    if ticks.len() > 0 {
        let earlier = ticks.drop_last();
        lemma_short_prefix(s.trajectory, ticks);
        lemma_run_counts_trailing_fixed(s, earlier);
        lemma_take_all(ticks);
        assert(trailing_fixed(s.trajectory, ticks.take(ticks.len() as int)) < SYNC_TICKS);
        let before = after_ticks(s, earlier);
        assert(before.run == trailing_fixed(s.trajectory, earlier));
        assert(after_ticks(s, ticks) == driven(before, ticks.last()).0);
        lemma_announces(before, ticks.last());
        assert forall|n: int| 0 <= n < ticks.len() implies !#[trigger] announces(
            after_ticks(s, ticks.take(n)),
            ticks[n],
        ) by {
            if n < earlier.len() {
                assert(earlier.take(n) =~= ticks.take(n));
                assert(earlier[n] == ticks[n]);
            } else {
                assert(ticks.take(n) =~= earlier);
            }
        }
    }
}

/// Convergence is declared on the first tick that completes a run of
/// `SYNC_TICKS` fixed-point ticks, and on no tick before it: on that tick
/// the responder announces convergence, enters the synced state with an
/// empty run, and asks for the first free-running tick.
pub proof fn lemma_convergence_at_first_full_run(
    s: ResponderView,
    ticks: Seq<Trajectory>,
    t: Trajectory,
)
    requires
        s.phase is AwaitingX,
        s.run == 0,
        short_of_convergence(s.trajectory, ticks),
    ensures
        announces(after_ticks(s, ticks), t) <==> trailing_fixed(s.trajectory, ticks.push(t))
            == SYNC_TICKS,
        announces(after_ticks(s, ticks), t) ==> {
            let (after, directive) = driven(after_ticks(s, ticks), t);
            &&& after.phase is SyncedStepping
            &&& after.run == 0
            &&& after.trajectory == t
            &&& directive.next == after.tick()
        },
        trailing_fixed(s.trajectory, ticks.push(t)) <= SYNC_TICKS,
{
    lemma_run_counts_trailing_fixed(s, ticks);
    lemma_take_all(ticks);
    assert(trailing_fixed(s.trajectory, ticks.take(ticks.len() as int)) < SYNC_TICKS);
    assert(ticks.push(t).drop_last() =~= ticks);
    assert(ticks.push(t).last() == t);
    let before = after_ticks(s, ticks);
    assert(before.run == trailing_fixed(s.trajectory, ticks));
    lemma_announces(before, t);
}

} // verus!
