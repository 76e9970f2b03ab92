//! The request stream of one endpoint: a state machine merging a subscription
//! source with a one-shot broadcast shutdown signal.

use vstd::prelude::*;

verus! {

/// Where an endpoint stands with respect to the broadcast shutdown signal.
///
/// `Unarmed` becomes `Armed` on the first poll, when the raw shutdown
/// receiver is consumed and a wait on it begins. `Armed` becomes `Fired` once
/// that wait resolves, by a value or by channel closure. `Fired` is terminal:
/// the resolved wait is never driven again.
#[derive(Clone, Copy, Debug, PartialEq, Eq, Structural)]
pub enum ShutdownState {
    Unarmed,
    Armed,
    Fired,
}

/// What one check of the armed shutdown wait observed. A closed channel counts
/// as `Resolved`: both mean "stop accepting new work".
#[derive(Clone, Copy, Debug, PartialEq, Eq, Structural)]
pub enum ShutdownPoll {
    Resolved,
    Waiting,
}

/// What one poll of the subscription source reported.
pub enum SourcePoll<M> {
    /// The next raw message is available.
    Delivered(M),
    /// No message will ever arrive again.
    Closed,
    /// Nothing yet; the source will wake the driver when that changes.
    Waiting,
}

/// One request popped from the stream: the raw message together with the
/// instant the poll that produced it ran, and the name of the owning endpoint.
pub struct Request<M> {
    /// The raw inbound message.
    pub message: M,
    /// Monotonic-clock reading, in nanoseconds, captured at pop time.
    pub issued: u64,
    /// Name of the endpoint this request belongs to.
    pub endpoint: String,
}

/// What one poll of the merged stream produced.
pub enum PollOutcome<M> {
    /// A request to hand to the caller-supplied handler.
    Item(Request<M>),
    /// The stream has ended and will yield nothing further.
    Finished,
    /// No progress this round; the driver should poll again when either
    /// source might have news.
    NoProgress,
}

/// One poll's worth of observations, handed in by the driver.
pub struct PollEvent<M> {
    /// What the armed shutdown wait reported. Read only in the `Armed` state;
    /// in any other state the stream ignores it.
    pub shutdown: ShutdownPoll,
    /// What the subscription source reported.
    pub source: SourcePoll<M>,
    /// Monotonic-clock reading, in nanoseconds, taken as this poll began.
    pub now: u64,
}

/// What the driver must carry out after one poll.
pub struct PollStep<M> {
    /// What the stream yields this round.
    pub outcome: PollOutcome<M>,
    /// Whether to enqueue the best-effort immediate unsubscribe command now.
    /// Failure to enqueue it may be swallowed: it is advisory, the source
    /// also ends on its own once the transport confirms teardown.
    pub send_unsubscribe: bool,
}

/// The poll-relevant state of an endpoint: the shutdown listener state and
/// whether the stream has terminally ended.
#[derive(Clone, Copy, Debug, PartialEq, Eq, Structural)]
pub struct StreamState {
    pub shutdown: ShutdownState,
    pub done: bool,
}

/// The state after one poll. A finished stream is frozen; otherwise the
/// shutdown listener arms on first poll and fires once its wait resolves,
/// and the stream ends exactly when the source closes.
pub open spec fn step_state<M>(s: StreamState, ev: PollEvent<M>) -> StreamState {
    if s.done {
        s
    } else {
        StreamState {
            shutdown: match s.shutdown {
                ShutdownState::Unarmed => ShutdownState::Armed,
                ShutdownState::Armed => if ev.shutdown is Resolved {
                    ShutdownState::Fired
                } else {
                    ShutdownState::Armed
                },
                ShutdownState::Fired => ShutdownState::Fired,
            },
            done: ev.source is Closed,
        }
    }
}

/// Whether one poll requests the unsubscribe command: exactly on the
/// transition from `Armed` to `Fired`.
pub open spec fn step_sends_unsubscribe<M>(s: StreamState, ev: PollEvent<M>) -> bool {
    &&& !s.done
    &&& s.shutdown is Armed
    &&& ev.shutdown is Resolved
}

/// What one poll yields: the delivered message stamped with this poll's
/// clock, regardless of the shutdown state — buffered traffic is drained
/// even after the signal has fired.
pub open spec fn step_yield<M>(s: StreamState, ev: PollEvent<M>) -> Option<(M, u64)> {
    if s.done {
        Option::None
    } else {
        match ev.source {
            SourcePoll::Delivered(m) => Option::Some((m, ev.now)),
            SourcePoll::Closed => Option::None,
            SourcePoll::Waiting => Option::None,
        }
    }
}

/// An endpoint's stream, reduced to what its decisions depend on. The driver
/// owns the transport handles and feeds every poll's observations in through
/// [`Endpoint::poll_step`].
pub struct Endpoint {
    /// Name of the endpoint, stamped onto every request it yields.
    pub endpoint: String,
    /// The poll-relevant state.
    pub state: StreamState,
}

impl Endpoint {
    /// A fresh endpoint: shutdown listener not yet armed, stream live.
    pub fn new(endpoint: String) -> (e: Endpoint)
        ensures
            e.endpoint == endpoint,
            e.state == (StreamState { shutdown: ShutdownState::Unarmed, done: false }),
    {
        Endpoint { endpoint, state: StreamState { shutdown: ShutdownState::Unarmed, done: false } }
    }

    /// One poll of the merged stream.
    ///
    /// The state advances by [`step_state`]; the unsubscribe command is
    /// requested exactly when [`step_sends_unsubscribe`] says so, that is on
    /// the single transition from `Armed` to `Fired`; and the outcome is an
    /// item exactly when [`step_yield`] yields one, carrying the delivered
    /// message, this poll's clock reading and the endpoint's name.
    pub fn poll_step<M>(&mut self, ev: PollEvent<M>) -> (r: PollStep<M>)
        ensures
            final(self).endpoint == old(self).endpoint,
            final(self).state == step_state(old(self).state, ev),
            r.send_unsubscribe == step_sends_unsubscribe(old(self).state, ev),
            (match step_yield(old(self).state, ev) {
                Option::Some(y) => r.outcome matches PollOutcome::Item(req) && req.message == y.0
                    && req.issued == y.1 && req.endpoint == old(self).endpoint,
                Option::None => !(r.outcome is Item),
            }),
            (r.outcome is Finished) == (old(self).state.done || ev.source is Closed),
            (r.outcome is NoProgress) == (!old(self).state.done && ev.source is Waiting),
    {
        let PollEvent { shutdown: shutdown_obs, source: source_obs, now } = ev;
        if self.state.done {
            return PollStep { outcome: PollOutcome::Finished, send_unsubscribe: false };
        }
        let mut send: bool = false;
        match self.state.shutdown {
            ShutdownState::Unarmed => {
                self.state.shutdown = ShutdownState::Armed;
            },
            ShutdownState::Armed => {
                match shutdown_obs {
                    ShutdownPoll::Resolved => {
                        self.state.shutdown = ShutdownState::Fired;
                        send = true;
                    },
                    ShutdownPoll::Waiting => {},
                }
            },
            ShutdownState::Fired => {},
        }
        let outcome = match source_obs {
            SourcePoll::Delivered(message) => PollOutcome::Item(
                Request { message, issued: now, endpoint: self.endpoint.clone() },
            ),
            SourcePoll::Closed => {
                self.state.done = true;
                PollOutcome::Finished
            },
            SourcePoll::Waiting => PollOutcome::NoProgress,
        };
        PollStep { outcome, send_unsubscribe: send }
    }
}

/// Why a call of [`Endpoint::stop`] failed.
#[derive(Clone, Copy, Debug, PartialEq, Eq, Structural)]
pub enum StopError {
    /// The transport rejected, or could not confirm, the unsubscription.
    Unsubscribe,
}

impl StopError {
    /// The fixed description of this error.
    pub fn message(&self) -> (m: String)
        ensures
            m@ == "failed to unsubscribe"@,
    {
        "failed to unsubscribe".to_owned()
    }
}

/// The transport's answer to an awaited unsubscribe confirmation.
#[derive(Clone, Copy, Debug, PartialEq, Eq, Structural)]
pub enum TeardownStatus {
    /// Teardown of the subscription completed.
    Confirmed,
    /// The transport reported failure.
    Failed,
}

impl Endpoint {
    /// Explicit stop: the caller has asked the transport to unsubscribe the
    /// underlying subscription and awaited its confirmation; this turns that
    /// answer into the endpoint's result. A failed confirmation surfaces as
    /// the fixed unsubscribe error; it is fatal only to this call. The
    /// endpoint's own state, and any statistics registry, are untouched —
    /// this path may race with the shutdown-signal path, and the transport
    /// tolerates the unsubscribe command twice.
    pub fn stop(&mut self, confirmation: TeardownStatus) -> (r: Result<(), StopError>)
        ensures
            *final(self) == *old(self),
            r == (if confirmation is Confirmed {
                Result::<(), StopError>::Ok(())
            } else {
                Result::<(), StopError>::Err(StopError::Unsubscribe)
            }),
    {
        match confirmation {
            TeardownStatus::Confirmed => Result::Ok(()),
            TeardownStatus::Failed => Result::Err(StopError::Unsubscribe),
        }
    }
}

/// The state after a whole run of polls, each observed as the driver saw it.
pub open spec fn run_state<M>(s: StreamState, evs: Seq<PollEvent<M>>) -> StreamState
    decreases evs.len(),
{
    if evs.len() == 0 {
        s
    } else {
        run_state(step_state(s, evs.first()), evs.drop_first())
    }
}

/// How many polls of a run request the unsubscribe command.
pub open spec fn run_unsubscribe_count<M>(s: StreamState, evs: Seq<PollEvent<M>>) -> nat
    decreases evs.len(),
{
    if evs.len() == 0 {
        0
    } else {
        (if step_sends_unsubscribe(s, evs.first()) {
            1nat
        } else {
            0nat
        }) + run_unsubscribe_count(step_state(s, evs.first()), evs.drop_first())
    }
}

/// Everything a run of polls yields, in order: each element a message paired
/// with the clock reading of the poll that popped it.
pub open spec fn run_yields<M>(s: StreamState, evs: Seq<PollEvent<M>>) -> Seq<(M, u64)>
    decreases evs.len(),
{
    if evs.len() == 0 {
        Seq::empty()
    } else {
        (match step_yield(s, evs.first()) {
            Option::Some(y) => seq![y],
            Option::None => Seq::empty(),
        }) + run_yields(step_state(s, evs.first()), evs.drop_first())
    }
}

/// The messages the source delivered over a run, in delivery order, each
/// paired with the clock reading of the poll that carried it.
pub open spec fn delivered<M>(evs: Seq<PollEvent<M>>) -> Seq<(M, u64)>
    decreases evs.len(),
{
    if evs.len() == 0 {
        Seq::empty()
    } else {
        (match evs.first().source {
            SourcePoll::Delivered(m) => seq![(m, evs.first().now)],
            SourcePoll::Closed => Seq::empty(),
            SourcePoll::Waiting => Seq::empty(),
        }) + delivered(evs.drop_first())
    }
}

/// Law: once the shutdown transition has fired, or the stream has ended, no
/// run of further polls ever requests another unsubscribe command.
pub proof fn lemma_quiet_after_fired<M>(s: StreamState, evs: Seq<PollEvent<M>>)
    requires
        s.shutdown is Fired || s.done,
    ensures
        run_unsubscribe_count(s, evs) == 0,
    decreases evs.len(),
{
    if evs.len() > 0 {
        lemma_quiet_after_fired(step_state(s, evs.first()), evs.drop_first());
    }
}

/// Idempotence law: whatever the shutdown signal does and however often the
/// stream is polled, a run of polls from any state requests the unsubscribe
/// command at most once.
pub proof fn lemma_unsubscribe_at_most_once<M>(s: StreamState, evs: Seq<PollEvent<M>>)
    ensures
        run_unsubscribe_count(s, evs) <= 1,
    decreases evs.len(),
{
    if evs.len() > 0 {
        let s2 = step_state(s, evs.first());
        if step_sends_unsubscribe(s, evs.first()) {
            lemma_quiet_after_fired(s2, evs.drop_first());
        } else {
            lemma_unsubscribe_at_most_once(s2, evs.drop_first());
        }
    }
}

/// Draining law: over any run in which the source never reports closure, a
/// live stream yields exactly the delivered messages, in delivery order,
/// each stamped with the clock reading of its own poll — regardless of when
/// or whether the shutdown signal fires. In particular, messages already
/// buffered when shutdown fires are still delivered.
pub proof fn lemma_stream_drains<M>(s: StreamState, evs: Seq<PollEvent<M>>)
    requires
        !s.done,
        forall|i: int| 0 <= i < evs.len() ==> !((#[trigger] evs[i]).source is Closed),
    ensures
        run_yields(s, evs) == delivered(evs),
    decreases evs.len(),
{
    if evs.len() == 0 {
        assert(run_yields(s, evs) =~= delivered(evs));
    } else {
        let s2 = step_state(s, evs.first());
        assert(evs.first() == evs[0]);
        assert(!s2.done);
        assert forall|i: int| 0 <= i < evs.drop_first().len() implies !((#[trigger] evs.drop_first()[i]).source
            is Closed) by {
            assert(evs.drop_first()[i] == evs[i + 1]);
        }
        lemma_stream_drains(s2, evs.drop_first());
    }
}

/// Termination law: a finished stream is frozen — over any further run it
/// yields nothing, requests nothing, and its state does not change.
pub proof fn lemma_finished_is_terminal<M>(s: StreamState, evs: Seq<PollEvent<M>>)
    requires
        s.done,
    ensures
        run_state(s, evs) == s,
        run_yields(s, evs) == Seq::<(M, u64)>::empty(),
        run_unsubscribe_count(s, evs) == 0,
    decreases evs.len(),
{
    if evs.len() > 0 {
        lemma_finished_is_terminal(step_state(s, evs.first()), evs.drop_first());
        assert(Seq::<(M, u64)>::empty() + Seq::<(M, u64)>::empty() =~= Seq::<(M, u64)>::empty());
    }
}

/// Running a split sequence of polls is running its two halves in turn.
pub proof fn lemma_run_state_append<M>(s: StreamState, a: Seq<PollEvent<M>>, b: Seq<PollEvent<M>>)
    ensures
        run_state(s, a + b) == run_state(run_state(s, a), b),
    decreases a.len(),
{
    if a.len() == 0 {
        assert(a + b =~= b);
    } else {
        assert((a + b).first() == a.first());
        assert((a + b).drop_first() =~= a.drop_first() + b);
        lemma_run_state_append(step_state(s, a.first()), a.drop_first(), b);
    }
}

/// What a split sequence of polls yields is what its halves yield in turn.
pub proof fn lemma_run_yields_append<M>(s: StreamState, a: Seq<PollEvent<M>>, b: Seq<PollEvent<M>>)
    ensures
        run_yields(s, a + b) == run_yields(s, a) + run_yields(run_state(s, a), b),
    decreases a.len(),
{
    if a.len() == 0 {
        assert(a + b =~= b);
        assert(run_yields(s, a) + run_yields(run_state(s, a), b) =~= run_yields(s, b));
    } else {
        let s2 = step_state(s, a.first());
        assert((a + b).first() == a.first());
        assert((a + b).drop_first() =~= a.drop_first() + b);
        lemma_run_yields_append(s2, a.drop_first(), b);
        let head = match step_yield(s, a.first()) {
            Option::Some(y) => seq![y],
            Option::None => Seq::<(M, u64)>::empty(),
        };
        assert(head + (run_yields(s2, a.drop_first()) + run_yields(run_state(s, a), b)) =~= (head
            + run_yields(s2, a.drop_first())) + run_yields(run_state(s, a), b));
    }
}

/// Draining at shutdown, end to end: when the source closes after the last
/// buffered message, the stream yields exactly the messages delivered before
/// closure, in delivery order, and then terminates — whatever the shutdown
/// signal did along the way.
pub proof fn lemma_drain_then_close<M>(s: StreamState, evs: Seq<PollEvent<M>>, close: PollEvent<M>)
    requires
        !s.done,
        forall|i: int| 0 <= i < evs.len() ==> !((#[trigger] evs[i]).source is Closed),
        close.source is Closed,
    ensures
        run_yields(s, evs.push(close)) == delivered(evs),
        run_state(s, evs.push(close)).done,
{
    assert(evs.push(close) =~= evs + seq![close]);
    lemma_run_yields_append(s, evs, seq![close]);
    lemma_run_state_append(s, evs, seq![close]);
    lemma_stream_drains(s, evs);
    let s2 = run_state(s, evs);
    let one = seq![close];
    assert(one.first() == close);
    assert(one.drop_first().len() == 0);
    assert(step_yield::<M>(s2, close) is None);
    assert(run_yields(s2, one) == Seq::<(M, u64)>::empty() + run_yields(
        step_state(s2, close),
        one.drop_first(),
    ));
    assert(run_yields(s2, one) =~= Seq::<(M, u64)>::empty());
    assert(delivered(evs) + run_yields(s2, one) =~= delivered(evs));
    assert(run_state(s2, one) == run_state(step_state(s2, close), one.drop_first()));
    assert(run_state(step_state(s2, close), one.drop_first()) == step_state(s2, close));
    assert(step_state(s2, close).done);
}

/// Permanence law: once the stream has ended at some point of a run, it is
/// still ended at every later point of that run.
pub proof fn lemma_done_is_permanent<M>(s: StreamState, evs: Seq<PollEvent<M>>, i: int, j: int)
    requires
        0 <= i <= j <= evs.len(),
        run_state(s, evs.take(i)).done,
    ensures
        run_state(s, evs.take(j)).done,
{
    assert(evs.take(j) =~= evs.take(i) + evs.subrange(i, j));
    lemma_run_state_append(s, evs.take(i), evs.subrange(i, j));
    lemma_finished_is_terminal::<M>(run_state(s, evs.take(i)), evs.subrange(i, j));
}

} // verus!
