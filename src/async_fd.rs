use vstd::prelude::*;

use crate::error::Error;

verus! {

/// The outcome of a single, non-suspending poll: ready with a value, or
/// not yet.
#[derive(Debug)]
pub enum Poll<T> {
    Ready(T),
    Pending,
}

/// What the reactor answered to a readiness check.
#[derive(Debug)]
pub enum Readiness {
    /// The handle was reported ready.
    Ready,
    /// Not ready; the caller's waker has been registered.
    Pending,
    /// The reactor failed.
    Failed(Error),
}

/// Where an operation stands in the readiness/retry protocol.
#[derive(Clone, Copy, Debug, PartialEq, Eq, Structural)]
pub enum Phase {
    /// No operation has started.
    Idle,
    /// Waiting for the reactor to report readiness.
    AwaitingReadiness,
    /// Readiness was reported; the native operation is being attempted.
    Attempting,
    /// The operation completed, with data or with an error.
    Done,
}

/// What happened since the last step of the protocol.
#[derive(Debug)]
pub enum Event {
    /// The caller polls the operation (first time, or after a pending).
    Begin,
    /// The reactor answered a readiness check.
    Checked(Readiness),
    /// The native operation was attempted, with this result.
    Attempted(Result<usize, Error>),
}

/// What the caller of the protocol does next.
#[derive(Debug)]
pub enum Action {
    /// Ask the reactor whether the handle is ready.
    CheckReadiness,
    /// Attempt the native operation once, without blocking.
    Attempt,
    /// Give control back; the reactor will wake the task.
    ReturnPending,
    /// Hand this result to the caller; the operation is over.
    Complete(Result<usize, Error>),
}

/// One step of the readiness/retry protocol. A poll starts by checking
/// readiness; readiness leads to one attempt; an attempt that would block
/// shows that the readiness was stale, so the guard is dropped and readiness
/// is checked again; any other result of the attempt, and any failure of the
/// reactor, completes the operation. An event that does not belong to the
/// phase starts the check over.
pub open spec fn next(phase: Phase, event: Event) -> (Phase, Action) {
    match (phase, event) {
        (Phase::AwaitingReadiness, Event::Checked(Readiness::Ready)) => (
            Phase::Attempting,
            Action::Attempt,
        ),
        (Phase::AwaitingReadiness, Event::Checked(Readiness::Pending)) => (
            Phase::AwaitingReadiness,
            Action::ReturnPending,
        ),
        (Phase::AwaitingReadiness, Event::Checked(Readiness::Failed(e))) => (
            Phase::Done,
            Action::Complete(Err(e)),
        ),
        (Phase::Attempting, Event::Attempted(Err(Error::WouldBlock))) => (
            Phase::AwaitingReadiness,
            Action::CheckReadiness,
        ),
        (Phase::Attempting, Event::Attempted(r)) => (Phase::Done, Action::Complete(r)),
        _ => (Phase::AwaitingReadiness, Action::CheckReadiness),
    }
}

/// The phases and actions that a sequence of events leads through.
pub open spec fn run(phase: Phase, events: Seq<Event>) -> (Phase, Seq<Action>)
    decreases events.len(),
{
    if events.len() == 0 {
        (phase, Seq::empty())
    } else {
        let (p1, a) = next(phase, events[0]);
        let (p2, rest) = run(p1, events.drop_first());
        (p2, seq![a] + rest)
    }
}

/// `k` stale readiness reports, each followed by an attempt that would
/// block, then a true one followed by an attempt that ends with `r`.
pub open spec fn stale_then_ready(k: nat, r: Result<usize, Error>) -> Seq<Event>
    decreases k,
{
    if k == 0 {
        seq![Event::Checked(Readiness::Ready), Event::Attempted(r)]
    } else {
        seq![Event::Checked(Readiness::Ready), Event::Attempted(Err(Error::WouldBlock))]
            + stale_then_ready((k - 1) as nat, r)
    }
}

/// Whether an action completes the operation.
pub open spec fn is_complete(a: Action) -> bool {
    a is Complete
}

/// The result of a readiness poll that performs no I/O itself.
pub open spec fn readiness_poll(readiness: Readiness) -> Poll<Result<(), Error>> {
    match readiness {
        Readiness::Ready => Poll::Ready(Ok(())),
        Readiness::Pending => Poll::Pending,
        Readiness::Failed(e) => Poll::Ready(Err(e)),
    }
}

/// Takes one step of the protocol.
pub fn step(phase: Phase, event: Event) -> (r: (Phase, Action))
    ensures
        r == next(phase, event),
{
    match phase {
        Phase::AwaitingReadiness => match event {
            Event::Checked(Readiness::Ready) => (Phase::Attempting, Action::Attempt),
            Event::Checked(Readiness::Pending) => (Phase::AwaitingReadiness, Action::ReturnPending),
            Event::Checked(Readiness::Failed(e)) => (Phase::Done, Action::Complete(Err(e))),
            _ => (Phase::AwaitingReadiness, Action::CheckReadiness),
        },
        Phase::Attempting => match event {
            Event::Attempted(r) => {
                let stale = match &r {
                    Err(e) => e.is_would_block(),
                    Ok(_) => false,
                };
                if stale {
                    (Phase::AwaitingReadiness, Action::CheckReadiness)
                } else {
                    (Phase::Done, Action::Complete(r))
                }
            },
            _ => (Phase::AwaitingReadiness, Action::CheckReadiness),
        },
        _ => (Phase::AwaitingReadiness, Action::CheckReadiness),
    }
}

/// An attempt that would block never reaches the caller: it sends the
/// protocol back to checking readiness. From any phase, a poll followed by
/// any number of stale readiness reports and then a true one completes with
/// the result of the attempt that did not block (data or a genuine error),
/// and with nothing earlier.
pub proof fn lemma_stale_readiness_retried(phase: Phase, k: nat, r: Result<usize, Error>)
    requires
        r != Err::<usize, Error>(Error::WouldBlock),
    ensures
        next(Phase::Attempting, Event::Attempted(Err(Error::WouldBlock))) == (
            Phase::AwaitingReadiness,
            Action::CheckReadiness,
        ),
        ({
            let (p, acts) = run(phase, seq![Event::Begin] + stale_then_ready(k, r));
            &&& p == Phase::Done
            &&& acts.len() == 2 * k + 3
            &&& acts.last() == Action::Complete(r)
            &&& forall|i: int| 0 <= i < acts.len() - 1 ==> !is_complete(#[trigger] acts[i])
        }),
{
    lemma_rounds_from_awaiting(k, r);
    let evs = seq![Event::Begin] + stale_then_ready(k, r);
    assert(evs[0] == Event::Begin);
    assert(evs.drop_first() == stale_then_ready(k, r));
    let (p, acts) = run(Phase::AwaitingReadiness, stale_then_ready(k, r));
    let (p2, acts2) = run(phase, evs);
    assert(acts2 == seq![Action::CheckReadiness] + acts);
    assert forall|i: int| 0 <= i < acts2.len() - 1 implies !is_complete(#[trigger] acts2[i]) by {
        if i > 0 {
            assert(acts2[i] == acts[i - 1]);
        }
    }
}

proof fn lemma_rounds_from_awaiting(k: nat, r: Result<usize, Error>)
    requires
        r != Err::<usize, Error>(Error::WouldBlock),
    ensures
        ({
            let (p, acts) = run(Phase::AwaitingReadiness, stale_then_ready(k, r));
            &&& p == Phase::Done
            &&& acts.len() == 2 * k + 2
            &&& acts.last() == Action::Complete(r)
            &&& forall|i: int| 0 <= i < acts.len() - 1 ==> !is_complete(#[trigger] acts[i])
        }),
    decreases k,
{
    let evs = stale_then_ready(k, r);
    reveal_with_fuel(run, 3);
    if k == 0 {
        assert(evs.drop_first().drop_first().len() == 0);
        assert(evs.drop_first()[0] == Event::Attempted(r));
        let (p, acts) = run(Phase::AwaitingReadiness, evs);
        assert(acts =~= seq![Action::Attempt, Action::Complete(r)]);
    } else {
        lemma_rounds_from_awaiting((k - 1) as nat, r);
        let rest = stale_then_ready((k - 1) as nat, r);
        assert(evs[0] == Event::Checked(Readiness::Ready));
        assert(evs.drop_first()[0] == Event::Attempted(Err(Error::WouldBlock)));
        assert(evs.drop_first().drop_first() =~= rest);
        let (p, acts) = run(Phase::AwaitingReadiness, evs);
        let (pr, actsr) = run(Phase::AwaitingReadiness, rest);
        assert(acts =~= seq![Action::Attempt, Action::CheckReadiness] + actsr);
        assert forall|i: int| 0 <= i < acts.len() - 1 implies !is_complete(#[trigger] acts[i]) by {
            if i >= 2 {
                assert(acts[i] == actsr[i - 2]);
            }
        }
    }
}

/// A device handle registered for readiness-driven, non-blocking I/O.
pub struct AsyncFd<D> {
    pub device: D,
}

impl<D> AsyncFd<D> {
    /// Wraps a device that has been put in non-blocking mode.
    pub fn new(device: D) -> (r: AsyncFd<D>)
        ensures
            r.device == device,
    {
        AsyncFd { device }
    }

    /// Gives the device back.
    pub fn into_device(self) -> (r: D)
        ensures
            r == self.device,
    {
        self.device
    }

    /// The device, for operations that need no readiness.
    pub fn get_ref(&self) -> (r: &D)
        ensures
            *r == self.device,
    {
        &self.device
    }

    /// The answer to a single read-readiness check; no I/O is performed.
    pub fn poll_readable(&self, readiness: Readiness) -> (r: Poll<Result<(), Error>>)
        ensures
            r == readiness_poll(readiness),
    {
        readiness_to_poll(readiness)
    }

    /// The answer to a single write-readiness check; no I/O is performed.
    pub fn poll_writable(&self, readiness: Readiness) -> (r: Poll<Result<(), Error>>)
        ensures
            r == readiness_poll(readiness),
    {
        readiness_to_poll(readiness)
    }

    /// One step of a receive: what to do next, given what happened.
    pub fn poll_recv(&self, phase: &mut Phase, event: Event) -> (a: Action)
        ensures
            (*final(phase), a) == next(*old(phase), event),
    {
        let (p, a) = step(*phase, event);
        *phase = p;
        a
    }

    /// One step of a send: what to do next, given what happened.
    pub fn poll_send(&self, phase: &mut Phase, event: Event) -> (a: Action)
        ensures
            (*final(phase), a) == next(*old(phase), event),
    {
        let (p, a) = step(*phase, event);
        *phase = p;
        a
    }

    /// Runs `f` on the device only when the reactor reports it readable;
    /// otherwise fails with would-block.
    pub fn try_recv_io<R, F: FnOnce(&D) -> Result<R, Error>>(&self, readable: bool, f: F) -> (r:
        Result<R, Error>)
        requires
            readable ==> f.requires((&self.device,)),
        ensures
            !readable ==> r == Err::<R, Error>(Error::WouldBlock),
            readable ==> f.ensures((&self.device,), r),
    {
        if readable {
            f(&self.device)
        } else {
            Err(Error::WouldBlock)
        }
    }

    /// Runs `f` on the device only when the reactor reports it writable;
    /// otherwise fails with would-block.
    pub fn try_send_io<R, F: FnOnce(&D) -> Result<R, Error>>(&self, writable: bool, f: F) -> (r:
        Result<R, Error>)
        requires
            writable ==> f.requires((&self.device,)),
        ensures
            !writable ==> r == Err::<R, Error>(Error::WouldBlock),
            writable ==> f.ensures((&self.device,), r),
    {
        if writable {
            f(&self.device)
        } else {
            Err(Error::WouldBlock)
        }
    }
}

fn readiness_to_poll(readiness: Readiness) -> (r: Poll<Result<(), Error>>)
    ensures
        r == readiness_poll(readiness),
{
    match readiness {
        Readiness::Ready => Poll::Ready(Ok(())),
        Readiness::Pending => Poll::Pending,
        Readiness::Failed(e) => Poll::Ready(Err(e)),
    }
}

} // verus!
