//! The runner: one probe client, one exclusivity gate, and the capability
//! that receives each successful result.
use vstd::prelude::*;
use crate::gate::{Gate, RunState};
use crate::speedtest::TestClient;
use crate::trace::{feasible, in_flight, lemma_single_flight, replay, Event};

verus! {

/// The receiver of successful probe results, bound to a runner at
/// construction. It is handed each result of a successful run, once.
pub trait SuccessFn<R> {
    /// The results handed to this callback so far, oldest first.
    spec fn received(&self) -> Seq<R>;

    /// Takes one result.
    fn call(&mut self, result: R)
        ensures
            final(self).received() == old(self).received().push(result),
    ;
}

/// A success callback made of a function value, as one binds a closure:
/// each result is handed to the function, and recorded, as a ghost record,
/// in what the callback has received.
#[verifier::reject_recursive_types(R)]
pub struct Callback<R, H: Fn(R)> {
    handler: H,
    log: Ghost<Seq<R>>,
}

impl<R, H: Fn(R)> Callback<R, H> {
    #[verifier::type_invariant]
    spec fn accepts_all(&self) -> bool {
        forall|r: R| #[trigger] self.handler.requires((r,))
    }

    /// The function that results are handed to.
    pub closed spec fn handler(&self) -> H {
        self.handler
    }

    /// A callback that hands each result to `handler`, which takes any result.
    pub fn new(handler: H) -> (c: Self)
        requires
            forall|r: R| #[trigger] handler.requires((r,)),
        ensures
            c.handler() == handler,
            c.received() == Seq::<R>::empty(),
    {
        Callback { handler, log: Ghost(Seq::empty()) }
    }
}

impl<R, H: Fn(R)> SuccessFn<R> for Callback<R, H> {
    closed spec fn received(&self) -> Seq<R> {
        self.log@
    }

    fn call(&mut self, result: R) {
        proof {
            use_type_invariant(&*self);
        }
        let received: Ghost<Seq<R>> = Ghost(self.log@.push(result));
        (self.handler)(result);
        self.log = received;
    }
}

/// What became of a completed run.
#[derive(Debug, PartialEq, Eq)]
pub enum RunReport<E> {
    /// The run succeeded and its result went to the success callback.
    Delivered,
    /// The run succeeded, but no success callback is bound.
    Undelivered,
    /// The run failed; the error is handed back for reporting.
    Failed(E),
}

/// What a status read reports.
#[derive(Clone, Copy, Debug, PartialEq, Eq, Structural)]
pub enum Status {
    Idle,
    Running,
}

/// The status that a gate in state `s` reports.
pub open spec fn status_of(s: RunState) -> Status {
    match s {
        RunState::Idle => Status::Idle,
        RunState::Running => Status::Running,
    }
}

/// Coordinates probe executions: at most one at a time, and each success
/// handed to the bound callback.
///
/// The runner decides; the caller performs. A caller that gets `true` from
/// [`Runner::try_run`] executes the probe with [`Runner::client`] and hands its
/// outcome to [`Runner::complete_run`]. Shared between tasks, a runner sits
/// behind a lock that is held for one of these calls at a time, never for
/// the probe itself.
pub struct Runner<F> {
    client: TestClient,
    gate: Gate,
    on_success: Option<F>,
    /// The requests that started runs, and the completions, in order.
    history: Ghost<Seq<Event>>,
}

impl<F> Runner<F> {
    /// The state of the runner's gate.
    pub closed spec fn state(&self) -> RunState {
        self.gate@
    }

    pub closed spec fn client_spec(&self) -> TestClient {
        self.client
    }

    /// The steps that changed this runner, in order: each request that
    /// started a run and each completion. Rejected requests change nothing.
    pub closed spec fn history(&self) -> Seq<Event> {
        self.history@
    }

    /// The runner's state is the one its history leads to, and that
    /// history could have happened.
    pub open spec fn wf(&self) -> bool {
        &&& feasible(self.history())
        &&& replay(self.history()) == self.state()
    }

    /// The bound success callback, if any.
    pub closed spec fn callback(&self) -> Option<F> {
        self.on_success
    }

    /// Whether a success callback is bound.
    pub open spec fn has_callback(&self) -> bool {
        self.callback() is Some
    }

    /// A runner for `client`, idle, with no success callback.
    pub fn new(client: TestClient) -> (r: Runner<F>)
        ensures
            r.wf(),
            r.history() == Seq::<Event>::empty(),
            r.state() == RunState::Idle,
            r.client_spec() == client,
            r.callback() == None::<F>,
    {
        Runner { client, gate: Gate::new(), on_success: None, history: Ghost(Seq::empty()) }
    }

    /// The same runner, with `on_success` bound as its success callback.
    pub fn on_success(self, on_success: F) -> (r: Runner<F>)
        ensures
            r.state() == self.state(),
            r.history() == self.history(),
            r.client_spec() == self.client_spec(),
            r.callback() == Some(on_success),
    {
        let mut r = self;
        r.on_success = Some(on_success);
        r
    }

    /// The probe client that admitted runs execute.
    pub fn client(&self) -> (c: &TestClient)
        ensures
            *c == self.client_spec(),
    {
        &self.client
    }

    /// Whether a run is in progress. For status reporting only: by the time
    /// the caller looks at it, it may be out of date.
    pub fn is_running(&self) -> (running: bool)
        ensures
            running == (self.state() == RunState::Running),
    {
        self.gate.is_running()
    }

    /// The status to report for this runner.
    pub fn status(&self) -> (s: Status)
        ensures
            s == status_of(self.state()),
    {
        if self.gate.is_running() {
            Status::Running
        } else {
            Status::Idle
        }
    }

    /// Asks for a run. Returns `true` if the runner was idle: the run is
    /// admitted and the runner is now running, and the caller must execute
    /// the probe and then call [`Runner::complete_run`]. Returns `false` if
    /// a run is already in progress, and then changes nothing.
    pub fn try_run(&mut self) -> (admitted: bool)
        requires
            old(self).wf(),
        ensures
            final(self).wf(),
            admitted == (old(self).state() == RunState::Idle),
            final(self).state() == RunState::Running,
            admitted ==> final(self).history() == old(self).history().push(Event::Trigger),
            !admitted ==> *final(self) == *old(self),
            final(self).client_spec() == old(self).client_spec(),
            final(self).callback() == old(self).callback(),
    {
        let admitted = self.gate.try_acquire();
        if admitted {
            proof {
                let before = self.history@;
                self.history = Ghost(before.push(Event::Trigger));
                assert(self.history@.drop_last() =~= before);
            }
        }
        admitted
    }

    /// Ends the run in progress with the probe's outcome. The runner goes
    /// back to idle whatever the outcome; a success is handed to the
    /// success callback, once, and a failure is handed back to the caller.
    pub fn complete_run<R, E>(&mut self, outcome: Result<R, E>) -> (report: RunReport<E>)
        where
            F: SuccessFn<R>,
        requires
            old(self).wf(),
            old(self).state() == RunState::Running,
        ensures
            final(self).wf(),
            final(self).history() == old(self).history().push(
                Event::Complete { succeeded: outcome is Ok },
            ),
            final(self).state() == RunState::Idle,
            final(self).client_spec() == old(self).client_spec(),
            final(self).has_callback() == old(self).has_callback(),
            outcome is Ok && old(self).has_callback() ==> final(self).callback()->Some_0.received()
                == old(self).callback()->Some_0.received().push(outcome->Ok_0),
            !(outcome is Ok && old(self).has_callback()) ==> final(self).callback() == old(
                self,
            ).callback(),
            outcome is Ok ==> report == (if old(self).has_callback() {
                RunReport::<E>::Delivered
            } else {
                RunReport::<E>::Undelivered
            }),
            outcome is Err ==> report == RunReport::Failed(outcome->Err_0),
    {
        self.gate.release();
        proof {
            let before = self.history@;
            self.history = Ghost(before.push(Event::Complete { succeeded: outcome is Ok }));
            assert(self.history@.drop_last() =~= before);
        }
        match outcome {
            Ok(result) => match self.on_success.take() {
                Some(mut callback) => {
                    callback.call(result);
                    self.on_success = Some(callback);
                    RunReport::Delivered
                },
                None => RunReport::Undelivered,
            },
            Err(e) => RunReport::Failed(e),
        }
    }
}

/// Mutual exclusion, of a runner: at any point of its life at most one
/// probe execution is in progress, and one is exactly while it is running.
pub proof fn lemma_runner_single_flight<F>(r: &Runner<F>)
    requires
        r.wf(),
    ensures
        0 <= in_flight(r.history()) <= 1,
        in_flight(r.history()) == 1 <==> r.state() == RunState::Running,
{
    lemma_single_flight(r.history());
    assert(r.history().take(r.history().len() as int) =~= r.history());
}

} // verus!
