//! Admission and shutdown: the states of a server, and what it does on each
//! event while it accepts connections and while it shuts down.
//!
//! The loop that waits for events lives outside this library. It hands each
//! event to `Coordinator::step` and performs the action that comes back.

use vstd::prelude::*;

verus! {

/// How long, in seconds, a server that shuts down waits for the connections
/// that are still served.
pub const DRAIN_TIMEOUT_SECS: u64 = 30;

/// How long, in milliseconds, a server pauses after a failed accept before it
/// accepts again.
pub const ACCEPT_PAUSE_MILLIS: u64 = 100;

/// The phases of a server's life.
#[derive(Debug, Clone, Copy, PartialEq, Eq, Structural)]
pub enum Phase {
    /// Connections are accepted.
    Listening,
    /// No connection is accepted; those that are served may finish.
    Draining,
    /// Nothing is done any more.
    Stopped,
}

/// The classes of failure of an accept.
#[derive(Debug, Clone, Copy, PartialEq, Eq, Structural)]
pub enum AcceptFailure {
    /// A broken pipe: the listening socket itself is broken.
    BrokenPipe,
    /// Any other failure: the next accept may succeed.
    Other,
}

impl AcceptFailure {
    /// Whether a server that meets the failure stops to accept.
    pub open spec fn is_fatal(self) -> bool {
        self == AcceptFailure::BrokenPipe
    }
}

/// What can happen to a server.
#[derive(Debug, Clone, Copy, PartialEq, Eq, Structural)]
pub enum Event {
    /// The signal to shut down was received.
    Shutdown,
    /// A connection was accepted.
    Accepted,
    /// Accepting a connection failed.
    AcceptFailed(AcceptFailure),
    /// The task of a connection has ended. The flag says whether it reported
    /// a failure of reading or writing.
    TaskEnded(bool),
    /// The time that a shutdown waits for has passed.
    DrainTimedOut,
}

/// What the server does next.
#[derive(Debug, Clone, Copy, PartialEq, Eq, Structural)]
pub enum Action {
    /// Serve the accepted connection in a task of its own.
    Serve,
    /// Refuse the accepted connection with the reply for an overloaded
    /// server; no task is started for it.
    Reject,
    /// Pause briefly, then accept again.
    Pause,
    /// Accept no more, and wait, for a bounded time, for the tasks that run.
    Drain,
    /// Go on as before.
    Continue,
    /// Return.
    Stop,
}

/// The model of a coordinator.
pub struct State {
    pub phase: Phase,
    /// The most connections that are served at a time.
    pub limit: nat,
    /// The connections that are served now.
    pub active: nat,
}

impl State {
    /// The state of a server that starts to listen.
    pub open spec fn fresh(limit: nat) -> State {
        State { phase: Phase::Listening, limit, active: 0 }
    }

    /// No more connections are served than the limit allows.
    pub open spec fn within_limit(self) -> bool {
        self.active <= self.limit
    }

    /// The state once a task has ended.
    pub open spec fn one_less(self) -> State {
        State {
            active: if self.active > 0 {
                (self.active - 1) as nat
            } else {
                0
            },
            ..self
        }
    }

    /// The state and the action when a server stops to accept: it returns at
    /// once if no task runs, and waits for the tasks if some do.
    pub open spec fn shut_down(self) -> (State, Action) {
        if self.active == 0 {
            (State { phase: Phase::Stopped, ..self }, Action::Stop)
        } else {
            (State { phase: Phase::Draining, ..self }, Action::Drain)
        }
    }

    /// The state after an event, and the action that the event calls for.
    pub open spec fn step(self, event: Event) -> (State, Action) {
        match self.phase {
            Phase::Listening => match event {
                Event::Shutdown => self.shut_down(),
                Event::Accepted => if self.active < self.limit {
                    (State { active: self.active + 1, ..self }, Action::Serve)
                } else {
                    (self, Action::Reject)
                },
                Event::AcceptFailed(failure) => if failure.is_fatal() {
                    self.shut_down()
                } else {
                    (self, Action::Pause)
                },
                Event::TaskEnded(io_failure) => if io_failure {
                    self.one_less().shut_down()
                } else {
                    (self.one_less(), Action::Continue)
                },
                Event::DrainTimedOut => (self, Action::Continue),
            },
            Phase::Draining => match event {
                Event::TaskEnded(_) => if self.one_less().active == 0 {
                    (State { phase: Phase::Stopped, ..self.one_less() }, Action::Stop)
                } else {
                    (self.one_less(), Action::Continue)
                },
                Event::DrainTimedOut => (State { phase: Phase::Stopped, ..self }, Action::Stop),
                Event::Accepted => (self, Action::Reject),
                _ => (self, Action::Continue),
            },
            Phase::Stopped => (self, Action::Stop),
        }
    }

    /// The state after the events `events`, first to last.
    pub open spec fn run(self, events: Seq<Event>) -> State
        decreases events.len(),
    {
        if events.len() == 0 {
            self
        } else {
            self.step(events[0]).0.run(events.drop_first())
        }
    }

    /// `n` times the event that a connection was accepted.
    pub open spec fn arrivals(n: nat) -> Seq<Event> {
        Seq::new(n, |i: int| Event::Accepted)
    }
}

/// The counter of connections and the phase of a server.
#[derive(Debug)]
pub struct Coordinator {
    phase: Phase,
    limit: usize,
    active: usize,
}

impl View for Coordinator {
    type V = State;

    closed spec fn view(&self) -> State {
        State { phase: self.phase, limit: self.limit as nat, active: self.active as nat }
    }
}

impl Coordinator {
    #[verifier::type_invariant]
    spec fn well_formed(self) -> bool {
        self.active <= self.limit
    }

    /// The coordinator of a server that starts to listen, and that serves at
    /// most `max_connections` connections at a time.
    pub fn new(max_connections: usize) -> (r: Self)
        ensures
            r@ == State::fresh(max_connections as nat),
    {
        Coordinator { phase: Phase::Listening, limit: max_connections, active: 0 }
    }

    /// The phase.
    pub fn phase(&self) -> (p: Phase)
        ensures
            p == self@.phase,
    {
        self.phase
    }

    /// The number of connections that are served now, which is within the
    /// limit.
    pub fn active(&self) -> (n: usize)
        ensures
            n == self@.active,
            self@.within_limit(),
    {
        proof {
            use_type_invariant(self);
        }
        self.active
    }

    /// The most connections that are served at a time.
    pub fn limit(&self) -> (n: usize)
        ensures
            n == self@.limit,
    {
        self.limit
    }

    /// Takes note of an event and says what to do.
    pub fn step(&mut self, event: Event) -> (action: Action)
        ensures
            (final(self)@, action) == old(self)@.step(event),
    {
        proof {
            use_type_invariant(&*self);
        }
        let phase = self.phase;
        let limit = self.limit;
        let active = self.active;
        let less: usize = if active > 0 {
            active - 1
        } else {
            0
        };
        let (next, count, action) = match phase {
            Phase::Listening => match event {
                Event::Shutdown => Self::shut_down(active),
                Event::Accepted => if active < limit {
                    (Phase::Listening, active + 1, Action::Serve)
                } else {
                    (Phase::Listening, active, Action::Reject)
                },
                Event::AcceptFailed(failure) => match failure {
                    AcceptFailure::BrokenPipe => Self::shut_down(active),
                    AcceptFailure::Other => (Phase::Listening, active, Action::Pause),
                },
                Event::TaskEnded(io_failure) => if io_failure {
                    Self::shut_down(less)
                } else {
                    (Phase::Listening, less, Action::Continue)
                },
                Event::DrainTimedOut => (Phase::Listening, active, Action::Continue),
            },
            Phase::Draining => match event {
                Event::TaskEnded(_) => if less == 0 {
                    (Phase::Stopped, less, Action::Stop)
                } else {
                    (Phase::Draining, less, Action::Continue)
                },
                Event::DrainTimedOut => (Phase::Stopped, active, Action::Stop),
                Event::Accepted => (Phase::Draining, active, Action::Reject),
                _ => (Phase::Draining, active, Action::Continue),
            },
            Phase::Stopped => (Phase::Stopped, active, Action::Stop),
        };
        *self = Coordinator { phase: next, limit, active: count };
        action
    }

    /// The phase, the count and the action when a server with `active`
    /// running tasks stops to accept.
    fn shut_down(active: usize) -> (r: (Phase, usize, Action))
        ensures
            r.1 == active,
            active == 0 ==> r.0 == Phase::Stopped && r.2 == Action::Stop,
            active != 0 ==> r.0 == Phase::Draining && r.2 == Action::Drain,
    {
        if active == 0 {
            (Phase::Stopped, active, Action::Stop)
        } else {
            (Phase::Draining, active, Action::Drain)
        }
    }
}

/// Events keep the number of served connections within the limit.
pub proof fn lemma_step_within_limit(s: State, event: Event)
    requires
        s.within_limit(),
    ensures
        s.step(event).0.within_limit(),
        s.step(event).0.limit == s.limit,
{
}

/// With as many connections served as the limit allows, one more is
/// refused and is not counted.
pub proof fn lemma_full_rejects(s: State)
    requires
        s.phase == Phase::Listening,
        s.active >= s.limit,
    ensures
        s.step(Event::Accepted) == (s, Action::Reject),
{
}

/// Once a task has ended without failure, a server that was full serves the
/// next connection.
pub proof fn lemma_admits_after_completion(s: State)
    requires
        s.phase == Phase::Listening,
        s.active == s.limit,
        s.limit > 0,
    ensures
        s.step(Event::TaskEnded(false)).0.step(Event::Accepted).1 == Action::Serve,
{
}

/// Of the connections that arrive at a server which starts to listen, with
/// none ending meanwhile, as many are served as the limit allows, and each
/// one after them is refused.
pub proof fn lemma_arrivals(limit: nat, n: nat)
    ensures
        State::fresh(limit).run(State::arrivals(n)) == (State {
            active: if n <= limit {
                n
            } else {
                limit
            },
            ..State::fresh(limit)
        }),
        State::fresh(limit).run(State::arrivals(n)).step(Event::Accepted).1 == if n < limit {
            Action::Serve
        } else {
            Action::Reject
        },
{
    lemma_arrivals_from(State::fresh(limit), n);
}

/// The same from any state of a listening server.
pub proof fn lemma_arrivals_from(s: State, n: nat)
    requires
        s.phase == Phase::Listening,
        s.within_limit(),
    ensures
        s.run(State::arrivals(n)) == (State {
            active: if s.active + n <= s.limit {
                s.active + n
            } else {
                s.limit
            },
            ..s
        }),
    decreases n,
{
    let es = State::arrivals(n);
    if n > 0 {
        assert(es[0] == Event::Accepted);
        assert(es.drop_first() =~= State::arrivals((n - 1) as nat));
        lemma_arrivals_from(s.step(Event::Accepted).0, (n - 1) as nat);
    }
}

/// Once a server has left the listening phase it never serves a new
/// connection and never listens again, whatever happens.
pub proof fn lemma_no_admission_after_shutdown(s: State, events: Seq<Event>, event: Event)
    requires
        s.phase != Phase::Listening,
    ensures
        s.run(events).phase != Phase::Listening,
        s.run(events).step(event).1 != Action::Serve,
        s.run(events).active <= s.active,
    decreases events.len(),
{
    if events.len() > 0 {
        lemma_no_admission_after_shutdown(s.step(events[0]).0, events.drop_first(), event);
    }
}

/// The signal to shut down takes a listening server out of the listening
/// phase.
pub proof fn lemma_shutdown_leaves_listening(s: State)
    ensures
        s.step(Event::Shutdown).0.phase != Phase::Listening,
        s.step(Event::Shutdown).0.active == s.active,
{
}

/// A server stops only when no connection is served any more or when the
/// time that it waits for has passed.
pub proof fn lemma_stops_when_done(s: State, event: Event)
    requires
        s.phase != Phase::Stopped,
        s.step(event).0.phase == Phase::Stopped,
    ensures
        s.step(event).1 == Action::Stop,
        s.step(event).0.active == 0 || event == Event::DrainTimedOut,
{
}

} // verus!
