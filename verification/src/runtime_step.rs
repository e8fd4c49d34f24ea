use vstd::prelude::*;

use crate::effect_schedule::{drained, start_ready, EffectLanes, EffectRoute};

verus! {

broadcast use vstd::seq_lib::group_seq_properties;

/// Why the application is ending: the user quit, or an account operation takes over.
pub enum RequestedExit<L> {
    Quit,
    Lifecycle(L),
}

/// How an effect, or the Telegram side, failed: the effect was cancelled, the connection
/// broke (with the reason shown to the user), or anything else.
pub enum Failure<E> {
    Cancelled(E),
    Connection { error: E, reason: String },
    Fatal(E),
}

/// How a started effect ended.
pub enum Completion<E, L> {
    /// It produced its output.
    Delivered,
    /// Its output is an account operation that takes over from this session.
    LifecycleReady(L),
    /// It failed.
    Failed(Failure<E>),
}

/// What the runtime does after an event.
#[derive(Debug, PartialEq, Eq)]
pub enum Reaction {
    /// Nothing more.
    Ignore,
    /// Hand the output's event to the application state.
    Deliver,
    /// Begin shutting the backend down.
    Stop,
    /// Begin shutting the backend down and tell the application state that the connection
    /// failed, for this reason.
    Disconnect(String),
}

/// What the runtime does at the top of its loop: end in one of four ways, or run on with the
/// effects that start now and the sources to wait on.
pub enum Settled<T, E, L> {
    /// Shut the backend down, then fail with this error.
    Fail(E),
    /// Shut the backend down, then quit.
    Quit,
    /// Hand the backend to this account operation.
    Lifecycle(L),
    /// Hand the state and the waiting effects on for a reconnection.
    Disconnected,
    Run {
        started: Vec<(EffectRoute, T)>,
        poll_adapter: bool,
        poll_interaction: bool,
        poll_background: bool,
    },
}

pub struct RuntimeModel<T, E, L> {
    pub pending: Seq<(EffectRoute, T)>,
    pub lanes: EffectLanes,
    pub active: nat,
    pub disconnected: bool,
    pub requested_exit: Option<RequestedExit<L>>,
    pub stopping_error: Option<E>,
}

/// The runtime's decisions: the effects waiting to start, the lanes in use, how many effects
/// run, whether the connection is gone, why the application ends (if it does), and the error
/// to end with.
pub struct Runtime<T, E, L> {
    pub pending: Vec<(EffectRoute, T)>,
    pub lanes: EffectLanes,
    pub active: usize,
    pub disconnected: bool,
    pub requested_exit: Option<RequestedExit<L>>,
    pub stopping_error: Option<E>,
}

impl<T, E, L> View for Runtime<T, E, L> {
    type V = RuntimeModel<T, E, L>;

    open spec fn view(&self) -> RuntimeModel<T, E, L> {
        RuntimeModel {
            pending: self.pending@,
            lanes: self.lanes,
            active: self.active as nat,
            disconnected: self.disconnected,
            requested_exit: self.requested_exit,
            stopping_error: self.stopping_error,
        }
    }
}

impl<T, E, L> RuntimeModel<T, E, L> {
    /// The user quits: unless the application is already ending, nothing more starts and the
    /// backend begins to shut down (`true`).
    pub open spec fn quit_requested(self) -> (RuntimeModel<T, E, L>, bool) {
        if self.requested_exit is None {
            (RuntimeModel { requested_exit: Some(RequestedExit::Quit), pending: Seq::empty(), ..self }, true)
        } else {
            (self, false)
        }
    }

    /// A failure that ends the application: nothing more starts, the error is kept to end with,
    /// and the backend begins to shut down.
    pub open spec fn stopped(self, error: E) -> (RuntimeModel<T, E, L>, Reaction) {
        (
            RuntimeModel {
                pending: Seq::empty(),
                requested_exit: Some(RequestedExit::Quit),
                stopping_error: Some(error),
                ..self
            },
            Reaction::Stop,
        )
    }

    /// A started effect ended. Its lane is free again. An account operation takes over; an
    /// output goes to the application state unless it is ending. A cancelled effect after the
    /// connection broke waits again at the front. While ending, only the first failure that is
    /// neither a cancellation nor a broken connection is kept. Otherwise a broken connection
    /// puts the effect back at the front and disconnects, and any other failure ends the
    /// application.
    pub open spec fn completed(self, route: EffectRoute, effect: T, c: Completion<E, L>) -> (
        RuntimeModel<T, E, L>,
        Reaction,
    ) {
        let s = RuntimeModel { lanes: self.lanes.released(route), active: (self.active - 1) as nat, ..self };
        match c {
            Completion::Delivered => if s.requested_exit is Some {
                (s, Reaction::Ignore)
            } else {
                (s, Reaction::Deliver)
            },
            Completion::LifecycleReady(l) => (
                RuntimeModel { pending: Seq::empty(), requested_exit: Some(RequestedExit::Lifecycle(l)), ..s },
                Reaction::Ignore,
            ),
            Completion::Failed(f) => if s.disconnected && f is Cancelled {
                (RuntimeModel { pending: seq![(route, effect)] + s.pending, ..s }, Reaction::Ignore)
            } else if s.requested_exit is Some {
                match f {
                    Failure::Fatal(e) => if s.stopping_error is None {
                        (RuntimeModel { stopping_error: Some(e), ..s }, Reaction::Ignore)
                    } else {
                        (s, Reaction::Ignore)
                    },
                    _ => (s, Reaction::Ignore),
                }
            } else {
                match f {
                    Failure::Connection { error: _, reason } => (
                        RuntimeModel { pending: seq![(route, effect)] + s.pending, disconnected: true, ..s },
                        Reaction::Disconnect(reason),
                    ),
                    Failure::Cancelled(e) => s.stopped(e),
                    Failure::Fatal(e) => s.stopped(e),
                }
            },
        }
    }

    /// The Telegram side (its update stream or a background task) failed: a broken connection
    /// disconnects, anything else ends the application.
    pub open spec fn source_failed(self, f: Failure<E>) -> (RuntimeModel<T, E, L>, Reaction) {
        match f {
            Failure::Connection { error: _, reason } => (
                RuntimeModel { disconnected: true, ..self },
                Reaction::Disconnect(reason),
            ),
            Failure::Cancelled(e) => self.stopped(e),
            Failure::Fatal(e) => self.stopped(e),
        }
    }

    /// Nothing waits or runs any more.
    pub open spec fn idle(self) -> bool {
        self.pending.len() == 0 && self.active == 0
    }

    /// While the application is neither ending nor disconnected, as many effects start as
    /// `capacity` leaves room for, each the first waiting one whose lane is free.
    pub open spec fn started(self, capacity: nat) -> (RuntimeModel<T, E, L>, Seq<(EffectRoute, T)>) {
        if self.requested_exit is None && !self.disconnected && self.active < capacity {
            let (rest, started, lanes) = drained(self.pending, self.lanes, (capacity - self.active) as nat);
            (RuntimeModel { pending: rest, lanes, active: self.active + started.len(), ..self }, started)
        } else {
            (self, Seq::empty())
        }
    }
}

proof fn lemma_drained_at_most<T>(pending: Seq<(EffectRoute, T)>, lanes: EffectLanes, slots: nat)
    ensures
        drained(pending, lanes, slots).1.len() <= slots,
    decreases slots,
{
    if slots > 0 {
        if let Some(i) = crate::seqs::first_index(pending, lanes.admitted()) {
            let e = pending[i];
            lemma_drained_at_most(pending.remove(i), lanes.occupied(e.0), (slots - 1) as nat);
        }
    }
}

impl<T, E, L> Runtime<T, E, L> {
    pub fn new() -> (r: Self)
        ensures
            r@.pending == Seq::<(EffectRoute, T)>::empty(),
            r@.lanes == (EffectLanes { telegram_active: false, storage_active: false }),
            r@.active == 0,
            !r@.disconnected,
            r@.requested_exit is None,
            r@.stopping_error is None,
    {
        Runtime {
            pending: Vec::new(),
            lanes: EffectLanes { telegram_active: false, storage_active: false },
            active: 0,
            disconnected: false,
            requested_exit: None,
            stopping_error: None,
        }
    }

    pub fn quit_requested(&mut self) -> (shutdown: bool)
        ensures
            (final(self)@, shutdown) == old(self)@.quit_requested(),
    {
        if self.requested_exit.is_none() {
            self.requested_exit = Some(RequestedExit::Quit);
            self.pending = Vec::new();
            true
        } else {
            false
        }
    }

    fn stop(&mut self, error: E) -> (r: Reaction)
        ensures
            (final(self)@, r) == old(self)@.stopped(error),
    {
        self.pending = Vec::new();
        self.requested_exit = Some(RequestedExit::Quit);
        self.stopping_error = Some(error);
        Reaction::Stop
    }

    fn requeue_front(&mut self, route: EffectRoute, effect: T)
        ensures
            final(self)@ == (RuntimeModel { pending: seq![(route, effect)] + old(self)@.pending, ..old(self)@ }),
    {
        self.pending.insert(0, (route, effect));
        proof {
            assert(self.pending@ =~= seq![(route, effect)] + old(self)@.pending);
        }
    }

    /// A started effect of `route` ended as `c`.
    pub fn completed(&mut self, route: EffectRoute, effect: T, c: Completion<E, L>) -> (r: Reaction)
        requires
            old(self)@.active > 0,
        ensures
            (final(self)@, r) == old(self)@.completed(route, effect, c),
    {
        self.lanes.release(route);
        self.active = self.active - 1;
        match c {
            Completion::Delivered => if self.requested_exit.is_some() {
                Reaction::Ignore
            } else {
                Reaction::Deliver
            },
            Completion::LifecycleReady(l) => {
                self.pending = Vec::new();
                self.requested_exit = Some(RequestedExit::Lifecycle(l));
                Reaction::Ignore
            },
            Completion::Failed(f) => {
                let cancelled = match &f {
                    Failure::Cancelled(_) => true,
                    _ => false,
                };
                if self.disconnected && cancelled {
                    self.requeue_front(route, effect);
                    return Reaction::Ignore;
                }
                if self.requested_exit.is_some() {
                    match f {
                        Failure::Fatal(e) => if self.stopping_error.is_none() {
                            self.stopping_error = Some(e);
                        },
                        _ => {},
                    }
                    return Reaction::Ignore;
                }
                match f {
                    Failure::Connection { error: _, reason } => {
                        self.requeue_front(route, effect);
                        self.disconnected = true;
                        Reaction::Disconnect(reason)
                    },
                    Failure::Cancelled(e) => self.stop(e),
                    Failure::Fatal(e) => self.stop(e),
                }
            },
        }
    }

    /// The Telegram side (its update stream or a background task) failed as `f`.
    pub fn source_failed(&mut self, f: Failure<E>) -> (r: Reaction)
        ensures
            (final(self)@, r) == old(self)@.source_failed(f),
    {
        match f {
            Failure::Connection { error: _, reason } => {
                self.disconnected = true;
                Reaction::Disconnect(reason)
            },
            Failure::Cancelled(e) => self.stop(e),
            Failure::Fatal(e) => self.stop(e),
        }
    }

    /// The top of the runtime's loop, with room for `capacity` running effects: once the
    /// application ends and nothing waits or runs, it ends with the kept error, by quitting or by
    /// handing over to the account operation; once disconnected and nothing runs, it hands the
    /// state on; otherwise the effects that can start do, and the runtime waits on the Telegram
    /// side unless disconnected, on the user unless ending, and on background work unless
    /// either.
    pub fn settle(&mut self, capacity: usize) -> (r: Settled<T, E, L>)
        ensures
            match r {
                Settled::Fail(e) => old(self)@.idle() && old(self)@.requested_exit is Some
                    && old(self)@.stopping_error == Some(e),
                Settled::Quit => old(self)@.idle() && old(self)@.requested_exit == Some(
                    RequestedExit::<L>::Quit,
                ) && old(self)@.stopping_error is None,
                Settled::Lifecycle(l) => old(self)@.idle() && old(self)@.requested_exit == Some(
                    RequestedExit::Lifecycle(l),
                ) && old(self)@.stopping_error is None,
                Settled::Disconnected => !(old(self)@.idle() && old(self)@.requested_exit is Some)
                    && old(self)@.disconnected && old(self)@.active == 0 && final(self)@ == old(self)@,
                Settled::Run { started, poll_adapter, poll_interaction, poll_background } => {
                    &&& !(old(self)@.idle() && old(self)@.requested_exit is Some)
                    &&& !(old(self)@.disconnected && old(self)@.active == 0)
                    &&& (final(self)@, started@) == old(self)@.started(capacity as nat)
                    &&& poll_adapter == !old(self)@.disconnected
                    &&& poll_interaction == (old(self)@.requested_exit is None)
                    &&& poll_background == (!old(self)@.disconnected && old(self)@.requested_exit is None)
                },
            },
    {
        if self.pending.len() == 0 && self.active == 0 && self.requested_exit.is_some() {
            if let Some(e) = self.stopping_error.take() {
                return Settled::Fail(e);
            }
            return match self.requested_exit.take() {
                Some(RequestedExit::Lifecycle(l)) => Settled::Lifecycle(l),
                _ => Settled::Quit,
            };
        }
        if self.disconnected && self.active == 0 {
            return Settled::Disconnected;
        }
        let mut started: Vec<(EffectRoute, T)> = Vec::new();
        if self.requested_exit.is_none() && !self.disconnected && self.active < capacity {
            let slots = capacity - self.active;
            proof {
                lemma_drained_at_most(self.pending@, self.lanes, slots as nat);
            }
            started = start_ready(&mut self.pending, &mut self.lanes, slots);
            self.active = self.active + started.len();
        }
        let poll_adapter = !self.disconnected;
        let poll_interaction = self.requested_exit.is_none();
        let poll_background = !self.disconnected && self.requested_exit.is_none();
        Settled::Run { started, poll_adapter, poll_interaction, poll_background }
    }
}

/// The runtime never runs more effects than its capacity, starts nothing while the
/// application ends or the connection is gone, and loses no waiting effect: what waits
/// afterwards and what started make up what waited before.
pub proof fn law_runtime_starts_within_capacity<T, E, L>(s: RuntimeModel<T, E, L>, capacity: nat)
    requires
        s.active <= capacity,
    ensures
        ({
            let (t, started) = s.started(capacity);
            &&& t.active <= capacity
            &&& t.active == s.active + started.len()
            &&& (s.requested_exit is Some || s.disconnected) ==> started.len() == 0 && t == s
            &&& (t.pending + started).to_multiset() == s.pending.to_multiset()
        }),
{
    let (t, started) = s.started(capacity);
    if s.requested_exit is None && !s.disconnected && s.active < capacity {
        lemma_drained_at_most(s.pending, s.lanes, (capacity - s.active) as nat);
        crate::effect_schedule::law_lanes_run_one_at_a_time(
            s.pending,
            s.lanes,
            (capacity - s.active) as nat,
            EffectRoute::Telegram,
        );
        vstd::seq_lib::lemma_multiset_commutative(t.pending, started);
    } else {
        assert(t.pending + started =~= s.pending);
    }
}

} // verus!
