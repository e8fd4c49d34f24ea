use std::collections::VecDeque;
use std::time::Duration;
use vstd::prelude::*;

verus! {

/// Whole seconds from `now` until `available_at`: none once it has passed, and at most what
/// an `i64` holds (the difference saturates).
pub open spec fn wait_seconds(now: i64, available_at: i64) -> u64 {
    let difference = available_at - now;
    if difference <= 0 {
        0
    } else if difference > i64::MAX {
        i64::MAX as u64
    } else {
        difference as u64
    }
}

/// The duration of `seconds` whole seconds.
pub uninterp spec fn seconds_duration(seconds: u64) -> Duration;

/// `Duration::from_secs`: claims only that its result is the duration of the given number of
/// seconds, the same for the same argument.
#[verifier::external_body]
fn duration_from_secs(seconds: u64) -> (d: Duration)
    ensures
        d == seconds_duration(seconds),
{
    Duration::from_secs(seconds)
}

/// Seconds to wait before a deferred operation is due.
fn wait_seconds_until(now: i64, available_at: i64) -> (seconds: u64)
    ensures
        seconds == wait_seconds(now, available_at),
{
    let difference: i128 = available_at as i128 - now as i128;
    if difference <= 0 {
        0
    } else if difference > i64::MAX as i128 {
        i64::MAX as u64
    } else {
        difference as u64
    }
}

/// How long the outbox waits for an operation that becomes due at `available_at`.
pub fn wait_duration(now: i64, available_at: i64) -> (d: Duration)
    ensures
        d == seconds_duration(wait_seconds(now, available_at)),
{
    duration_from_secs(wait_seconds_until(now, available_at))
}

/// How long the outbox waits before it claims again when another process holds the head, in
/// milliseconds.
pub const BUSY_RETRY_MILLIS: u64 = 50;

/// What the claim of the outbox head found. A claimed record comes with the report of its
/// new state and the time at which its operation starts (or why no time could be read); a
/// deferred head with the time now (or why it could not be read).
pub enum Head<R, O, E> {
    Claimed { record: R, changed: O, started_at: Result<i64, E> },
    WaitingUntil { available_at: i64, now: Result<i64, E> },
    Busy,
    Idle,
}

/// What a finished piece of outbox work hands back.
pub enum Advance<R, O, E> {
    /// A claim: the reports of the records whose time ran out, and what the head holds.
    Claim { expired: Vec<O>, head: Head<R, O, E> },
    /// An executed operation: what it reports, and the connection error that asks for a
    /// reconnect, if any.
    Outcome { outputs: Vec<O>, reconnect: Option<E> },
    /// A wait is over.
    Continue,
}

/// Work that the runtime starts for the outbox; its end is handed back as an `Advance`.
pub enum Work<R> {
    /// Claim the head, as of `now`.
    Claim { now: i64 },
    /// Execute the claimed record's operation, started at `now`.
    Execute { record: R, now: i64 },
    /// Sleep this long, then continue.
    Wait(Duration),
    /// Sleep `BUSY_RETRY_MILLIS`, then continue.
    RetryBusy,
}

/// What a poll of the outbox comes to.
pub enum Step<O, E> {
    /// A report is ready.
    Ready(O),
    /// The outbox failed.
    Failed(E),
    /// The current time is needed to claim the head: read it and hand it to `clock_read`.
    NeedClock,
    /// Work is under way: poll it, and hand its end to `advanced`.
    Await,
    /// Nothing to do until `wake` is called.
    Park,
}

pub struct CoordinatorModel<O, E> {
    pub outputs: Seq<O>,
    pub error: Option<E>,
    pub pending: bool,
    pub poll_requested: bool,
}

/// The outbox's driver: reports waiting to be handed out, an error to report after them,
/// whether work is under way, and whether a claim was asked for.
pub struct Coordinator<O, E> {
    pub outputs: VecDeque<O>,
    pub error: Option<E>,
    pub pending: bool,
    pub poll_requested: bool,
}

impl<O, E> View for Coordinator<O, E> {
    type V = CoordinatorModel<O, E>;

    open spec fn view(&self) -> CoordinatorModel<O, E> {
        CoordinatorModel {
            outputs: self.outputs@,
            error: self.error,
            pending: self.pending,
            poll_requested: self.poll_requested,
        }
    }
}

impl<O, E> CoordinatorModel<O, E> {
    /// Queued reports go out first, then a stored error; then the work under way is awaited;
    /// with none, a claim starts once one was asked for, else the outbox parks.
    pub open spec fn polled(self) -> (CoordinatorModel<O, E>, Step<O, E>) {
        if self.outputs.len() > 0 {
            (CoordinatorModel { outputs: self.outputs.drop_first(), ..self }, Step::Ready(self.outputs[0]))
        } else if self.error is Some {
            (CoordinatorModel { error: None, ..self }, Step::Failed(self.error.unwrap()))
        } else {
            self.idle_step()
        }
    }

    /// With nothing queued: await the work under way, else claim when asked, else park.
    pub open spec fn idle_step(self) -> (CoordinatorModel<O, E>, Step<O, E>) {
        if self.pending {
            (self, Step::Await)
        } else if !self.poll_requested {
            (self, Step::Park)
        } else {
            (CoordinatorModel { poll_requested: false, ..self }, Step::NeedClock)
        }
    }

    /// The next queued report, else what the outbox does with nothing queued.
    pub open spec fn reported_or(self, otherwise: Step<O, E>) -> (CoordinatorModel<O, E>, Step<O, E>) {
        if self.outputs.len() > 0 {
            (CoordinatorModel { outputs: self.outputs.drop_first(), ..self }, Step::Ready(self.outputs[0]))
        } else {
            (self, otherwise)
        }
    }

    /// The work that a claim's head starts, the state it leaves, and the failure it reports.
    pub open spec fn head_taken<R>(self, head: Head<R, O, E>) -> (CoordinatorModel<O, E>, Option<Work<R>>, Option<E>) {
        match head {
            Head::Claimed { record, changed, started_at } => match started_at {
                Ok(now) => (
                    CoordinatorModel { pending: true, outputs: self.outputs.push(changed), ..self },
                    Some(Work::Execute { record, now }),
                    None,
                ),
                Err(e) => (self, None, Some(e)),
            },
            Head::WaitingUntil { available_at, now } => match now {
                Ok(t) => (
                    CoordinatorModel { pending: true, ..self },
                    Some(Work::Wait(seconds_duration(wait_seconds(t, available_at)))),
                    None,
                ),
                Err(e) => (self, None, Some(e)),
            },
            Head::Busy => (CoordinatorModel { pending: true, ..self }, Some(Work::RetryBusy), None),
            Head::Idle => (self, None, None),
        }
    }

    /// What the end of a piece of work does: a failure is reported; a claim queues the
    /// reports of expired records and starts what its head asks for; an outcome queues its
    /// reports, keeps its reconnect error and asks for a claim; a finished wait asks for a
    /// claim. Then a queued report goes out, else the outbox awaits its work, parks, or claims.
    pub open spec fn advanced<R>(self, result: Result<Advance<R, O, E>, E>) -> (
        CoordinatorModel<O, E>,
        Option<Work<R>>,
        Step<O, E>,
    ) {
        let s = CoordinatorModel { pending: false, ..self };
        match result {
            Err(e) => (s, None, Step::Failed(e)),
            Ok(Advance::Claim { expired, head }) => {
                let s1 = CoordinatorModel { outputs: s.outputs + expired@, ..s };
                let (s2, work, failure) = s1.head_taken(head);
                match failure {
                    Some(e) => (s2, None, Step::Failed(e)),
                    None => {
                        let (s3, step) = s2.reported_or(
                            if s2.pending {
                                Step::Await
                            } else {
                                Step::Park
                            },
                        );
                        (s3, work, step)
                    },
                }
            },
            Ok(Advance::Outcome { outputs, reconnect }) => {
                let s1 = CoordinatorModel {
                    outputs: s.outputs + outputs@,
                    error: reconnect,
                    poll_requested: true,
                    ..s
                };
                if s1.outputs.len() > 0 {
                    let (s2, step) = s1.reported_or(Step::Park);
                    (s2, None, step)
                } else {
                    let (s2, step) = s1.idle_step();
                    (s2, None, step)
                }
            },
            Ok(Advance::Continue) => {
                let (s2, step) = CoordinatorModel { poll_requested: true, ..s }.idle_step();
                (s2, None, step)
            },
        }
    }
}

fn queue_all<O>(queue: &mut VecDeque<O>, items: Vec<O>)
    ensures
        final(queue)@ == old(queue)@ + items@,
{
    let ghost start = queue@;
    let ghost all = items@;
    let mut items = items;
    let n = items.len();
    let mut k: usize = 0;
    while items.len() > 0
        invariant
            k <= all.len(),
            items@ == all.skip(k as int),
            items@.len() + k == all.len(),
            all.len() == n,
            queue@ == start + all.take(k as int),
        decreases items.len(),
    {
        let x = items.remove(0);
        queue.push_back(x);
        proof {
            assert(all.take(k as int + 1) =~= all.take(k as int).push(all[k as int]));
            assert(items@ =~= all.skip(k as int + 1));
        }
        k = k + 1;
    }
    proof {
        assert(all.take(k as int) =~= all);
    }
}

impl<O, E> Coordinator<O, E> {
    /// A coordinator that claims the head on its first poll.
    pub fn new() -> (c: Self)
        ensures
            c@.outputs == Seq::<O>::empty(),
            c@.error is None,
            !c@.pending,
            c@.poll_requested,
    {
        Coordinator { outputs: VecDeque::new(), error: None, pending: false, poll_requested: true }
    }

    /// Something may have changed in the outbox: the next poll claims the head again.
    pub fn wake(&mut self)
        ensures
            final(self)@ == (CoordinatorModel { poll_requested: true, ..old(self)@ }),
    {
        self.poll_requested = true;
    }

    fn idle_step(&mut self) -> (step: Step<O, E>)
        ensures
            (final(self)@, step) == old(self)@.idle_step(),
    {
        if self.pending {
            Step::Await
        } else if !self.poll_requested {
            Step::Park
        } else {
            self.poll_requested = false;
            Step::NeedClock
        }
    }

    fn reported_or(&mut self, otherwise: Step<O, E>) -> (step: Step<O, E>)
        ensures
            (final(self)@, step) == old(self)@.reported_or(otherwise),
    {
        match self.outputs.pop_front() {
            Some(output) => Step::Ready(output),
            None => otherwise,
        }
    }

    pub fn poll(&mut self) -> (step: Step<O, E>)
        ensures
            (final(self)@, step) == old(self)@.polled(),
    {
        if let Some(output) = self.outputs.pop_front() {
            return Step::Ready(output);
        }
        if let Some(error) = self.error.take() {
            return Step::Failed(error);
        }
        self.idle_step()
    }

    /// The clock was read for a claim: the claim starts at that time, or the failure to read
    /// it is reported.
    pub fn clock_read<R>(&mut self, now: Result<i64, E>) -> (r: (Option<Work<R>>, Step<O, E>))
        ensures
            match now {
                Ok(t) => final(self)@ == (CoordinatorModel { pending: true, ..old(self)@ }) && r.0 == Some(
                    Work::<R>::Claim { now: t },
                ) && r.1 == Step::<O, E>::Await,
                Err(e) => final(self)@ == old(self)@ && r.0 is None && r.1 == Step::<O, E>::Failed(e),
            },
    {
        match now {
            Ok(t) => {
                self.pending = true;
                (Some(Work::Claim { now: t }), Step::Await)
            },
            Err(e) => (None, Step::Failed(e)),
        }
    }

    fn take_head<R>(&mut self, head: Head<R, O, E>) -> (r: (Option<Work<R>>, Option<E>))
        ensures
            (final(self)@, r.0, r.1) == old(self)@.head_taken(head),
    {
        match head {
            Head::Claimed { record, changed, started_at } => match started_at {
                Ok(now) => {
                    self.pending = true;
                    self.outputs.push_back(changed);
                    (Some(Work::Execute { record, now }), None)
                },
                Err(e) => (None, Some(e)),
            },
            Head::WaitingUntil { available_at, now } => match now {
                Ok(t) => {
                    self.pending = true;
                    (Some(Work::Wait(wait_duration(t, available_at))), None)
                },
                Err(e) => (None, Some(e)),
            },
            Head::Busy => {
                self.pending = true;
                (Some(Work::RetryBusy), None)
            },
            Head::Idle => (None, None),
        }
    }

    /// The work under way ended with `result`.
    pub fn advanced<R>(&mut self, result: Result<Advance<R, O, E>, E>) -> (r: (Option<Work<R>>, Step<O, E>))
        ensures
            (final(self)@, r.0, r.1) == old(self)@.advanced(result),
    {
        self.pending = false;
        match result {
            Err(e) => (None, Step::Failed(e)),
            Ok(Advance::Claim { expired, head }) => {
                queue_all(&mut self.outputs, expired);
                let (work, failure) = self.take_head(head);
                match failure {
                    Some(e) => (None, Step::Failed(e)),
                    None => {
                        let otherwise = if self.pending {
                            Step::Await
                        } else {
                            Step::Park
                        };
                        let step = self.reported_or(otherwise);
                        (work, step)
                    },
                }
            },
            Ok(Advance::Outcome { outputs, reconnect }) => {
                queue_all(&mut self.outputs, outputs);
                self.error = reconnect;
                self.poll_requested = true;
                if self.outputs.len() > 0 {
                    let step = self.reported_or(Step::Park);
                    (None, step)
                } else {
                    let step = self.idle_step();
                    (None, step)
                }
            },
            Ok(Advance::Continue) => {
                self.poll_requested = true;
                let step = self.idle_step();
                (None, step)
            },
        }
    }
}

impl<O, E> CoordinatorModel<O, E> {
    /// What `n` polls in a row hand out.
    pub open spec fn polls(self, n: nat) -> Seq<Step<O, E>>
        decreases n,
    {
        if n == 0 {
            Seq::empty()
        } else {
            let (next, step) = self.polled();
            seq![step] + next.polls((n - 1) as nat)
        }
    }
}

pub open spec fn ready_steps<O, E>(outputs: Seq<O>) -> Seq<Step<O, E>> {
    outputs.map_values(|o: O| Step::<O, E>::Ready(o))
}

proof fn lemma_queued_then_error<O, E>(m: CoordinatorModel<O, E>, e: E)
    requires
        m.error == Some(e),
    ensures
        m.polls((m.outputs.len() + 1) as nat) == ready_steps::<O, E>(m.outputs) + seq![Step::<O, E>::Failed(e)],
    decreases m.outputs.len(),
{
    if m.outputs.len() == 0 {
        assert(ready_steps::<O, E>(m.outputs) =~= Seq::<Step<O, E>>::empty());
        let (next, step) = m.polled();
        assert(next.polls(0) =~= Seq::<Step<O, E>>::empty());
        assert(m.polls(1) =~= seq![Step::<O, E>::Failed(e)]);
    } else {
        let (next, step) = m.polled();
        lemma_queued_then_error(next, e);
        assert(ready_steps::<O, E>(m.outputs) =~= seq![Step::<O, E>::Ready(m.outputs[0])] + ready_steps::<O, E>(
            m.outputs.drop_first(),
        ));
        assert(m.polls((m.outputs.len() + 1) as nat) =~= seq![step] + next.polls((next.outputs.len() + 1) as nat));
    }
}

/// An operation's reports go out in the order it gave them, and the connection error that
/// ended it only after all of them.
pub proof fn law_outcome_reports_before_its_error<R, O, E>(s: CoordinatorModel<O, E>, outputs: Vec<O>, e: E)
    requires
        s.outputs.len() == 0,
        outputs@.len() > 0,
    ensures
        ({
            let (m, work, step) = s.advanced(Ok::<Advance<R, O, E>, E>(Advance::Outcome { outputs, reconnect: Some(e) }));
            &&& work is None
            &&& step == Step::<O, E>::Ready(outputs@[0])
            &&& m.polls(outputs@.len()) == ready_steps::<O, E>(outputs@.drop_first()) + seq![Step::<O, E>::Failed(e)]
        }),
{
    let (m, work, step) = s.advanced(Ok::<Advance<R, O, E>, E>(Advance::Outcome { outputs, reconnect: Some(e) }));
    assert(s.outputs + outputs@ =~= outputs@);
    assert(m.outputs =~= outputs@.drop_first());
    lemma_queued_then_error(m, e);
}

} // verus!
