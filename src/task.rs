//! The per-site synchronization task: a state machine that decides, from the
//! outcome of each step of a polling cycle, what the task does next.

use vstd::prelude::*;
use crate::address::{
    AddressType, AddressVersion, IPAddress, Interface, SelectError, candidates, select_address,
};
use crate::error::ProvidersErrorType;

verus! {

/// The polling and retry settings of one site.
#[derive(Clone, Copy, Debug, PartialEq, Eq, Structural)]
pub struct RetryPolicy {
    /// Seconds between two cycles after a success.
    pub interval: u64,
    pub retry_on_failure: bool,
    /// Failures in a row that are retried; 0 retries without bound.
    pub retry_count: u32,
    /// Seconds before the next cycle after a retried failure.
    pub retry_interval: u64,
}

/// What follows a failed cycle.
#[derive(Clone, Copy, Debug, PartialEq, Eq, Structural)]
pub enum RetryDecision {
    /// Poll again after `delay` seconds, with `failures` failures counted.
    Retry { delay: u64, failures: u32 },
    GiveUp,
}

/// The decision after a failure, with `failures` failures counted before it.
pub open spec fn after_failure(failures: u32, policy: RetryPolicy) -> RetryDecision {
    if !policy.retry_on_failure {
        RetryDecision::GiveUp
    } else if policy.retry_count == 0 {
        RetryDecision::Retry { delay: policy.retry_interval, failures }
    } else if failures < policy.retry_count {
        RetryDecision::Retry { delay: policy.retry_interval, failures: (failures + 1) as u32 }
    } else {
        RetryDecision::GiveUp
    }
}

impl RetryPolicy {
    /// Decides what follows a failure, with `failures` failures counted before it.
    pub fn decide(&self, failures: u32) -> (r: RetryDecision)
        ensures
            r == after_failure(failures, *self),
    {
        if !self.retry_on_failure {
            RetryDecision::GiveUp
        } else if self.retry_count == 0 {
            RetryDecision::Retry { delay: self.retry_interval, failures }
        } else if failures < self.retry_count {
            RetryDecision::Retry { delay: self.retry_interval, failures: failures + 1 }
        } else {
            RetryDecision::GiveUp
        }
    }
}

/// The outcome of `n` failures in a row, from none counted: the failures
/// counted after them, or `None` once the task has given up.
pub open spec fn failures_in_a_row(policy: RetryPolicy, n: nat) -> Option<u32>
    decreases n,
{
    if n == 0 {
        Some(0u32)
    } else {
        match failures_in_a_row(policy, (n - 1) as nat) {
            Some(f) => match after_failure(f, policy) {
                RetryDecision::Retry { failures, .. } => Some(failures),
                RetryDecision::GiveUp => None,
            },
            None => None,
        }
    }
}

/// With retries on and a bound of `retry_count`, each of the first
/// `retry_count` failures in a row is retried after `retry_interval`, and the
/// failure after them ends the task.
pub proof fn lemma_bounded_retries(policy: RetryPolicy, n: nat)
    requires
        policy.retry_on_failure,
        policy.retry_count > 0,
        n <= policy.retry_count,
    ensures
        failures_in_a_row(policy, n) == Some(n as u32),
        n < policy.retry_count ==> after_failure(n as u32, policy) == (RetryDecision::Retry {
            delay: policy.retry_interval,
            failures: (n + 1) as u32,
        }),
        n == policy.retry_count ==> after_failure(n as u32, policy) == RetryDecision::GiveUp,
    decreases n,
{
    if n > 0 {
        lemma_bounded_retries(policy, (n - 1) as nat);
    }
}

/// With retries on and no bound, any number of failures in a row is retried
/// after `retry_interval`, and the task never ends.
pub proof fn lemma_unbounded_retries(policy: RetryPolicy, n: nat)
    requires
        policy.retry_on_failure,
        policy.retry_count == 0,
    ensures
        failures_in_a_row(policy, n) == Some(0u32),
        after_failure(0, policy) == (RetryDecision::Retry {
            delay: policy.retry_interval,
            failures: 0,
        }),
    decreases n,
{
    if n > 0 {
        lemma_unbounded_retries(policy, (n - 1) as nat);
    }
}

/// Where a task stands in its cycle.
#[derive(Clone, Copy, Debug, PartialEq, Eq, Structural)]
pub enum Phase {
    /// Waiting out the delay before the next cycle.
    Polling,
    /// Waiting for the interfaces of the machine.
    Resolving,
    /// Waiting for the value the provider publishes.
    Comparing,
    /// Waiting for the provider to publish the local address.
    Updating,
    Terminated,
}

/// What the task asks its runner to do.
#[derive(Debug)]
pub enum TaskAction {
    Sleep(u64),
    ListInterfaces,
    Query,
    Update(String),
    Exit,
}

/// What the runner reports back.
#[derive(Debug)]
pub enum TaskEvent {
    Woke,
    Interfaces(Vec<Interface>),
    InterfacesFailed,
    Queried(Result<String, ProvidersErrorType>),
    Updated(Result<(), ProvidersErrorType>),
    /// The task is to stop.
    Cancelled,
}

/// The synchronization task of one site.
#[derive(Debug)]
pub struct SyncTask {
    pub policy: RetryPolicy,
    pub interface: String,
    pub version: AddressVersion,
    pub kind: AddressType,
    pub index: usize,
    pub phase: Phase,
    /// Failures in a row since the last success.
    pub failures: u32,
    /// The delay of the pending sleep.
    pub delay: u64,
    /// The local address selected in this cycle.
    pub needed: String,
}

/// The action that a task in phase `t.phase` waits on.
pub open spec fn pending(t: SyncTask) -> TaskAction {
    match t.phase {
        Phase::Polling => TaskAction::Sleep(t.delay),
        Phase::Resolving => TaskAction::ListInterfaces,
        Phase::Comparing => TaskAction::Query,
        Phase::Updating => TaskAction::Update(t.needed),
        Phase::Terminated => TaskAction::Exit,
    }
}

/// The task after a failed cycle.
pub open spec fn failed(t: SyncTask) -> SyncTask {
    match after_failure(t.failures, t.policy) {
        RetryDecision::Retry { delay, failures } => SyncTask {
            phase: Phase::Polling,
            failures,
            delay,
            ..t
        },
        RetryDecision::GiveUp => SyncTask { phase: Phase::Terminated, ..t },
    }
}

/// The task after a successful cycle.
pub open spec fn succeeded(t: SyncTask) -> SyncTask {
    SyncTask { phase: Phase::Polling, failures: 0, delay: t.policy.interval, ..t }
}

/// The value the provider publishes, as the comparison sees it: no record
/// reads as the empty value.
pub open spec fn remote_value(q: Result<String, ProvidersErrorType>) -> Option<Seq<char>> {
    match q {
        Ok(v) => Some(v@),
        Err(ProvidersErrorType::NoRecordFound) => Some(Seq::empty()),
        Err(_) => None,
    }
}

/// The task after event `ev`. Cancellation ends the task in any phase; any
/// other event that the phase does not wait on changes nothing.
pub open spec fn next_task(t: SyncTask, ev: TaskEvent) -> SyncTask {
    match (t.phase, ev) {
        (_, TaskEvent::Cancelled) => SyncTask { phase: Phase::Terminated, ..t },
        (Phase::Polling, TaskEvent::Woke) => SyncTask { phase: Phase::Resolving, ..t },
        (Phase::Resolving, TaskEvent::InterfacesFailed) => failed(t),
        (Phase::Resolving, TaskEvent::Interfaces(list)) => {
            let found = candidates(list@, t.interface@, t.version, t.kind);
            if t.index < found.len() {
                SyncTask { phase: Phase::Comparing, needed: found[t.index as int].text(), ..t }
            } else {
                failed(t)
            }
        },
        (Phase::Comparing, TaskEvent::Queried(q)) => match remote_value(q) {
            Some(v) => if v == t.needed@ {
                succeeded(t)
            } else {
                SyncTask { phase: Phase::Updating, ..t }
            },
            None => failed(t),
        },
        (Phase::Updating, TaskEvent::Updated(u)) => match u {
            Ok(_) => succeeded(t),
            Err(_) => failed(t),
        },
        _ => t,
    }
}

/// The actions match when they ask for the same thing.
pub open spec fn same_action(a: TaskAction, b: TaskAction) -> bool {
    match (a, b) {
        (TaskAction::Sleep(x), TaskAction::Sleep(y)) => x == y,
        (TaskAction::ListInterfaces, TaskAction::ListInterfaces) => true,
        (TaskAction::Query, TaskAction::Query) => true,
        (TaskAction::Update(x), TaskAction::Update(y)) => x@ == y@,
        (TaskAction::Exit, TaskAction::Exit) => true,
        _ => false,
    }
}

impl SyncTask {
    /// A task about to start its first cycle, without delay. A site whose
    /// provider is not implemented ends at once.
    pub fn new(
        policy: RetryPolicy,
        interface: String,
        version: AddressVersion,
        kind: AddressType,
        index: usize,
        provider_implemented: bool,
    ) -> (r: SyncTask)
        ensures
            r.policy == policy,
            r.interface == interface,
            r.version == version,
            r.kind == kind,
            r.index == index,
            r.failures == 0,
            r.delay == 0,
            r.needed@ == Seq::<char>::empty(),
            r.phase == if provider_implemented {
                Phase::Polling
            } else {
                Phase::Terminated
            },
    {
        SyncTask {
            policy,
            interface,
            version,
            kind,
            index,
            phase: if provider_implemented {
                Phase::Polling
            } else {
                Phase::Terminated
            },
            failures: 0,
            delay: 0,
            needed: String::new(),
        }
    }

    /// The action the task waits on.
    pub fn action(&self) -> (r: TaskAction)
        ensures
            same_action(r, pending(*self)),
    {
        match self.phase {
            Phase::Polling => TaskAction::Sleep(self.delay),
            Phase::Resolving => TaskAction::ListInterfaces,
            Phase::Comparing => TaskAction::Query,
            Phase::Updating => TaskAction::Update(self.needed.clone()),
            Phase::Terminated => TaskAction::Exit,
        }
    }

    fn fail(&mut self)
        ensures
            *final(self) == failed(*old(self)),
    {
        match self.policy.decide(self.failures) {
            RetryDecision::Retry { delay, failures } => {
                self.phase = Phase::Polling;
                self.failures = failures;
                self.delay = delay;
            },
            RetryDecision::GiveUp => {
                self.phase = Phase::Terminated;
            },
        }
    }

    fn succeed(&mut self)
        ensures
            *final(self) == succeeded(*old(self)),
    {
        self.phase = Phase::Polling;
        self.failures = 0;
        self.delay = self.policy.interval;
    }

    /// Takes the outcome of the pending action and returns the next one.
    pub fn on_event(&mut self, ev: TaskEvent) -> (r: TaskAction)
        ensures
            *final(self) == next_task(*old(self), ev),
            same_action(r, pending(*final(self))),
    {
        match (self.phase, ev) {
            (_, TaskEvent::Cancelled) => {
                self.phase = Phase::Terminated;
            },
            (Phase::Polling, TaskEvent::Woke) => {
                self.phase = Phase::Resolving;
            },
            (Phase::Resolving, TaskEvent::InterfacesFailed) => {
                self.fail();
            },
            (Phase::Resolving, TaskEvent::Interfaces(list)) => {
                match select_address(&list, self.interface.as_str(), self.version, self.kind, self.index) {
                    Ok(ip) => {
                        self.needed = match ip {
                            IPAddress::V4(t, _) => t,
                            IPAddress::V6(t, _) => t,
                        };
                        self.phase = Phase::Comparing;
                    },
                    Err(SelectError::InsufficientAddresses) => {
                        self.fail();
                    },
                }
            },
            (Phase::Comparing, TaskEvent::Queried(q)) => {
                let remote = match q {
                    Ok(v) => Some(v),
                    Err(ProvidersErrorType::NoRecordFound) => Some(String::new()),
                    Err(_) => None,
                };
                match remote {
                    Some(v) => {
                        if v == self.needed {
                            self.succeed();
                        } else {
                            self.phase = Phase::Updating;
                        }
                    },
                    None => {
                        self.fail();
                    },
                }
            },
            (Phase::Updating, TaskEvent::Updated(u)) => {
                match u {
                    Ok(_) => {
                        self.succeed();
                    },
                    Err(_) => {
                        self.fail();
                    },
                }
            },
            _ => {},
        }
        self.action()
    }
}

/// A cycle that fails when the interfaces cannot be listed.
pub open spec fn failing_cycle(t: SyncTask) -> SyncTask {
    next_task(next_task(t, TaskEvent::Woke), TaskEvent::InterfacesFailed)
}

pub open spec fn failing_cycles(t: SyncTask, n: nat) -> SyncTask
    decreases n,
{
    if n == 0 {
        t
    } else {
        failing_cycle(failing_cycles(t, (n - 1) as nat))
    }
}

/// A task with retries on and a bound of `retry_count`, polling with no
/// failure counted, keeps polling through `retry_count` failing cycles in a
/// row, each time after `retry_interval`; the next failing cycle ends it.
pub proof fn lemma_task_bounded_retries(t: SyncTask, n: nat)
    requires
        t.phase == Phase::Polling,
        t.failures == 0,
        t.policy.retry_on_failure,
        t.policy.retry_count > 0,
        1 <= n <= t.policy.retry_count,
    ensures
        failing_cycles(t, n).phase == Phase::Polling,
        failing_cycles(t, n).failures == n,
        failing_cycles(t, n).delay == t.policy.retry_interval,
        failing_cycles(t, n).policy == t.policy,
        n == t.policy.retry_count ==> failing_cycles(t, n + 1).phase == Phase::Terminated,
    decreases n,
{
    if n > 1 {
        lemma_task_bounded_retries(t, (n - 1) as nat);
    }
    let prev = failing_cycles(t, (n - 1) as nat);
    assert(prev.phase == Phase::Polling && prev.failures == n - 1 && prev.policy == t.policy);
    lemma_bounded_retries(t.policy, (n - 1) as nat);
    if n == t.policy.retry_count {
        lemma_bounded_retries(t.policy, n);
        assert(failing_cycles(t, n + 1) == failing_cycle(failing_cycles(t, n)));
    }
}

/// A task with retries on and no bound never ends through failing cycles:
/// after any number of them it polls again after `retry_interval`.
pub proof fn lemma_task_unbounded_retries(t: SyncTask, n: nat)
    requires
        t.phase == Phase::Polling,
        t.failures == 0,
        t.policy.retry_on_failure,
        t.policy.retry_count == 0,
        n >= 1,
    ensures
        failing_cycles(t, n).phase == Phase::Polling,
        failing_cycles(t, n).failures == 0,
        failing_cycles(t, n).delay == t.policy.retry_interval,
        failing_cycles(t, n).policy == t.policy,
    decreases n,
{
    if n > 1 {
        lemma_task_unbounded_retries(t, (n - 1) as nat);
    }
    let prev = failing_cycles(t, (n - 1) as nat);
    assert(prev.phase == Phase::Polling && prev.failures == 0 && prev.policy == t.policy);
    let woke = next_task(prev, TaskEvent::Woke);
    assert(woke.phase == Phase::Resolving && woke.failures == 0 && woke.policy == t.policy);
    assert(failing_cycles(t, n) == failed(woke));
}

/// A cycle in which the provider already publishes the local address ends in
/// success and asks for no update.
pub proof fn lemma_no_update_when_equal(t: SyncTask, v: String)
    requires
        t.phase == Phase::Comparing,
        v@ == t.needed@,
    ensures
        next_task(t, TaskEvent::Queried(Ok(v))).phase == Phase::Polling,
        next_task(t, TaskEvent::Queried(Ok(v))).failures == 0,
        next_task(t, TaskEvent::Queried(Ok(v))).delay == t.policy.interval,
        !(pending(next_task(t, TaskEvent::Queried(Ok(v)))) is Update),
{
}

} // verus!
