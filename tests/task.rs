use ddns_engine::address::{AddressType, AddressVersion, Interface, RawAddr};
use ddns_engine::error::ProvidersErrorType;
use ddns_engine::task::{Phase, RetryDecision, RetryPolicy, SyncTask, TaskAction, TaskEvent};

fn policy(retry_on_failure: bool, retry_count: u32) -> RetryPolicy {
    RetryPolicy { interval: 600, retry_on_failure, retry_count, retry_interval: 60 }
}

fn task(p: RetryPolicy) -> SyncTask {
    SyncTask::new(p, "eth0".to_string(), AddressVersion::V4, AddressType::Public, 0, true)
}

fn eth0() -> Vec<Interface> {
    vec![Interface {
        name: "eth0".to_string(),
        addr: vec![RawAddr::V4([8, 8, 4, 4], "8.8.4.4".to_string())],
    }]
}

/// Runs one cycle that fails at the interface step; returns the action after it.
fn failing_cycle(t: &mut SyncTask) -> TaskAction {
    let a = t.on_event(TaskEvent::Woke);
    assert!(matches!(a, TaskAction::ListInterfaces));
    t.on_event(TaskEvent::InterfacesFailed)
}

#[test]
fn decide_follows_the_policy() {
    let p = policy(true, 3);
    assert_eq!(p.decide(0), RetryDecision::Retry { delay: 60, failures: 1 });
    assert_eq!(p.decide(2), RetryDecision::Retry { delay: 60, failures: 3 });
    assert_eq!(p.decide(3), RetryDecision::GiveUp);
    assert_eq!(policy(false, 3).decide(0), RetryDecision::GiveUp);
    assert_eq!(policy(true, 0).decide(7), RetryDecision::Retry { delay: 60, failures: 7 });
}

#[test]
fn three_failures_retry_and_the_fourth_ends() {
    let mut t = task(policy(true, 3));
    assert!(matches!(t.action(), TaskAction::Sleep(0)));
    for _ in 0..3 {
        assert!(matches!(failing_cycle(&mut t), TaskAction::Sleep(60)));
    }
    assert!(matches!(failing_cycle(&mut t), TaskAction::Exit));
    assert_eq!(t.phase, Phase::Terminated);
}

#[test]
fn unbounded_retries_never_end() {
    let mut t = task(policy(true, 0));
    for _ in 0..1000 {
        assert!(matches!(failing_cycle(&mut t), TaskAction::Sleep(60)));
    }
    assert_eq!(t.failures, 0);
}

#[test]
fn no_retry_ends_at_first_failure() {
    let mut t = task(policy(false, 3));
    assert!(matches!(failing_cycle(&mut t), TaskAction::Exit));
}

#[test]
fn unimplemented_provider_ends_at_once() {
    let t = SyncTask::new(policy(true, 0), "eth0".to_string(), AddressVersion::V4, AddressType::Public, 0, false);
    assert!(matches!(t.action(), TaskAction::Exit));
}

#[test]
fn equal_value_asks_for_no_update() {
    let mut t = task(policy(true, 3));
    t.on_event(TaskEvent::Woke);
    let a = t.on_event(TaskEvent::Interfaces(eth0()));
    assert!(matches!(a, TaskAction::Query));
    assert_eq!(t.needed, "8.8.4.4");
    let a = t.on_event(TaskEvent::Queried(Ok("8.8.4.4".to_string())));
    assert!(matches!(a, TaskAction::Sleep(600)));
    assert_eq!(t.failures, 0);
}

#[test]
fn different_value_asks_for_update_then_success_resets() {
    let mut t = task(policy(true, 3));
    failing_cycle(&mut t);
    assert_eq!(t.failures, 1);
    t.on_event(TaskEvent::Woke);
    t.on_event(TaskEvent::Interfaces(eth0()));
    let a = t.on_event(TaskEvent::Queried(Ok("1.2.3.4".to_string())));
    assert!(matches!(a, TaskAction::Update(ref ip) if ip == "8.8.4.4"));
    let a = t.on_event(TaskEvent::Updated(Ok(())));
    assert!(matches!(a, TaskAction::Sleep(600)));
    assert_eq!(t.failures, 0);
}

#[test]
fn missing_record_is_not_a_failure() {
    let mut t = task(policy(true, 1));
    t.on_event(TaskEvent::Woke);
    t.on_event(TaskEvent::Interfaces(eth0()));
    let a = t.on_event(TaskEvent::Queried(Err(ProvidersErrorType::NoRecordFound)));
    assert!(matches!(a, TaskAction::Update(ref ip) if ip == "8.8.4.4"));
    assert_eq!(t.failures, 0);
}

#[test]
fn query_error_and_too_few_addresses_are_failures() {
    let mut t = task(policy(true, 5));
    t.on_event(TaskEvent::Woke);
    t.on_event(TaskEvent::Interfaces(eth0()));
    let a = t.on_event(TaskEvent::Queried(Err(ProvidersErrorType::TooManyRecords)));
    assert!(matches!(a, TaskAction::Sleep(60)));
    assert_eq!(t.failures, 1);
    t.on_event(TaskEvent::Woke);
    let a = t.on_event(TaskEvent::Interfaces(Vec::new()));
    assert!(matches!(a, TaskAction::Sleep(60)));
    assert_eq!(t.failures, 2);
    t.on_event(TaskEvent::Woke);
    t.on_event(TaskEvent::Interfaces(eth0()));
    t.on_event(TaskEvent::Queried(Ok(String::new())));
    let a = t.on_event(TaskEvent::Updated(Err(ProvidersErrorType::NetworkError)));
    assert!(matches!(a, TaskAction::Sleep(60)));
    assert_eq!(t.failures, 3);
}

#[test]
fn unexpected_event_changes_nothing() {
    let mut t = task(policy(true, 3));
    let a = t.on_event(TaskEvent::Queried(Ok("x".to_string())));
    assert!(matches!(a, TaskAction::Sleep(0)));
    assert_eq!(t.phase, Phase::Polling);
}

#[test]
fn cancellation_ends_the_task() {
    let mut t = task(policy(true, 0));
    let a = t.on_event(TaskEvent::Cancelled);
    assert!(matches!(a, TaskAction::Exit));
    assert_eq!(t.phase, Phase::Terminated);
    let a = t.on_event(TaskEvent::Woke);
    assert!(matches!(a, TaskAction::Exit));
}
