use lib::effect_schedule::EffectRoute;
use lib::runtime_step::{Completion, Failure, Reaction, RequestedExit, Runtime, Settled};

fn runtime() -> Runtime<&'static str, &'static str, u8> {
    Runtime::new()
}

fn started(s: Settled<&'static str, &'static str, u8>) -> Vec<&'static str> {
    match s {
        Settled::Run { started, .. } => started.into_iter().map(|(_, e)| e).collect(),
        _ => panic!("expected the runtime to run on"),
    }
}

#[test]
fn effects_start_one_per_lane_within_capacity() {
    let mut r = runtime();
    r.pending = vec![
        (EffectRoute::Telegram, "send"),
        (EffectRoute::Telegram, "read"),
        (EffectRoute::LocalOrdered, "draft"),
        (EffectRoute::LocalIndependent, "notify"),
    ];
    assert_eq!(started(r.settle(8)), vec!["send", "draft", "notify"]);
    assert_eq!(r.active, 3);
    assert_eq!(r.pending.len(), 1);
    assert_eq!(r.completed(EffectRoute::Telegram, "send", Completion::Delivered), Reaction::Deliver);
    assert_eq!(started(r.settle(8)), vec!["read"]);
}

#[test]
fn capacity_limits_the_running_effects() {
    let mut r = runtime();
    r.pending = vec![(EffectRoute::LocalIndependent, "a"), (EffectRoute::LocalIndependent, "b")];
    assert_eq!(started(r.settle(1)), vec!["a"]);
    assert_eq!(started(r.settle(1)), Vec::<&str>::new());
}

#[test]
fn broken_connection_puts_the_effect_back_and_disconnects() {
    let mut r = runtime();
    r.pending = vec![(EffectRoute::Telegram, "send"), (EffectRoute::Telegram, "read")];
    started(r.settle(8));
    let reaction = r.completed(
        EffectRoute::Telegram,
        "send",
        Completion::Failed(Failure::Connection { error: "io", reason: "offline".to_owned() }),
    );
    assert_eq!(reaction, Reaction::Disconnect("offline".to_owned()));
    assert!(r.disconnected);
    assert_eq!(r.pending.iter().map(|(_, e)| *e).collect::<Vec<_>>(), vec!["send", "read"]);
    assert!(matches!(r.settle(8), Settled::Disconnected));
}

#[test]
fn cancelled_effect_after_a_disconnection_waits_again() {
    let mut r = runtime();
    r.pending = vec![(EffectRoute::LocalIndependent, "a"), (EffectRoute::LocalIndependent, "b")];
    started(r.settle(8));
    assert_eq!(r.source_failed(Failure::Connection { error: "io", reason: "gone".to_owned() }), Reaction::Disconnect("gone".to_owned()));
    assert_eq!(r.completed(EffectRoute::LocalIndependent, "a", Completion::Failed(Failure::Cancelled("c"))), Reaction::Ignore);
    assert!(matches!(r.settle(8), Settled::Run { poll_adapter: false, .. }));
    assert_eq!(r.completed(EffectRoute::LocalIndependent, "b", Completion::Delivered), Reaction::Deliver);
    assert!(matches!(r.settle(8), Settled::Disconnected));
    assert_eq!(r.pending.len(), 1);
}

#[test]
fn fatal_failure_stops_and_ends_with_the_error() {
    let mut r = runtime();
    r.pending = vec![(EffectRoute::LocalOrdered, "save"), (EffectRoute::LocalOrdered, "later")];
    started(r.settle(8));
    assert_eq!(r.completed(EffectRoute::LocalOrdered, "save", Completion::Failed(Failure::Fatal("disk"))), Reaction::Stop);
    assert!(r.pending.is_empty());
    assert!(matches!(r.settle(8), Settled::Fail("disk")));
}

#[test]
fn quitting_waits_for_running_effects_and_keeps_the_first_failure() {
    let mut r = runtime();
    r.pending = vec![(EffectRoute::Telegram, "send"), (EffectRoute::LocalOrdered, "save")];
    started(r.settle(8));
    assert!(r.quit_requested());
    assert!(!r.quit_requested());
    assert!(matches!(r.settle(8), Settled::Run { poll_interaction: false, poll_background: false, .. }));
    assert_eq!(r.completed(EffectRoute::Telegram, "send", Completion::Delivered), Reaction::Ignore);
    assert_eq!(r.completed(EffectRoute::LocalOrdered, "save", Completion::Failed(Failure::Fatal("disk"))), Reaction::Ignore);
    assert!(matches!(r.settle(8), Settled::Fail("disk")));
}

#[test]
fn quitting_with_nothing_running_quits() {
    let mut r = runtime();
    r.quit_requested();
    assert!(matches!(r.settle(8), Settled::Quit));
}

#[test]
fn account_operation_takes_over_once_effects_end() {
    let mut r = runtime();
    r.pending = vec![(EffectRoute::Telegram, "logout"), (EffectRoute::Telegram, "send")];
    started(r.settle(8));
    assert_eq!(r.completed(EffectRoute::Telegram, "logout", Completion::LifecycleReady(7)), Reaction::Ignore);
    assert!(matches!(r.requested_exit, Some(RequestedExit::Lifecycle(7))));
    assert!(matches!(r.settle(8), Settled::Lifecycle(7)));
}
