use lib::session_loading::{
    account_load_effect, account_load_woke, cleanup_effect, cleanup_finished, cleanup_reads_input, Loading,
    LoadingAction, LoadingEffect, LoadingWake, SessionExit,
};

#[test]
fn account_load_ends_on_quit_or_an_account_operation() {
    assert_eq!(account_load_effect::<u8, &str>(LoadingEffect::Quit), Some(SessionExit::Quit));
    assert_eq!(account_load_effect::<u8, &str>(LoadingEffect::Lifecycle(3)), Some(SessionExit::Lifecycle(3)));
    assert_eq!(account_load_effect::<u8, &str>(LoadingEffect::Reconnect), None);
    assert_eq!(account_load_effect::<u8, &str>(LoadingEffect::Other("save draft")), None);
}

#[test]
fn account_load_wakes_draw_transition_animate_or_finish() {
    assert_eq!(account_load_woke::<u8, &str>(LoadingWake::Redrawn), LoadingAction::Draw);
    assert_eq!(account_load_woke::<u8, &str>(LoadingWake::RedrawAsked), LoadingAction::Draw);
    assert_eq!(account_load_woke::<u8, &str>(LoadingWake::Input(Some("insert"))), LoadingAction::Transition("insert"));
    assert_eq!(account_load_woke::<u8, &str>(LoadingWake::Input(None)), LoadingAction::Wait);
    assert_eq!(account_load_woke::<u8, &str>(LoadingWake::Loaded(9)), LoadingAction::Finish(9));
    assert_eq!(account_load_woke::<u8, &str>(LoadingWake::Animate), LoadingAction::Animate);
}

#[test]
fn cleanup_remembers_the_exit_and_queues_other_effects() {
    let mut exit: Option<SessionExit<u8>> = None;
    assert_eq!(cleanup_effect(&mut exit, LoadingEffect::Other("save draft")), Some("save draft"));
    assert_eq!(cleanup_effect::<u8, &str>(&mut exit, LoadingEffect::Reconnect), None);
    assert!(cleanup_reads_input(&exit));
    assert_eq!(cleanup_effect::<u8, &str>(&mut exit, LoadingEffect::Quit), None);
    assert_eq!(exit, Some(SessionExit::Quit));
    assert!(!cleanup_reads_input(&exit));
    assert_eq!(cleanup_finished(exit, "cleaned"), Loading::Exit(SessionExit::Quit));
    assert_eq!(cleanup_finished::<&str, u8>(None, "cleaned"), Loading::Ready("cleaned"));
}
