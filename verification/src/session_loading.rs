use vstd::prelude::*;

verus! {

/// The effects that matter while the account loads or the connection is cleaned up: quitting,
/// handing over to an account operation, reconnecting, and any other effect `F`.
pub enum LoadingEffect<L, F> {
    Quit,
    Lifecycle(L),
    Reconnect,
    Other(F),
}

/// How a session ends before it runs: the user quit, or an account operation takes over.
#[derive(Debug, PartialEq, Eq)]
pub enum SessionExit<L> {
    Quit,
    Lifecycle(L),
}

/// What a wait for account work ends with: the work's result, or an exit.
#[derive(Debug, PartialEq, Eq)]
pub enum Loading<T, L> {
    Ready(T),
    Exit(SessionExit<L>),
}

/// What woke the account-load wait: a redraw finished, the user did something (`Some` with an
/// intent, `None` when the key meant nothing), a redraw was asked for, the account loaded, or
/// the animation ticked.
pub enum LoadingWake<T, I> {
    Redrawn,
    Input(Option<I>),
    RedrawAsked,
    Loaded(T),
    Animate,
}

/// What the wait does next.
#[derive(Debug, PartialEq, Eq)]
pub enum LoadingAction<T, I> {
    /// Draw again.
    Draw,
    /// Hand this intent to the application state (and draw if the screen changed).
    Transition(I),
    /// Restart the animation timer and hand the animation tick to the application state.
    Animate,
    /// Nothing.
    Wait,
    /// The account loaded: end the wait with it.
    Finish(T),
}

/// While the account loads, quitting or an account operation ends the wait; any other effect
/// is dropped.
pub fn account_load_effect<L, F>(effect: LoadingEffect<L, F>) -> (r: Option<SessionExit<L>>)
    ensures
        match effect {
            LoadingEffect::Quit => r == Some(SessionExit::<L>::Quit),
            LoadingEffect::Lifecycle(l) => r == Some(SessionExit::Lifecycle(l)),
            _ => r is None,
        },
{
    match effect {
        LoadingEffect::Quit => Some(SessionExit::Quit),
        LoadingEffect::Lifecycle(l) => Some(SessionExit::Lifecycle(l)),
        _ => None,
    }
}

/// What the account-load wait does when woken.
pub fn account_load_woke<T, I>(wake: LoadingWake<T, I>) -> (r: LoadingAction<T, I>)
    ensures
        match wake {
            LoadingWake::Redrawn | LoadingWake::RedrawAsked => r == LoadingAction::<T, I>::Draw,
            LoadingWake::Input(Some(i)) => r == LoadingAction::<T, I>::Transition(i),
            LoadingWake::Input(None) => r == LoadingAction::<T, I>::Wait,
            LoadingWake::Loaded(t) => r == LoadingAction::<T, I>::Finish(t),
            LoadingWake::Animate => r == LoadingAction::<T, I>::Animate,
        },
{
    match wake {
        LoadingWake::Redrawn => LoadingAction::Draw,
        LoadingWake::RedrawAsked => LoadingAction::Draw,
        LoadingWake::Input(Some(i)) => LoadingAction::Transition(i),
        LoadingWake::Input(None) => LoadingAction::Wait,
        LoadingWake::Loaded(t) => LoadingAction::Finish(t),
        LoadingWake::Animate => LoadingAction::Animate,
    }
}

/// While the connection is cleaned up, quitting or an account operation is remembered as the
/// exit (a later one replaces an earlier), reconnecting is dropped, and any other effect is
/// handed back to be queued.
pub fn cleanup_effect<L, F>(exit: &mut Option<SessionExit<L>>, effect: LoadingEffect<L, F>) -> (queued:
    Option<F>)
    ensures
        match effect {
            LoadingEffect::Quit => *final(exit) == Some(SessionExit::<L>::Quit) && queued is None,
            LoadingEffect::Lifecycle(l) => *final(exit) == Some(SessionExit::Lifecycle(l)) && queued is None,
            LoadingEffect::Reconnect => *final(exit) == *old(exit) && queued is None,
            LoadingEffect::Other(f) => *final(exit) == *old(exit) && queued == Some(f),
        },
{
    match effect {
        LoadingEffect::Quit => {
            *exit = Some(SessionExit::Quit);
            None
        },
        LoadingEffect::Lifecycle(l) => {
            *exit = Some(SessionExit::Lifecycle(l));
            None
        },
        LoadingEffect::Reconnect => None,
        LoadingEffect::Other(f) => Some(f),
    }
}

/// The user's input is read during cleanup only until an exit is asked for.
pub fn cleanup_reads_input<L>(exit: &Option<SessionExit<L>>) -> (r: bool)
    ensures
        r == (*exit is None),
{
    exit.is_none()
}

/// Once cleanup is done, the session ends with the exit asked for, else goes on with what the
/// cleanup gave.
pub fn cleanup_finished<T, L>(exit: Option<SessionExit<L>>, cleaned: T) -> (r: Loading<T, L>)
    ensures
        match exit {
            Some(e) => r == Loading::<T, L>::Exit(e),
            None => r == Loading::<T, L>::Ready(cleaned),
        },
{
    match exit {
        Some(e) => Loading::Exit(e),
        None => Loading::Ready(cleaned),
    }
}

} // verus!
