use vstd::prelude::*;
use crate::model::WinState;

verus! {

/// What the main loop does next.
#[derive(Clone, Copy, PartialEq, Eq, Structural, Debug)]
pub enum LoopAction {
    /// Build the window and run it.
    OpenWindow,
    /// Leave the loop, save the state and end the program.
    Exit,
    /// Wait a little and look again.
    Wait,
}

/// The main loop's decision on `ws`.
pub open spec fn action_of<E>(ws: WinState<E>) -> LoopAction {
    match ws {
        WinState::Opening => LoopAction::OpenWindow,
        WinState::Closing => LoopAction::Exit,
        _ => LoopAction::Wait,
    }
}

/// The window state after the window reports `new_state`: "closing" closes
/// it, any other report leaves it as it was.
pub open spec fn after_report<E>(ws: WinState<E>, new_state: Seq<char>) -> WinState<E> {
    if new_state == "closing"@ {
        WinState::Closing
    } else {
        ws
    }
}

/// The main loop's decision on the window state: an opening window is
/// built, a closing one ends the program, otherwise the loop waits.
pub fn next_action<E>(ws: &WinState<E>) -> (a: LoopAction)
    ensures
        a == action_of(*ws),
{
    match ws {
        WinState::Opening => LoopAction::OpenWindow,
        WinState::Closing => LoopAction::Exit,
        _ => LoopAction::Wait,
    }
}

/// Once the window has reported that it is closing, the main loop ends the
/// program, whatever the window reports afterwards.
pub proof fn lemma_closing_is_final<E>(ws: WinState<E>, later: Seq<Seq<char>>)
    ensures
        action_of(after_reports(after_report(ws, "closing"@), later)) == LoopAction::Exit,
    decreases later.len(),
{
    lemma_closed_stays_closed(after_report(ws, "closing"@), later);
}

/// The window state after the reports in `reports`, first to last.
pub open spec fn after_reports<E>(ws: WinState<E>, reports: Seq<Seq<char>>) -> WinState<E>
    decreases reports.len(),
{
    if reports.len() == 0 {
        ws
    } else {
        after_reports(after_report(ws, reports[0]), reports.drop_first())
    }
}

proof fn lemma_closed_stays_closed<E>(ws: WinState<E>, reports: Seq<Seq<char>>)
    requires
        ws is Closing,
    ensures
        after_reports(ws, reports) is Closing,
    decreases reports.len(),
{
    if reports.len() > 0 {
        lemma_closed_stays_closed(after_report(ws, reports[0]), reports.drop_first());
    }
}

/// Only the report "closing" changes the window state; the main loop opens
/// an opening window, ends on a closing one, and otherwise waits.
pub proof fn lemma_reports_and_actions<E>(ws: WinState<E>, new_state: Seq<char>)
    ensures
        new_state == "closing"@ ==> after_report(ws, new_state) is Closing,
        new_state != "closing"@ ==> after_report(ws, new_state) == ws,
        ws is Opening ==> action_of(ws) == LoopAction::OpenWindow,
        ws is Closing ==> action_of(ws) == LoopAction::Exit,
        (ws is Tray || ws is Open) ==> action_of(ws) == LoopAction::Wait,
{
}

} // verus!
