//! The decisions of the mining loop: after each event of a round, whether the run
//! goes on, sends the notice, starts the next round, or ends.

use vstd::prelude::*;

verus! {

/// What happened in a round of the mining loop.
#[derive(Clone, Copy, Debug, PartialEq, Eq)]
pub enum RoundEvent {
    /// Reading the contract state or the challenge failed.
    ReadFailed,
    /// The search for a solution failed.
    SearchFailed,
    /// Submitting the solution failed.
    SubmitFailed,
    /// The solution was mined in a transaction.
    Submitted,
    /// The Telegram notice was sent.
    NoticeSent,
    /// The Telegram notice could not be sent.
    NoticeFailed,
}

/// What the mining loop does next.
#[derive(Clone, Copy, Debug, PartialEq, Eq)]
pub enum RoundAction {
    /// End the run with the error of the event.
    EndWithError,
    /// Send the Telegram notice of the mined solution.
    SendNotice,
    /// Read the state and the challenge again and search anew.
    NextRound,
    /// End the run successfully.
    Finish,
}

/// The loop's policy: a failed read, search or submission ends the run with its
/// error; a mined solution is announced when Telegram is set up; a notice, sent
/// or not, never ends the run with an error; after a round the loop goes on
/// exactly when `keep_mining` is set.
pub open spec fn round_action(keep_mining: bool, telegram: bool, event: RoundEvent) -> RoundAction {
    match event {
        RoundEvent::ReadFailed | RoundEvent::SearchFailed | RoundEvent::SubmitFailed => {
            RoundAction::EndWithError
        },
        RoundEvent::Submitted => if telegram {
            RoundAction::SendNotice
        } else if keep_mining {
            RoundAction::NextRound
        } else {
            RoundAction::Finish
        },
        RoundEvent::NoticeSent | RoundEvent::NoticeFailed => if keep_mining {
            RoundAction::NextRound
        } else {
            RoundAction::Finish
        },
    }
}

/// The next action of the mining loop after `event`, with `keep_mining` and
/// whether Telegram is set up taken from the settings.
pub fn after_round_event(keep_mining: bool, telegram: bool, event: RoundEvent) -> (r: RoundAction)
    ensures
        r == round_action(keep_mining, telegram, event),
{
    match event {
        RoundEvent::ReadFailed | RoundEvent::SearchFailed | RoundEvent::SubmitFailed => {
            RoundAction::EndWithError
        },
        RoundEvent::Submitted => {
            if telegram {
                RoundAction::SendNotice
            } else if keep_mining {
                RoundAction::NextRound
            } else {
                RoundAction::Finish
            }
        },
        RoundEvent::NoticeSent | RoundEvent::NoticeFailed => {
            if keep_mining {
                RoundAction::NextRound
            } else {
                RoundAction::Finish
            }
        },
    }
}

} // verus!
