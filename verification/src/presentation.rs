//! What the windowing layer does with requests of the system: termination,
//! new windows, files to open, the dock menu, and preferred scales.

use vstd::prelude::*;

verus! {

/// Whether the user is asked before a window closes.
#[derive(Clone, Copy, Debug, PartialEq, Eq, Structural)]
pub enum WindowCloseConfirmation {
    AlwaysPrompt,
    NeverPrompt,
}

/// What a request of the system to terminate leads to.
#[derive(Clone, Copy, Debug, PartialEq, Eq, Structural)]
pub enum TerminationPlan {
    /// Cancel, and hand the request to the broker's safe quit.
    CancelAndAskBroker,
    /// Ask the user.
    AskUser,
    /// End the message loop and terminate.
    TerminateNow,
}

/// What a request of the system to terminate leads to. A managed GUI never
/// terminates on one.
pub fn plan_termination(dmux_managed_gui: bool, confirmation: WindowCloseConfirmation) -> (plan:
    TerminationPlan)
    ensures
        plan == (if dmux_managed_gui {
            TerminationPlan::CancelAndAskBroker
        } else if confirmation == WindowCloseConfirmation::NeverPrompt {
            TerminationPlan::TerminateNow
        } else {
            TerminationPlan::AskUser
        }),
{
    if dmux_managed_gui {
        TerminationPlan::CancelAndAskBroker
    } else {
        match confirmation {
            WindowCloseConfirmation::NeverPrompt => TerminationPlan::TerminateNow,
            WindowCloseConfirmation::AlwaysPrompt => TerminationPlan::AskUser,
        }
    }
}

/// The number of the first button of an alert, which is the one that cancels.
pub const FIRST_ALERT_BUTTON: i64 = 1000;

/// Whether the answer to the alert cancels the termination.
pub fn alert_cancels(response: i64) -> (cancels: bool)
    ensures
        cancels == (response == FIRST_ALERT_BUTTON),
{
    response == FIRST_ALERT_BUTTON
}

/// What a request of the system for a new window leads to: whether the request
/// counts as handled, and whether a window is spawned.
#[derive(Clone, Copy, Debug, PartialEq, Eq, Structural)]
pub struct UntitledPlan {
    pub handled: bool,
    pub spawn_window: bool,
}

/// What a request of the system for a new window leads to. A managed GUI
/// ignores it.
pub fn plan_open_untitled(dmux_managed_gui: bool, connected: bool, launched: bool) -> (plan:
    UntitledPlan)
    ensures
        plan.handled == (dmux_managed_gui || connected),
        plan.spawn_window == (!dmux_managed_gui && connected && launched),
{
    if dmux_managed_gui {
        return UntitledPlan { handled: true, spawn_window: false };
    }
    if connected {
        return UntitledPlan { handled: true, spawn_window: launched };
    }
    UntitledPlan { handled: false, spawn_window: false }
}

/// Whether a file that the system asks to open is run. A managed GUI ignores
/// it, and so does a GUI that has not launched yet.
pub fn opens_file(dmux_managed_gui: bool, connected: bool, launched: bool) -> (opens: bool)
    ensures
        opens == (launched && !dmux_managed_gui && connected),
{
    launched && !dmux_managed_gui && connected
}

/// Whether the dock menu offers a new window.
pub fn dock_offers_new_window(dmux_managed_gui: bool) -> (offers: bool)
    ensures
        offers == !dmux_managed_gui,
{
    !dmux_managed_gui
}

/// How many steps of a preferred scale make the factor one.
pub const SCALE_DENOMINATOR: u32 = 120;

/// The least and the largest scale that is let through, in steps: a tenth and
/// sixteen.
pub const LEAST_SCALE: u32 = 12;

pub const LARGEST_SCALE: u32 = 1920;

/// A preferred scale, in steps, within its bounds. A zero scale would make a
/// later division by it fail.
pub fn bounded_scale(scale: u32) -> (bounded: u32)
    ensures
        LEAST_SCALE <= bounded <= LARGEST_SCALE,
        LEAST_SCALE <= scale <= LARGEST_SCALE ==> bounded == scale,
        scale < LEAST_SCALE ==> bounded == LEAST_SCALE,
        scale > LARGEST_SCALE ==> bounded == LARGEST_SCALE,
{
    if scale < LEAST_SCALE {
        LEAST_SCALE
    } else if scale > LARGEST_SCALE {
        LARGEST_SCALE
    } else {
        scale
    }
}

} // verus!
