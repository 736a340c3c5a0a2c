//! The welcome: a greeting, and an update where there is one.
use vstd::prelude::*;

verus! {

pub const HELLO: &'static str = "Hello!";

pub const CHECKING_FOR_UPDATES: &'static str = "Checking for updates.";

pub const UPDATE_FOUND: &'static str = "Update found. Installing.";

pub const UPDATE_COMPLETE: &'static str = "Update complete. Restarting.";

pub const UPDATE_FAILED: &'static str = "Update failed.";

pub const UP_TO_DATE: &'static str = "Up to date.";

/// Time between the last words and the end of the program, in seconds.
pub const RESTART_WAIT_SECS: u64 = 2;

/// What has to be done next.
#[derive(Debug, Clone, Copy, PartialEq, Eq, Structural)]
pub enum WelcomePhase {
    /// Announce [`HELLO`].
    Greeting,
    /// Announce [`CHECKING_FOR_UPDATES`].
    AnnouncingCheck,
    /// Look for a later release.
    Checking,
    /// Announce [`UP_TO_DATE`].
    AnnouncingUpToDate,
    /// Announce [`UPDATE_FOUND`].
    AnnouncingUpdate,
    /// Install the later release.
    Installing,
    /// Announce [`UPDATE_FAILED`].
    AnnouncingFailure,
    /// Announce [`UPDATE_COMPLETE`].
    AnnouncingRestart,
    /// Wait [`RESTART_WAIT_SECS`] and end the program, which is then started anew.
    Restarting,
    /// Nothing: the radio starts.
    Over,
}

/// What came of it.
#[derive(Debug, Clone, Copy, PartialEq, Eq, Structural)]
pub enum WelcomeEvent {
    Announced,
    /// Whether there is a later release.
    Checked(bool),
    /// Whether it has been installed.
    Installed(bool),
}

impl WelcomePhase {
    /// What is announced in a phase.
    pub open spec fn announced(self) -> Option<&'static str> {
        match self {
            WelcomePhase::Greeting => Some(HELLO),
            WelcomePhase::AnnouncingCheck => Some(CHECKING_FOR_UPDATES),
            WelcomePhase::AnnouncingUpToDate => Some(UP_TO_DATE),
            WelcomePhase::AnnouncingUpdate => Some(UPDATE_FOUND),
            WelcomePhase::AnnouncingFailure => Some(UPDATE_FAILED),
            WelcomePhase::AnnouncingRestart => Some(UPDATE_COMPLETE),
            _ => None,
        }
    }

    /// What is announced in this phase.
    pub fn phrase(self) -> (phrase: Option<&'static str>)
        ensures
            phrase == self.announced(),
    {
        match self {
            WelcomePhase::Greeting => Some(HELLO),
            WelcomePhase::AnnouncingCheck => Some(CHECKING_FOR_UPDATES),
            WelcomePhase::AnnouncingUpToDate => Some(UP_TO_DATE),
            WelcomePhase::AnnouncingUpdate => Some(UPDATE_FOUND),
            WelcomePhase::AnnouncingFailure => Some(UPDATE_FAILED),
            WelcomePhase::AnnouncingRestart => Some(UPDATE_COMPLETE),
            _ => None,
        }
    }

    /// The phase behind an event. An event that does not fit changes nothing.
    pub open spec fn next(self, event: WelcomeEvent) -> WelcomePhase {
        match (self, event) {
            (WelcomePhase::Greeting, WelcomeEvent::Announced) => WelcomePhase::AnnouncingCheck,
            (WelcomePhase::AnnouncingCheck, WelcomeEvent::Announced) => WelcomePhase::Checking,
            (WelcomePhase::Checking, WelcomeEvent::Checked(found)) => if found {
                WelcomePhase::AnnouncingUpdate
            } else {
                WelcomePhase::AnnouncingUpToDate
            },
            (WelcomePhase::AnnouncingUpdate, WelcomeEvent::Announced) => WelcomePhase::Installing,
            (WelcomePhase::Installing, WelcomeEvent::Installed(installed)) => if installed {
                WelcomePhase::AnnouncingRestart
            } else {
                WelcomePhase::AnnouncingFailure
            },
            (WelcomePhase::AnnouncingRestart, WelcomeEvent::Announced) => WelcomePhase::Restarting,
            (WelcomePhase::AnnouncingFailure, WelcomeEvent::Announced) => WelcomePhase::Over,
            (WelcomePhase::AnnouncingUpToDate, WelcomeEvent::Announced) => WelcomePhase::Over,
            _ => self,
        }
    }
}

/// One step of the welcome, which begins with [`WelcomePhase::Greeting`].
pub fn handle_welcome(phase: WelcomePhase, event: WelcomeEvent) -> (next: WelcomePhase)
    ensures
        next == phase.next(event),
{
    match (phase, event) {
        (WelcomePhase::Greeting, WelcomeEvent::Announced) => WelcomePhase::AnnouncingCheck,
        (WelcomePhase::AnnouncingCheck, WelcomeEvent::Announced) => WelcomePhase::Checking,
        (WelcomePhase::Checking, WelcomeEvent::Checked(found)) => if found {
            WelcomePhase::AnnouncingUpdate
        } else {
            WelcomePhase::AnnouncingUpToDate
        },
        (WelcomePhase::AnnouncingUpdate, WelcomeEvent::Announced) => WelcomePhase::Installing,
        (WelcomePhase::Installing, WelcomeEvent::Installed(installed)) => if installed {
            WelcomePhase::AnnouncingRestart
        } else {
            WelcomePhase::AnnouncingFailure
        },
        (WelcomePhase::AnnouncingRestart, WelcomeEvent::Announced) => WelcomePhase::Restarting,
        (WelcomePhase::AnnouncingFailure, WelcomeEvent::Announced) => WelcomePhase::Over,
        (WelcomePhase::AnnouncingUpToDate, WelcomeEvent::Announced) => WelcomePhase::Over,
        _ => phase,
    }
}

/// The phase behind a series of events.
pub open spec fn after_events(events: Seq<WelcomeEvent>) -> WelcomePhase
    decreases events.len(),
{
    if events.len() == 0 {
        WelcomePhase::Greeting
    } else {
        after_events(events.drop_last()).next(events.last())
    }
}

/// The phases behind a release that was found.
pub open spec fn update_was_found(phase: WelcomePhase) -> bool {
    match phase {
        WelcomePhase::AnnouncingUpdate => true,
        WelcomePhase::Installing => true,
        WelcomePhase::AnnouncingFailure => true,
        WelcomePhase::AnnouncingRestart => true,
        WelcomePhase::Restarting => true,
        _ => false,
    }
}

/// Something is installed only if a later release was found.
pub proof fn installs_only_what_was_found(events: Seq<WelcomeEvent>)
    requires
        update_was_found(after_events(events)),
    ensures
        events.contains(WelcomeEvent::Checked(true)),
    decreases events.len(),
{
    if events.len() > 0 {
        let rest = events.drop_last();
        if update_was_found(after_events(rest)) {
            installs_only_what_was_found(rest);
            let i = choose|i: int| 0 <= i < rest.len() && rest[i] == WelcomeEvent::Checked(true);
            assert(events[i] == WelcomeEvent::Checked(true));
        } else {
            assert(events[events.len() - 1] == WelcomeEvent::Checked(true));
        }
    }
}

/// The program restarts only if a later release has been installed.
pub proof fn restarts_only_when_installed(events: Seq<WelcomeEvent>)
    requires
        after_events(events) == WelcomePhase::AnnouncingRestart || after_events(events)
            == WelcomePhase::Restarting,
    ensures
        events.contains(WelcomeEvent::Installed(true)),
    decreases events.len(),
{
    if events.len() > 0 {
        let rest = events.drop_last();
        let phase = after_events(rest);
        if phase == WelcomePhase::AnnouncingRestart || phase == WelcomePhase::Restarting {
            restarts_only_when_installed(rest);
            let i = choose|i: int| 0 <= i < rest.len() && rest[i] == WelcomeEvent::Installed(true);
            assert(events[i] == WelcomeEvent::Installed(true));
        } else {
            assert(events[events.len() - 1] == WelcomeEvent::Installed(true));
        }
    }
}

/// The welcome goes from the greeting to the search. A release that is found is installed, and
/// then the program restarts if that succeeded; in every other case the radio starts. Each step
/// is announced before.
pub proof fn welcome_goes_step_by_step()
    ensures
        WelcomePhase::Greeting.next(WelcomeEvent::Announced) == WelcomePhase::AnnouncingCheck,
        WelcomePhase::AnnouncingCheck.next(WelcomeEvent::Announced) == WelcomePhase::Checking,
        WelcomePhase::Checking.next(WelcomeEvent::Checked(true)) == WelcomePhase::AnnouncingUpdate,
        WelcomePhase::Checking.next(WelcomeEvent::Checked(false))
            == WelcomePhase::AnnouncingUpToDate,
        WelcomePhase::AnnouncingUpToDate.next(WelcomeEvent::Announced) == WelcomePhase::Over,
        WelcomePhase::AnnouncingUpdate.next(WelcomeEvent::Announced) == WelcomePhase::Installing,
        WelcomePhase::Installing.next(WelcomeEvent::Installed(true))
            == WelcomePhase::AnnouncingRestart,
        WelcomePhase::Installing.next(WelcomeEvent::Installed(false))
            == WelcomePhase::AnnouncingFailure,
        WelcomePhase::AnnouncingRestart.next(WelcomeEvent::Announced) == WelcomePhase::Restarting,
        WelcomePhase::AnnouncingFailure.next(WelcomeEvent::Announced) == WelcomePhase::Over,
{
}

/// An event that is not the answer to what had to be done changes nothing.
pub proof fn unasked_event_changes_nothing(phase: WelcomePhase, event: WelcomeEvent)
    requires
        event == WelcomeEvent::Announced ==> phase.announced() is None,
        event is Checked ==> phase != WelcomePhase::Checking,
        event is Installed ==> phase != WelcomePhase::Installing,
    ensures
        phase.next(event) == phase,
{
}

/// What is said is what happens.
pub proof fn phrases_say_what_happens(phase: WelcomePhase)
    ensures
        WelcomePhase::Greeting.announced() == Some("Hello!"),
        WelcomePhase::AnnouncingCheck.announced() == Some("Checking for updates."),
        WelcomePhase::AnnouncingUpToDate.announced() == Some("Up to date."),
        WelcomePhase::AnnouncingUpdate.announced() == Some("Update found. Installing."),
        WelcomePhase::AnnouncingRestart.announced() == Some("Update complete. Restarting."),
        WelcomePhase::AnnouncingFailure.announced() == Some("Update failed."),
        phase == WelcomePhase::Checking || phase == WelcomePhase::Installing || phase
            == WelcomePhase::Restarting || phase == WelcomePhase::Over ==> phase.announced()
            is None,
{
}

} // verus!
