//! Getting a lost stream back: silent attempts first, with growing pauses.
use crate::button::ButtonEvent;
use vstd::prelude::*;

verus! {

/// Pause before the first attempt, in seconds.
pub const RECONNECT_INITIAL_SECS: u64 = 2;

/// Longest pause before an attempt, in seconds.
pub const RECONNECT_MAX_SECS: u64 = 60;

/// So many attempts are made without a word.
pub const RECONNECT_SILENT_RETRIES: u32 = 3;

/// Spoken before an attempt that is not silent.
pub const RECONNECTING: &'static str = "Connection lost. Reconnecting.";

/// Time between two looks at the button during a pause, in milliseconds.
pub const RETRY_CHECK_INTERVAL_MS: u64 = 100;

/// The pause after so many failed attempts: it doubles each time, up to the longest.
pub open spec fn backoff(failures: nat) -> nat
    decreases failures,
{
    if failures == 0 {
        RECONNECT_INITIAL_SECS as nat
    } else {
        let doubled = 2 * backoff((failures - 1) as nat);
        if doubled <= RECONNECT_MAX_SECS {
            doubled
        } else {
            RECONNECT_MAX_SECS as nat
        }
    }
}

/// What has to be done next to get the stream back.
#[derive(Debug, Clone, Copy, PartialEq, Eq, Structural)]
pub enum ReconnectPhase {
    /// Speak [`RECONNECTING`]; the button interrupts it.
    Announcing,
    /// Look at the clock.
    Pausing,
    /// Look at the button; go on after [`RETRY_CHECK_INTERVAL_MS`].
    Listening,
    /// Connect.
    Connecting,
    /// Nothing: the stream is back.
    Reconnected,
    /// Nothing: a press has begun, which the main loop handles.
    PressBegun,
}

/// What came of it.
#[derive(Debug, Clone, Copy, PartialEq, Eq, Structural)]
pub enum ReconnectEvent {
    /// The announcement is over; with what interrupted it.
    Announced(Option<ButtonEvent>),
    /// So many milliseconds of the pause are over.
    Paused(u64),
    /// What the button has sent.
    Received(Option<ButtonEvent>),
    /// Whether the connection stands.
    Connected(bool),
}

/// An attempt to get a stream back.
#[derive(Debug, Clone, Copy, PartialEq, Eq, Structural)]
pub struct Reconnect {
    /// Counts from one.
    pub number: u32,
    /// The pause before this attempt, in seconds.
    pub wait_secs: u64,
    pub phase: ReconnectPhase,
}

impl Reconnect {
    pub open spec fn wf(self) -> bool {
        &&& self.number > 0
        &&& self.wait_secs == backoff((self.number - 1) as nat)
        &&& self.phase == ReconnectPhase::Announcing ==> self.number > RECONNECT_SILENT_RETRIES
    }

    /// The attempt with this number, at its start.
    pub open spec fn attempt(number: u32) -> Reconnect {
        Reconnect {
            number,
            wait_secs: backoff((number - 1) as nat) as u64,
            phase: if number > RECONNECT_SILENT_RETRIES {
                ReconnectPhase::Announcing
            } else {
                ReconnectPhase::Pausing
            },
        }
    }

    pub open spec fn next(self, event: ReconnectEvent) -> Reconnect {
        match (self.phase, event) {
            (ReconnectPhase::Announcing, ReconnectEvent::Announced(received)) => Reconnect {
                phase: if received == Some(ButtonEvent::Down) {
                    ReconnectPhase::PressBegun
                } else {
                    ReconnectPhase::Pausing
                },
                ..self
            },
            (ReconnectPhase::Pausing, ReconnectEvent::Paused(ms)) => Reconnect {
                phase: if ms < self.wait_secs * 1000 {
                    ReconnectPhase::Listening
                } else {
                    ReconnectPhase::Connecting
                },
                ..self
            },
            (ReconnectPhase::Listening, ReconnectEvent::Received(received)) => Reconnect {
                phase: if received == Some(ButtonEvent::Down) {
                    ReconnectPhase::PressBegun
                } else {
                    ReconnectPhase::Pausing
                },
                ..self
            },
            (ReconnectPhase::Connecting, ReconnectEvent::Connected(connected)) => if connected {
                Reconnect { phase: ReconnectPhase::Reconnected, ..self }
            } else {
                Reconnect::attempt((self.number + 1) as u32)
            },
            _ => self,
        }
    }

    /// The first attempt.
    pub fn first() -> (r: Reconnect)
        ensures
            r.wf(),
            r == Reconnect::attempt(1),
    {
        Reconnect { number: 1, wait_secs: RECONNECT_INITIAL_SECS, phase: ReconnectPhase::Pausing }
    }

    /// The attempt that follows a failed one.
    fn after_failure(self) -> (r: Reconnect)
        requires
            self.wf(),
            self.number < u32::MAX,
        ensures
            r.wf(),
            r == Reconnect::attempt((self.number + 1) as u32),
    {
        proof {
            backoff_is_bounded((self.number - 1) as nat);
        }
        let number: u32 = self.number + 1;
        let doubled: u64 = self.wait_secs * 2;
        Reconnect {
            number,
            wait_secs: if doubled <= RECONNECT_MAX_SECS {
                doubled
            } else {
                RECONNECT_MAX_SECS
            },
            phase: if number > RECONNECT_SILENT_RETRIES {
                ReconnectPhase::Announcing
            } else {
                ReconnectPhase::Pausing
            },
        }
    }
}

/// One step towards getting the stream back. An event that does not fit the phase changes
/// nothing.
pub fn handle_reconnect(reconnect: Reconnect, event: ReconnectEvent) -> (r: Reconnect)
    requires
        reconnect.wf(),
        reconnect.number < u32::MAX,
    ensures
        r.wf(),
        r == reconnect.next(event),
{
    proof {
        backoff_is_bounded((reconnect.number - 1) as nat);
    }
    match (reconnect.phase, event) {
        (ReconnectPhase::Announcing, ReconnectEvent::Announced(received)) => Reconnect {
            phase: if crate::listen::is_down(received) {
                ReconnectPhase::PressBegun
            } else {
                ReconnectPhase::Pausing
            },
            ..reconnect
        },
        (ReconnectPhase::Pausing, ReconnectEvent::Paused(ms)) => Reconnect {
            phase: if ms < reconnect.wait_secs * 1000 {
                ReconnectPhase::Listening
            } else {
                ReconnectPhase::Connecting
            },
            ..reconnect
        },
        (ReconnectPhase::Listening, ReconnectEvent::Received(received)) => Reconnect {
            phase: if crate::listen::is_down(received) {
                ReconnectPhase::PressBegun
            } else {
                ReconnectPhase::Pausing
            },
            ..reconnect
        },
        (ReconnectPhase::Connecting, ReconnectEvent::Connected(connected)) => if connected {
            Reconnect { phase: ReconnectPhase::Reconnected, ..reconnect }
        } else {
            reconnect.after_failure()
        },
        _ => reconnect,
    }
}

/// A pause is at least the first one and at most the longest.
pub proof fn backoff_is_bounded(failures: nat)
    ensures
        RECONNECT_INITIAL_SECS <= backoff(failures) <= RECONNECT_MAX_SECS,
    decreases failures,
{
    if failures > 0 {
        backoff_is_bounded((failures - 1) as nat);
    }
}

/// Pauses never get shorter.
pub proof fn backoff_never_shrinks(failures: nat)
    ensures
        backoff(failures) <= backoff(failures + 1),
{
    backoff_is_bounded(failures);
}

/// The backoff is exponential: the pause after `failures` failed attempts is two to the power
/// of one more, cut off at the longest pause.
pub proof fn backoff_is_exponential(failures: nat)
    ensures
        backoff(failures) == if vstd::arithmetic::power2::pow2(failures + 1)
            <= RECONNECT_MAX_SECS {
            vstd::arithmetic::power2::pow2(failures + 1)
        } else {
            RECONNECT_MAX_SECS as nat
        },
    decreases failures,
{
    vstd::arithmetic::power2::lemma2_to64();
    if failures > 0 {
        backoff_is_exponential((failures - 1) as nat);
        vstd::arithmetic::power2::lemma_pow2_unfold(failures + 1);
    }
}

/// Once the stream is back or a press has begun, nothing more is done.
pub proof fn reconnect_stays_over(reconnect: Reconnect, event: ReconnectEvent)
    requires
        reconnect.phase == ReconnectPhase::Reconnected || reconnect.phase
            == ReconnectPhase::PressBegun,
    ensures
        reconnect.next(event) == reconnect,
{
}

/// The first pause is two seconds; each failed attempt doubles it, up to a minute.
pub proof fn pause_doubles_up_to_a_minute(failures: nat)
    ensures
        backoff(0) == 2,
        backoff(failures + 1) == if 2 * backoff(failures) <= 60 {
            2 * backoff(failures)
        } else {
            60
        },
{
}

/// An attempt connects once its whole pause is over, and not before.
pub proof fn attempt_waits_for_its_whole_pause(reconnect: Reconnect, ms: u64)
    requires
        reconnect.wf(),
        reconnect.phase == ReconnectPhase::Pausing,
    ensures
        ({
            let after = reconnect.next(ReconnectEvent::Paused(ms));
            &&& after.phase == ReconnectPhase::Connecting <==> ms >= 1000 * backoff(
                (reconnect.number - 1) as nat,
            )
            &&& after.phase == ReconnectPhase::Listening <==> ms < 1000 * backoff(
                (reconnect.number - 1) as nat,
            )
            &&& after.number == reconnect.number
            &&& after.wait_secs == reconnect.wait_secs
        }),
{
}

/// The attempt with a number pauses as long as the failed attempts before it ask for. It is
/// announced exactly if three others were made before it.
pub proof fn attempts_are_numbered_from_one(number: u32)
    requires
        number > 0,
    ensures
        ({
            let attempt = Reconnect::attempt(number);
            &&& attempt.wf()
            &&& attempt.number == number
            &&& attempt.wait_secs == backoff((number - 1) as nat)
            &&& attempt.phase == if number >= 4 {
                ReconnectPhase::Announcing
            } else {
                ReconnectPhase::Pausing
            }
        }),
{
    backoff_is_bounded((number - 1) as nat);
}

/// A connection that stands ends it; one that fails leads to the attempt with the next number,
/// whose pause is twice as long, up to a minute.
pub proof fn failed_attempt_leads_to_the_next(reconnect: Reconnect)
    requires
        reconnect.wf(),
        reconnect.number < u32::MAX,
        reconnect.phase == ReconnectPhase::Connecting,
    ensures
        ({
            let failed = reconnect.next(ReconnectEvent::Connected(false));
            &&& reconnect.next(ReconnectEvent::Connected(true)) == (Reconnect {
                phase: ReconnectPhase::Reconnected,
                ..reconnect
            })
            &&& failed.number == reconnect.number + 1
            &&& failed.wait_secs == if 2 * reconnect.wait_secs <= 60 {
                2 * reconnect.wait_secs
            } else {
                60
            }
            &&& failed.phase == if reconnect.number >= 3 {
                ReconnectPhase::Announcing
            } else {
                ReconnectPhase::Pausing
            }
        }),
{
    backoff_is_bounded((reconnect.number - 1) as nat);
    pause_doubles_up_to_a_minute((reconnect.number - 1) as nat);
}

/// The button interrupts an attempt while it is announced and while it pauses, by going down and
/// in no other way; whatever else it has sent, the pause goes on.
pub proof fn only_a_press_interrupts(reconnect: Reconnect, received: Option<ButtonEvent>)
    ensures
        ({
            let next = if received == Some(ButtonEvent::Down) {
                ReconnectPhase::PressBegun
            } else {
                ReconnectPhase::Pausing
            };
            &&& reconnect.phase == ReconnectPhase::Announcing ==> reconnect.next(
                ReconnectEvent::Announced(received),
            ) == (Reconnect { phase: next, ..reconnect })
            &&& reconnect.phase == ReconnectPhase::Listening ==> reconnect.next(
                ReconnectEvent::Received(received),
            ) == (Reconnect { phase: next, ..reconnect })
        }),
{
}

/// An event that is not the answer to what had to be done changes nothing.
pub proof fn unasked_event_changes_nothing(reconnect: Reconnect, event: ReconnectEvent)
    requires
        event is Announced ==> reconnect.phase != ReconnectPhase::Announcing,
        event is Paused ==> reconnect.phase != ReconnectPhase::Pausing,
        event is Received ==> reconnect.phase != ReconnectPhase::Listening,
        event is Connected ==> reconnect.phase != ReconnectPhase::Connecting,
    ensures
        reconnect.next(event) == reconnect,
{
}

/// An attempt is well formed in any phase, if its pause is that of its number; it is announced
/// only behind three others.
pub proof fn attempts_have_the_pause_of_their_number(number: u32, phase: ReconnectPhase)
    requires
        number > 0,
    ensures
        (Reconnect { number, wait_secs: backoff((number - 1) as nat) as u64, phase }).wf()
            <==> phase != ReconnectPhase::Announcing || number >= 4,
{
    backoff_is_bounded((number - 1) as nat);
}

} // verus!
