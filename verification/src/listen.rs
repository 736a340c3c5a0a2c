//! Waiting: for a press to end, for an announcement to be over, for a stream to fail.
use crate::button::ButtonEvent;
use vstd::prelude::*;

verus! {

// ---------------------------------------------------------------------------
// While a press lasts
// ---------------------------------------------------------------------------

/// Feedback that a press gives.
#[derive(Debug, Clone, Copy, PartialEq, Eq, Structural)]
pub enum PressFeedback {
    /// Start the beep that sounds while the button is held.
    StartBeep,
    /// End the beep that sounds while the button is held.
    StopBeep,
    /// Play the confirmation tune.
    ConfirmBeep,
    /// Drop what the button sends until it has sent nothing for so many milliseconds.
    DrainUntilQuiet(u64),
}

/// How the press turns out that the button reports; `None` stands for a button that is gone,
/// which counts as a short press. `Down` leaves the outcome open.
pub open spec fn press_outcome(received: Option<ButtonEvent>) -> Option<ButtonEvent> {
    match received {
        Some(ButtonEvent::Down) => None,
        Some(event) => Some(event),
        None => Some(ButtonEvent::Short),
    }
}

pub open spec fn press_feedback(outcome: ButtonEvent) -> Seq<PressFeedback> {
    if outcome == ButtonEvent::Long {
        seq![PressFeedback::StopBeep, PressFeedback::DrainUntilQuiet(300)]
    } else {
        seq![PressFeedback::StopBeep, PressFeedback::ConfirmBeep]
    }
}

/// The feedback to give as soon as the button goes down, before anything else is taken from it.
pub fn begin_press() -> (feedback: Vec<PressFeedback>)
    ensures
        feedback@ == seq![PressFeedback::StartBeep],
{
    let mut feedback: Vec<PressFeedback> = Vec::new();
    feedback.push(PressFeedback::StartBeep);
    assert(feedback@ =~= seq![PressFeedback::StartBeep]);
    feedback
}

/// Takes what the button sends while it is held down: either nothing is decided yet, or the
/// press is over, with its outcome and the feedback to give.
pub fn handle_button_press(received: Option<ButtonEvent>) -> (r: Option<
    (ButtonEvent, Vec<PressFeedback>),
>)
    ensures
        match press_outcome(received) {
            Some(outcome) => r matches Some(over) && over.0 == outcome && over.1@
                == press_feedback(outcome),
            None => r is None,
        },
{
    let outcome = match received {
        Some(ButtonEvent::Down) => return None,
        Some(event) => event,
        None => ButtonEvent::Short,
    };
    let mut feedback: Vec<PressFeedback> = Vec::new();
    feedback.push(PressFeedback::StopBeep);
    match outcome {
        ButtonEvent::Long => feedback.push(PressFeedback::DrainUntilQuiet(300)),
        _ => feedback.push(PressFeedback::ConfirmBeep),
    }
    assert(feedback@ =~= press_feedback(outcome));
    Some((outcome, feedback))
}

/// The outcome that a series of events leads to, where the button is gone behind the last.
pub open spec fn first_outcome(events: Seq<ButtonEvent>) -> ButtonEvent
    decreases events.len(),
{
    if events.len() == 0 {
        ButtonEvent::Short
    } else {
        match press_outcome(Some(events[0])) {
            Some(outcome) => outcome,
            None => first_outcome(events.drop_first()),
        }
    }
}

/// A press is short or long and nothing else, and it is long only if the button says so.
pub proof fn press_is_short_or_long(events: Seq<ButtonEvent>)
    ensures
        first_outcome(events) == ButtonEvent::Short || first_outcome(events) == ButtonEvent::Long,
        first_outcome(events) == ButtonEvent::Long ==> events.contains(ButtonEvent::Long),
    decreases events.len(),
{
    if events.len() > 0 {
        press_is_short_or_long(events.drop_first());
        if events[0] == ButtonEvent::Down && first_outcome(events) == ButtonEvent::Long {
            let rest = events.drop_first();
            let i = choose|i: int| 0 <= i < rest.len() && rest[i] == ButtonEvent::Long;
            assert(events[i + 1] == ButtonEvent::Long);
        }
    }
}

// ---------------------------------------------------------------------------
// While a channel plays
// ---------------------------------------------------------------------------

/// How often the stream is looked at while it plays, in milliseconds.
pub const STREAM_CHECK_INTERVAL_MS: u64 = 500;

/// Events that can happen while a channel plays.
#[derive(Debug, Clone, Copy, PartialEq, Eq, Structural)]
pub enum RadioEvent {
    ButtonDown,
    StreamEnded,
}

/// Looks at the button and at the stream. Without an event, the next look follows after
/// [`STREAM_CHECK_INTERVAL_MS`]. What the button sent is lost unless it went down.
pub fn wait_for_event(received: Option<ButtonEvent>, stream_active: bool) -> (event: Option<
    RadioEvent,
>)
    ensures
        event == if received == Some(ButtonEvent::Down) {
            Some(RadioEvent::ButtonDown)
        } else if !stream_active {
            Some(RadioEvent::StreamEnded)
        } else {
            None
        },
{
    if is_down(received) {
        Some(RadioEvent::ButtonDown)
    } else if !stream_active {
        Some(RadioEvent::StreamEnded)
    } else {
        None
    }
}

/// Whether the button went down.
pub fn is_down(received: Option<ButtonEvent>) -> (b: bool)
    ensures
        b == (received == Some(ButtonEvent::Down)),
{
    match received {
        Some(ButtonEvent::Down) => true,
        _ => false,
    }
}

// ---------------------------------------------------------------------------
// While channels are browsed
// ---------------------------------------------------------------------------

/// Time between the end of an announcement and the commit, in milliseconds.
pub const BROWSE_GRACE_MS: u64 = 500;

/// Time between two looks at the button while something is spoken, in milliseconds.
pub const VOICE_CHECK_INTERVAL_MS: u64 = 50;

/// What is being waited for while browsing.
#[derive(Debug, Clone, Copy, PartialEq, Eq, Structural)]
pub enum BrowseWait {
    /// The end of the announcement.
    Voice,
    /// The end of the grace period.
    Grace,
}

/// Events that can happen while browsing.
#[derive(Debug, Clone, Copy, PartialEq, Eq, Structural)]
pub enum BrowseEvent {
    ButtonDown,
    /// The announcement and the grace period are over.
    Commit,
}

/// What to do next while browsing.
#[derive(Debug, Clone, Copy, PartialEq, Eq, Structural)]
pub enum BrowseStep {
    /// Look at the button; go on after [`VOICE_CHECK_INTERVAL_MS`] unless it went down.
    Listen,
    /// The announcement is over: the grace period starts now.
    BeginGrace,
    /// The channel is chosen.
    Commit,
}

pub open spec fn browse_step(wait: BrowseWait, voice_playing: bool, grace_ms: u64) -> BrowseStep {
    match wait {
        BrowseWait::Voice => if voice_playing {
            BrowseStep::Listen
        } else {
            BrowseStep::BeginGrace
        },
        BrowseWait::Grace => if grace_ms < BROWSE_GRACE_MS {
            BrowseStep::Listen
        } else {
            BrowseStep::Commit
        },
    }
}

/// What to do next, where `grace_ms` is the time since the grace period started.
pub fn wait_for_tts_or_button(wait: BrowseWait, voice_playing: bool, grace_ms: u64) -> (step:
    BrowseStep)
    ensures
        step == browse_step(wait, voice_playing, grace_ms),
{
    match wait {
        BrowseWait::Voice => if voice_playing {
            BrowseStep::Listen
        } else {
            BrowseStep::BeginGrace
        },
        BrowseWait::Grace => if grace_ms < BROWSE_GRACE_MS {
            BrowseStep::Listen
        } else {
            BrowseStep::Commit
        },
    }
}

/// What a look at the button comes to: a press ends the wait at once, anything else is dropped.
pub open spec fn listened(received: Option<ButtonEvent>) -> Option<BrowseEvent> {
    if received == Some(ButtonEvent::Down) {
        Some(BrowseEvent::ButtonDown)
    } else {
        None
    }
}

/// Takes what the button has sent while browsing, where [`BrowseStep::Listen`] asks for it.
pub fn while_listening(received: Option<ButtonEvent>) -> (event: Option<BrowseEvent>)
    ensures
        event == listened(received),
{
    if is_down(received) {
        Some(BrowseEvent::ButtonDown)
    } else {
        None
    }
}

/// One look at the world while browsing.
pub struct BrowseLook {
    pub voice_playing: bool,
    /// Time since the grace period started.
    pub grace_ms: u64,
    /// What the button would send.
    pub received: Option<ButtonEvent>,
}

/// What a series of looks leads to; `None` where nothing is decided yet.
pub open spec fn browse_outcome(wait: BrowseWait, looks: Seq<BrowseLook>) -> Option<BrowseEvent>
    decreases looks.len(),
{
    if looks.len() == 0 {
        None
    } else {
        match browse_step(wait, looks[0].voice_playing, looks[0].grace_ms) {
            BrowseStep::Listen => match listened(looks[0].received) {
                Some(event) => Some(event),
                None => browse_outcome(wait, looks.drop_first()),
            },
            BrowseStep::BeginGrace => browse_outcome(BrowseWait::Grace, looks.drop_first()),
            BrowseStep::Commit => Some(BrowseEvent::Commit),
        }
    }
}

/// A channel is committed only after its announcement was over and then the whole grace
/// period.
pub proof fn commit_follows_voice_and_grace(looks: Seq<BrowseLook>)
    requires
        browse_outcome(BrowseWait::Voice, looks) == Some(BrowseEvent::Commit),
    ensures
        exists|i: int, j: int|
            #![trigger looks[i], looks[j]]
            0 <= i < j < looks.len() && !looks[i].voice_playing && looks[j].grace_ms
                >= BROWSE_GRACE_MS,
    decreases looks.len(),
{
    let rest = looks.drop_first();
    if looks[0].voice_playing {
        commit_follows_voice_and_grace(rest);
        let (i, j) = choose|i: int, j: int|
            #![trigger rest[i], rest[j]]
            0 <= i < j < rest.len() && !rest[i].voice_playing && rest[j].grace_ms
                >= BROWSE_GRACE_MS;
        assert(looks[i + 1] == rest[i] && looks[j + 1] == rest[j]);
    } else {
        commit_follows_grace(rest);
        let j = choose|j: int|
            0 <= j < rest.len() && (#[trigger] rest[j]).grace_ms >= BROWSE_GRACE_MS;
        assert(looks[j + 1] == rest[j]);
        assert(!looks[0].voice_playing);
    }
}

proof fn commit_follows_grace(looks: Seq<BrowseLook>)
    requires
        browse_outcome(BrowseWait::Grace, looks) == Some(BrowseEvent::Commit),
    ensures
        exists|j: int| 0 <= j < looks.len() && (#[trigger] looks[j]).grace_ms >= BROWSE_GRACE_MS,
    decreases looks.len(),
{
    if looks[0].grace_ms < BROWSE_GRACE_MS {
        let rest = looks.drop_first();
        commit_follows_grace(rest);
        let j = choose|j: int|
            0 <= j < rest.len() && (#[trigger] rest[j]).grace_ms >= BROWSE_GRACE_MS;
        assert(looks[j + 1] == rest[j]);
    }
}

/// A press during the announcement interrupts it: nothing is committed.
pub proof fn press_during_voice_prevents_commit(looks: Seq<BrowseLook>, k: int)
    requires
        0 <= k < looks.len(),
        forall|i: int| 0 <= i <= k ==> (#[trigger] looks[i]).voice_playing,
        looks[k].received == Some(ButtonEvent::Down),
    ensures
        browse_outcome(BrowseWait::Voice, looks) == Some(BrowseEvent::ButtonDown),
    decreases k,
{
    assert(looks[0].voice_playing);
    if looks[0].received != Some(ButtonEvent::Down) {
        let rest = looks.drop_first();
        assert forall|i: int| 0 <= i <= k - 1 implies (#[trigger] rest[i]).voice_playing by {
            assert(rest[i] == looks[i + 1]);
        }
        assert(rest[k - 1] == looks[k]);
        press_during_voice_prevents_commit(rest, k - 1);
    }
}

/// A press during the grace period prevents the commit too.
pub proof fn press_during_grace_prevents_commit(looks: Seq<BrowseLook>, k: int)
    requires
        0 <= k < looks.len(),
        forall|i: int| 0 <= i <= k ==> (#[trigger] looks[i]).grace_ms < BROWSE_GRACE_MS,
        looks[k].received == Some(ButtonEvent::Down),
    ensures
        browse_outcome(BrowseWait::Grace, looks) == Some(BrowseEvent::ButtonDown),
    decreases k,
{
    assert(looks[0].grace_ms < BROWSE_GRACE_MS);
    if looks[0].received != Some(ButtonEvent::Down) {
        let rest = looks.drop_first();
        assert forall|i: int| 0 <= i <= k - 1 implies (#[trigger] rest[i]).grace_ms
            < BROWSE_GRACE_MS by {
            assert(rest[i] == looks[i + 1]);
        }
        assert(rest[k - 1] == looks[k]);
        press_during_grace_prevents_commit(rest, k - 1);
    }
}

/// Without a press the channel is committed once the announcement and the grace period are
/// over.
pub proof fn quiet_button_commits(looks: Seq<BrowseLook>, i: int, j: int)
    requires
        0 <= i < j < looks.len(),
        forall|k: int|
            0 <= k < looks.len() ==> (#[trigger] looks[k]).received != Some(ButtonEvent::Down),
        !looks[i].voice_playing,
        looks[j].grace_ms >= BROWSE_GRACE_MS,
    ensures
        browse_outcome(BrowseWait::Voice, looks) == Some(BrowseEvent::Commit),
    decreases looks.len(),
{
    let rest = looks.drop_first();
    assert forall|k: int| 0 <= k < rest.len() implies (#[trigger] rest[k]).received != Some(
        ButtonEvent::Down,
    ) by {
        assert(rest[k] == looks[k + 1]);
    }
    assert(looks[0].received != Some(ButtonEvent::Down));
    assert(rest[j - 1] == looks[j]);
    if looks[0].voice_playing {
        assert(rest[i - 1] == looks[i]);
        quiet_button_commits(rest, i - 1, j - 1);
    } else {
        quiet_grace_commits(rest, j - 1);
    }
}

proof fn quiet_grace_commits(looks: Seq<BrowseLook>, j: int)
    requires
        0 <= j < looks.len(),
        forall|k: int|
            0 <= k < looks.len() ==> (#[trigger] looks[k]).received != Some(ButtonEvent::Down),
        looks[j].grace_ms >= BROWSE_GRACE_MS,
    ensures
        browse_outcome(BrowseWait::Grace, looks) == Some(BrowseEvent::Commit),
    decreases looks.len(),
{
    if looks[0].grace_ms < BROWSE_GRACE_MS {
        let rest = looks.drop_first();
        assert(looks[0].received != Some(ButtonEvent::Down));
        assert forall|k: int| 0 <= k < rest.len() implies (#[trigger] rest[k]).received != Some(
            ButtonEvent::Down,
        ) by {
            assert(rest[k] == looks[k + 1]);
        }
        assert(rest[j - 1] == looks[j]);
        quiet_grace_commits(rest, j - 1);
    }
}

// ---------------------------------------------------------------------------
// While the radio is off
// ---------------------------------------------------------------------------

/// What to do next while the radio is off.
#[derive(Debug, Clone, Copy, PartialEq, Eq, Structural)]
pub enum OffStep {
    /// Something is still spoken: look at the button, and go on after
    /// [`VOICE_CHECK_INTERVAL_MS`] unless it went down.
    Listen,
    /// Wait for the button alone.
    Block,
}

pub fn wait_while_off(voice_playing: bool) -> (step: OffStep)
    ensures
        step == if voice_playing {
            OffStep::Listen
        } else {
            OffStep::Block
        },
{
    if voice_playing {
        OffStep::Listen
    } else {
        OffStep::Block
    }
}

/// What waiting for the button alone came to.
#[derive(Debug, Clone, Copy, PartialEq, Eq, Structural)]
pub enum OffReceived {
    /// It went down: a press has begun.
    Press,
    /// The end of an earlier press: wait on.
    Ignore,
    /// The button is gone.
    Gone,
}

pub fn received_while_off(received: Option<ButtonEvent>) -> (r: OffReceived)
    ensures
        r == match received {
            Some(ButtonEvent::Down) => OffReceived::Press,
            Some(_) => OffReceived::Ignore,
            None => OffReceived::Gone,
        },
{
    match received {
        Some(ButtonEvent::Down) => OffReceived::Press,
        Some(_) => OffReceived::Ignore,
        None => OffReceived::Gone,
    }
}

// ---------------------------------------------------------------------------
// Laws
// ---------------------------------------------------------------------------

/// What the button reports of a press is how it turns out; a button that is gone leaves a short
/// press, and one that only went down leaves it open. A short press is confirmed; a long one is
/// not, but what the button sends is dropped until it has been quiet. The beep ends either way.
pub proof fn press_is_answered(outcome: ButtonEvent)
    ensures
        press_outcome(Some(ButtonEvent::Short)) == Some(ButtonEvent::Short),
        press_outcome(Some(ButtonEvent::Long)) == Some(ButtonEvent::Long),
        press_outcome(Some(ButtonEvent::Down)) is None,
        press_outcome(None) == Some(ButtonEvent::Short),
        press_feedback(ButtonEvent::Long) == seq![
            PressFeedback::StopBeep,
            PressFeedback::DrainUntilQuiet(300),
        ],
        outcome != ButtonEvent::Long ==> press_feedback(outcome) == seq![
            PressFeedback::StopBeep,
            PressFeedback::ConfirmBeep,
        ],
{
}

/// While the announcement lasts, and then for half a second, the button is listened to; when the
/// announcement is over that time begins, and when it is over too, the channel is chosen. A press
/// ends the wait, and nothing else that the button sends does.
pub proof fn browsing_waits_for_voice_and_half_a_second(
    voice_playing: bool,
    grace_ms: u64,
    received: Option<ButtonEvent>,
)
    ensures
        browse_step(BrowseWait::Voice, true, grace_ms) == BrowseStep::Listen,
        browse_step(BrowseWait::Voice, false, grace_ms) == BrowseStep::BeginGrace,
        grace_ms < 500 ==> browse_step(BrowseWait::Grace, voice_playing, grace_ms)
            == BrowseStep::Listen,
        grace_ms >= 500 ==> browse_step(BrowseWait::Grace, voice_playing, grace_ms)
            == BrowseStep::Commit,
        received == Some(ButtonEvent::Down) ==> listened(received) == Some(BrowseEvent::ButtonDown),
        received != Some(ButtonEvent::Down) ==> listened(received) is None,
{
}

} // verus!
