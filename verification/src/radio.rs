//! The radio as a state machine: what a press, a committed channel or a lost stream leads to.
//!
//! Streams, sounds and clocks belong to the caller. Each machine here says what to do next and
//! is told what came of it.
use crate::button::ButtonEvent;
use crate::listen::{is_down, BrowseEvent, OffReceived, RadioEvent};
use crate::reconnect::ReconnectPhase;
use vstd::prelude::*;

verus! {

// ---------------------------------------------------------------------------
// States
// ---------------------------------------------------------------------------

/// Radio state.
///
/// Playing: stream at full volume. Browsing: stream ducked while channels are announced; the
/// last one is committed when its announcement and a grace period are over. Off: no stream.
#[derive(Debug, Clone, Copy, PartialEq, Eq, Structural)]
pub enum RadioState {
    /// Streaming a channel at full volume.
    Playing(usize),
    /// Browsing channels while the old stream keeps playing.
    Browsing {
        /// The channel that is streaming; none when the radio was off.
        playing: Option<usize>,
        /// The channel that is being announced.
        browse: usize,
    },
    /// No stream.
    Off,
}

impl RadioState {
    /// Every channel that the state names is one of the `num_channels` there are.
    pub open spec fn wf(self, num_channels: usize) -> bool {
        match self {
            RadioState::Playing(ch) => ch < num_channels,
            RadioState::Browsing { playing, browse } => {
                &&& browse < num_channels
                &&& playing matches Some(ch) ==> ch < num_channels
            },
            RadioState::Off => true,
        }
    }

    /// The channel behind the one that is browsed, or else played; the first one when off.
    pub open spec fn next_browse(self, num_channels: usize) -> int {
        match self {
            RadioState::Playing(ch) => (ch as int + 1) % num_channels as int,
            RadioState::Browsing { browse, .. } => (browse as int + 1) % num_channels as int,
            RadioState::Off => 0,
        }
    }

    /// The channel that is streaming.
    pub open spec fn streaming(self) -> Option<usize> {
        match self {
            RadioState::Playing(ch) => Some(ch),
            RadioState::Browsing { playing, .. } => playing,
            RadioState::Off => None,
        }
    }

    /// Short press: enters browsing, or advances it.
    pub fn short_press(self, num_channels: usize) -> (next: RadioState)
        requires
            self matches RadioState::Playing(ch) ==> num_channels > 0 && ch < usize::MAX,
            self matches RadioState::Browsing { browse, .. } ==> num_channels > 0 && browse
                < usize::MAX,
        ensures
            next == (RadioState::Browsing {
                playing: self.streaming(),
                browse: self.next_browse(num_channels) as usize,
            }),
    {
        match self {
            RadioState::Playing(ch) => RadioState::Browsing {
                playing: Some(ch),
                browse: (ch + 1) % num_channels,
            },
            RadioState::Browsing { playing, browse } => RadioState::Browsing {
                playing,
                browse: (browse + 1) % num_channels,
            },
            RadioState::Off => RadioState::Browsing { playing: None, browse: 0 },
        }
    }

    /// Commits the browsed channel. Where nothing is browsed, nothing changes.
    pub fn commit(self) -> (next: RadioState)
        ensures
            next == match self {
                RadioState::Browsing { browse, .. } => RadioState::Playing(browse),
                other => other,
            },
    {
        match self {
            RadioState::Browsing { browse, .. } => RadioState::Playing(browse),
            RadioState::Playing(ch) => RadioState::Playing(ch),
            RadioState::Off => RadioState::Off,
        }
    }

    /// Long press: always turns the radio off.
    pub fn long_press(self) -> (next: RadioState)
        ensures
            next == RadioState::Off,
    {
        RadioState::Off
    }
}

// ---------------------------------------------------------------------------
// What happens in a state
// ---------------------------------------------------------------------------

/// Spoken when the radio is turned off.
pub const RADIO_OFF: &'static str = "Radio off";

/// What the main loop learns.
#[derive(Debug, Clone, Copy, PartialEq, Eq, Structural)]
pub enum RadioInput {
    /// A press is over; `Long` is a long one, anything else a short one.
    Pressed(ButtonEvent),
    /// The stream has ended by itself.
    StreamEnded,
    /// The browsed channel has been announced, and the grace period is over.
    Commit,
}

/// What the main loop has to do, in the order given.
#[derive(Debug, Clone, Copy, PartialEq, Eq, Structural)]
pub enum RadioAction {
    /// Duck the stream.
    Duck,
    /// Bring the stream back to full volume.
    Restore,
    /// Stop the stream.
    StopStream,
    /// Speak the name of a channel, without waiting for the end.
    SpeakChannel(usize),
    /// Speak [`RADIO_OFF`], without waiting for the end.
    SpeakOff,
    /// Greet, look for updates.
    Welcome,
    /// Forget what the button has sent.
    DrainButton,
    /// Announce a channel and wait for the end.
    AnnounceChannel(usize),
    /// Bring the stream to full volume and connect to that of a channel.
    StartChannel(usize),
    /// Try to get the lost stream of a channel back.
    Reconnect(usize),
}

/// The full start: welcome, then the first channel.
pub open spec fn startup_actions() -> Seq<RadioAction> {
    seq![
        RadioAction::Welcome,
        RadioAction::DrainButton,
        RadioAction::AnnounceChannel(0),
        RadioAction::StartChannel(0),
    ]
}

/// What is heard on entering a state by a press.
pub open spec fn enter_actions(state: RadioState) -> Seq<RadioAction> {
    match state {
        RadioState::Browsing { playing, browse } => if playing is Some {
            seq![RadioAction::Duck, RadioAction::SpeakChannel(browse)]
        } else {
            seq![RadioAction::SpeakChannel(browse)]
        },
        RadioState::Off => seq![RadioAction::StopStream, RadioAction::SpeakOff],
        RadioState::Playing(_) => Seq::empty(),
    }
}

/// The state behind an input.
pub open spec fn next_state(
    state: RadioState,
    input: RadioInput,
    num_channels: usize,
) -> RadioState {
    match (state, input) {
        (_, RadioInput::Pressed(ButtonEvent::Long)) => RadioState::Off,
        (RadioState::Off, RadioInput::Pressed(_)) => RadioState::Playing(0),
        (_, RadioInput::Pressed(_)) => RadioState::Browsing {
            playing: state.streaming(),
            browse: state.next_browse(num_channels) as usize,
        },
        (RadioState::Browsing { browse, .. }, RadioInput::Commit) => RadioState::Playing(browse),
        _ => state,
    }
}

/// What has to be done about an input.
pub open spec fn actions_for(state: RadioState, input: RadioInput, num_channels: usize) -> Seq<
    RadioAction,
> {
    match (state, input) {
        (RadioState::Off, RadioInput::Pressed(ButtonEvent::Long)) => Seq::empty(),
        (RadioState::Off, RadioInput::Pressed(_)) => startup_actions(),
        (_, RadioInput::Pressed(_)) => enter_actions(next_state(state, input, num_channels)),
        (RadioState::Playing(ch), RadioInput::StreamEnded) => seq![RadioAction::Reconnect(ch)],
        (RadioState::Browsing { playing, browse }, RadioInput::Commit) => if playing == Some(
            browse,
        ) {
            seq![RadioAction::Restore]
        } else {
            seq![RadioAction::StopStream, RadioAction::Restore, RadioAction::StartChannel(browse)]
        },
        _ => Seq::empty(),
    }
}

/// The state and the actions with which the radio starts.
pub fn start_radio() -> (r: (RadioState, Vec<RadioAction>))
    ensures
        r.0 == RadioState::Playing(0),
        r.1@ == startup_actions(),
{
    let actions = vec![
        RadioAction::Welcome,
        RadioAction::DrainButton,
        RadioAction::AnnounceChannel(0),
        RadioAction::StartChannel(0),
    ];
    assert(actions@ =~= startup_actions());
    (RadioState::Playing(0), actions)
}

/// What is heard on entering a state by a press.
pub fn handle_state_enter(state: &RadioState) -> (actions: Vec<RadioAction>)
    ensures
        actions@ == enter_actions(*state),
{
    let mut actions: Vec<RadioAction> = Vec::new();
    match *state {
        RadioState::Browsing { playing, browse } => {
            if playing.is_some() {
                actions.push(RadioAction::Duck);
            }
            actions.push(RadioAction::SpeakChannel(browse));
        },
        RadioState::Off => {
            actions.push(RadioAction::StopStream);
            actions.push(RadioAction::SpeakOff);
        },
        RadioState::Playing(_) => {},
    }
    assert(actions@ =~= enter_actions(*state));
    actions
}

/// One turn of the main loop: the state behind an input, and what has to be done.
pub fn react(state: RadioState, input: RadioInput, num_channels: usize) -> (r: (
    RadioState,
    Vec<RadioAction>,
))
    requires
        num_channels > 0,
        state.wf(num_channels),
    ensures
        r.0 == next_state(state, input, num_channels),
        r.1@ == actions_for(state, input, num_channels),
        r.0.wf(num_channels),
{
    match input {
        RadioInput::Pressed(press) => match state {
            RadioState::Off => match press {
                ButtonEvent::Long => {
                    let actions: Vec<RadioAction> = Vec::new();
                    assert(actions@ =~= Seq::empty());
                    (state.long_press(), actions)
                },
                _ => start_radio(),
            },
            _ => {
                let next = match press {
                    ButtonEvent::Long => state.long_press(),
                    _ => state.short_press(num_channels),
                };
                let actions = handle_state_enter(&next);
                (next, actions)
            },
        },
        RadioInput::StreamEnded => {
            let mut actions: Vec<RadioAction> = Vec::new();
            if let RadioState::Playing(ch) = state {
                actions.push(RadioAction::Reconnect(ch));
            }
            assert(actions@ =~= actions_for(state, input, num_channels));
            (state, actions)
        },
        RadioInput::Commit => {
            let mut actions: Vec<RadioAction> = Vec::new();
            if let RadioState::Browsing { playing, browse } = state {
                let same = match playing {
                    Some(ch) => ch == browse,
                    None => false,
                };
                if !same {
                    actions.push(RadioAction::StopStream);
                }
                actions.push(RadioAction::Restore);
                if !same {
                    actions.push(RadioAction::StartChannel(browse));
                }
            }
            assert(actions@ =~= actions_for(state, input, num_channels));
            (state.commit(), actions)
        },
    }
}

// ---------------------------------------------------------------------------
// From waiting to reacting
// ---------------------------------------------------------------------------

/// What the main loop waits for.
#[derive(Debug, Clone, Copy, PartialEq, Eq, Structural)]
pub enum LoopWait {
    /// A press, or the end of the stream.
    PressOrStreamEnd,
    /// A press, or the end of announcement and grace period.
    PressOrCommit,
    /// A press.
    Press,
}

/// What the main loop waits for in a state.
pub fn waits_for(state: &RadioState) -> (wait: LoopWait)
    ensures
        wait == match *state {
            RadioState::Playing(_) => LoopWait::PressOrStreamEnd,
            RadioState::Browsing { .. } => LoopWait::PressOrCommit,
            RadioState::Off => LoopWait::Press,
        },
{
    match state {
        RadioState::Playing(_) => LoopWait::PressOrStreamEnd,
        RadioState::Browsing { .. } => LoopWait::PressOrCommit,
        RadioState::Off => LoopWait::Press,
    }
}

/// What the main loop does once it has waited.
#[derive(Debug, Clone, Copy, PartialEq, Eq, Structural)]
pub enum LoopStep {
    /// A press has begun: see how it ends, and react to that.
    HandlePress,
    /// React to this.
    React(RadioInput),
    /// Wait on.
    Wait,
}

/// After waiting for a press or the end of the stream.
pub fn after_playing(event: RadioEvent) -> (step: LoopStep)
    ensures
        step == match event {
            RadioEvent::ButtonDown => LoopStep::HandlePress,
            RadioEvent::StreamEnded => LoopStep::React(RadioInput::StreamEnded),
        },
{
    match event {
        RadioEvent::ButtonDown => LoopStep::HandlePress,
        RadioEvent::StreamEnded => LoopStep::React(RadioInput::StreamEnded),
    }
}

/// After waiting for a press or the end of announcement and grace period.
pub fn after_browsing(event: BrowseEvent) -> (step: LoopStep)
    ensures
        step == match event {
            BrowseEvent::ButtonDown => LoopStep::HandlePress,
            BrowseEvent::Commit => LoopStep::React(RadioInput::Commit),
        },
{
    match event {
        BrowseEvent::ButtonDown => LoopStep::HandlePress,
        BrowseEvent::Commit => LoopStep::React(RadioInput::Commit),
    }
}

/// What a look at the button comes to while the radio is off and still speaks.
#[derive(Debug, Clone, Copy, PartialEq, Eq, Structural)]
pub struct OffReaction {
    /// Stop the voice first.
    pub stop_voice: bool,
    pub step: LoopStep,
}

/// Takes what the button has sent while the radio is off and still speaks: a press stops the
/// voice and is then handled, anything else is dropped.
pub fn while_speaking_off(received: Option<ButtonEvent>) -> (reaction: OffReaction)
    ensures
        reaction == if received == Some(ButtonEvent::Down) {
            OffReaction { stop_voice: true, step: LoopStep::HandlePress }
        } else {
            OffReaction { stop_voice: false, step: LoopStep::Wait }
        },
{
    if is_down(received) {
        OffReaction { stop_voice: true, step: LoopStep::HandlePress }
    } else {
        OffReaction { stop_voice: false, step: LoopStep::Wait }
    }
}

/// After waiting for a press alone. A button that is gone can end nothing.
pub fn after_off(received: OffReceived) -> (step: LoopStep)
    ensures
        step == match received {
            OffReceived::Press => LoopStep::HandlePress,
            _ => LoopStep::Wait,
        },
{
    match received {
        OffReceived::Press => LoopStep::HandlePress,
        _ => LoopStep::Wait,
    }
}

/// After trying to get a stream back: a press that interrupted it is handled as any other.
pub fn after_reconnect(phase: ReconnectPhase) -> (step: LoopStep)
    ensures
        step == if phase == ReconnectPhase::PressBegun {
            LoopStep::HandlePress
        } else {
            LoopStep::Wait
        },
{
    match phase {
        ReconnectPhase::PressBegun => LoopStep::HandlePress,
        _ => LoopStep::Wait,
    }
}

// ---------------------------------------------------------------------------
// Laws
// ---------------------------------------------------------------------------

/// A long press turns the radio off from any state; it stops what streams and says so, unless
/// the radio was off before.
pub proof fn long_press_turns_off(state: RadioState, num_channels: usize)
    ensures
        next_state(state, RadioInput::Pressed(ButtonEvent::Long), num_channels) == RadioState::Off,
        actions_for(state, RadioInput::Pressed(ButtonEvent::Long), num_channels) == if state
            == RadioState::Off {
            Seq::empty()
        } else {
            seq![RadioAction::StopStream, RadioAction::SpeakOff]
        },
{
}

/// From off, a press that is not long leads through the full start to the first channel.
pub proof fn press_from_off_starts_over(press: ButtonEvent, num_channels: usize)
    requires
        press != ButtonEvent::Long,
    ensures
        next_state(RadioState::Off, RadioInput::Pressed(press), num_channels)
            == RadioState::Playing(0),
        actions_for(RadioState::Off, RadioInput::Pressed(press), num_channels)
            == startup_actions(),
{
}

/// The state behind so many short presses.
pub open spec fn after_presses(state: RadioState, presses: nat, num_channels: usize) -> RadioState
    decreases presses,
{
    if presses == 0 {
        state
    } else {
        next_state(
            after_presses(state, (presses - 1) as nat, num_channels),
            RadioInput::Pressed(ButtonEvent::Short),
            num_channels,
        )
    }
}

/// Short presses walk through the channels in order and wrap around; the channel that streams
/// stays the same.
pub proof fn presses_walk_the_channels(ch: usize, presses: nat, num_channels: usize)
    requires
        ch < num_channels,
        presses > 0,
    ensures
        after_presses(RadioState::Playing(ch), presses, num_channels) == (RadioState::Browsing {
            playing: Some(ch),
            browse: ((ch + presses) % num_channels as int) as usize,
        }),
    decreases presses,
{
    let n = num_channels as int;
    if presses > 1 {
        presses_walk_the_channels(ch, (presses - 1) as nat, num_channels);
        vstd::arithmetic::div_mod::lemma_add_mod_noop(ch + presses - 1, 1, n);
        vstd::arithmetic::div_mod::lemma_mod_bound(ch + presses - 1, n);
        let browse = (ch + presses - 1) % n;
        if n > 1 {
            vstd::arithmetic::div_mod::lemma_small_mod(1, num_channels as nat);
        } else {
            assert((browse + 1) % 1 == 0 && (ch + presses) % 1 == 0);
        }
        assert((browse + 1) % n == (ch + presses) % n);
    } else {
        assert(after_presses(RadioState::Playing(ch), 0, num_channels) == RadioState::Playing(ch));
    }
}

/// As many presses as there are channels come back to the channel that streams; committing it
/// only brings back the volume.
pub proof fn full_circle_keeps_the_stream(ch: usize, num_channels: usize)
    requires
        ch < num_channels,
    ensures
        ({
            let browsed = after_presses(
                RadioState::Playing(ch),
                num_channels as nat,
                num_channels,
            );
            &&& browsed == (RadioState::Browsing { playing: Some(ch), browse: ch })
            &&& next_state(browsed, RadioInput::Commit, num_channels) == RadioState::Playing(ch)
            &&& actions_for(browsed, RadioInput::Commit, num_channels) == seq![RadioAction::Restore]
        }),
{
    presses_walk_the_channels(ch, num_channels as nat, num_channels);
    vstd::arithmetic::div_mod::lemma_mod_add_multiples_vanish(ch as int, num_channels as int);
    vstd::arithmetic::div_mod::lemma_small_mod(ch as nat, num_channels as nat);
}

/// What can be heard of the streams.
pub struct Heard {
    /// The channel whose stream has been asked for.
    pub stream: Option<usize>,
    /// Whether the stream is ducked.
    pub ducked: bool,
}

/// What an action changes of it. A channel starts at full volume.
pub open spec fn heard_after(heard: Heard, action: RadioAction) -> Heard {
    match action {
        RadioAction::Duck => Heard { ducked: true, ..heard },
        RadioAction::Restore => Heard { ducked: false, ..heard },
        RadioAction::StopStream => Heard { stream: None, ..heard },
        RadioAction::StartChannel(ch) => Heard { stream: Some(ch), ducked: false },
        RadioAction::Reconnect(ch) => Heard { stream: Some(ch), ..heard },
        _ => heard,
    }
}

pub open spec fn heard_after_all(heard: Heard, actions: Seq<RadioAction>) -> Heard {
    actions.fold_left(heard, |h: Heard, a: RadioAction| heard_after(h, a))
}

/// What is heard is what the state says: the channel that streams, ducked exactly while
/// browsing.
pub open spec fn agrees(heard: Heard, state: RadioState) -> bool {
    &&& heard.stream == state.streaming()
    &&& heard.stream is Some ==> heard.ducked == (state is Browsing)
}

/// The start makes what is heard agree with the state.
pub proof fn start_agrees(heard: Heard)
    ensures
        agrees(heard_after_all(heard, startup_actions()), RadioState::Playing(0)),
{
    reveal_with_fuel(Seq::fold_left, 5);
    let a = startup_actions();
    assert(a.drop_last().drop_last().drop_last().drop_last() =~= Seq::empty());
}

/// Every turn of the main loop keeps what is heard in agreement with the state.
pub proof fn reaction_keeps_agreement(
    heard: Heard,
    state: RadioState,
    input: RadioInput,
    num_channels: usize,
)
    requires
        agrees(heard, state),
    ensures
        agrees(
            heard_after_all(heard, actions_for(state, input, num_channels)),
            next_state(state, input, num_channels),
        ),
{
    reveal_with_fuel(Seq::fold_left, 5);
    start_agrees(heard);
    let a = actions_for(state, input, num_channels);
    if a.len() == 1 {
        assert(a.drop_last() =~= Seq::empty());
    } else if a.len() == 2 {
        assert(a.drop_last().drop_last() =~= Seq::empty());
    } else if a.len() == 3 {
        assert(a.drop_last().drop_last().drop_last() =~= Seq::empty());
    }
}

/// The stream is switched only by a commit: while the radio is on, nothing else but turning it
/// off stops a stream or starts another.
pub proof fn stream_switches_only_on_commit(
    state: RadioState,
    input: RadioInput,
    num_channels: usize,
    ch: usize,
)
    requires
        state != RadioState::Off,
        input != RadioInput::Commit,
        input != RadioInput::Pressed(ButtonEvent::Long),
    ensures
        !actions_for(state, input, num_channels).contains(RadioAction::StopStream),
        !actions_for(state, input, num_channels).contains(RadioAction::StartChannel(ch)),
        next_state(state, input, num_channels).streaming() == state.streaming(),
{
}

/// The channel that is spoken is the one that a commit would play: after a short press while the
/// radio is on, that channel is announced and no other.
pub proof fn spoken_channel_is_the_one_to_be_played(
    state: RadioState,
    press: ButtonEvent,
    num_channels: usize,
    ch: usize,
)
    requires
        num_channels > 0,
        state.wf(num_channels),
        state != RadioState::Off,
        press != ButtonEvent::Long,
    ensures
        ({
            let after = next_state(state, RadioInput::Pressed(press), num_channels);
            actions_for(state, RadioInput::Pressed(press), num_channels).contains(
                RadioAction::SpeakChannel(ch),
            ) <==> next_state(after, RadioInput::Commit, num_channels) == RadioState::Playing(ch)
        }),
{
    let after = next_state(state, RadioInput::Pressed(press), num_channels);
    let actions = actions_for(state, RadioInput::Pressed(press), num_channels);
    let browse = after->browse;
    if state.streaming() is Some {
        assert(actions =~= seq![RadioAction::Duck, RadioAction::SpeakChannel(browse)]);
        assert(actions[1] == RadioAction::SpeakChannel(browse));
    } else {
        assert(actions =~= seq![RadioAction::SpeakChannel(browse)]);
        assert(actions[0] == RadioAction::SpeakChannel(browse));
    }
}

/// A short press moves on from the channel that plays, or else is browsed, to the one behind it,
/// and from the last to the first. What streams goes on, ducked before the announcement.
pub proof fn short_press_moves_to_the_next_channel(
    state: RadioState,
    press: ButtonEvent,
    num_channels: usize,
    ch: usize,
    playing: Option<usize>,
)
    requires
        ch < num_channels,
        playing matches Some(other) ==> other < num_channels,
        press != ButtonEvent::Long,
        ({
            ||| state == RadioState::Playing(ch) && playing == Some(ch)
            ||| state == (RadioState::Browsing { playing, browse: ch })
        }),
    ensures
        ({
            let next = if ch + 1 < num_channels {
                (ch + 1) as usize
            } else {
                0
            };
            &&& next_state(state, RadioInput::Pressed(press), num_channels)
                == (RadioState::Browsing { playing, browse: next })
            &&& actions_for(state, RadioInput::Pressed(press), num_channels) == if playing is Some {
                seq![RadioAction::Duck, RadioAction::SpeakChannel(next)]
            } else {
                seq![RadioAction::SpeakChannel(next)]
            }
            &&& state.streaming() == playing
            &&& state.next_browse(num_channels) == next
        }),
{
    let n = num_channels as int;
    if ch + 1 < num_channels {
        vstd::arithmetic::div_mod::lemma_small_mod((ch + 1) as nat, num_channels as nat);
    } else {
        vstd::arithmetic::div_mod::lemma_mod_self_0(n);
    }
}

/// Nothing streams while the radio is off, and browsing begins with the first channel there.
pub proof fn off_begins_with_the_first_channel(num_channels: usize)
    ensures
        RadioState::Off.streaming() is None,
        RadioState::Off.next_browse(num_channels) == 0,
{
}

/// A commit plays the channel that is browsed: what streamed is stopped before, unless it is the
/// same, which only comes back to full volume. Where nothing is browsed, nothing happens.
pub proof fn commit_switches_to_the_browsed_channel(
    state: RadioState,
    playing: Option<usize>,
    browse: usize,
    num_channels: usize,
)
    ensures
        ({
            let browsing = RadioState::Browsing { playing, browse };
            let actions = actions_for(browsing, RadioInput::Commit, num_channels);
            &&& next_state(browsing, RadioInput::Commit, num_channels) == RadioState::Playing(
                browse,
            )
            &&& playing == Some(browse) ==> actions == seq![RadioAction::Restore]
            &&& playing != Some(browse) ==> actions == seq![
                RadioAction::StopStream,
                RadioAction::Restore,
                RadioAction::StartChannel(browse),
            ]
        }),
        !(state is Browsing) ==> next_state(state, RadioInput::Commit, num_channels) == state
            && actions_for(state, RadioInput::Commit, num_channels) == Seq::<RadioAction>::empty(),
{
}

/// A stream that ends by itself is to be got back, for the channel that plays and in no other
/// state; the state stays.
pub proof fn lost_stream_is_got_back(state: RadioState, ch: usize, num_channels: usize)
    ensures
        next_state(state, RadioInput::StreamEnded, num_channels) == state,
        actions_for(RadioState::Playing(ch), RadioInput::StreamEnded, num_channels) == seq![
            RadioAction::Reconnect(ch),
        ],
        !(state is Playing) ==> actions_for(state, RadioInput::StreamEnded, num_channels) == Seq::<
            RadioAction,
        >::empty(),
{
}

/// The start greets, forgets what the button has sent meanwhile, and then announces and plays
/// one and the same channel, the first.
pub proof fn start_greets_and_plays_the_first_channel()
    ensures
        startup_actions().len() == 4,
        startup_actions()[0] == RadioAction::Welcome,
        startup_actions()[1] == RadioAction::DrainButton,
        startup_actions()[2] == RadioAction::AnnounceChannel(0),
        startup_actions()[3] == RadioAction::StartChannel(0),
{
}

/// What is heard on entering a state: a browsed channel is spoken, over a ducked stream where
/// there is one; turning off stops the stream and says so; nothing else is heard.
pub proof fn entering_is_heard(playing: Option<usize>, browse: usize, ch: usize)
    ensures
        enter_actions(RadioState::Browsing { playing: Some(ch), browse }) == seq![
            RadioAction::Duck,
            RadioAction::SpeakChannel(browse),
        ],
        enter_actions(RadioState::Browsing { playing: None, browse }) == seq![
            RadioAction::SpeakChannel(browse),
        ],
        enter_actions(RadioState::Off) == seq![RadioAction::StopStream, RadioAction::SpeakOff],
        enter_actions(RadioState::Playing(ch)) == Seq::<RadioAction>::empty(),
{
}

/// A state is one of the radio if every channel that it names is there.
pub proof fn states_name_channels_that_are_there(
    num_channels: usize,
    ch: usize,
    browse: usize,
)
    ensures
        RadioState::Off.wf(num_channels),
        RadioState::Playing(ch).wf(num_channels) <==> ch < num_channels,
        (RadioState::Browsing { playing: None, browse }).wf(num_channels) <==> browse
            < num_channels,
        (RadioState::Browsing { playing: Some(ch), browse }).wf(num_channels) <==> browse
            < num_channels && ch < num_channels,
{
}

} // verus!
