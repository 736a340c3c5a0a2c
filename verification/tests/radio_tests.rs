use lego_radio::button::ButtonEvent;
use lego_radio::radio::{
    handle_state_enter, react, start_radio, RadioAction, RadioInput, RadioState, RADIO_OFF,
};

const N: usize = 4; // test with 4 channels

// ==================== Short press: Playing → Browsing ====================

#[test]
fn test_playing_short_press_enters_browsing() {
    let state = RadioState::Playing(0);
    assert_eq!(
        state.short_press(N),
        RadioState::Browsing {
            playing: Some(0),
            browse: 1
        }
    );
}

#[test]
fn test_playing_last_channel_short_press_wraps_to_zero() {
    let state = RadioState::Playing(3);
    assert_eq!(
        state.short_press(N),
        RadioState::Browsing {
            playing: Some(3),
            browse: 0
        }
    );
}

// ==================== Short press: Browsing advances ====================

#[test]
fn test_browsing_short_press_advances() {
    let state = RadioState::Browsing {
        playing: Some(0),
        browse: 1,
    };
    assert_eq!(
        state.short_press(N),
        RadioState::Browsing {
            playing: Some(0),
            browse: 2
        }
    );
}

#[test]
fn test_browsing_short_press_wraps_around() {
    let state = RadioState::Browsing {
        playing: Some(0),
        browse: 3,
    };
    assert_eq!(
        state.short_press(N),
        RadioState::Browsing {
            playing: Some(0),
            browse: 0
        }
    );
}

#[test]
fn test_browsing_preserves_playing_channel() {
    // Playing channel 2, browsing through channels
    let mut state = RadioState::Browsing {
        playing: Some(2),
        browse: 0,
    };
    state = state.short_press(N); // browse → 1
    state = state.short_press(N); // browse → 2
    state = state.short_press(N); // browse → 3
    assert_eq!(
        state,
        RadioState::Browsing {
            playing: Some(2),
            browse: 3
        }
    );
}

// ==================== Short press: Off → Browsing ====================

#[test]
fn test_off_short_press_enters_browsing_at_zero() {
    let state = RadioState::Off;
    assert_eq!(
        state.short_press(N),
        RadioState::Browsing {
            playing: None,
            browse: 0
        }
    );
}

// ==================== Commit ====================

#[test]
fn test_commit_switches_to_playing() {
    let state = RadioState::Browsing {
        playing: Some(0),
        browse: 2,
    };
    assert_eq!(state.commit(), RadioState::Playing(2));
}

#[test]
fn test_commit_same_channel_stays_playing() {
    let state = RadioState::Browsing {
        playing: Some(1),
        browse: 1,
    };
    assert_eq!(state.commit(), RadioState::Playing(1));
}

#[test]
fn test_commit_from_off_starts_playing() {
    let state = RadioState::Browsing {
        playing: None,
        browse: 3,
    };
    assert_eq!(state.commit(), RadioState::Playing(3));
}

#[test]
fn test_commit_non_browsing_is_noop() {
    assert_eq!(RadioState::Playing(0).commit(), RadioState::Playing(0));
    assert_eq!(RadioState::Off.commit(), RadioState::Off);
}

// ==================== Long press ====================

#[test]
fn test_long_press_from_playing() {
    assert_eq!(RadioState::Playing(2).long_press(), RadioState::Off);
}

#[test]
fn test_long_press_from_browsing() {
    let state = RadioState::Browsing {
        playing: Some(0),
        browse: 2,
    };
    assert_eq!(state.long_press(), RadioState::Off);
}

#[test]
fn test_long_press_from_off() {
    assert_eq!(RadioState::Off.long_press(), RadioState::Off);
}

// ==================== Full scenarios ====================

#[test]
fn test_scenario_browse_and_commit() {
    // Playing ch0, browse to ch2, commit
    let mut state = RadioState::Playing(0);
    state = state.short_press(N); // Browsing { playing: 0, browse: 1 }
    state = state.short_press(N); // Browsing { playing: 0, browse: 2 }
    state = state.commit(); // Playing(2)
    assert_eq!(state, RadioState::Playing(2));
}

#[test]
fn test_scenario_browse_full_circle_back_to_same() {
    // Playing ch1, browse all the way around back to ch1, commit
    let mut state = RadioState::Playing(1);
    state = state.short_press(N); // browse: 2
    state = state.short_press(N); // browse: 3
    state = state.short_press(N); // browse: 0
    state = state.short_press(N); // browse: 1 (back to playing)
    assert_eq!(
        state,
        RadioState::Browsing {
            playing: Some(1),
            browse: 1
        }
    );
    state = state.commit();
    assert_eq!(state, RadioState::Playing(1)); // same channel
}

#[test]
fn test_scenario_off_browse_commit() {
    // From Off, browse to ch2, commit
    let mut state = RadioState::Off;
    state = state.short_press(N); // Browsing { playing: None, browse: 0 }
    state = state.short_press(N); // browse: 1
    state = state.short_press(N); // browse: 2
    state = state.commit();
    assert_eq!(state, RadioState::Playing(2));
}

#[test]
fn test_scenario_browse_then_long_press() {
    // Playing ch0, start browsing, then long press → Off
    let mut state = RadioState::Playing(0);
    state = state.short_press(N); // Browsing
    state = state.short_press(N); // advance browse
    state = state.long_press(); // Off
    assert_eq!(state, RadioState::Off);
}

#[test]
fn test_scenario_single_channel_wraps() {
    // Only 1 channel: browse wraps to itself
    let state = RadioState::Playing(0);
    let state = state.short_press(1); // browse: (0+1)%1 = 0
    assert_eq!(
        state,
        RadioState::Browsing {
            playing: Some(0),
            browse: 0
        }
    );
}

// ==================== Turns of the main loop ====================

const SHORT: RadioInput = RadioInput::Pressed(ButtonEvent::Short);
const LONG: RadioInput = RadioInput::Pressed(ButtonEvent::Long);

fn startup() -> Vec<RadioAction> {
    vec![
        RadioAction::Welcome,
        RadioAction::DrainButton,
        RadioAction::AnnounceChannel(0),
        RadioAction::StartChannel(0),
    ]
}

#[test]
fn radio_starts_with_the_welcome_and_the_first_channel() {
    assert_eq!(start_radio(), (RadioState::Playing(0), startup()));
}

#[test]
fn short_press_while_playing_ducks_and_announces() {
    let (state, actions) = react(RadioState::Playing(0), SHORT, N);
    assert_eq!(
        state,
        RadioState::Browsing {
            playing: Some(0),
            browse: 1
        }
    );
    assert_eq!(
        actions,
        vec![RadioAction::Duck, RadioAction::SpeakChannel(1)]
    );
}

#[test]
fn long_press_turns_off_and_says_so() {
    for state in [
        RadioState::Playing(2),
        RadioState::Browsing {
            playing: Some(0),
            browse: 3,
        },
    ] {
        assert_eq!(
            react(state, LONG, N),
            (
                RadioState::Off,
                vec![RadioAction::StopStream, RadioAction::SpeakOff]
            )
        );
    }
    assert_eq!(react(RadioState::Off, LONG, N), (RadioState::Off, vec![]));
    assert_eq!(RADIO_OFF, "Radio off");
}

#[test]
fn short_press_while_off_starts_over() {
    assert_eq!(
        react(RadioState::Off, SHORT, N),
        (RadioState::Playing(0), startup())
    );
}

#[test]
fn committing_another_channel_switches_the_stream() {
    let state = RadioState::Browsing {
        playing: Some(0),
        browse: 2,
    };
    assert_eq!(
        react(state, RadioInput::Commit, N),
        (
            RadioState::Playing(2),
            vec![
                RadioAction::StopStream,
                RadioAction::Restore,
                RadioAction::StartChannel(2)
            ]
        )
    );
}

#[test]
fn committing_the_same_channel_only_restores_the_volume() {
    let mut state = RadioState::Playing(1);
    for _ in 0..N {
        let (next, actions) = react(state, SHORT, N);
        assert!(!actions.contains(&RadioAction::StopStream));
        state = next;
    }
    assert_eq!(
        react(state, RadioInput::Commit, N),
        (RadioState::Playing(1), vec![RadioAction::Restore])
    );
}

#[test]
fn lost_stream_is_reconnected_only_while_playing() {
    assert_eq!(
        react(RadioState::Playing(3), RadioInput::StreamEnded, N),
        (RadioState::Playing(3), vec![RadioAction::Reconnect(3)])
    );
    assert_eq!(
        react(RadioState::Off, RadioInput::StreamEnded, N),
        (RadioState::Off, vec![])
    );
}

#[test]
fn commit_outside_of_browsing_does_nothing() {
    assert_eq!(
        react(RadioState::Playing(1), RadioInput::Commit, N),
        (RadioState::Playing(1), vec![])
    );
}

#[test]
fn browsing_without_a_stream_does_not_duck() {
    assert_eq!(
        handle_state_enter(&RadioState::Browsing {
            playing: None,
            browse: 3
        }),
        vec![RadioAction::SpeakChannel(3)]
    );
    assert_eq!(handle_state_enter(&RadioState::Playing(0)), vec![]);
}
