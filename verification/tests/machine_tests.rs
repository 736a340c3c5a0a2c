use lego_radio::button::ButtonEvent;
use lego_radio::cli::{parse_args, CliCommand};
use lego_radio::gui::{load_sprite, window_event, window_size, GuiEvent, GuiResponse, Scene};
use lego_radio::listen::{
    begin_press, handle_button_press, received_while_off, wait_for_event, wait_for_tts_or_button,
    wait_while_off, while_listening, BrowseEvent, BrowseStep, BrowseWait, OffReceived, OffStep, PressFeedback, RadioEvent,
};
use lego_radio::radio::{
    after_browsing, after_off, after_playing, after_reconnect, waits_for, while_speaking_off,
    LoopStep, LoopWait, OffReaction, RadioInput, RadioState,
};
use lego_radio::reconnect::{
    handle_reconnect, Reconnect, ReconnectEvent, ReconnectPhase, RECONNECTING,
};
use lego_radio::system::{
    begin_system_volume, capped_volume, config_dir, config_path, control_name, install_service, set_system_volume,
    systemctl_args, uninstall_service, volume_command, ServiceStep, VolumeControl, VolumeStep,
    SERVICE_PATH, VOLUME_FAILED,
};
use lego_radio::welcome::{handle_welcome, WelcomeEvent, WelcomePhase};

// ==================== Waiting ====================

#[test]
fn press_begins_with_a_beep() {
    assert_eq!(begin_press(), vec![PressFeedback::StartBeep]);
}

#[test]
fn press_while_browsing_ends_the_wait_at_once() {
    assert_eq!(
        while_listening(Some(ButtonEvent::Down)),
        Some(BrowseEvent::ButtonDown)
    );
    assert_eq!(while_listening(Some(ButtonEvent::Short)), None);
    assert_eq!(while_listening(Some(ButtonEvent::Long)), None);
    assert_eq!(while_listening(None), None);
}

#[test]
fn press_ends_short_or_long() {
    assert!(handle_button_press(Some(ButtonEvent::Down)).is_none());
    assert_eq!(
        handle_button_press(Some(ButtonEvent::Short)),
        Some((
            ButtonEvent::Short,
            vec![PressFeedback::StopBeep, PressFeedback::ConfirmBeep]
        ))
    );
    assert_eq!(
        handle_button_press(Some(ButtonEvent::Long)),
        Some((
            ButtonEvent::Long,
            vec![
                PressFeedback::StopBeep,
                PressFeedback::DrainUntilQuiet(300)
            ]
        ))
    );
    assert_eq!(
        handle_button_press(None).map(|over| over.0),
        Some(ButtonEvent::Short)
    );
}

#[test]
fn button_counts_before_the_stream() {
    assert_eq!(
        wait_for_event(Some(ButtonEvent::Down), false),
        Some(RadioEvent::ButtonDown)
    );
    assert_eq!(
        wait_for_event(Some(ButtonEvent::Short), false),
        Some(RadioEvent::StreamEnded)
    );
    assert_eq!(wait_for_event(None, true), None);
}

#[test]
fn channel_is_committed_after_voice_and_grace() {
    assert_eq!(
        wait_for_tts_or_button(BrowseWait::Voice, true, 0),
        BrowseStep::Listen
    );
    assert_eq!(
        wait_for_tts_or_button(BrowseWait::Voice, false, 0),
        BrowseStep::BeginGrace
    );
    assert_eq!(
        wait_for_tts_or_button(BrowseWait::Grace, true, 499),
        BrowseStep::Listen
    );
    assert_eq!(
        wait_for_tts_or_button(BrowseWait::Grace, false, 500),
        BrowseStep::Commit
    );
}

#[test]
fn radio_that_is_off_waits_for_the_button() {
    assert_eq!(wait_while_off(true), OffStep::Listen);
    assert_eq!(wait_while_off(false), OffStep::Block);
    assert_eq!(
        received_while_off(Some(ButtonEvent::Down)),
        OffReceived::Press
    );
    assert_eq!(
        received_while_off(Some(ButtonEvent::Long)),
        OffReceived::Ignore
    );
    assert_eq!(received_while_off(None), OffReceived::Gone);
}

#[test]
fn press_while_radio_off_is_spoken_stops_the_voice() {
    assert_eq!(
        while_speaking_off(Some(ButtonEvent::Down)),
        OffReaction {
            stop_voice: true,
            step: LoopStep::HandlePress
        }
    );
    for received in [None, Some(ButtonEvent::Short), Some(ButtonEvent::Long)] {
        assert_eq!(
            while_speaking_off(received),
            OffReaction {
                stop_voice: false,
                step: LoopStep::Wait
            }
        );
    }
}

#[test]
fn waiting_leads_to_a_press_or_a_reaction() {
    assert_eq!(
        waits_for(&RadioState::Playing(0)),
        LoopWait::PressOrStreamEnd
    );
    assert_eq!(
        waits_for(&RadioState::Browsing {
            playing: None,
            browse: 0
        }),
        LoopWait::PressOrCommit
    );
    assert_eq!(waits_for(&RadioState::Off), LoopWait::Press);
    assert_eq!(after_playing(RadioEvent::ButtonDown), LoopStep::HandlePress);
    assert_eq!(
        after_playing(RadioEvent::StreamEnded),
        LoopStep::React(RadioInput::StreamEnded)
    );
    assert_eq!(
        after_browsing(BrowseEvent::Commit),
        LoopStep::React(RadioInput::Commit)
    );
    assert_eq!(
        after_browsing(BrowseEvent::ButtonDown),
        LoopStep::HandlePress
    );
    assert_eq!(after_off(OffReceived::Press), LoopStep::HandlePress);
    assert_eq!(after_off(OffReceived::Ignore), LoopStep::Wait);
    assert_eq!(after_off(OffReceived::Gone), LoopStep::Wait);
    assert_eq!(
        after_reconnect(ReconnectPhase::PressBegun),
        LoopStep::HandlePress
    );
    assert_eq!(after_reconnect(ReconnectPhase::Reconnected), LoopStep::Wait);
}

// ==================== Reconnecting ====================

fn fail_once(mut reconnect: Reconnect) -> Reconnect {
    if reconnect.phase == ReconnectPhase::Announcing {
        reconnect = handle_reconnect(reconnect, ReconnectEvent::Announced(None));
    }
    reconnect = handle_reconnect(
        reconnect,
        ReconnectEvent::Paused(reconnect.wait_secs * 1000),
    );
    assert_eq!(reconnect.phase, ReconnectPhase::Connecting);
    handle_reconnect(reconnect, ReconnectEvent::Connected(false))
}

#[test]
fn pauses_double_up_to_a_minute() {
    let mut reconnect = Reconnect::first();
    let mut pauses = Vec::new();
    let mut announced = Vec::new();
    for _ in 0..7 {
        pauses.push(reconnect.wait_secs);
        announced.push(reconnect.phase == ReconnectPhase::Announcing);
        reconnect = fail_once(reconnect);
    }
    assert_eq!(pauses, vec![2, 4, 8, 16, 32, 60, 60]);
    assert_eq!(
        announced,
        vec![false, false, false, true, true, true, true]
    );
    assert_eq!(RECONNECTING, "Connection lost. Reconnecting.");
}

#[test]
fn press_ends_reconnecting() {
    let listening = handle_reconnect(Reconnect::first(), ReconnectEvent::Paused(1999));
    assert_eq!(listening.phase, ReconnectPhase::Listening);
    let over = handle_reconnect(
        listening,
        ReconnectEvent::Received(Some(ButtonEvent::Down)),
    );
    assert_eq!(over.phase, ReconnectPhase::PressBegun);
    let on = handle_reconnect(
        listening,
        ReconnectEvent::Received(Some(ButtonEvent::Short)),
    );
    assert_eq!(on.phase, ReconnectPhase::Pausing);

    let mut announcing = Reconnect::first();
    for _ in 0..3 {
        announcing = fail_once(announcing);
    }
    let over = handle_reconnect(
        announcing,
        ReconnectEvent::Announced(Some(ButtonEvent::Down)),
    );
    assert_eq!(over.phase, ReconnectPhase::PressBegun);
    let on = handle_reconnect(
        announcing,
        ReconnectEvent::Announced(Some(ButtonEvent::Long)),
    );
    assert_eq!(on.phase, ReconnectPhase::Pausing);
}

#[test]
fn connection_ends_reconnecting() {
    let connecting = handle_reconnect(Reconnect::first(), ReconnectEvent::Paused(2000));
    let over = handle_reconnect(connecting, ReconnectEvent::Connected(true));
    assert_eq!(over.phase, ReconnectPhase::Reconnected);
    assert_eq!(handle_reconnect(over, ReconnectEvent::Connected(false)), over);
}

// ==================== Welcome ====================

fn spoken(events: &[WelcomeEvent]) -> (Vec<&'static str>, WelcomePhase) {
    let mut phase = WelcomePhase::Greeting;
    let mut phrases = Vec::new();
    let mut events = events.iter();
    loop {
        let event = match phase.phrase() {
            Some(phrase) => {
                phrases.push(phrase);
                WelcomeEvent::Announced
            }
            None => match events.next() {
                Some(event) => *event,
                None => break,
            },
        };
        phase = handle_welcome(phase, event);
    }
    (phrases, phase)
}

#[test]
fn welcome_without_an_update() {
    assert_eq!(
        spoken(&[WelcomeEvent::Checked(false)]),
        (
            vec!["Hello!", "Checking for updates.", "Up to date."],
            WelcomePhase::Over
        )
    );
}

#[test]
fn welcome_with_an_update() {
    assert_eq!(
        spoken(&[WelcomeEvent::Checked(true), WelcomeEvent::Installed(true)]),
        (
            vec![
                "Hello!",
                "Checking for updates.",
                "Update found. Installing.",
                "Update complete. Restarting."
            ],
            WelcomePhase::Restarting
        )
    );
    assert_eq!(
        spoken(&[WelcomeEvent::Checked(true), WelcomeEvent::Installed(false)]),
        (
            vec![
                "Hello!",
                "Checking for updates.",
                "Update found. Installing.",
                "Update failed."
            ],
            WelcomePhase::Over
        )
    );
}

// ==================== Window ====================

#[test]
fn sprite_is_taken_apart() {
    let data = [2, 0, 0, 0, 0, 1, 0, 0, 7, 8, 9];
    assert_eq!(load_sprite(&data), (2, 256, &[7u8, 8, 9][..]));
    assert_eq!(window_size(104, 99), (144, 139));
}

#[test]
fn release_counts_only_after_a_press() {
    let up = window_event(false, GuiEvent::LeftButton { pressed: false });
    assert_eq!(
        up,
        GuiResponse {
            is_down: false,
            pressed: None,
            redraw: true,
            exit: false
        }
    );
    let down = window_event(false, GuiEvent::LeftButton { pressed: true });
    assert_eq!((down.is_down, down.pressed, down.redraw), (true, Some(true), true));
    let up = window_event(true, GuiEvent::LeftButton { pressed: false });
    assert_eq!((up.is_down, up.pressed, up.redraw), (false, Some(false), true));
    assert!(window_event(true, GuiEvent::RedrawRequested).redraw);
    assert!(window_event(true, GuiEvent::CloseRequested).exit);
    let other = window_event(true, GuiEvent::Other);
    assert!(other.is_down && !other.redraw && !other.exit);
}

fn scene(pixels: &[u8]) -> Vec<u32> {
    let maps = [0u32, 0, 1, 9];
    Scene {
        width: 6,
        height: 6,
        scaled_w: 4,
        scaled_h: 4,
        sprite_w: 2,
        sprite_h: 2,
        pixels,
        columns: &maps,
        rows: &maps,
    }
    .draw()
}

#[test]
fn button_is_drawn_in_the_middle() {
    let buffer = scene(&[0; 16]);
    assert_eq!(buffer.len(), 36);
    let red = (200 << 16) | (30 << 8) | 30;
    let at = |x: usize, y: usize| buffer[y * 6 + x];
    assert_eq!(at(0, 0), 0xFF2D2D2D);
    assert_eq!(at(3, 3), red);
    assert_eq!(at(1, 3), red);
    assert_eq!(at(5, 3), red);
    assert_eq!(at(1, 1), 0xFF2D2D2D);
    assert_eq!(at(0, 3), 0xFF2D2D2D);
}

#[test]
fn sprite_is_blended_over_the_button() {
    let pixels = [
        0, 0, 0, 128, 10, 20, 30, 255, // first row
        0, 0, 0, 0, 1, 2, 3, 0, // second row
    ];
    let buffer = scene(&pixels);
    let at = |x: usize, y: usize| buffer[y * 6 + x];
    let half = |c: u32| (c * 127) / 255;
    assert_eq!(
        at(2, 2),
        (half(200) << 16) | (half(30) << 8) | half(30)
    );
    assert_eq!(
        at(1, 1),
        (half(0x2D) << 16) | (half(0x2D) << 8) | half(0x2D)
    );
    assert_eq!(at(3, 2), (10 << 16) | (20 << 8) | 30);
    assert_eq!(at(4, 2), (10 << 16) | (20 << 8) | 30);
    assert_eq!(at(3, 3), (200 << 16) | (30 << 8) | 30);
}

#[test]
fn missing_pixels_are_not_drawn() {
    let full = scene(&[0; 16]);
    assert_eq!(scene(&[]), full);
    assert_eq!(scene(&[9, 9, 9]), full);
}

// ==================== Command line ====================

fn args(words: &[&str]) -> Vec<String> {
    std::iter::once("lego-radio")
        .chain(words.iter().copied())
        .map(|w| w.to_string())
        .collect()
}

#[test]
fn options_are_recognized() {
    assert!(matches!(parse_args(&args(&["--version"])), CliCommand::Version));
    assert!(matches!(parse_args(&args(&["-v"])), CliCommand::Version));
    assert!(matches!(parse_args(&args(&["--help"])), CliCommand::Help));
    assert!(matches!(parse_args(&args(&["-h"])), CliCommand::Help));
    assert!(matches!(parse_args(&args(&["--install"])), CliCommand::Install));
    assert!(matches!(parse_args(&args(&["--uninstall"])), CliCommand::Uninstall));
    assert!(matches!(parse_args(&args(&["--update"])), CliCommand::Update));
    assert!(matches!(parse_args(&args(&["--test-tts"])), CliCommand::TestTts));
    assert!(matches!(parse_args(&args(&[])), CliCommand::Run));
    assert!(matches!(parse_args(&[]), CliCommand::Run));
    assert!(matches!(parse_args(&args(&["--Version"])), CliCommand::Run));
}

#[test]
fn options_take_their_argument() {
    assert!(matches!(
        parse_args(&args(&["--test-stream"])),
        CliCommand::TestStream(None)
    ));
    match parse_args(&args(&["--test-stream", "http://radio"])) {
        CliCommand::TestStream(Some(url)) => assert_eq!(url, "http://radio"),
        other => panic!("{:?}", other),
    }
    let volume = |words: &[&str]| match parse_args(&args(words)) {
        CliCommand::SetVolume(volume) => volume,
        other => panic!("{:?}", other),
    };
    assert_eq!(volume(&["--set-volume", "42"]), 42);
    assert_eq!(volume(&["--set-volume", "255"]), 255);
    assert_eq!(volume(&["--set-volume", "256"]), 80);
    assert_eq!(volume(&["--set-volume", "loud"]), 80);
    assert_eq!(volume(&["--set-volume"]), 80);
}

// ==================== System ====================

#[test]
fn volume_is_tried_with_one_control_after_the_other() {
    assert_eq!(
        volume_command(VolumeControl::AlsaMaster, 42),
        vec!["amixer", "sset", "Master", "42%"]
    );
    assert_eq!(
        volume_command(VolumeControl::AlsaDigital, 0),
        vec!["amixer", "sset", "Digital", "0%"]
    );
    assert_eq!(
        volume_command(VolumeControl::Pulse, 200),
        vec!["pactl", "set-sink-volume", "@DEFAULT_SINK@", "100%"]
    );
    assert_eq!(capped_volume(101), 100);
    assert_eq!(capped_volume(7), 7);
    let mut step = begin_system_volume();
    assert_eq!(step, VolumeStep::Try(VolumeControl::AlsaMaster));
    let mut tried = Vec::new();
    while let VolumeStep::Try(control) = step {
        tried.push(control_name(control));
        step = set_system_volume(control, false);
    }
    assert_eq!(
        tried,
        vec!["ALSA Master", "ALSA Digital", "PipeWire/PulseAudio"]
    );
    assert_eq!(step, VolumeStep::Failed);
    assert_eq!(
        VOLUME_FAILED,
        "Failed to set volume. No working audio control found."
    );
    assert_eq!(
        set_system_volume(VolumeControl::AlsaDigital, true),
        VolumeStep::Done(VolumeControl::AlsaDigital)
    );
}

fn commands(steps: &[ServiceStep]) -> Vec<String> {
    steps
        .iter()
        .map(|step| match systemctl_args(*step) {
            Some(words) => words.join(" "),
            None => format!("{:?}", step),
        })
        .collect()
}

#[test]
fn service_is_installed_and_removed_in_order() {
    assert_eq!(
        commands(&install_service()),
        vec!["WriteUnit", "daemon-reload", "enable lego-radio", "start lego-radio"]
    );
    assert_eq!(
        commands(&uninstall_service(true)),
        vec!["stop lego-radio", "disable lego-radio", "RemoveUnit", "daemon-reload"]
    );
    assert_eq!(
        commands(&uninstall_service(false)),
        vec!["stop lego-radio", "disable lego-radio", "daemon-reload"]
    );
    assert_eq!(SERVICE_PATH, "/etc/systemd/system/lego-radio.service");
}

#[test]
fn configuration_lies_where_the_system_has_it() {
    assert_eq!(config_dir(true), "/etc/lego-radio");
    assert_eq!(config_path(true), "/etc/lego-radio/config.json");
    assert_eq!(config_path(false), "./config.json");
}
