use lego_radio::audio::{
    tone_len, tone_sample, AudioCommand, AudioPipeline, Envelope, SinkName, Tone, ToneSample,
    BEEP_VOLUME, DUCK_VOLUME, VOLUME,
};
use lego_radio::channels::Channel;
use lego_radio::stream::{
    source_kind, stream_loop, PacketRead, SourceKind, StreamEvent, StreamPhase, StreamSession,
    Track,
};

fn stop_stream() -> Vec<AudioCommand<'static>> {
    vec![
        AudioCommand::Clear(SinkName::Stream),
        AudioCommand::Play(SinkName::Stream),
    ]
}

fn stop_rest() -> Vec<AudioCommand<'static>> {
    vec![
        AudioCommand::Clear(SinkName::Voice),
        AudioCommand::Play(SinkName::Voice),
        AudioCommand::Clear(SinkName::Beep),
        AudioCommand::Play(SinkName::Beep),
    ]
}

fn concat<'a>(lists: Vec<Vec<AudioCommand<'a>>>) -> Vec<AudioCommand<'a>> {
    lists.into_iter().flatten().collect()
}

#[test]
fn test_volume_constant_in_range() {
    let volume = f32::from(VOLUME) / 100.0;
    assert!(volume >= 0.0);
    assert!(volume <= 1.0);
}

#[test]
fn test_audio_pipeline_creation() {
    let (pipeline, commands) = AudioPipeline::new();
    assert_eq!(pipeline.epoch(), 0);
    assert!(!pipeline.is_stream_active(false));
    assert_eq!(
        commands,
        vec![
            AudioCommand::SetVolume(SinkName::Stream, 100),
            AudioCommand::SetVolume(SinkName::Voice, 100),
            AudioCommand::SetVolume(SinkName::Beep, 30),
        ]
    );
}

#[test]
fn volumes_are_those_of_the_manual() {
    assert_eq!(VOLUME, 100);
    assert_eq!(BEEP_VOLUME, 30);
    assert_eq!(DUCK_VOLUME, 20);
    let (pipeline, _) = AudioPipeline::new();
    assert_eq!(
        pipeline.duck_stream(),
        AudioCommand::SetVolume(SinkName::Stream, 20)
    );
    assert_eq!(
        pipeline.restore_stream(),
        AudioCommand::SetVolume(SinkName::Stream, 100)
    );
}

#[test]
fn stopping_the_stream_spares_voice_and_beeps() {
    let (mut pipeline, _) = AudioPipeline::new();
    assert_eq!(pipeline.stop_stream(), stop_stream());
    assert_eq!(
        pipeline.connect_and_play("http://radio"),
        concat(vec![
            stop_stream(),
            vec![AudioCommand::StartThread {
                epoch: 2,
                url: "http://radio"
            }]
        ])
    );
    assert!(pipeline.is_stream_active(false));
    assert!(!pipeline.is_stream_active(true));
    assert_eq!(
        pipeline.stop_stream(),
        concat(vec![vec![AudioCommand::StopThread], stop_stream()])
    );
    assert!(!pipeline.is_stream_active(false));
}

#[test]
fn every_stop_and_start_begins_a_new_epoch() {
    let (mut pipeline, _) = AudioPipeline::new();
    let mut seen = vec![pipeline.epoch()];
    for i in 0..6 {
        if i % 2 == 0 {
            pipeline.connect_and_play("http://radio");
        } else {
            pipeline.stop_stream();
        }
        assert_eq!(pipeline.is_stream_active(false), i % 2 == 0);
        assert!(!seen.contains(&pipeline.epoch()));
        seen.push(pipeline.epoch());
    }
}

#[test]
fn failed_connection_stops_everything() {
    for report in [Some(false), None] {
        let (mut pipeline, _) = AudioPipeline::new();
        pipeline.connect_and_play("http://radio");
        assert_eq!(
            pipeline.connected(report),
            (
                false,
                concat(vec![vec![AudioCommand::StopThread], stop_stream(), stop_rest()])
            )
        );
        assert!(!pipeline.is_stream_active(false));
    }
    let (mut pipeline, _) = AudioPipeline::new();
    pipeline.connect_and_play("http://radio");
    assert_eq!(pipeline.connected(Some(true)), (true, vec![]));
    assert!(pipeline.is_stream_active(false));
    assert_eq!(
        pipeline.stop(),
        concat(vec![vec![AudioCommand::StopThread], stop_stream(), stop_rest()])
    );
}

#[test]
fn voice_plays_until_its_sink_is_empty() {
    let (pipeline, _) = AudioPipeline::new();
    assert!(pipeline.is_voice_playing(false));
    assert!(!pipeline.is_voice_playing(true));
    assert_eq!(pipeline.stop_voice(), AudioCommand::Clear(SinkName::Voice));
    assert_eq!(
        pipeline.play_announcement(),
        vec![
            AudioCommand::Clear(SinkName::Voice),
            AudioCommand::AppendAnnouncement(SinkName::Voice),
            AudioCommand::Play(SinkName::Voice),
        ]
    );
}

#[test]
fn beeps_answer_the_button() {
    let (pipeline, _) = AudioPipeline::new();
    assert_eq!(
        pipeline.start_beep(),
        vec![
            AudioCommand::Sustain(SinkName::Beep, Tone::Held),
            AudioCommand::Play(SinkName::Beep)
        ]
    );
    assert_eq!(
        pipeline.stop_beep(),
        vec![
            AudioCommand::Clear(SinkName::Beep),
            AudioCommand::Append(SinkName::Beep, Tone::Release),
            AudioCommand::Play(SinkName::Beep),
            AudioCommand::WaitUntilEnd(SinkName::Beep),
        ]
    );
    assert_eq!(
        pipeline.confirm_beep(),
        vec![
            AudioCommand::Append(SinkName::Beep, Tone::Confirm),
            AudioCommand::Play(SinkName::Beep),
            AudioCommand::WaitUntilEnd(SinkName::Beep),
        ]
    );
}

fn sample(centihertz: u32, index: u32, envelope: Envelope) -> Option<ToneSample> {
    Some(ToneSample {
        centihertz,
        index,
        envelope,
    })
}

#[test]
fn tones_have_their_lengths() {
    assert_eq!(tone_len(Tone::Held), None);
    assert_eq!(tone_len(Tone::Release), Some(661));
    assert_eq!(tone_len(Tone::Confirm), Some(6174));
}

#[test]
fn held_beep_goes_on_as_long_as_the_button_is_held() {
    assert_eq!(
        tone_sample(Tone::Held, 44099),
        sample(88000, 44099, Envelope::Full)
    );
    assert_eq!(
        tone_sample(Tone::Held, 44100),
        sample(88000, 0, Envelope::Full)
    );
    // Ten seconds and a bit.
    assert_eq!(
        tone_sample(Tone::Held, 441007),
        sample(88000, 7, Envelope::Full)
    );
    assert!(tone_sample(Tone::Held, u64::MAX).is_some());
}

#[test]
fn channel_starts_the_stream_at_its_address() {
    let channels: Vec<Channel> = ["http://a", "http://b"]
        .iter()
        .map(|url| Channel {
            name: "name".to_string(),
            tts_name: "text".to_string(),
            url: url.to_string(),
        })
        .collect();
    let (mut pipeline, _) = AudioPipeline::new();
    assert_eq!(
        pipeline.start_channel(&channels, 1).last(),
        Some(&AudioCommand::StartThread {
            epoch: 1,
            url: "http://b"
        })
    );
    assert_eq!(
        pipeline.start_channel(&channels, 0),
        concat(vec![
            vec![
                AudioCommand::SetVolume(SinkName::Stream, 100),
                AudioCommand::StopThread
            ],
            stop_stream(),
            vec![AudioCommand::StartThread {
                epoch: 2,
                url: "http://a"
            }]
        ])
    );
}

#[test]
fn tones_swell_and_die_away() {
    assert_eq!(
        tone_sample(Tone::Held, 0),
        sample(88000, 0, Envelope::Fraction { part: 0, whole: 2205 })
    );
    assert_eq!(
        tone_sample(Tone::Held, 2204),
        sample(88000, 2204, Envelope::Fraction { part: 2204, whole: 2205 })
    );
    assert_eq!(
        tone_sample(Tone::Held, 2205),
        sample(88000, 2205, Envelope::Full)
    );
    assert_eq!(
        tone_sample(Tone::Release, 660),
        sample(88000, 660, Envelope::Remainder { part: 660, whole: 661 })
    );
    assert_eq!(
        tone_sample(Tone::Confirm, 329),
        sample(88000, 329, Envelope::Fraction { part: 329, whole: 330 })
    );
    assert_eq!(
        tone_sample(Tone::Confirm, 2315),
        sample(88000, 2315, Envelope::Full)
    );
    assert_eq!(
        tone_sample(Tone::Confirm, 2316),
        sample(88000, 2316, Envelope::Fraction { part: 330, whole: 330 })
    );
    assert_eq!(tone_sample(Tone::Confirm, 2646), None);
    assert_eq!(tone_sample(Tone::Confirm, 3527), None);
    assert_eq!(
        tone_sample(Tone::Confirm, 6173),
        sample(110873, 2645, Envelope::Fraction { part: 1, whole: 330 })
    );
}

// ==================== Streams ====================

fn run(events: &[StreamEvent]) -> (StreamSession, Vec<(Option<bool>, bool, bool)>) {
    let mut session = StreamSession::new(7);
    let mut outputs = Vec::new();
    for event in events {
        let (next, output) = stream_loop(session, *event);
        session = next;
        outputs.push((output.connected, output.append, output.play));
    }
    (session, outputs)
}

fn decoding() -> Vec<StreamEvent> {
    vec![
        StreamEvent::Opened(true),
        StreamEvent::FirstData(true),
        StreamEvent::Probed(true),
        StreamEvent::Selected(Some(Track {
            id: 3,
            sample_rate: None,
            channels: None,
        })),
        StreamEvent::DecoderMade(true),
        StreamEvent::StopFlag(false),
        StreamEvent::Read(PacketRead::Packet(3)),
    ]
}

#[test]
fn playlists_are_told_by_their_address() {
    assert_eq!(source_kind("https://a/b.m3u8?x=1"), SourceKind::Hls);
    assert_eq!(source_kind("https://a/b.mp3"), SourceKind::Direct);
}

#[test]
fn headers_alone_are_no_connection() {
    let (session, outputs) = run(&[StreamEvent::Opened(true)]);
    assert_eq!(session.phase, StreamPhase::Receiving);
    assert_eq!(outputs, vec![(None, false, false)]);
    let (session, outputs) = run(&[StreamEvent::Opened(true), StreamEvent::FirstData(false)]);
    assert_eq!(session.phase, StreamPhase::Ended);
    assert_eq!(outputs[1], (Some(false), false, false));
}

#[test]
fn first_samples_start_the_sink() {
    let mut events = decoding();
    events.push(StreamEvent::Decoded { ok: true, epoch: 7 });
    events.push(StreamEvent::StopFlag(false));
    events.push(StreamEvent::Read(PacketRead::Packet(3)));
    events.push(StreamEvent::Decoded { ok: true, epoch: 7 });
    let (session, outputs) = run(&events);
    assert_eq!(outputs[0], (None, false, false));
    assert_eq!(outputs[1], (Some(true), false, false));
    assert_eq!(outputs[2], (None, false, false));
    assert_eq!(outputs[7], (None, true, true));
    assert_eq!(outputs[10], (None, true, false));
    assert_eq!(session.phase, StreamPhase::Checking);
    assert_eq!(session.sample_rate, 44100);
    assert_eq!(session.channels, 2);
}

#[test]
fn track_parameters_are_taken_over() {
    let mut events = decoding();
    events[3] = StreamEvent::Selected(Some(Track {
        id: 3,
        sample_rate: Some(48000),
        channels: Some(1),
    }));
    let (session, _) = run(&events);
    assert_eq!(session.phase, StreamPhase::Decoding);
    assert_eq!(session.sample_rate, 48000);
    assert_eq!(session.channels, 1);
}

#[test]
fn packet_that_cannot_be_decoded_is_skipped() {
    let mut events = decoding();
    events.push(StreamEvent::Decoded { ok: false, epoch: 7 });
    let (session, outputs) = run(&events);
    assert_eq!(session.phase, StreamPhase::Checking);
    assert!(!session.started);
    assert_eq!(outputs[7], (None, false, false));
}

#[test]
fn packet_of_another_track_is_skipped() {
    let mut events = decoding();
    events[6] = StreamEvent::Read(PacketRead::Packet(4));
    assert_eq!(run(&events).0.phase, StreamPhase::Checking);
}

#[test]
fn stale_samples_are_not_heard() {
    let mut events = decoding();
    events.push(StreamEvent::Decoded { ok: true, epoch: 8 });
    let (session, outputs) = run(&events);
    assert_eq!(session.phase, StreamPhase::Ended);
    assert_eq!(outputs[7], (None, false, false));
}

#[test]
fn stream_ends_on_every_failure() {
    assert_eq!(
        run(&[StreamEvent::Opened(false)]),
        (
            StreamSession {
                phase: StreamPhase::Ended,
                ..StreamSession::new(7)
            },
            vec![(Some(false), false, false)]
        )
    );
    let failures = [
        (1, StreamEvent::FirstData(false)),
        (2, StreamEvent::Probed(false)),
        (3, StreamEvent::Selected(None)),
        (4, StreamEvent::DecoderMade(false)),
        (5, StreamEvent::StopFlag(true)),
        (6, StreamEvent::Read(PacketRead::Interrupted)),
        (6, StreamEvent::Read(PacketRead::EndOfStream)),
        (6, StreamEvent::Read(PacketRead::Failed)),
    ];
    for (at, failure) in failures {
        let mut events = decoding();
        events.truncate(at);
        events.push(failure);
        assert_eq!(run(&events).0.phase, StreamPhase::Ended);
    }
}
