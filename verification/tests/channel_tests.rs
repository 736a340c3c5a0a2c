use lego_radio::audio::AudioPipeline;
use lego_radio::channels::{
    audio_files, channel_list, AudioBank, Channel, ChannelEntry, RadioConfig, TtsEntry,
};
use lego_radio::tts::{announce_step, pcm_samples, plan_announcement, AnnounceStep, SAMPLE_RATE};
use lego_radio::button::ButtonEvent;

const RADIO_TOML: &str = r#"
output_dir = "audio"

[[channels]]
name = "YLE Klassinen"
url = "https://icecast.live.yle.fi/radio/YleKlassinen/icecast.audio"
text = "YLE Klassinen"
voice = "fi_FI-asmo-medium"
file = "yle_classical"

[[channels]]
name = "Groove Salad"
url = "http://ice1.somafm.com/groovesalad-128-mp3"
text = "Soma FM Groove Salad"
voice = "en_GB-alan-medium"
file = "groove_salad"

[[ui]]
text = "Hello!"
voice = "en_GB-alan-medium"
file = "hello"

[[ui]]
text = "Ready."
voice = "en_GB-alan-medium"
file = "ready"

[[ui]]
text = "Radio off"
voice = "en_GB-alan-medium"
file = "radio_off"

[[ui]]
text = "Off"
voice = "en_GB-alan-medium"
file = "off"
"#;

fn entries<'a>(config: &'a toml::Value, list: &str) -> Vec<&'a toml::Value> {
    config[list].as_array().unwrap().iter().collect()
}

fn field(entry: &toml::Value, name: &str) -> String {
    entry[name].as_str().unwrap().to_string()
}

fn config() -> RadioConfig {
    let value: toml::Value = toml::from_str(RADIO_TOML).unwrap();
    RadioConfig {
        output_dir: field(&value, "output_dir"),
        channels: entries(&value, "channels")
            .into_iter()
            .map(|c| ChannelEntry {
                name: field(c, "name"),
                url: field(c, "url"),
                text: field(c, "text"),
                file: field(c, "file"),
            })
            .collect(),
        ui: entries(&value, "ui")
            .into_iter()
            .map(|u| TtsEntry {
                text: field(u, "text"),
                file: field(u, "file"),
            })
            .collect(),
    }
}

fn channels() -> Vec<Channel> {
    channel_list(&config())
}

fn bank() -> AudioBank {
    let mut bank = AudioBank::new();
    for file in audio_files(&config()) {
        let data: Vec<u8> = file.path.bytes().cycle().take(400).collect();
        bank.add_recording(&file.phrase, data);
    }
    bank
}

#[test]
fn test_channels_not_empty() {
    assert!(!channels().is_empty(), "Must have at least one channel");
}

#[test]
fn test_channels_have_valid_urls() {
    for channel in channels() {
        assert!(
            channel.url.starts_with("http://") || channel.url.starts_with("https://"),
            "Channel '{}' has invalid URL: {}",
            channel.name,
            channel.url
        );
    }
}

#[test]
fn test_channels_have_names() {
    for channel in channels() {
        assert!(!channel.name.is_empty(), "Channel must have a name");
        assert!(!channel.tts_name.is_empty(), "Channel must have a TTS name");
    }
}

#[test]
fn test_tts_audio_exists_for_all_channels() {
    let bank = bank();
    for channel in channels() {
        assert!(
            bank.get_audio(&channel.tts_name).is_some(),
            "Missing TTS audio for channel: {}",
            channel.name
        );
    }
}

#[test]
fn test_all_phrases_from_toml() {
    let bank = bank();
    let mut count = 0;
    for line in RADIO_TOML.lines() {
        let line = line.trim();
        if let Some(text) = line.strip_prefix("text = \"") {
            let text = text.trim_end_matches('"');
            assert!(
                bank.get_audio(text).is_some(),
                "Missing audio for phrase: {:?}",
                text
            );
            count += 1;
        }
    }
    assert_eq!(count, 6);
}

#[test]
fn test_unknown_phrase_returns_none() {
    assert!(bank().get_audio("nonexistent phrase").is_none());
}

#[test]
fn test_audio_data_not_empty() {
    let bank = bank();
    for phrase in ["Hello!", "Ready.", "Radio off", "Off"] {
        let audio = bank.get_audio(phrase).unwrap();
        assert!(!audio.is_empty(), "Audio for '{}' is empty", phrase);
        assert!(
            audio.len() > 100,
            "Audio for '{}' suspiciously small: {} bytes",
            phrase,
            audio.len()
        );
    }
}

#[test]
fn test_pcm_to_f32_conversion() {
    let raw = [0xFF, 0x7F]; // 32767 in LE
    let samples: Vec<f32> = pcm_samples(&raw).iter().map(|&s| s as f32 / 32768.0).collect();
    assert!((samples[0] - 0.99997).abs() < 0.001);

    let raw = [0x00, 0x80]; // -32768 in LE
    let samples: Vec<f32> = pcm_samples(&raw).iter().map(|&s| s as f32 / 32768.0).collect();
    assert!((samples[0] - (-1.0)).abs() < 0.001);
}

#[test]
fn channel_list_keeps_the_order_of_the_configuration() {
    let channels = channels();
    assert_eq!(channels.len(), 2);
    assert_eq!(channels[0].name, "YLE Klassinen");
    assert_eq!(channels[0].tts_name, "YLE Klassinen");
    assert_eq!(
        channels[0].url,
        "https://icecast.live.yle.fi/radio/YleKlassinen/icecast.audio"
    );
    assert_eq!(channels[1].tts_name, "Soma FM Groove Salad");
}

#[test]
fn recordings_of_channels_come_before_the_others() {
    let files = audio_files(&config());
    assert_eq!(files.len(), 6);
    assert_eq!(files[0].phrase, "YLE Klassinen");
    assert_eq!(files[0].path, "audio/yle_classical.raw");
    assert_eq!(files[2].phrase, "Hello!");
    assert_eq!(files[2].path, "audio/hello.raw");
}

#[test]
fn first_of_two_recordings_counts() {
    let mut bank = AudioBank::new();
    assert!(bank.get_audio("Hello!").is_none());
    bank.add_recording("Hello!", vec![1, 2]);
    bank.add_recording("Hello!", vec![3, 4]);
    assert_eq!(bank.get_audio("Hello!"), Some(&[1u8, 2][..]));
}

#[test]
fn samples_are_little_endian_and_an_odd_byte_is_dropped() {
    assert_eq!(
        pcm_samples(&[0x34, 0x12, 0xFF, 0xFF, 0x00, 0x80, 0x7F]),
        vec![0x1234, -1, -32768]
    );
    assert!(pcm_samples(&[1]).is_empty());
}

#[test]
fn announcement_has_half_a_second_of_silence_in_front() {
    let plan = plan_announcement(Some(&[1, 0, 2, 0])).unwrap();
    assert_eq!(SAMPLE_RATE, 22050);
    assert_eq!(plan.gap, 11025);
    assert_eq!(plan.samples, vec![1, 2]);
    assert!(plan_announcement(None).is_none());
    assert!(plan_announcement(Some(&[])).is_none());
    assert!(plan_announcement(Some(&[1])).is_none());
}

#[test]
fn pipeline_announces_what_the_bank_holds() {
    let (pipeline, _) = AudioPipeline::new();
    let mut bank = AudioBank::new();
    bank.add_recording("Off", vec![5, 0]);
    assert_eq!(
        pipeline.announce_interruptible(&bank, "Off").unwrap().samples,
        vec![5]
    );
    assert_eq!(pipeline.announce(&bank, "Off").unwrap().samples, vec![5]);
    assert!(pipeline.announce(&bank, "On").is_none());
    bank.add_recording("Soma FM Groove Salad", vec![6, 0]);
    assert_eq!(
        pipeline
            .announce_channel(&bank, &channels(), 1)
            .unwrap()
            .samples,
        vec![6]
    );
    assert!(pipeline.announce_channel(&bank, &channels(), 0).is_none());
}

#[test]
fn announcement_is_interrupted_by_any_event() {
    assert_eq!(
        announce_step(true, Some(ButtonEvent::Down)),
        AnnounceStep::Finished
    );
    assert_eq!(
        announce_step(false, Some(ButtonEvent::Long)),
        AnnounceStep::Interrupted(ButtonEvent::Long)
    );
    assert_eq!(announce_step(false, None), AnnounceStep::Wait(50));
}
