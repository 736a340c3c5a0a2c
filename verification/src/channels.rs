//! The channels of the radio and the recorded phrases that announce them.
use crate::text::{join, same_text};
use vstd::prelude::*;

verus! {

broadcast use vstd::string::group_string_axioms;

/// Radio channel definition.
#[derive(Debug, Clone)]
pub struct Channel {
    pub name: String,
    /// What the announcement says.
    pub tts_name: String,
    pub url: String,
}

/// A channel as the configuration lists it.
#[derive(Debug)]
pub struct ChannelEntry {
    pub name: String,
    pub url: String,
    /// The phrase that announces the channel.
    pub text: String,
    /// Name of the recording, without directory and ending.
    pub file: String,
}

/// Another phrase that the radio speaks.
#[derive(Debug)]
pub struct TtsEntry {
    pub text: String,
    pub file: String,
}

/// The configuration of the radio.
#[derive(Debug)]
pub struct RadioConfig {
    /// Directory of the recordings.
    pub output_dir: String,
    pub channels: Vec<ChannelEntry>,
    pub ui: Vec<TtsEntry>,
}

/// The contents of a [`Channel`].
pub struct ChannelView {
    pub name: Seq<char>,
    pub tts_name: Seq<char>,
    pub url: Seq<char>,
}

impl View for Channel {
    type V = ChannelView;

    open spec fn view(&self) -> ChannelView {
        ChannelView { name: self.name@, tts_name: self.tts_name@, url: self.url@ }
    }
}

pub open spec fn channel_views(channels: Seq<Channel>) -> Seq<ChannelView> {
    channels.map_values(|c: Channel| c@)
}

/// The channels of a configuration, in its order.
pub open spec fn configured_channels(config: RadioConfig) -> Seq<ChannelView> {
    config.channels@.map_values(
        |c: ChannelEntry| ChannelView { name: c.name@, tts_name: c.text@, url: c.url@ },
    )
}

/// The list of channels.
pub fn channel_list(config: &RadioConfig) -> (channels: Vec<Channel>)
    ensures
        channel_views(channels@) == configured_channels(*config),
{
    let mut channels: Vec<Channel> = Vec::new();
    let mut i: usize = 0;
    while i < config.channels.len()
        invariant
            i <= config.channels@.len(),
            channel_views(channels@) =~= configured_channels(*config).take(i as int),
        decreases config.channels@.len() - i,
    {
        let entry = &config.channels[i];
        let ghost before = channels@;
        channels.push(
            Channel {
                name: entry.name.clone(),
                tts_name: entry.text.clone(),
                url: entry.url.clone(),
            },
        );
        assert(channel_views(channels@) =~= channel_views(before).push(
            configured_channels(*config)[i as int],
        ));
        i += 1;
    }
    channels
}

/// A phrase and the path of its recording.
#[derive(Debug)]
pub struct AudioFile {
    pub phrase: String,
    pub path: String,
}

/// Phrase and path of an [`AudioFile`].
pub open spec fn file_views(files: Seq<AudioFile>) -> Seq<(Seq<char>, Seq<char>)> {
    files.map_values(|f: AudioFile| (f.phrase@, f.path@))
}

pub open spec fn recording_path(output_dir: Seq<char>, file: Seq<char>) -> Seq<char> {
    output_dir + "/"@ + file + ".raw"@
}

fn path_of(output_dir: &str, file: &str) -> (path: String)
    ensures
        path@ == recording_path(output_dir@, file@),
{
    let dir = join(output_dir, "/");
    let stem = join(dir.as_str(), file);
    join(stem.as_str(), ".raw")
}

/// The recordings that a configuration names: those of the channels, then the others.
pub open spec fn configured_files(config: RadioConfig) -> Seq<(Seq<char>, Seq<char>)> {
    config.channels@.map_values(
        |c: ChannelEntry| (c.text@, recording_path(config.output_dir@, c.file@)),
    ) + config.ui@.map_values(|u: TtsEntry| (u.text@, recording_path(config.output_dir@, u.file@)))
}

/// The list of recordings.
pub fn audio_files(config: &RadioConfig) -> (files: Vec<AudioFile>)
    ensures
        file_views(files@) == configured_files(*config),
{
    let mut files: Vec<AudioFile> = Vec::new();
    let mut i: usize = 0;
    while i < config.channels.len()
        invariant
            i <= config.channels@.len(),
            file_views(files@) =~= configured_files(*config).take(i as int),
        decreases config.channels@.len() - i,
    {
        let entry = &config.channels[i];
        let ghost before = files@;
        files.push(
            AudioFile {
                phrase: entry.text.clone(),
                path: path_of(config.output_dir.as_str(), entry.file.as_str()),
            },
        );
        assert(file_views(files@) =~= file_views(before).push(
            configured_files(*config)[i as int],
        ));
        i += 1;
    }
    let count: usize = i;
    let mut j: usize = 0;
    while j < config.ui.len()
        invariant
            count == config.channels@.len(),
            j <= config.ui@.len(),
            file_views(files@) =~= configured_files(*config).take(count + j),
        decreases config.ui@.len() - j,
    {
        let entry = &config.ui[j];
        let ghost before = files@;
        files.push(
            AudioFile {
                phrase: entry.text.clone(),
                path: path_of(config.output_dir.as_str(), entry.file.as_str()),
            },
        );
        assert(file_views(files@) =~= file_views(before).push(
            configured_files(*config)[count + j],
        ));
        j += 1;
    }
    files
}

// ---------------------------------------------------------------------------
// Recordings
// ---------------------------------------------------------------------------

/// A recorded phrase.
pub struct Recording {
    pub phrase: String,
    /// 16-bit signed little-endian samples.
    pub data: Vec<u8>,
}

/// The recordings that the radio can play.
pub struct AudioBank {
    recordings: Vec<Recording>,
}

impl View for AudioBank {
    type V = Seq<(Seq<char>, Seq<u8>)>;

    closed spec fn view(&self) -> Seq<(Seq<char>, Seq<u8>)> {
        self.recordings@.map_values(|r: Recording| (r.phrase@, r.data@))
    }
}

/// The recording of a phrase: the first one where there are several.
pub open spec fn recording_of(bank: Seq<(Seq<char>, Seq<u8>)>, phrase: Seq<char>) -> Option<Seq<u8>>
    decreases bank.len(),
{
    if bank.len() == 0 {
        None
    } else if bank[0].0 == phrase {
        Some(bank[0].1)
    } else {
        recording_of(bank.drop_first(), phrase)
    }
}

impl AudioBank {
    pub fn new() -> (bank: AudioBank)
        ensures
            bank@ == Seq::<(Seq<char>, Seq<u8>)>::empty(),
    {
        let bank = AudioBank { recordings: Vec::new() };
        assert(bank@ =~= Seq::empty());
        bank
    }

    /// Adds a recording behind those that are there.
    pub fn add_recording(&mut self, phrase: &str, data: Vec<u8>)
        ensures
            final(self)@ == old(self)@.push((phrase@, data@)),
    {
        self.recordings.push(Recording { phrase: phrase.to_string(), data });
        assert(self@ =~= old(self)@.push((phrase@, data@)));
    }

    /// The recording of a phrase.
    pub fn get_audio(&self, phrase: &str) -> (data: Option<&[u8]>)
        ensures
            match data {
                Some(d) => recording_of(self@, phrase@) == Some(d@),
                None => recording_of(self@, phrase@) is None,
            },
    {
        let mut i: usize = 0;
        assert(self@.skip(0) =~= self@);
        while i < self.recordings.len()
            invariant
                i <= self.recordings@.len(),
                self@.len() == self.recordings@.len(),
                recording_of(self@.skip(i as int), phrase@) == recording_of(self@, phrase@),
            decreases self.recordings@.len() - i,
        {
            let recording = &self.recordings[i];
            assert(self@.skip(i as int)[0] == (recording.phrase@, recording.data@));
            if same_text(recording.phrase.as_str(), phrase) {
                return Some(recording.data.as_slice());
            }
            assert(self@.skip(i as int).drop_first() =~= self@.skip(i + 1));
            i += 1;
        }
        None
    }
}

// ---------------------------------------------------------------------------
// Laws
// ---------------------------------------------------------------------------

proof fn listed_phrase_is_found(bank: Seq<(Seq<char>, Seq<u8>)>, i: int)
    requires
        0 <= i < bank.len(),
    ensures
        recording_of(bank, bank[i].0) is Some,
    decreases i,
{
    if i > 0 {
        listed_phrase_is_found(bank.drop_first(), i - 1);
        assert(bank.drop_first()[i - 1] == bank[i]);
    }
}

/// A bank holds the recordings that a configuration names, whatever their data.
pub open spec fn holds_recordings(bank: Seq<(Seq<char>, Seq<u8>)>, config: RadioConfig) -> bool {
    bank.len() == configured_files(config).len() && forall|i: int|
        0 <= i < bank.len() ==> (#[trigger] bank[i]).0 == configured_files(config)[i].0
}

/// Every channel can be announced: with the recordings of the configuration loaded, there is
/// one for the phrase of each channel.
pub proof fn every_channel_has_audio(
    bank: Seq<(Seq<char>, Seq<u8>)>,
    config: RadioConfig,
    i: int,
)
    requires
        holds_recordings(bank, config),
        0 <= i < configured_channels(config).len(),
    ensures
        recording_of(bank, configured_channels(config)[i].tts_name) is Some,
{
    assert(bank[i].0 == configured_files(config)[i].0);
    listed_phrase_is_found(bank, i);
}

/// Every other phrase of the configuration can be spoken too.
pub proof fn every_phrase_has_audio(bank: Seq<(Seq<char>, Seq<u8>)>, config: RadioConfig, i: int)
    requires
        holds_recordings(bank, config),
        0 <= i < config.ui@.len(),
    ensures
        recording_of(bank, config.ui@[i].text@) is Some,
{
    let k = config.channels@.len() + i;
    assert(bank[k].0 == configured_files(config)[k].0);
    listed_phrase_is_found(bank, k);
}

/// A phrase that no recording is for has none.
pub proof fn unknown_phrase_has_no_audio(bank: Seq<(Seq<char>, Seq<u8>)>, phrase: Seq<char>)
    requires
        forall|i: int| 0 <= i < bank.len() ==> (#[trigger] bank[i]).0 != phrase,
    ensures
        recording_of(bank, phrase) is None,
    decreases bank.len(),
{
    if bank.len() > 0 {
        assert forall|i: int| 0 <= i < bank.drop_first().len() implies (
        #[trigger] bank.drop_first()[i]).0 != phrase by {
            assert(bank.drop_first()[i] == bank[i + 1]);
        }
        assert(bank[0].0 != phrase);
        unknown_phrase_has_no_audio(bank.drop_first(), phrase);
    }
}

/// The channels come in the order of the configuration, each with its own name, address and
/// phrase.
pub proof fn channels_are_those_of_the_configuration(
    config: RadioConfig,
    channels: Seq<Channel>,
    i: int,
)
    requires
        channel_views(channels) == configured_channels(config),
        0 <= i < config.channels@.len(),
    ensures
        channels.len() == config.channels@.len(),
        channels[i].name@ == config.channels@[i].name@,
        channels[i].url@ == config.channels@[i].url@,
        channels[i].tts_name@ == config.channels@[i].text@,
        configured_channels(config)[i] == (ChannelView {
            name: config.channels@[i].name@,
            tts_name: config.channels@[i].text@,
            url: config.channels@[i].url@,
        }),
{
    assert(channel_views(channels).len() == channels.len());
    assert(channel_views(channels)[i] == channels[i]@);
}

/// The recordings are those of the channels and then the others, in the order of the
/// configuration, each with its phrase and in the directory of the recordings.
pub proof fn recordings_are_those_of_the_configuration(
    config: RadioConfig,
    files: Seq<AudioFile>,
    i: int,
)
    requires
        file_views(files) == configured_files(config),
    ensures
        ({
            let n = config.channels@.len() as int;
            let directory = config.output_dir@;
            &&& files.len() == n + config.ui@.len()
            &&& 0 <= i < n ==> files[i].phrase@ == config.channels@[i].text@ && files[i].path@
                == directory + "/"@ + config.channels@[i].file@ + ".raw"@
            &&& n <= i < files.len() ==> files[i].phrase@ == config.ui@[i - n].text@
                && files[i].path@ == directory + "/"@ + config.ui@[i - n].file@ + ".raw"@
        }),
{
    assert(file_views(files).len() == files.len());
    if 0 <= i < files.len() {
        assert(file_views(files)[i] == (files[i].phrase@, files[i].path@));
    }
}

/// The recording of a phrase is the first that is there for it.
pub proof fn first_recording_counts(
    before: Seq<(Seq<char>, Seq<u8>)>,
    phrase: Seq<char>,
    data: Seq<u8>,
    behind: Seq<(Seq<char>, Seq<u8>)>,
)
    requires
        forall|i: int| 0 <= i < before.len() ==> (#[trigger] before[i]).0 != phrase,
    ensures
        recording_of(before.push((phrase, data)) + behind, phrase) == Some(data),
    decreases before.len(),
{
    let bank = before.push((phrase, data)) + behind;
    if before.len() > 0 {
        let rest = before.drop_first();
        assert forall|i: int| 0 <= i < rest.len() implies (#[trigger] rest[i]).0 != phrase by {
            assert(rest[i] == before[i + 1]);
        }
        first_recording_counts(rest, phrase, data, behind);
        assert(before[0].0 != phrase);
        assert(bank.drop_first() =~= rest.push((phrase, data)) + behind);
    }
}

} // verus!
