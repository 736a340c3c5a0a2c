//! The audio pipeline: three sinks, the stream that feeds one of them, and the beeps.
//!
//! The sinks themselves belong to the caller. Each method says what to do with them.
use crate::channels::{AudioBank, Channel};
use crate::tts::{plan_announcement, Announcement};
use vstd::prelude::*;

verus! {

// Volumes are percentages of full volume.

/// Playback volume.
pub const VOLUME: u8 = 100;

/// Beep volume.
pub const BEEP_VOLUME: u8 = 30;

/// Volume of the stream while channels are browsed.
pub const DUCK_VOLUME: u8 = 20;

/// How long to wait for a connection, in seconds.
pub const CONNECT_TIMEOUT_SECS: u64 = 10;

/// The sinks. They share one output and can play at the same time.
#[derive(Debug, Clone, Copy, PartialEq, Eq, Structural)]
pub enum SinkName {
    /// The radio stream, which can be ducked.
    Stream,
    /// Announcements, which can be interrupted.
    Voice,
    /// Beeps and tunes.
    Beep,
}

/// The sounds that answer the button.
#[derive(Debug, Clone, Copy, PartialEq, Eq, Structural)]
pub enum Tone {
    /// A beep that goes on while the button is held.
    Held,
    /// Its quick end.
    Release,
    /// Two rising notes.
    Confirm,
}

/// What has to be done, in the order given.
#[derive(Debug, Clone, Copy, PartialEq, Eq)]
pub enum AudioCommand<'a> {
    /// Tell the running stream to stop; do not wait for it.
    StopThread,
    /// Start the stream at this address, which belongs to this epoch.
    StartThread { epoch: u64, url: &'a str },
    SetVolume(SinkName, u8),
    /// Drop what the sink has still to play.
    Clear(SinkName),
    /// Make sure that the sink plays.
    Play(SinkName),
    /// Append a tone that has an end.
    Append(SinkName, Tone),
    /// Append a tone that goes on until the sink is cleared.
    Sustain(SinkName, Tone),
    /// Append the silence and the samples of an announcement.
    AppendAnnouncement(SinkName),
    /// Wait until the sink has played everything.
    WaitUntilEnd(SinkName),
}

/// Audio pipeline with three independent sinks.
///
/// At most one stream runs at a time. Every stop begins a new epoch, and only what belongs to
/// the present epoch is heard.
pub struct AudioPipeline {
    streaming: bool,
    epoch: u64,
}

/// The contents of an [`AudioPipeline`].
pub struct PipelineView {
    /// Whether a stream has been started and not been stopped since.
    pub streaming: bool,
    pub epoch: u64,
}

impl View for AudioPipeline {
    type V = PipelineView;

    closed spec fn view(&self) -> PipelineView {
        PipelineView { streaming: self.streaming, epoch: self.epoch }
    }
}

/// The epoch behind another. After the last one they begin anew.
pub open spec fn next_epoch(epoch: u64) -> u64 {
    if epoch == u64::MAX {
        0
    } else {
        (epoch + 1) as u64
    }
}

pub open spec fn initial_commands<'a>() -> Seq<AudioCommand<'a>> {
    seq![
        AudioCommand::SetVolume(SinkName::Stream, VOLUME),
        AudioCommand::SetVolume(SinkName::Voice, VOLUME),
        AudioCommand::SetVolume(SinkName::Beep, BEEP_VOLUME),
    ]
}

/// How the stream is stopped. The other sinks go on.
pub open spec fn stop_stream_commands<'a>(pipeline: PipelineView) -> Seq<AudioCommand<'a>> {
    let silence = seq![
        AudioCommand::Clear(SinkName::Stream),
        AudioCommand::Play(SinkName::Stream),
    ];
    if pipeline.streaming {
        seq![AudioCommand::StopThread] + silence
    } else {
        silence
    }
}

/// How everything is stopped.
pub open spec fn stop_commands<'a>(pipeline: PipelineView) -> Seq<AudioCommand<'a>> {
    stop_stream_commands(pipeline) + seq![
        AudioCommand::Clear(SinkName::Voice),
        AudioCommand::Play(SinkName::Voice),
        AudioCommand::Clear(SinkName::Beep),
        AudioCommand::Play(SinkName::Beep),
    ]
}

/// How an announcement is played.
pub open spec fn announcement_commands<'a>() -> Seq<AudioCommand<'a>> {
    seq![
        AudioCommand::Clear(SinkName::Voice),
        AudioCommand::AppendAnnouncement(SinkName::Voice),
        AudioCommand::Play(SinkName::Voice),
    ]
}

impl PipelineView {
    pub open spec fn stopped(self) -> PipelineView {
        PipelineView { streaming: false, epoch: next_epoch(self.epoch) }
    }

    /// A new stream runs, in an epoch of its own.
    pub open spec fn started(self) -> PipelineView {
        PipelineView { streaming: true, epoch: next_epoch(self.epoch) }
    }
}

/// Whether this is how the stream at an address is started: whatever streams is stopped, and
/// then that stream is started in the new epoch.
pub open spec fn starts_stream(
    pipeline: PipelineView,
    url: Seq<char>,
    commands: Seq<AudioCommand>,
) -> bool {
    &&& commands.len() > 0
    &&& commands.drop_last() == stop_stream_commands(pipeline)
    &&& commands.last() matches AudioCommand::StartThread { epoch, url: address }
    &&& epoch == pipeline.started().epoch
    &&& address@ == url
}

/// Whether this is how a channel is started: the stream is brought to full volume, and then
/// that of the channel is started.
pub open spec fn starts_channel(
    pipeline: PipelineView,
    channel: crate::channels::ChannelView,
    commands: Seq<AudioCommand>,
) -> bool {
    &&& commands.len() > 0
    &&& commands[0] == AudioCommand::SetVolume(SinkName::Stream, VOLUME)
    &&& starts_stream(pipeline, channel.url, commands.drop_first())
}

impl AudioPipeline {
    /// A pipeline without a stream, and the volumes of its sinks.
    pub fn new() -> (r: (AudioPipeline, Vec<AudioCommand<'static>>))
        ensures
            r.0@ == (PipelineView { streaming: false, epoch: 0 }),
            r.1@ == initial_commands(),
    {
        let commands = vec![
            AudioCommand::SetVolume(SinkName::Stream, VOLUME),
            AudioCommand::SetVolume(SinkName::Voice, VOLUME),
            AudioCommand::SetVolume(SinkName::Beep, BEEP_VOLUME),
        ];
        assert(commands@ =~= initial_commands());
        (AudioPipeline { streaming: false, epoch: 0 }, commands)
    }

    /// The present epoch.
    pub fn epoch(&self) -> (epoch: u64)
        ensures
            epoch == self@.epoch,
    {
        self.epoch
    }

    /// Stops the stream. Does not affect the voice and the beeps.
    pub fn stop_stream(&mut self) -> (commands: Vec<AudioCommand<'static>>)
        ensures
            final(self)@ == old(self)@.stopped(),
            commands@ == stop_stream_commands(old(self)@),
    {
        let mut commands: Vec<AudioCommand<'static>> = Vec::new();
        if self.streaming {
            self.streaming = false;
            commands.push(AudioCommand::StopThread);
        }
        self.epoch = if self.epoch == u64::MAX {
            0
        } else {
            self.epoch + 1
        };
        commands.push(AudioCommand::Clear(SinkName::Stream));
        commands.push(AudioCommand::Play(SinkName::Stream));
        assert(commands@ =~= stop_stream_commands(old(self)@));
        commands
    }

    /// Stops all playback: stream, voice and beeps.
    pub fn stop(&mut self) -> (commands: Vec<AudioCommand<'static>>)
        ensures
            final(self)@ == old(self)@.stopped(),
            commands@ == stop_commands(old(self)@),
    {
        let mut commands = self.stop_stream();
        commands.push(AudioCommand::Clear(SinkName::Voice));
        commands.push(AudioCommand::Play(SinkName::Voice));
        commands.push(AudioCommand::Clear(SinkName::Beep));
        commands.push(AudioCommand::Play(SinkName::Beep));
        assert(commands@ =~= stop_commands(old(self)@));
        commands
    }

    /// Ducks the stream while channels are browsed.
    pub fn duck_stream(&self) -> (command: AudioCommand<'static>)
        ensures
            command == AudioCommand::SetVolume(SinkName::Stream, DUCK_VOLUME),
    {
        AudioCommand::SetVolume(SinkName::Stream, DUCK_VOLUME)
    }

    /// Brings the stream back to full volume.
    pub fn restore_stream(&self) -> (command: AudioCommand<'static>)
        ensures
            command == AudioCommand::SetVolume(SinkName::Stream, VOLUME),
    {
        AudioCommand::SetVolume(SinkName::Stream, VOLUME)
    }

    /// Starts the stream at an address in place of any other. Its first data is to be awaited
    /// for [`CONNECT_TIMEOUT_SECS`] and the report handed to [`AudioPipeline::connected`].
    pub fn connect_and_play<'a>(&mut self, url: &'a str) -> (commands: Vec<AudioCommand<'a>>)
        ensures
            final(self)@ == old(self)@.started(),
            starts_stream(old(self)@, url@, commands@),
    {
        let mut commands: Vec<AudioCommand<'a>> = self.stop_stream();
        self.streaming = true;
        let ghost stops = commands@;
        commands.push(AudioCommand::StartThread { epoch: self.epoch, url });
        assert(commands@.drop_last() =~= stops);
        commands
    }

    /// Starts the stream of a channel in place of any other, at full volume.
    pub fn start_channel<'a>(&mut self, channels: &'a [Channel], idx: usize) -> (commands: Vec<
        AudioCommand<'a>,
    >)
        requires
            idx < channels@.len(),
        ensures
            final(self)@ == old(self)@.started(),
            starts_channel(old(self)@, channels@[idx as int]@, commands@),
    {
        let restore = self.restore_stream();
        let mut commands: Vec<AudioCommand<'a>> = self.connect_and_play(channels[idx].url.as_str());
        let ghost connects = commands@;
        commands.insert(0, restore);
        assert(commands@.drop_first() =~= connects);
        commands
    }

    /// Takes what became of a connection: that it stands, that it failed, or `None` where
    /// nothing was heard in time. Without a connection everything is stopped.
    pub fn connected(&mut self, report: Option<bool>) -> (r: (bool, Vec<AudioCommand<'static>>))
        ensures
            r.0 == (report == Some(true)),
            if report == Some(true) {
                &&& final(self)@ == old(self)@
                &&& r.1@ == Seq::<AudioCommand>::empty()
            } else {
                &&& final(self)@ == old(self)@.stopped()
                &&& r.1@ == stop_commands(old(self)@)
            },
    {
        match report {
            Some(true) => {
                let commands: Vec<AudioCommand<'static>> = Vec::new();
                (true, commands)
            },
            _ => (false, self.stop()),
        }
    }

    /// Whether the stream is still active, given whether its thread has finished.
    pub fn is_stream_active(&self, finished: bool) -> (active: bool)
        ensures
            active == (self@.streaming && !finished),
    {
        self.streaming && !finished
    }

    /// Starts the beep that sounds while the button is held. It goes on until
    /// [`AudioPipeline::stop_beep`].
    pub fn start_beep(&self) -> (commands: Vec<AudioCommand<'static>>)
        ensures
            commands@ == seq![
                AudioCommand::Sustain(SinkName::Beep, Tone::Held),
                AudioCommand::Play(SinkName::Beep),
            ],
    {
        let commands = vec![
            AudioCommand::Sustain(SinkName::Beep, Tone::Held),
            AudioCommand::Play(SinkName::Beep),
        ];
        assert(commands@ =~= seq![
            AudioCommand::Sustain(SinkName::Beep, Tone::Held),
            AudioCommand::Play(SinkName::Beep),
        ]);
        commands
    }

    /// Ends the beep with a quick fade-out.
    pub fn stop_beep(&self) -> (commands: Vec<AudioCommand<'static>>)
        ensures
            commands@ == seq![
                AudioCommand::Clear(SinkName::Beep),
                AudioCommand::Append(SinkName::Beep, Tone::Release),
                AudioCommand::Play(SinkName::Beep),
                AudioCommand::WaitUntilEnd(SinkName::Beep),
            ],
    {
        let commands = vec![
            AudioCommand::Clear(SinkName::Beep),
            AudioCommand::Append(SinkName::Beep, Tone::Release),
            AudioCommand::Play(SinkName::Beep),
            AudioCommand::WaitUntilEnd(SinkName::Beep),
        ];
        assert(commands@ =~= seq![
            AudioCommand::Clear(SinkName::Beep),
            AudioCommand::Append(SinkName::Beep, Tone::Release),
            AudioCommand::Play(SinkName::Beep),
            AudioCommand::WaitUntilEnd(SinkName::Beep),
        ]);
        commands
    }

    /// Plays the confirmation tune to its end.
    pub fn confirm_beep(&self) -> (commands: Vec<AudioCommand<'static>>)
        ensures
            commands@ == seq![
                AudioCommand::Append(SinkName::Beep, Tone::Confirm),
                AudioCommand::Play(SinkName::Beep),
                AudioCommand::WaitUntilEnd(SinkName::Beep),
            ],
    {
        let commands = vec![
            AudioCommand::Append(SinkName::Beep, Tone::Confirm),
            AudioCommand::Play(SinkName::Beep),
            AudioCommand::WaitUntilEnd(SinkName::Beep),
        ];
        assert(commands@ =~= seq![
            AudioCommand::Append(SinkName::Beep, Tone::Confirm),
            AudioCommand::Play(SinkName::Beep),
            AudioCommand::WaitUntilEnd(SinkName::Beep),
        ]);
        commands
    }

    /// Plays an announcement in place of what the voice was saying.
    pub fn play_announcement(&self) -> (commands: Vec<AudioCommand<'static>>)
        ensures
            commands@ == announcement_commands(),
    {
        let commands = vec![
            AudioCommand::Clear(SinkName::Voice),
            AudioCommand::AppendAnnouncement(SinkName::Voice),
            AudioCommand::Play(SinkName::Voice),
        ];
        assert(commands@ =~= announcement_commands());
        commands
    }

    /// The announcement of a text, to be played by [`AudioPipeline::play_announcement`]: the
    /// recording of the text, if the bank has one that is not empty.
    pub fn announce_interruptible(&self, bank: &AudioBank, text: &str) -> (plan: Option<
        Announcement,
    >)
        ensures
            crate::tts::is_plan(crate::channels::recording_of(bank@, text@), plan),
    {
        plan_announcement(bank.get_audio(text))
    }

    /// As [`AudioPipeline::announce_interruptible`], for an announcement that the button does
    /// not interrupt.
    pub fn announce(&self, bank: &AudioBank, text: &str) -> (plan: Option<Announcement>)
        ensures
            crate::tts::is_plan(crate::channels::recording_of(bank@, text@), plan),
    {
        self.announce_interruptible(bank, text)
    }

    /// The announcement of a channel, as [`AudioPipeline::announce_interruptible`] gives it for
    /// the channel's phrase.
    pub fn announce_channel(&self, bank: &AudioBank, channels: &[Channel], idx: usize) -> (plan:
        Option<Announcement>)
        requires
            idx < channels@.len(),
        ensures
            crate::tts::is_plan(
                crate::channels::recording_of(bank@, channels@[idx as int]@.tts_name),
                plan,
            ),
    {
        self.announce_interruptible(bank, channels[idx].tts_name.as_str())
    }

    /// Whether the voice is still playing, given whether its sink is empty.
    pub fn is_voice_playing(&self, empty: bool) -> (playing: bool)
        ensures
            playing == !empty,
    {
        !empty
    }

    /// Stops the voice.
    pub fn stop_voice(&self) -> (command: AudioCommand<'static>)
        ensures
            command == AudioCommand::Clear(SinkName::Voice),
    {
        AudioCommand::Clear(SinkName::Voice)
    }
}

// ---------------------------------------------------------------------------
// Tones
// ---------------------------------------------------------------------------

/// Tones are mono, at this rate.
pub const TONE_RATE: u32 = 44100;

/// How loud a sample is.
#[derive(Debug, Clone, Copy, PartialEq, Eq, Structural)]
pub enum Envelope {
    Full,
    /// `part / whole` of full.
    Fraction { part: u32, whole: u32 },
    /// Full less `part / whole` of it.
    Remainder { part: u32, whole: u32 },
}

/// One sample of a tone: where it stands in a sine wave, and how loud it is.
#[derive(Debug, Clone, Copy, PartialEq, Eq, Structural)]
pub struct ToneSample {
    /// Frequency in hundredths of a hertz.
    pub centihertz: u32,
    /// Number of the sample since the wave began.
    pub index: u32,
    pub envelope: Envelope,
}

pub const LOW_NOTE: u32 = 88000;

pub const HIGH_NOTE: u32 = 110873;

/// Samples in so many milliseconds.
pub open spec fn samples_in(ms: int) -> int {
    TONE_RATE * ms / 1000
}

/// How many samples a tone has; `None` where it goes on.
pub open spec fn tone_length(tone: Tone) -> Option<int> {
    match tone {
        Tone::Held => None,
        Tone::Release => Some(samples_in(15)),
        Tone::Confirm => Some(2 * samples_in(60) + samples_in(20)),
    }
}

/// Whether a tone has a sample of this number.
pub open spec fn has_sample(tone: Tone, i: int) -> bool {
    0 <= i && (tone_length(tone) matches Some(len) ==> i < len)
}

/// A note of the confirmation tune: it swells over its first eighth and dies away over its
/// last.
pub open spec fn note_sample(centihertz: u32, i: int) -> ToneSample {
    let len = samples_in(60);
    ToneSample {
        centihertz,
        index: i as u32,
        envelope: if i < len / 8 {
            Envelope::Fraction { part: i as u32, whole: (len / 8) as u32 }
        } else if i > len * 7 / 8 {
            Envelope::Fraction { part: (len - i) as u32, whole: (len / 8) as u32 }
        } else {
            Envelope::Full
        },
    }
}

/// Sample `i` of a tone; `None` is silence.
pub open spec fn tone_at(tone: Tone, i: int) -> Option<ToneSample> {
    match tone {
        // Swells over a twentieth of a second. The wave begins anew each second, in which it
        // makes a whole number of turns.
        Tone::Held => Some(
            ToneSample {
                centihertz: LOW_NOTE,
                index: (i % TONE_RATE as int) as u32,
                envelope: if i < TONE_RATE / 20 {
                    Envelope::Fraction { part: i as u32, whole: TONE_RATE / 20 }
                } else {
                    Envelope::Full
                },
            },
        ),
        Tone::Release => Some(
            ToneSample {
                centihertz: LOW_NOTE,
                index: i as u32,
                envelope: Envelope::Remainder { part: i as u32, whole: samples_in(15) as u32 },
            },
        ),
        Tone::Confirm => if i < samples_in(60) {
            Some(note_sample(LOW_NOTE, i))
        } else if i < samples_in(60) + samples_in(20) {
            None
        } else {
            Some(note_sample(HIGH_NOTE, i - samples_in(60) - samples_in(20)))
        },
    }
}

/// How many samples a tone has; `None` where it goes on.
pub fn tone_len(tone: Tone) -> (len: Option<u64>)
    ensures
        match len {
            Some(n) => tone_length(tone) == Some(n as int),
            None => tone_length(tone) is None,
        },
{
    match tone {
        Tone::Held => None,
        Tone::Release => Some(661),
        Tone::Confirm => Some(6174),
    }
}

fn note(centihertz: u32, i: u32) -> (sample: ToneSample)
    requires
        i < samples_in(60),
    ensures
        sample == note_sample(centihertz, i as int),
{
    let len: u32 = 2646;
    let envelope = if i < len / 8 {
        Envelope::Fraction { part: i, whole: len / 8 }
    } else if i > len * 7 / 8 {
        Envelope::Fraction { part: len - i, whole: len / 8 }
    } else {
        Envelope::Full
    };
    ToneSample { centihertz, index: i, envelope }
}

/// Sample `i` of a tone; `None` is silence.
pub fn tone_sample(tone: Tone, i: u64) -> (sample: Option<ToneSample>)
    requires
        has_sample(tone, i as int),
    ensures
        sample == tone_at(tone, i as int),
{
    match tone {
        Tone::Held => {
            let fade: u32 = TONE_RATE / 20;
            let envelope = if i < fade as u64 {
                Envelope::Fraction { part: i as u32, whole: fade }
            } else {
                Envelope::Full
            };
            let index: u32 = (i % (TONE_RATE as u64)) as u32;
            Some(ToneSample { centihertz: LOW_NOTE, index, envelope })
        },
        Tone::Release => Some(
            ToneSample {
                centihertz: LOW_NOTE,
                index: i as u32,
                envelope: Envelope::Remainder { part: i as u32, whole: 661 },
            },
        ),
        Tone::Confirm => if i < 2646 {
            Some(note(LOW_NOTE, i as u32))
        } else if i < 3528 {
            None
        } else {
            Some(note(HIGH_NOTE, (i - 3528) as u32))
        },
    }
}

// ---------------------------------------------------------------------------
// Laws
// ---------------------------------------------------------------------------

/// The sink that a command touches.
pub open spec fn touched(command: AudioCommand<'static>) -> Option<SinkName> {
    match command {
        AudioCommand::StopThread => None,
        AudioCommand::StartThread { .. } => None,
        AudioCommand::SetVolume(sink, _) => Some(sink),
        AudioCommand::Clear(sink) => Some(sink),
        AudioCommand::Play(sink) => Some(sink),
        AudioCommand::Append(sink, _) => Some(sink),
        AudioCommand::Sustain(sink, _) => Some(sink),
        AudioCommand::AppendAnnouncement(sink) => Some(sink),
        AudioCommand::WaitUntilEnd(sink) => Some(sink),
    }
}

/// Stopping the stream leaves the voice and the beeps alone.
pub proof fn stopping_the_stream_spares_other_sinks(pipeline: PipelineView, i: int)
    requires
        0 <= i < stop_stream_commands(pipeline).len(),
    ensures
        touched(stop_stream_commands(pipeline)[i]) != Some(SinkName::Voice),
        touched(stop_stream_commands(pipeline)[i]) != Some(SinkName::Beep),
{
}

/// An announcement touches the voice alone: the stream and the beeps go on.
pub proof fn announcing_spares_other_sinks(i: int)
    requires
        0 <= i < announcement_commands().len(),
    ensures
        touched(announcement_commands()[i]) == Some(SinkName::Voice),
{
}

/// What changes the stream of a pipeline: it is stopped, or another one is started.
pub enum StreamChange {
    Stop,
    Start,
}

/// The pipeline after a series of changes.
pub open spec fn after_changes(pipeline: PipelineView, changes: Seq<StreamChange>) -> PipelineView
    decreases changes.len(),
{
    if changes.len() == 0 {
        pipeline
    } else {
        let before = after_changes(pipeline, changes.drop_last());
        match changes.last() {
            StreamChange::Stop => before.stopped(),
            StreamChange::Start => before.started(),
        }
    }
}

/// A stream does not belong to the present epoch once it was stopped or another one was
/// started, whatever stops and starts came after, up to as many as there are epochs.
pub proof fn earlier_stream_is_of_the_past(pipeline: PipelineView, changes: Seq<StreamChange>)
    requires
        0 < changes.len() <= u64::MAX,
    ensures
        after_changes(pipeline, changes).epoch != pipeline.epoch,
        after_changes(pipeline, changes).streaming == (changes.last() is Start),
{
    epochs_count_up(pipeline, changes);
}

/// A stream is not heard any more once it was stopped or another one was started, whatever it
/// has still decoded.
pub proof fn earlier_stream_is_not_heard(
    pipeline: PipelineView,
    session: crate::stream::StreamSession,
    changes: Seq<StreamChange>,
    ok: bool,
)
    requires
        session.epoch == pipeline.epoch,
        0 < changes.len() <= u64::MAX,
    ensures
        session.output(
            crate::stream::StreamEvent::Decoded {
                ok,
                epoch: after_changes(pipeline, changes).epoch,
            },
        ) == crate::stream::nothing(),
{
    earlier_stream_is_of_the_past(pipeline, changes);
}

proof fn epochs_count_up(pipeline: PipelineView, changes: Seq<StreamChange>)
    requires
        changes.len() <= u64::MAX,
    ensures
        after_changes(pipeline, changes).epoch == if pipeline.epoch + changes.len() <= u64::MAX {
            pipeline.epoch + changes.len()
        } else {
            pipeline.epoch + changes.len() - u64::MAX - 1
        },
    decreases changes.len(),
{
    if changes.len() > 0 {
        epochs_count_up(pipeline, changes.drop_last());
    }
}

/// The beep of a held button does not end by itself, and after it has swelled it stays at full.
pub proof fn held_beep_goes_on(i: int)
    requires
        i >= 0,
    ensures
        has_sample(Tone::Held, i),
        tone_at(Tone::Held, i) is Some,
        i >= TONE_RATE / 20 ==> tone_at(Tone::Held, i)->0.envelope == Envelope::Full,
{
}

/// The wave of a held button's beep has no seam: where it begins anew, it has made a whole
/// number of turns.
pub proof fn held_beep_has_no_seam(i: int)
    requires
        i >= 0,
    ensures
        ({
            let index = tone_at(Tone::Held, i)->0.index as int;
            &&& (i - index) % TONE_RATE as int == 0
            &&& (i - index) * LOW_NOTE % (100 * TONE_RATE) == 0
        }),
{
    let rate = TONE_RATE as int;
    let index = i % rate;
    let seconds = i / rate;
    vstd::arithmetic::div_mod::lemma_fundamental_div_mod(i, rate);
    assert(i - index == rate * seconds);
    vstd::arithmetic::div_mod::lemma_mod_multiples_basic(seconds, rate);
    assert(rate * seconds == seconds * rate) by (nonlinear_arith);
    assert((i - index) * LOW_NOTE == (880 * seconds) * (100 * rate)) by (nonlinear_arith)
        requires
            i - index == rate * seconds,
            LOW_NOTE == 88000,
    ;
    vstd::arithmetic::div_mod::lemma_mod_multiples_basic(880 * seconds, 100 * rate);
}

/// No sample of a tone is louder than full.
pub proof fn tones_are_never_too_loud(tone: Tone, i: int)
    requires
        has_sample(tone, i),
    ensures
        tone_at(tone, i) matches Some(sample) ==> match sample.envelope {
            Envelope::Full => true,
            Envelope::Fraction { part, whole } => part <= whole && whole > 0,
            Envelope::Remainder { part, whole } => part <= whole && whole > 0,
        },
{
}

/// The stream and the voice play at full volume, the beeps at three tenths of it, and a ducked
/// stream at a fifth.
pub proof fn sinks_start_at_their_volumes()
    ensures
        initial_commands() == seq![
            AudioCommand::SetVolume(SinkName::Stream, 100),
            AudioCommand::SetVolume(SinkName::Voice, 100),
            AudioCommand::SetVolume(SinkName::Beep, 30),
        ],
        VOLUME == 100,
        BEEP_VOLUME == 30,
        DUCK_VOLUME == 20,
{
}

/// Stopping the stream tells the one that runs, if there is one, and then drops what its sink has
/// still to play. The pipeline has no stream then, and a new epoch.
pub proof fn stopping_silences_the_stream(pipeline: PipelineView)
    ensures
        pipeline.streaming ==> stop_stream_commands(pipeline) == seq![
            AudioCommand::StopThread,
            AudioCommand::Clear(SinkName::Stream),
            AudioCommand::Play(SinkName::Stream),
        ],
        !pipeline.streaming ==> stop_stream_commands(pipeline) == seq![
            AudioCommand::Clear(SinkName::Stream),
            AudioCommand::Play(SinkName::Stream),
        ],
        !pipeline.stopped().streaming,
        pipeline.started().streaming,
        pipeline.stopped().epoch == pipeline.started().epoch,
        pipeline.epoch < u64::MAX ==> pipeline.stopped().epoch == pipeline.epoch + 1,
        pipeline.epoch == u64::MAX ==> pipeline.stopped().epoch == 0,
{
    if pipeline.streaming {
        assert(stop_stream_commands(pipeline) =~= seq![
            AudioCommand::StopThread,
            AudioCommand::Clear(SinkName::Stream),
            AudioCommand::Play(SinkName::Stream),
        ]);
    }
}

/// Stopping everything stops the stream, and then silences the voice and the beeps too.
pub proof fn stopping_everything_silences_all_sinks(pipeline: PipelineView)
    ensures
        stop_commands(pipeline) == stop_stream_commands(pipeline) + seq![
            AudioCommand::Clear(SinkName::Voice),
            AudioCommand::Play(SinkName::Voice),
            AudioCommand::Clear(SinkName::Beep),
            AudioCommand::Play(SinkName::Beep),
        ],
{
}

/// An announcement takes the place of what the voice was saying, and is played.
pub proof fn announcement_takes_the_voice()
    ensures
        announcement_commands() == seq![
            AudioCommand::Clear(SinkName::Voice),
            AudioCommand::AppendAnnouncement(SinkName::Voice),
            AudioCommand::Play(SinkName::Voice),
        ],
{
}

/// A stream is started behind the stop of any other, at its own address and in the epoch that the
/// pipeline has from then on; nothing else is done.
pub proof fn stream_starts_in_place_of_any_other(
    pipeline: PipelineView,
    url: Seq<char>,
    commands: Seq<AudioCommand>,
)
    requires
        starts_stream(pipeline, url, commands),
    ensures
        ({
            let n = if pipeline.streaming {
                3int
            } else {
                2int
            };
            &&& commands.len() == n + 1
            &&& pipeline.streaming ==> commands[0] == AudioCommand::StopThread
            &&& commands[n - 2] == AudioCommand::Clear(SinkName::Stream)
            &&& commands[n - 1] == AudioCommand::Play(SinkName::Stream)
            &&& commands[n] is StartThread
            &&& commands[n]->StartThread_epoch == pipeline.started().epoch
            &&& commands[n]->StartThread_url@ == url
        }),
{
    let stops = stop_stream_commands(pipeline);
    assert(commands.drop_last() == stops);
    if pipeline.streaming {
        assert(commands[0] == stops[0]);
        assert(commands[1] == stops[1]);
        assert(commands[2] == stops[2]);
    } else {
        assert(commands[0] == stops[0]);
        assert(commands[1] == stops[1]);
    }
}

/// A channel is started at full volume, and its stream is the one at the channel's address.
pub proof fn channel_starts_at_full_volume(
    pipeline: PipelineView,
    channel: crate::channels::ChannelView,
    commands: Seq<AudioCommand>,
)
    requires
        starts_channel(pipeline, channel, commands),
    ensures
        commands[0] == AudioCommand::SetVolume(SinkName::Stream, 100),
        starts_stream(pipeline, channel.url, commands.drop_first()),
        commands.last() is StartThread,
        commands.last()->StartThread_url@ == channel.url,
{
    stream_starts_in_place_of_any_other(pipeline, channel.url, commands.drop_first());
}

/// The beep of a held button swells over its first twentieth of a second, linearly, and is then
/// at full; its pitch is 880 hertz.
pub proof fn held_beep_swells(i: int)
    requires
        0 <= i <= u64::MAX,
    ensures
        tone_length(Tone::Held) is None,
        tone_at(Tone::Held, i) == Some(
            ToneSample {
                centihertz: 88000,
                index: (i % 44100) as u32,
                envelope: if i < 2205 {
                    Envelope::Fraction { part: i as u32, whole: 2205 }
                } else {
                    Envelope::Full
                },
            },
        ),
{
}

/// The end of that beep has the same pitch and dies away within 15 milliseconds, linearly.
pub proof fn released_beep_dies_away(i: int)
    requires
        has_sample(Tone::Release, i),
    ensures
        tone_length(Tone::Release) == Some(661int),
        0 <= i < 661,
        661 * 1000 <= 44100 * 15 < 662 * 1000,
        tone_at(Tone::Release, i) == Some(
            ToneSample {
                centihertz: 88000,
                index: i as u32,
                envelope: Envelope::Remainder { part: i as u32, whole: 661 },
            },
        ),
{
}

/// The confirmation tune is a note of 60 milliseconds, a rest of 20 and a higher note of 60. Both
/// notes swell over their first eighth and die away over their last, and are at full between.
pub proof fn confirmation_is_two_rising_notes(i: int)
    requires
        has_sample(Tone::Confirm, i),
    ensures
        tone_length(Tone::Confirm) == Some(6174int),
        0 <= i < 6174,
        2646 * 1000 == 44100 * 60 && 882 * 1000 == 44100 * 20 && 6174 == 2646 + 882 + 2646,
        2646 <= i < 3528 <==> tone_at(Tone::Confirm, i) is None,
        tone_at(Tone::Confirm, i) matches Some(sample) ==> {
            let at = if i < 2646 {
                i
            } else {
                i - 3528
            };
            &&& sample.centihertz == if i < 2646 {
                88000u32
            } else {
                110873u32
            }
            &&& sample.index == at
            &&& sample.envelope == if at < 330 {
                Envelope::Fraction { part: at as u32, whole: 330 }
            } else if at <= 2315 {
                Envelope::Full
            } else {
                Envelope::Fraction { part: (2646 - at) as u32, whole: 330 }
            }
        },
{
}

/// A tone has samples from the first on, as many as it is long; one that goes on has them all.
pub proof fn tones_have_as_many_samples_as_they_are_long(tone: Tone, i: int)
    ensures
        has_sample(tone, i) <==> i >= 0 && (tone_length(tone) is None || i
            < tone_length(tone)->0),
{
}

} // verus!
