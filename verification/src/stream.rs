//! One stream from its address to its samples: what to do with what comes.
//!
//! Connecting, probing and decoding belong to the caller. [`StreamSession`] says what to do
//! next and is told what came of it.
use crate::hls::is_hls_url;
use vstd::prelude::*;

verus! {

/// How a stream is fetched.
#[derive(Debug, Clone, Copy, PartialEq, Eq, Structural)]
pub enum SourceKind {
    /// Segment by segment, along a playlist.
    Hls,
    /// As one response that does not end.
    Direct,
}

/// How the stream at an address is fetched.
pub fn source_kind(url: &str) -> (kind: SourceKind)
    ensures
        kind == if crate::hls::is_hls(url@) {
            SourceKind::Hls
        } else {
            SourceKind::Direct
        },
{
    if is_hls_url(url) {
        SourceKind::Hls
    } else {
        SourceKind::Direct
    }
}

/// What has to be done next.
#[derive(Debug, Clone, Copy, PartialEq, Eq, Structural)]
pub enum StreamPhase {
    /// Connect.
    Opening,
    /// Wait for the first data.
    Receiving,
    /// Find out the format.
    Probing,
    /// Find the track to play.
    Selecting,
    /// Make a decoder for the track.
    MakingDecoder,
    /// Look whether the stream has been stopped.
    Checking,
    /// Read a packet.
    Reading,
    /// Decode the packet.
    Decoding,
    /// Nothing: the stream is over.
    Ended,
}

/// The track that is played.
#[derive(Debug, Clone, Copy, PartialEq, Eq, Structural)]
pub struct Track {
    pub id: u32,
    pub sample_rate: Option<u32>,
    pub channels: Option<usize>,
}

/// What reading a packet came to.
#[derive(Debug, Clone, Copy, PartialEq, Eq, Structural)]
pub enum PacketRead {
    /// A packet of this track.
    Packet(u32),
    /// The stream was stopped meanwhile.
    Interrupted,
    /// The stream has ended.
    EndOfStream,
    Failed,
}

/// What came of the last thing to do.
#[derive(Debug, Clone, Copy, PartialEq, Eq, Structural)]
pub enum StreamEvent {
    /// Whether the connection stands.
    Opened(bool),
    /// Whether data has come: none comes where the stream ends or fails before.
    FirstData(bool),
    /// Whether the format is known.
    Probed(bool),
    /// The track, if there is one.
    Selected(Option<Track>),
    /// Whether there is a decoder.
    DecoderMade(bool),
    /// Whether the stream has been stopped.
    StopFlag(bool),
    Read(PacketRead),
    /// Whether the packet could be decoded, and the epoch of the pipeline at this time.
    Decoded { ok: bool, epoch: u64 },
}

/// What an event leads to besides the next phase.
#[derive(Debug, Clone, Copy, PartialEq, Eq, Structural)]
pub struct StreamOutput {
    /// Report that first data was received, or that the stream failed before.
    pub connected: Option<bool>,
    /// Append the decoded samples to the stream sink.
    pub append: bool,
    /// Make sure that the stream sink plays.
    pub play: bool,
}

/// A stream that is being played.
#[derive(Debug, Clone, Copy, PartialEq, Eq, Structural)]
pub struct StreamSession {
    pub phase: StreamPhase,
    /// The epoch of the pipeline that this stream belongs to.
    pub epoch: u64,
    pub track_id: u32,
    pub sample_rate: u32,
    pub channels: u16,
    /// Whether samples have been appended.
    pub started: bool,
}

pub const DEFAULT_SAMPLE_RATE: u32 = 44100;

pub const DEFAULT_CHANNELS: u16 = 2;

pub open spec fn nothing() -> StreamOutput {
    StreamOutput { connected: None, append: false, play: false }
}

impl StreamSession {
    pub open spec fn at(self, phase: StreamPhase) -> StreamSession {
        StreamSession { phase, ..self }
    }

    pub open spec fn if_ok(self, ok: bool, phase: StreamPhase) -> StreamSession {
        self.at(
            if ok {
                phase
            } else {
                StreamPhase::Ended
            },
        )
    }

    /// Whether decoded samples may be heard: only those of the pipeline's present epoch.
    pub open spec fn plays(self, event: StreamEvent) -> bool {
        self.phase == StreamPhase::Decoding && event == (StreamEvent::Decoded {
            ok: true,
            epoch: self.epoch,
        })
    }

    /// The session behind an event. An event that does not fit the phase changes nothing.
    pub open spec fn next(self, event: StreamEvent) -> StreamSession {
        match (self.phase, event) {
            (StreamPhase::Opening, StreamEvent::Opened(ok)) => self.if_ok(
                ok,
                StreamPhase::Receiving,
            ),
            (StreamPhase::Receiving, StreamEvent::FirstData(ok)) => self.if_ok(
                ok,
                StreamPhase::Probing,
            ),
            (StreamPhase::Probing, StreamEvent::Probed(ok)) => self.if_ok(
                ok,
                StreamPhase::Selecting,
            ),
            (StreamPhase::Selecting, StreamEvent::Selected(Some(track))) => StreamSession {
                phase: StreamPhase::MakingDecoder,
                track_id: track.id,
                sample_rate: match track.sample_rate {
                    Some(rate) => rate,
                    None => DEFAULT_SAMPLE_RATE,
                },
                channels: match track.channels {
                    Some(count) => count as u16,
                    None => DEFAULT_CHANNELS,
                },
                ..self
            },
            (StreamPhase::Selecting, StreamEvent::Selected(None)) => self.at(StreamPhase::Ended),
            (StreamPhase::MakingDecoder, StreamEvent::DecoderMade(ok)) => self.if_ok(
                ok,
                StreamPhase::Checking,
            ),
            (StreamPhase::Checking, StreamEvent::StopFlag(stopped)) => self.if_ok(
                !stopped,
                StreamPhase::Reading,
            ),
            (StreamPhase::Reading, StreamEvent::Read(PacketRead::Packet(id))) => self.at(
                if id == self.track_id {
                    StreamPhase::Decoding
                } else {
                    StreamPhase::Checking
                },
            ),
            (StreamPhase::Reading, StreamEvent::Read(_)) => self.at(StreamPhase::Ended),
            (StreamPhase::Decoding, StreamEvent::Decoded { ok, epoch }) => if epoch != self.epoch {
                self.at(StreamPhase::Ended)
            } else {
                StreamSession {
                    phase: StreamPhase::Checking,
                    started: self.started || ok,
                    ..self
                }
            },
            _ => self,
        }
    }

    /// What an event leads to besides.
    pub open spec fn output(self, event: StreamEvent) -> StreamOutput {
        match (self.phase, event) {
            (StreamPhase::Opening, StreamEvent::Opened(false)) => StreamOutput {
                connected: Some(false),
                ..nothing()
            },
            (StreamPhase::Receiving, StreamEvent::FirstData(ok)) => StreamOutput {
                connected: Some(ok),
                ..nothing()
            },
            _ => StreamOutput {
                connected: None,
                append: self.plays(event),
                play: self.plays(event) && !self.started,
            },
        }
    }

    /// A stream that belongs to an epoch of the pipeline, before it is connected.
    pub fn new(epoch: u64) -> (session: StreamSession)
        ensures
            session == (StreamSession {
                phase: StreamPhase::Opening,
                epoch,
                track_id: 0,
                sample_rate: DEFAULT_SAMPLE_RATE,
                channels: DEFAULT_CHANNELS,
                started: false,
            }),
    {
        StreamSession {
            phase: StreamPhase::Opening,
            epoch,
            track_id: 0,
            sample_rate: DEFAULT_SAMPLE_RATE,
            channels: DEFAULT_CHANNELS,
            started: false,
        }
    }

    fn advance_if(self, ok: bool, phase: StreamPhase) -> (next: StreamSession)
        ensures
            next == self.if_ok(ok, phase),
    {
        let phase = if ok {
            phase
        } else {
            StreamPhase::Ended
        };
        StreamSession { phase, ..self }
    }

    /// Takes over the parameters of the track, with defaults for what it does not say.
    fn select(self, track: Track) -> (next: StreamSession)
        requires
            self.phase == StreamPhase::Selecting,
        ensures
            next == self.next(StreamEvent::Selected(Some(track))),
    {
        StreamSession {
            phase: StreamPhase::MakingDecoder,
            track_id: track.id,
            sample_rate: match track.sample_rate {
                Some(rate) => rate,
                None => DEFAULT_SAMPLE_RATE,
            },
            channels: match track.channels {
                Some(count) => #[verifier::truncate] (count as u16),
                None => DEFAULT_CHANNELS,
            },
            ..self
        }
    }
}

/// One step of a stream.
pub fn stream_loop(session: StreamSession, event: StreamEvent) -> (r: (StreamSession, StreamOutput))
    ensures
        r.0 == session.next(event),
        r.1 == session.output(event),
{
    let mut output = StreamOutput { connected: None, append: false, play: false };
    let next = match (session.phase, event) {
        (StreamPhase::Opening, StreamEvent::Opened(ok)) => {
            if !ok {
                output.connected = Some(false);
            }
            session.advance_if(ok, StreamPhase::Receiving)
        },
        (StreamPhase::Receiving, StreamEvent::FirstData(ok)) => {
            output.connected = Some(ok);
            session.advance_if(ok, StreamPhase::Probing)
        },
        (StreamPhase::Probing, StreamEvent::Probed(ok)) => session.advance_if(
            ok,
            StreamPhase::Selecting,
        ),
        (StreamPhase::Selecting, StreamEvent::Selected(Some(track))) => session.select(track),
        (StreamPhase::Selecting, StreamEvent::Selected(None)) => session.advance_if(
            false,
            StreamPhase::MakingDecoder,
        ),
        (StreamPhase::MakingDecoder, StreamEvent::DecoderMade(ok)) => session.advance_if(
            ok,
            StreamPhase::Checking,
        ),
        (StreamPhase::Checking, StreamEvent::StopFlag(stopped)) => session.advance_if(
            !stopped,
            StreamPhase::Reading,
        ),
        (StreamPhase::Reading, StreamEvent::Read(PacketRead::Packet(id))) => {
            let phase = if id == session.track_id {
                StreamPhase::Decoding
            } else {
                StreamPhase::Checking
            };
            StreamSession { phase, ..session }
        },
        (StreamPhase::Reading, StreamEvent::Read(_)) => session.advance_if(
            false,
            StreamPhase::Decoding,
        ),
        (StreamPhase::Decoding, StreamEvent::Decoded { ok, epoch }) => {
            if epoch != session.epoch {
                session.advance_if(false, StreamPhase::Checking)
            } else {
                output.append = ok;
                output.play = ok && !session.started;
                StreamSession {
                    phase: StreamPhase::Checking,
                    started: session.started || ok,
                    ..session
                }
            }
        },
        _ => session,
    };
    (next, output)
}

// ---------------------------------------------------------------------------
// Laws
// ---------------------------------------------------------------------------

/// The session behind a series of events.
pub open spec fn after_stream_events(
    session: StreamSession,
    events: Seq<StreamEvent>,
) -> StreamSession
    decreases events.len(),
{
    if events.len() == 0 {
        session
    } else {
        after_stream_events(session, events.drop_last()).next(events.last())
    }
}

/// What the event at `i` led to.
pub open spec fn output_at(
    session: StreamSession,
    events: Seq<StreamEvent>,
    i: int,
) -> StreamOutput {
    after_stream_events(session, events.take(i)).output(events[i])
}

/// A stream that is over stays over and is not heard of again.
pub proof fn ended_stream_is_silent(session: StreamSession, event: StreamEvent)
    requires
        session.phase == StreamPhase::Ended,
    ensures
        session.next(event) == session,
        session.output(event) == nothing(),
{
}

/// Samples of another epoch are never heard: after a switch of channels no stale audio comes.
pub proof fn stale_audio_is_never_heard(session: StreamSession, ok: bool, epoch: u64)
    requires
        epoch != session.epoch,
    ensures
        session.output(StreamEvent::Decoded { ok, epoch }) == nothing(),
{
}

/// A stream that has been stopped reads no further packet.
pub proof fn stopped_stream_ends(session: StreamSession)
    requires
        session.phase == StreamPhase::Checking,
    ensures
        session.next(StreamEvent::StopFlag(true)).phase == StreamPhase::Ended,
{
}

/// A packet of another track is not decoded.
pub proof fn other_tracks_are_skipped(session: StreamSession, id: u32)
    requires
        session.phase == StreamPhase::Reading,
        id != session.track_id,
    ensures
        session.next(StreamEvent::Read(PacketRead::Packet(id))) == session.at(
            StreamPhase::Checking,
        ),
{
}

/// A stream belongs to one epoch for good, and once samples were appended that stays so.
pub proof fn epoch_is_kept(session: StreamSession, events: Seq<StreamEvent>)
    ensures
        after_stream_events(session, events).epoch == session.epoch,
        session.started ==> after_stream_events(session, events).started,
    decreases events.len(),
{
    if events.len() > 0 {
        epoch_is_kept(session, events.drop_last());
    }
}

/// What a series of events leads to does not depend on how it is cut in two.
proof fn events_compose(session: StreamSession, first: Seq<StreamEvent>, second: Seq<StreamEvent>)
    ensures
        after_stream_events(session, first + second) == after_stream_events(
            after_stream_events(session, first),
            second,
        ),
    decreases second.len(),
{
    if second.len() == 0 {
        assert(first + second =~= first);
    } else {
        assert((first + second).drop_last() =~= first + second.drop_last());
        events_compose(session, first, second.drop_last());
    }
}

/// The sink is made to play once: by the first samples, and by none after them.
pub proof fn playing_starts_once(
    session: StreamSession,
    events: Seq<StreamEvent>,
    i: int,
    j: int,
)
    requires
        0 <= i < j < events.len(),
        output_at(session, events, i).append,
    ensures
        !output_at(session, events, j).play,
{
    let before = events.take(i + 1);
    assert(before.drop_last() =~= events.take(i));
    assert(after_stream_events(session, before).started);
    let between = events.subrange(i + 1, j);
    assert(events.take(j) =~= before + between);
    events_compose(session, before, between);
    epoch_is_kept(after_stream_events(session, before), between);
}

/// A connection is reported as standing exactly when the first data has come, and as failed
/// exactly when the stream ends before that.
pub proof fn connected_means_data_received(session: StreamSession, event: StreamEvent)
    ensures
        session.output(event).connected == Some(true) <==> session.phase == StreamPhase::Receiving
            && event == StreamEvent::FirstData(true),
        session.output(event).connected == Some(false) <==> is_starting(session.phase)
            && session.next(event).phase == StreamPhase::Ended,
{
}

/// The connection is reported once, before anything is heard.
pub proof fn connection_is_reported_once(
    session: StreamSession,
    events: Seq<StreamEvent>,
    i: int,
    j: int,
)
    requires
        0 <= i < j < events.len(),
        output_at(session, events, i).connected is Some || output_at(session, events, i).append,
    ensures
        output_at(session, events, j).connected is None,
{
    let before = events.take(i + 1);
    assert(before.drop_last() =~= events.take(i));
    let between = events.subrange(i + 1, j);
    assert(events.take(j) =~= before + between);
    events_compose(session, before, between);
    start_is_not_returned_to(after_stream_events(session, before), between);
}

/// Whether the stream has still to show that it is there.
pub open spec fn is_starting(phase: StreamPhase) -> bool {
    phase == StreamPhase::Opening || phase == StreamPhase::Receiving
}

proof fn start_is_not_returned_to(session: StreamSession, events: Seq<StreamEvent>)
    requires
        !is_starting(session.phase),
    ensures
        !is_starting(after_stream_events(session, events).phase),
    decreases events.len(),
{
    if events.len() > 0 {
        start_is_not_returned_to(session, events.drop_last());
    }
}

/// A session plays with the parameters of its track: its rate and its number of channels, of
/// which 16 bits count, or 44100 per second and two channels where the track does not say.
pub proof fn session_plays_with_the_parameters_of_its_track(session: StreamSession, track: Track)
    requires
        session.phase == StreamPhase::Selecting,
    ensures
        ({
            let next = session.next(StreamEvent::Selected(Some(track)));
            &&& next.phase == StreamPhase::MakingDecoder
            &&& next.track_id == track.id
            &&& track.sample_rate matches Some(rate) ==> next.sample_rate == rate
            &&& track.sample_rate is None ==> next.sample_rate == 44100
            &&& track.channels matches Some(count) ==> next.channels == count % 0x10000
            &&& track.channels is None ==> next.channels == 2
            &&& next.epoch == session.epoch
            &&& next.started == session.started
        }),
{
    if let Some(count) = track.channels {
        assert(count as u16 == count % 0x10000) by (bit_vector);
    }
}

/// Whether the track has been selected, or never will be.
pub open spec fn is_settled(phase: StreamPhase) -> bool {
    match phase {
        StreamPhase::Opening => false,
        StreamPhase::Receiving => false,
        StreamPhase::Probing => false,
        StreamPhase::Selecting => false,
        _ => true,
    }
}

/// Once the track has been selected, its parameters stay, whatever comes later.
pub proof fn parameters_of_the_track_are_kept(session: StreamSession, events: Seq<StreamEvent>)
    requires
        is_settled(session.phase),
    ensures
        ({
            let after = after_stream_events(session, events);
            &&& is_settled(after.phase)
            &&& after.track_id == session.track_id
            &&& after.sample_rate == session.sample_rate
            &&& after.channels == session.channels
        }),
    decreases events.len(),
{
    if events.len() > 0 {
        parameters_of_the_track_are_kept(session, events.drop_last());
    }
}

/// The track that was selected is the one that is played: after any further events the session
/// has its parameters still.
pub proof fn selected_track_is_played_throughout(
    session: StreamSession,
    track: Track,
    events: Seq<StreamEvent>,
)
    requires
        session.phase == StreamPhase::Selecting,
    ensures
        ({
            let after = after_stream_events(
                session.next(StreamEvent::Selected(Some(track))),
                events,
            );
            &&& after.track_id == track.id
            &&& track.sample_rate matches Some(rate) ==> after.sample_rate == rate
            &&& track.channels matches Some(count) ==> count <= u16::MAX ==> after.channels == count
        }),
{
    session_plays_with_the_parameters_of_its_track(session, track);
    parameters_of_the_track_are_kept(session.next(StreamEvent::Selected(Some(track))), events);
}

/// Each step that succeeds leads to the next: connecting, first data, format, decoder. One that
/// fails, or a stream without a track, ends the stream.
pub proof fn stream_starts_step_by_step(session: StreamSession)
    ensures
        session.phase == StreamPhase::Opening ==> {
            &&& session.next(StreamEvent::Opened(true)) == session.at(StreamPhase::Receiving)
            &&& session.next(StreamEvent::Opened(false)) == session.at(StreamPhase::Ended)
        },
        session.phase == StreamPhase::Receiving ==> {
            &&& session.next(StreamEvent::FirstData(true)) == session.at(StreamPhase::Probing)
            &&& session.next(StreamEvent::FirstData(false)) == session.at(StreamPhase::Ended)
        },
        session.phase == StreamPhase::Probing ==> {
            &&& session.next(StreamEvent::Probed(true)) == session.at(StreamPhase::Selecting)
            &&& session.next(StreamEvent::Probed(false)) == session.at(StreamPhase::Ended)
        },
        session.phase == StreamPhase::Selecting ==> session.next(StreamEvent::Selected(None))
            == session.at(StreamPhase::Ended),
        session.phase == StreamPhase::MakingDecoder ==> {
            &&& session.next(StreamEvent::DecoderMade(true)) == session.at(StreamPhase::Checking)
            &&& session.next(StreamEvent::DecoderMade(false)) == session.at(StreamPhase::Ended)
        },
        forall|phase: StreamPhase| (#[trigger] session.at(phase)).phase == phase,
        forall|phase: StreamPhase|
            #![trigger session.at(phase)]
            session.at(phase).epoch == session.epoch && session.at(phase).track_id
                == session.track_id && session.at(phase).sample_rate == session.sample_rate
                && session.at(phase).channels == session.channels && session.at(phase).started
                == session.started,
{
}

/// A stream that is not stopped is heard packet by packet: each packet of its track is decoded,
/// and what is decoded in the epoch of the stream is played. A packet that cannot be decoded is
/// passed over.
pub proof fn packets_of_the_track_are_heard(session: StreamSession, ok: bool)
    requires
        session.phase == StreamPhase::Checking,
    ensures
        ({
            let reading = session.next(StreamEvent::StopFlag(false));
            let decoding = reading.next(StreamEvent::Read(PacketRead::Packet(session.track_id)));
            let decoded = StreamEvent::Decoded { ok, epoch: session.epoch };
            &&& reading.phase == StreamPhase::Reading
            &&& decoding.phase == StreamPhase::Decoding
            &&& decoding.output(decoded).append == ok
            &&& decoding.output(decoded).play == (ok && !session.started)
            &&& decoding.next(decoded) == (StreamSession {
                started: session.started || ok,
                ..session
            })
        }),
{
}

/// Where reading gives no packet, the stream ends; so it does once its epoch is over.
pub proof fn stream_ends_with_its_packets_or_its_epoch(
    session: StreamSession,
    read: PacketRead,
    ok: bool,
    epoch: u64,
)
    ensures
        session.phase == StreamPhase::Reading && !(read is Packet) ==> session.next(
            StreamEvent::Read(read),
        ) == session.at(StreamPhase::Ended),
        session.phase == StreamPhase::Decoding && epoch != session.epoch ==> session.next(
            StreamEvent::Decoded { ok, epoch },
        ) == session.at(StreamPhase::Ended),
        session.phase == StreamPhase::Checking ==> session.next(StreamEvent::StopFlag(true))
            == session.at(StreamPhase::Ended),
{
}

/// Samples are appended only where a packet was decoded in the epoch of the stream, and only
/// then is the sink made to play.
pub proof fn nothing_else_is_heard(session: StreamSession, event: StreamEvent)
    ensures
        session.output(event).append <==> session.phase == StreamPhase::Decoding && event == (
        StreamEvent::Decoded { ok: true, epoch: session.epoch }),
        session.output(event).play <==> session.output(event).append && !session.started,
{
}

/// An event that is not the answer to what had to be done changes nothing.
pub proof fn unasked_event_changes_nothing(session: StreamSession, event: StreamEvent)
    requires
        event is Opened ==> session.phase != StreamPhase::Opening,
        event is FirstData ==> session.phase != StreamPhase::Receiving,
        event is Probed ==> session.phase != StreamPhase::Probing,
        event is Selected ==> session.phase != StreamPhase::Selecting,
        event is DecoderMade ==> session.phase != StreamPhase::MakingDecoder,
        event is StopFlag ==> session.phase != StreamPhase::Checking,
        event is Read ==> session.phase != StreamPhase::Reading,
        event is Decoded ==> session.phase != StreamPhase::Decoding,
    ensures
        session.next(event) == session,
        session.output(event) == nothing(),
{
}

/// Nothing is reported and nothing is heard where there is nothing to say.
pub proof fn nothing_says_nothing()
    ensures
        nothing().connected is None,
        !nothing().append,
        !nothing().play,
{
}

} // verus!
