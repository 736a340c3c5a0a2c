//! HTTP Live Streaming: following a playlist and reading its segments as one stream.
use crate::mpegts::demux_ts_audio;
use crate::text::{join, split_before_last, starts_with};
use std::collections::VecDeque;
use vstd::prelude::*;

verus! {

broadcast use vstd::string::group_string_axioms;

// ---------------------------------------------------------------------------
// Playlists
// ---------------------------------------------------------------------------

/// What a playlist says that the reader acts on.
pub enum Playlist {
    /// A list of segments, numbered upwards from `media_sequence`.
    Media { media_sequence: u64, target_duration: u64, uris: Vec<String> },
    /// A list of variants, each with a playlist of its own.
    Master { uris: Vec<String> },
}

/// The contents of a [`Playlist`].
pub enum PlaylistView {
    Media { media_sequence: u64, target_duration: u64, uris: Seq<Seq<char>> },
    Master { uris: Seq<Seq<char>> },
}

impl View for Playlist {
    type V = PlaylistView;

    open spec fn view(&self) -> PlaylistView {
        match *self {
            Playlist::Media { media_sequence, target_duration, uris } => PlaylistView::Media {
                media_sequence,
                target_duration,
                uris: crate::text::string_views(uris@),
            },
            Playlist::Master { uris } => PlaylistView::Master {
                uris: crate::text::string_views(uris@),
            },
        }
    }
}

/// What `m3u8_rs::parse_playlist_res` makes of the bytes of a playlist: the segment or
/// variant URIs with the sequence number and target duration, or the text of its error.
pub uninterp spec fn parsed_playlist(body: Seq<u8>) -> Result<PlaylistView, Seq<char>>;

pub open spec fn playlist_result(r: Result<Playlist, String>) -> Result<PlaylistView, Seq<char>> {
    match r {
        Ok(p) => Ok(p@),
        Err(e) => Err(e@),
    }
}

/// Calls `m3u8_rs::parse_playlist_res` and keeps of the playlist what [`Playlist`] holds; of
/// an error it keeps the debug text. Trusted: the result is a function of the bytes alone,
/// named [`parsed_playlist`]; what the grammar accepts is left to that crate.
#[verifier::external_body]
fn parse_playlist(body: &[u8]) -> (r: Result<Playlist, String>)
    ensures
        playlist_result(r) == parsed_playlist(body@),
{
    match m3u8_rs::parse_playlist_res(body) {
        Ok(m3u8_rs::Playlist::MediaPlaylist(p)) => Ok(
            Playlist::Media {
                media_sequence: p.media_sequence,
                target_duration: p.target_duration,
                uris: p.segments.into_iter().map(|s| s.uri).collect(),
            },
        ),
        Ok(m3u8_rs::Playlist::MasterPlaylist(m)) => Ok(
            Playlist::Master { uris: m.variants.into_iter().map(|v| v.uri).collect() },
        ),
        Err(e) => Err(format!("{:?}", e)),
    }
}

// ---------------------------------------------------------------------------
// Addresses
// ---------------------------------------------------------------------------

/// Whether a stream is served through a playlist.
pub open spec fn is_hls(url: Seq<char>) -> bool {
    crate::text::contains_text(url, ".m3u8"@)
}

pub fn is_hls_url(url: &str) -> (b: bool)
    ensures
        b == is_hls(url@),
{
    crate::text::contains(url, ".m3u8")
}

/// The address up to and including its last slash, or `fallback` where it has none.
pub open spec fn base_of(url: Seq<char>, fallback: Seq<char>) -> Seq<char> {
    match crate::text::before_last(url, '/') {
        Some(head) => head + "/"@,
        None => fallback,
    }
}

fn base_url_of(url: &str, fallback: &str) -> (base: String)
    ensures
        base@ == base_of(url@, fallback@),
{
    match split_before_last(url, '/') {
        Some(head) => join(head, "/"),
        None => fallback.to_string(),
    }
}

/// A URI that starts with `http` stands for itself, any other is relative to the base.
pub open spec fn resolved(base: Seq<char>, uri: Seq<char>) -> Seq<char> {
    if "http"@.is_prefix_of(uri) {
        uri
    } else {
        base + uri
    }
}

fn resolve(base: &str, uri: &str) -> (url: String)
    ensures
        url@ == resolved(base@, uri@),
{
    if starts_with(uri, "http") {
        uri.to_string()
    } else {
        join(base, uri)
    }
}

// ---------------------------------------------------------------------------
// The reader
// ---------------------------------------------------------------------------

/// Reader that fetches the segments of a playlist and presents them as a continuous stream.
///
/// The playlist of a live stream is fetched again and again to find new segments; the number
/// of the next expected segment tells those from the ones already taken. Fetching is left to
/// the caller: the reader says what to fetch and takes what came.
pub struct HlsReader {
    /// Base of relative segment addresses.
    base_url: String,
    /// Where the playlist is fetched from.
    playlist_url: String,
    /// The audio of the current segment.
    current_segment: Vec<u8>,
    /// How much of it has been read.
    position: usize,
    /// Addresses of segments still to be fetched.
    pending_segments: VecDeque<String>,
    /// Number of the next segment that has not been seen.
    next_media_sequence: u64,
    /// Target duration of a segment in seconds.
    target_duration: u64,
}

/// The contents of an [`HlsReader`].
#[verifier::ext_equal]
pub struct HlsView {
    pub base_url: Seq<char>,
    pub playlist_url: Seq<char>,
    /// What is left to read of the current segment.
    pub unread: Seq<u8>,
    pub pending: Seq<Seq<char>>,
    pub next_sequence: u64,
    pub target_duration: u64,
}

impl View for HlsReader {
    type V = HlsView;

    closed spec fn view(&self) -> HlsView {
        HlsView {
            base_url: self.base_url@,
            playlist_url: self.playlist_url@,
            unread: self.current_segment@.skip(self.position as int),
            pending: crate::text::string_views(self.pending_segments@),
            next_sequence: self.next_media_sequence,
            target_duration: self.target_duration,
        }
    }
}

/// How many of the segments numbered from `media_sequence` upwards have been seen, where
/// `next` is the number of the first one that has not.
pub open spec fn seen(media_sequence: u64, count: int, next: u64) -> int {
    if next <= media_sequence {
        0
    } else if next - media_sequence < count {
        next - media_sequence
    } else {
        count
    }
}

impl HlsView {
    /// After a media playlist: its unseen segments are pending behind those that were, and
    /// the next expected segment is the one behind the last that was queued.
    pub open spec fn with_media(
        self,
        media_sequence: u64,
        target_duration: u64,
        uris: Seq<Seq<char>>,
    ) -> HlsView {
        let skip = seen(media_sequence, uris.len() as int, self.next_sequence);
        let base = self.base_url;
        HlsView {
            pending: self.pending + uris.skip(skip).map_values(
                |uri: Seq<char>| resolved(base, uri),
            ),
            next_sequence: if skip < uris.len() {
                (media_sequence + uris.len()) as u64
            } else {
                self.next_sequence
            },
            target_duration,
            ..self
        }
    }

    /// After a master playlist: the first variant is the playlist from now on.
    pub open spec fn with_variant(self, uri: Seq<char>) -> HlsView {
        let url = resolved(self.base_url, uri);
        HlsView { playlist_url: url, base_url: base_of(url, self.base_url), ..self }
    }

    /// After a playlist: nothing changes where it is refused.
    pub open spec fn with_playlist(self, playlist: PlaylistView) -> HlsView {
        if !sequence_fits(playlist) {
            self
        } else {
            match playlist {
                PlaylistView::Media { media_sequence, target_duration, uris } => {
                    self.with_media(media_sequence, target_duration, uris)
                },
                PlaylistView::Master { uris } => if uris.len() > 0 {
                    self.with_variant(uris[0])
                } else {
                    self
                },
            }
        }
    }

    /// After a segment has come: its audio is what is read.
    pub open spec fn with_segment(self, data: Seq<u8>) -> HlsView {
        HlsView { unread: segment_audio(data), ..self }
    }

    /// How many bytes come into a buffer of this size.
    pub open spec fn readable(self, size: nat) -> nat {
        if size <= self.unread.len() {
            size
        } else {
            self.unread.len()
        }
    }

    /// After a buffer of this size has been read into.
    pub open spec fn after_read(self, size: nat) -> HlsView {
        HlsView { unread: self.unread.skip(self.readable(size) as int), ..self }
    }
}

/// What became of a playlist.
#[derive(Debug, Clone, Copy, PartialEq, Eq, Structural)]
pub enum Refreshed {
    /// Its new segments are queued.
    Updated,
    /// It named another playlist, which has to be fetched next.
    Follow,
}

/// Why a playlist was refused.
#[derive(Debug)]
pub enum PlaylistError {
    /// It could not be parsed; the text says why.
    Invalid(String),
    /// A master playlist without variants.
    EmptyMaster,
    /// Its segment numbers do not fit in 64 bits.
    SequenceOverflow,
}

/// Whether the number behind the last segment of a playlist fits in 64 bits.
pub open spec fn sequence_fits(playlist: PlaylistView) -> bool {
    playlist matches PlaylistView::Media { media_sequence, uris, .. } ==> media_sequence
        + uris.len() <= u64::MAX
}

/// What becomes of a playlist.
pub open spec fn refresh_result(playlist: PlaylistView) -> Result<Refreshed, PlaylistError> {
    if !sequence_fits(playlist) {
        Err(PlaylistError::SequenceOverflow)
    } else {
        match playlist {
            PlaylistView::Media { .. } => Ok(Refreshed::Updated),
            PlaylistView::Master { uris } => if uris.len() > 0 {
                Ok(Refreshed::Follow)
            } else {
                Err(PlaylistError::EmptyMaster)
            },
        }
    }
}

impl HlsReader {
    pub closed spec fn wf(self) -> bool {
        self.position <= self.current_segment@.len()
    }

    /// A reader of the playlist at `url`, with nothing fetched yet.
    pub fn new(url: &str) -> (reader: HlsReader)
        ensures
            reader.wf(),
            reader@ == (HlsView {
                base_url: base_of(url@, url@),
                playlist_url: url@,
                unread: Seq::empty(),
                pending: Seq::empty(),
                next_sequence: 0,
                target_duration: 6,
            }),
    {
        let reader = HlsReader {
            base_url: base_url_of(url, url),
            playlist_url: url.to_string(),
            current_segment: Vec::new(),
            position: 0,
            pending_segments: VecDeque::new(),
            next_media_sequence: 0,
            target_duration: 6,
        };
        assert(reader@.unread =~= Seq::empty());
        assert(reader@.pending =~= Seq::empty());
        reader
    }

    /// Where the playlist has to be fetched from.
    pub fn playlist_url(&self) -> (url: &str)
        ensures
            url@ == self@.playlist_url,
    {
        self.playlist_url.as_str()
    }

    /// Number of the next segment that has not been seen.
    pub fn next_media_sequence(&self) -> (n: u64)
        ensures
            n == self@.next_sequence,
    {
        self.next_media_sequence
    }

    /// How many segments are queued.
    pub fn pending_len(&self) -> (n: usize)
        ensures
            n == self@.pending.len(),
    {
        self.pending_segments.len()
    }

    /// Queues the segments that have not been seen yet.
    fn enqueue_new(&mut self, media_sequence: u64, target_duration: u64, uris: &Vec<String>)
        requires
            old(self).wf(),
            media_sequence + uris@.len() <= u64::MAX,
        ensures
            final(self).wf(),
            final(self)@ == old(self)@.with_media(
                media_sequence,
                target_duration,
                crate::text::string_views(uris@),
            ),
    {
        self.target_duration = target_duration;
        let ghost before = old(self)@;
        let ghost all = crate::text::string_views(uris@);
        let ghost skip = seen(media_sequence, all.len() as int, before.next_sequence);
        let ghost base = before.base_url;
        let mut i: usize = 0;
        while i < uris.len()
            invariant
                i <= uris@.len(),
                media_sequence + uris@.len() <= u64::MAX,
                self.wf(),
                all == crate::text::string_views(uris@),
                skip == seen(media_sequence, all.len() as int, before.next_sequence),
                base == before.base_url,
                self@ == (HlsView {
                    pending: before.pending + all.subrange(
                        skip,
                        if i < skip {
                            skip
                        } else {
                            i as int
                        },
                    ).map_values(|uri: Seq<char>| resolved(base, uri)),
                    next_sequence: if skip < i {
                        (media_sequence + i) as u64
                    } else {
                        before.next_sequence
                    },
                    target_duration,
                    ..before
                }),
            decreases uris@.len() - i,
        {
            let seq: u64 = media_sequence + i as u64;
            if seq >= self.next_media_sequence {
                let url = resolve(self.base_url.as_str(), uris[i].as_str());
                let ghost queue = self.pending_segments@;
                self.pending_segments.push_back(url);
                self.next_media_sequence = seq + 1;
                assert(crate::text::string_views(self.pending_segments@)
                    =~= crate::text::string_views(queue).push(url@));
                assert(all[i as int] == uris@[i as int]@);
                assert(all.subrange(skip, i + 1) =~= all.subrange(skip, i as int).push(
                    all[i as int],
                ));
            }
            i += 1;
            assert(self@ =~= (HlsView {
                pending: before.pending + all.subrange(
                    skip,
                    if i < skip {
                        skip
                    } else {
                        i as int
                    },
                ).map_values(|uri: Seq<char>| resolved(base, uri)),
                next_sequence: if skip < i {
                    (media_sequence + i) as u64
                } else {
                    before.next_sequence
                },
                target_duration,
                ..before
            }));
        }
        assert(all.subrange(skip, all.len() as int) =~= all.skip(skip));
        assert(self@ =~= before.with_media(media_sequence, target_duration, all));
    }

    /// Takes over a playlist: queues what is new, or turns to the first variant. A master
    /// playlist without variants is refused, and nothing changes.
    pub fn apply_playlist(&mut self, playlist: &Playlist) -> (r: Result<Refreshed, PlaylistError>)
        requires
            old(self).wf(),
            sequence_fits(playlist@),
        ensures
            final(self).wf(),
            final(self)@ == old(self)@.with_playlist(playlist@),
            r == refresh_result(playlist@),
    {
        match playlist {
            Playlist::Media { media_sequence, target_duration, uris } => {
                self.enqueue_new(*media_sequence, *target_duration, uris);
                Ok(Refreshed::Updated)
            },
            Playlist::Master { uris } => {
                if uris.len() == 0 {
                    return Err(PlaylistError::EmptyMaster);
                }
                assert(crate::text::string_views(uris@)[0] == uris@[0]@);
                let url = resolve(self.base_url.as_str(), uris[0].as_str());
                self.base_url = base_url_of(url.as_str(), self.base_url.as_str());
                self.playlist_url = url;
                assert(self@ =~= old(self)@.with_variant(crate::text::string_views(uris@)[0]));
                Ok(Refreshed::Follow)
            },
        }
    }

    /// Takes over the playlist whose text was fetched from [`HlsReader::playlist_url`].
    ///
    /// A playlist that does not parse, that is an empty master playlist, or whose segment
    /// numbers do not fit in 64 bits is refused, and nothing changes.
    pub fn refresh_playlist(&mut self, body: &str) -> (r: Result<Refreshed, PlaylistError>)
        requires
            old(self).wf(),
        ensures
            final(self).wf(),
            match parsed_playlist(vstd::utf8::encode_utf8(body@)) {
                Err(message) => {
                    &&& r matches Err(PlaylistError::Invalid(text)) && text@ == message
                    &&& final(self)@ == old(self)@
                },
                Ok(playlist) => {
                    &&& r == refresh_result(playlist)
                    &&& final(self)@ == old(self)@.with_playlist(playlist)
                },
            },
    {
        match parse_playlist(body.as_bytes()) {
            Err(message) => Err(PlaylistError::Invalid(message)),
            Ok(playlist) => {
                let fits = match &playlist {
                    Playlist::Media { media_sequence, uris, .. } => uris.len() as u64 <= u64::MAX
                        - *media_sequence,
                    Playlist::Master { .. } => true,
                };
                if fits {
                    self.apply_playlist(&playlist)
                } else {
                    Err(PlaylistError::SequenceOverflow)
                }
            },
        }
    }

    /// Starts fetching the next segment.
    pub fn begin_fetch(&self) -> (fetch: SegmentFetch)
        ensures
            fetch.refreshes == 0,
            fetch.wait_ms == refresh_wait(self@.target_duration),
    {
        SegmentFetch { refreshes: 0, wait_ms: refresh_wait_ms(self.target_duration) }
    }

    /// What to do next in order to get a segment: fetch the first one that is queued, wait and
    /// refresh the playlist at most twice where none is, and then give up.
    pub fn next_fetch(&mut self, fetch: &mut SegmentFetch) -> (action: FetchAction)
        requires
            old(self).wf(),
        ensures
            final(self).wf(),
            final(fetch).wait_ms == old(fetch).wait_ms,
            if old(self)@.pending.len() > 0 {
                &&& action matches FetchAction::Fetch(url) && url@ == old(self)@.pending[0]
                &&& final(self)@ == (HlsView {
                    pending: old(self)@.pending.drop_first(),
                    ..old(self)@
                })
                &&& final(fetch).refreshes == old(fetch).refreshes
            } else {
                &&& final(self)@ == old(self)@
                &&& if old(fetch).refreshes < 2 {
                    &&& action == FetchAction::WaitAndRefresh(old(fetch).wait_ms)
                    &&& final(fetch).refreshes == old(fetch).refreshes + 1
                } else {
                    &&& action == FetchAction::EndOfStream
                    &&& final(fetch).refreshes == old(fetch).refreshes
                }
            },
    {
        match self.pending_segments.pop_front() {
            Some(url) => {
                assert(old(self)@.pending[0] == url@);
                assert(self@ =~= (HlsView {
                    pending: old(self)@.pending.drop_first(),
                    ..old(self)@
                }));
                FetchAction::Fetch(url)
            },
            None => {
                if fetch.refreshes < 2 {
                    fetch.refreshes = fetch.refreshes + 1;
                    FetchAction::WaitAndRefresh(fetch.wait_ms)
                } else {
                    FetchAction::EndOfStream
                }
            },
        }
    }

    /// Takes the data of a fetched segment: from now on its audio is what is read.
    pub fn accept_segment(&mut self, data: Vec<u8>)
        requires
            old(self).wf(),
        ensures
            final(self).wf(),
            final(self)@ == old(self)@.with_segment(data@),
    {
        let audio = if data.len() >= 188 && data[0] == 0x47 {
            demux_ts_audio(data.as_slice())
        } else {
            data
        };
        self.current_segment = audio;
        self.position = 0;
        assert(self@ =~= old(self)@.with_segment(data@));
    }

    /// Reads from the current segment into the front of `buf`; returns how many bytes came.
    pub fn read_segment(&mut self, buf: &mut [u8]) -> (n: usize)
        requires
            old(self).wf(),
        ensures
            final(self).wf(),
            n == old(self)@.readable(old(buf)@.len()),
            final(buf)@ == old(self)@.unread.take(n as int) + old(buf)@.skip(n as int),
            final(self)@ == old(self)@.after_read(old(buf)@.len()),
    {
        let total: usize = self.current_segment.len();
        let left: usize = total - self.position;
        let n: usize = if buf.len() <= left {
            buf.len()
        } else {
            left
        };
        let ghost before = self@.unread;
        let start: usize = self.position;
        let mut i: usize = 0;
        while i < n
            invariant
                i <= n,
                n <= buf@.len(),
                buf@.len() == old(buf)@.len(),
                total == self.current_segment@.len(),
                start + n <= total,
                before == self.current_segment@.skip(start as int),
                buf@ =~= before.take(i as int) + old(buf)@.skip(i as int),
            decreases n - i,
        {
            buf[i] = self.current_segment[start + i];
            i += 1;
        }
        self.position = start + n;
        assert(self@ =~= old(self)@.after_read(old(buf)@.len()));
        n
    }

    /// One attempt to read. A reader that was stopped says so; one whose segment is used up
    /// asks for the next. Into an empty buffer nothing is read, and nothing changes.
    pub fn read(&mut self, buf: &mut [u8], stopped: bool) -> (outcome: ReadOutcome)
        requires
            old(self).wf(),
        ensures
            final(self).wf(),
            if stopped {
                &&& outcome == ReadOutcome::Interrupted
                &&& final(self)@ == old(self)@
                &&& final(buf)@ == old(buf)@
            } else if old(buf)@.len() == 0 {
                &&& outcome == ReadOutcome::Read(0)
                &&& final(self)@ == old(self)@
                &&& final(buf)@ == old(buf)@
            } else if old(self)@.unread.len() == 0 {
                &&& outcome == ReadOutcome::NeedSegment
                &&& final(self)@ == old(self)@
                &&& final(buf)@ == old(buf)@
            } else {
                &&& outcome matches ReadOutcome::Read(n)
                &&& n == old(self)@.readable(old(buf)@.len())
                &&& final(buf)@ == old(self)@.unread.take(n as int) + old(buf)@.skip(n as int)
                &&& final(self)@ == old(self)@.after_read(old(buf)@.len())
            },
    {
        if stopped {
            return ReadOutcome::Interrupted;
        }
        if buf.len() == 0 {
            return ReadOutcome::Read(0);
        }
        let n = self.read_segment(buf);
        if n > 0 {
            ReadOutcome::Read(n)
        } else {
            assert(old(self)@.unread.skip(0) =~= old(self)@.unread);
            assert(old(self)@.unread.take(0) + old(buf)@.skip(0) =~= old(buf)@);
            ReadOutcome::NeedSegment
        }
    }
}

/// The audio of a segment: extracted where the segment is a transport stream, and else the
/// segment itself.
pub open spec fn segment_audio(data: Seq<u8>) -> Seq<u8> {
    if data.len() >= 188 && data[0] == 0x47 {
        crate::mpegts::demuxed(data)
    } else {
        data
    }
}

/// Half the target duration in milliseconds, and at least half a second.
pub open spec fn refresh_wait(target_duration: u64) -> int {
    let half = target_duration * 500;
    if half < 500 {
        500
    } else if half > u64::MAX {
        u64::MAX as int
    } else {
        half
    }
}

/// How long to wait before an exhausted playlist is fetched again.
pub fn refresh_wait_ms(target_duration: u64) -> (ms: u64)
    ensures
        ms == refresh_wait(target_duration),
{
    match target_duration.checked_mul(500) {
        Some(half) => if half < 500 {
            500
        } else {
            half
        },
        None => u64::MAX,
    }
}

/// The state of getting one segment.
pub struct SegmentFetch {
    /// How often the playlist has been refreshed for it.
    pub refreshes: u8,
    /// How long to wait before each refresh, in milliseconds.
    pub wait_ms: u64,
}

/// The next step on the way to a segment.
#[derive(Debug)]
pub enum FetchAction {
    /// Fetch this address and hand the data to [`HlsReader::accept_segment`].
    Fetch(String),
    /// Wait so many milliseconds, then refresh the playlist.
    WaitAndRefresh(u64),
    /// The playlist has run dry.
    EndOfStream,
}

/// What an attempt to read came to.
#[derive(Debug, Clone, Copy, PartialEq, Eq, Structural)]
pub enum ReadOutcome {
    Interrupted,
    Read(usize),
    NeedSegment,
}

// ---------------------------------------------------------------------------
// Laws
// ---------------------------------------------------------------------------

/// A playlist that has been taken over adds nothing when it comes again.
pub proof fn same_playlist_adds_nothing(
    reader: HlsView,
    media_sequence: u64,
    target_duration: u64,
    uris: Seq<Seq<char>>,
)
    requires
        media_sequence + uris.len() <= u64::MAX,
    ensures
        ({
            let once = reader.with_media(media_sequence, target_duration, uris);
            once.with_media(media_sequence, target_duration, uris) == once
        }),
{
    let once = reader.with_media(media_sequence, target_duration, uris);
    let twice = once.with_media(media_sequence, target_duration, uris);
    assert(seen(media_sequence, uris.len() as int, once.next_sequence) == uris.len());
    assert(twice =~= once);
}

/// The number of the next expected segment never goes back, and it is behind every segment of
/// the playlist that was taken over last.
pub proof fn sequence_only_advances(
    reader: HlsView,
    media_sequence: u64,
    target_duration: u64,
    uris: Seq<Seq<char>>,
)
    requires
        media_sequence + uris.len() <= u64::MAX,
    ensures
        reader.next_sequence <= reader.with_media(
            media_sequence,
            target_duration,
            uris,
        ).next_sequence,
        uris.len() > 0 ==> media_sequence + uris.len() <= reader.with_media(
            media_sequence,
            target_duration,
            uris,
        ).next_sequence,
{
}

/// The numbers of the segments that a playlist queues, in the order in which they are queued.
pub open spec fn queued(reader: HlsView, playlist: PlaylistView) -> Seq<int> {
    match playlist {
        PlaylistView::Media { media_sequence, uris, .. } => if sequence_fits(playlist) {
            let skip = seen(media_sequence, uris.len() as int, reader.next_sequence);
            Seq::new((uris.len() - skip) as nat, |i: int| media_sequence + skip + i)
        } else {
            Seq::empty()
        },
        PlaylistView::Master { .. } => Seq::empty(),
    }
}

/// A playlist queues the addresses of the segments with the numbers of [`queued`], and no
/// others, behind those that were queued before.
pub proof fn queue_grows_by_what_is_queued(reader: HlsView, playlist: PlaylistView)
    ensures
        ({
            let after = reader.with_playlist(playlist);
            let numbers = queued(reader, playlist);
            &&& after.pending.len() == reader.pending.len() + numbers.len()
            &&& after.pending.take(reader.pending.len() as int) == reader.pending
            &&& playlist matches PlaylistView::Media { media_sequence, uris, .. } ==> forall|i: int|
                0 <= i < numbers.len() ==> #[trigger] after.pending[reader.pending.len() + i]
                    == resolved(reader.base_url, uris[numbers[i] - media_sequence])
        }),
{
    let after = reader.with_playlist(playlist);
    assert(after.pending.take(reader.pending.len() as int) =~= reader.pending);
}

/// What a reader does to follow a live stream: it takes over a playlist, or takes the first
/// segment of its queue in order to fetch it.
pub enum FollowStep {
    Refresh(PlaylistView),
    Fetch,
}

/// The reader after a series of steps.
pub open spec fn after_steps(reader: HlsView, steps: Seq<FollowStep>) -> HlsView
    decreases steps.len(),
{
    if steps.len() == 0 {
        reader
    } else {
        let before = after_steps(reader, steps.drop_last());
        match steps.last() {
            FollowStep::Refresh(playlist) => before.with_playlist(playlist),
            FollowStep::Fetch => if before.pending.len() > 0 {
                HlsView { pending: before.pending.drop_first(), ..before }
            } else {
                before
            },
        }
    }
}

/// The numbers of all segments that a series of steps queues, in the order in which they are
/// queued.
pub open spec fn all_queued(reader: HlsView, steps: Seq<FollowStep>) -> Seq<int>
    decreases steps.len(),
{
    if steps.len() == 0 {
        Seq::empty()
    } else {
        let rest = steps.drop_last();
        match steps.last() {
            FollowStep::Refresh(playlist) => all_queued(reader, rest) + queued(
                after_steps(reader, rest),
                playlist,
            ),
            FollowStep::Fetch => all_queued(reader, rest),
        }
    }
}

/// Whatever playlists come, segments are queued in the order of their numbers, and none twice;
/// all of them are behind those that had been seen before, and count as seen afterwards.
pub proof fn no_segment_is_queued_twice(reader: HlsView, steps: Seq<FollowStep>)
    ensures
        reader.next_sequence <= after_steps(reader, steps).next_sequence,
        forall|i: int|
            0 <= i < all_queued(reader, steps).len() ==> reader.next_sequence
                <= #[trigger] all_queued(reader, steps)[i]
                < after_steps(reader, steps).next_sequence,
        forall|i: int, j: int|
            0 <= i < j < all_queued(reader, steps).len() ==> #[trigger] all_queued(reader, steps)[i]
                < #[trigger] all_queued(reader, steps)[j],
    decreases steps.len(),
{
    if steps.len() > 0 {
        let rest = steps.drop_last();
        no_segment_is_queued_twice(reader, rest);
        let before = after_steps(reader, rest);
        let earlier = all_queued(reader, rest);
        if let FollowStep::Refresh(playlist) = steps.last() {
            let numbers = queued(before, playlist);
            let after = before.with_playlist(playlist);
            assert(before.next_sequence <= after.next_sequence);
            assert forall|i: int| 0 <= i < numbers.len() implies before.next_sequence
                <= #[trigger] numbers[i] < after.next_sequence by {}
            assert(all_queued(reader, steps) == earlier + numbers);
        }
    }
}

/// A segment whose number has been passed by an earlier playlist is never queued again, whatever
/// playlists come later.
pub proof fn passed_segment_is_never_queued(
    reader: HlsView,
    earlier: Seq<FollowStep>,
    later: Seq<FollowStep>,
    number: int,
)
    requires
        number < after_steps(reader, earlier).next_sequence,
    ensures
        !all_queued(after_steps(reader, earlier), later).contains(number),
{
    no_segment_is_queued_twice(after_steps(reader, earlier), later);
}

/// What happens to a reader: a segment comes, or something is read into a buffer of some size.
pub enum ReaderOp {
    Segment(Seq<u8>),
    Read(nat),
}

/// A reader, and all that has been read from it.
pub struct Playback {
    pub read: Seq<u8>,
    pub reader: HlsView,
}

/// What a series of operations leads to. A segment is taken where the one before it is used up.
pub open spec fn playback(reader: HlsView, ops: Seq<ReaderOp>) -> Playback
    decreases ops.len(),
{
    if ops.len() == 0 {
        Playback { read: Seq::empty(), reader }
    } else {
        let before = playback(reader, ops.drop_last());
        match ops.last() {
            ReaderOp::Segment(data) => if before.reader.unread.len() == 0 {
                Playback { reader: before.reader.with_segment(data), ..before }
            } else {
                before
            },
            ReaderOp::Read(size) => Playback {
                read: before.read + before.reader.unread.take(before.reader.readable(size) as int),
                reader: before.reader.after_read(size),
            },
        }
    }
}

/// What was left to read at first, and the audio of the segments that were taken, one behind
/// the other.
pub open spec fn taken_audio(reader: HlsView, ops: Seq<ReaderOp>) -> Seq<u8>
    decreases ops.len(),
{
    if ops.len() == 0 {
        reader.unread
    } else {
        let rest = ops.drop_last();
        match ops.last() {
            ReaderOp::Segment(data) => if playback(reader, rest).reader.unread.len() == 0 {
                taken_audio(reader, rest) + segment_audio(data)
            } else {
                taken_audio(reader, rest)
            },
            ReaderOp::Read(_) => taken_audio(reader, rest),
        }
    }
}

/// The segments are presented as one continuous stream: what has been read and what is left is
/// the audio of all segments that were taken, without gap, loss or repetition.
pub proof fn segments_make_one_stream(reader: HlsView, ops: Seq<ReaderOp>)
    ensures
        playback(reader, ops).read + playback(reader, ops).reader.unread == taken_audio(
            reader,
            ops,
        ),
    decreases ops.len(),
{
    let now = playback(reader, ops);
    if ops.len() > 0 {
        segments_make_one_stream(reader, ops.drop_last());
        let before = playback(reader, ops.drop_last());
        match ops.last() {
            ReaderOp::Segment(_) => {
                if before.reader.unread.len() == 0 {
                    assert(before.read + before.reader.unread =~= before.read);
                }
            },
            ReaderOp::Read(_) => {
                assert(now.read + now.reader.unread =~= before.read + before.reader.unread);
            },
        }
    } else {
        assert(now.read + now.reader.unread =~= reader.unread);
    }
}

/// A stream is served through a playlist exactly if `.m3u8` stands somewhere in its address.
pub proof fn playlist_is_known_by_its_address(url: Seq<char>)
    ensures
        is_hls(url) <==> exists|a: Seq<char>, b: Seq<char>| url == #[trigger] (a + ".m3u8"@ + b),
{
    crate::text::containing_means_being_part(url, ".m3u8"@);
}

/// The base of an address is all up to and including its last slash; an address without one
/// has the fallback as its base.
pub proof fn base_ends_with_the_last_slash(
    directory: Seq<char>,
    file: Seq<char>,
    fallback: Seq<char>,
)
    requires
        !file.contains('/'),
    ensures
        base_of(directory.push('/') + file, fallback) == directory.push('/'),
        base_of(file, fallback) == fallback,
{
    crate::text::last_separator_is_found(directory, '/', file);
    reveal_strlit("/");
    assert(directory + "/"@ =~= directory.push('/'));
}

/// An address that begins with `http` stands for itself; any other is put behind the base.
pub proof fn addresses_are_resolved_against_the_base(
    base: Seq<char>,
    uri: Seq<char>,
    rest: Seq<char>,
)
    ensures
        resolved(base, "http"@ + rest) == "http"@ + rest,
        uri.len() < 4 || uri.take(4) != "http"@ ==> resolved(base, uri) == base + uri,
{
    reveal_strlit("http");
    assert("http"@.is_prefix_of("http"@ + rest)) by {
        assert(("http"@ + rest).subrange(0, 4) =~= "http"@);
    }
    if "http"@.is_prefix_of(uri) {
        assert(uri.subrange(0, 4) =~= uri.take(4));
    }
}

/// The segments of a playlist are numbered upwards from its first number. Each one that has not
/// been seen is queued, in the order of the playlist and behind what was queued before; those
/// that have been seen are not. Afterwards all of them count as seen.
pub proof fn unseen_segments_are_queued(
    reader: HlsView,
    media_sequence: u64,
    target_duration: u64,
    uris: Seq<Seq<char>>,
    k: int,
)
    requires
        media_sequence + uris.len() <= u64::MAX,
        0 <= k < uris.len(),
    ensures
        ({
            let after = reader.with_playlist(
                PlaylistView::Media { media_sequence, target_duration, uris },
            );
            let end = media_sequence + uris.len();
            let first = if media_sequence <= reader.next_sequence {
                reader.next_sequence
            } else {
                media_sequence
            };
            &&& after.pending.len() == reader.pending.len() + if first < end {
                end - first
            } else {
                0
            }
            &&& after.pending.take(reader.pending.len() as int) == reader.pending
            &&& media_sequence + k >= reader.next_sequence ==> after.pending[reader.pending.len()
                + media_sequence + k - first] == resolved(reader.base_url, uris[k])
            &&& after.next_sequence == if reader.next_sequence < end {
                end
            } else {
                reader.next_sequence as int
            }
            &&& after.target_duration == target_duration
            &&& after.base_url == reader.base_url
            &&& after.playlist_url == reader.playlist_url
            &&& after.unread == reader.unread
        }),
{
    let after = reader.with_playlist(
        PlaylistView::Media { media_sequence, target_duration, uris },
    );
    let skip = seen(media_sequence, uris.len() as int, reader.next_sequence);
    assert(after.pending.take(reader.pending.len() as int) =~= reader.pending);
    if media_sequence + k >= reader.next_sequence {
        assert(uris.skip(skip)[k - skip] == uris[k]);
    }
}

/// A playlist without segments queues nothing.
pub proof fn empty_playlist_queues_nothing(
    reader: HlsView,
    media_sequence: u64,
    target_duration: u64,
)
    ensures
        reader.with_playlist(
            PlaylistView::Media { media_sequence, target_duration, uris: Seq::empty() },
        ) == (HlsView { target_duration, ..reader }),
{
    let after = reader.with_playlist(
        PlaylistView::Media { media_sequence, target_duration, uris: Seq::empty() },
    );
    assert(after =~= (HlsView { target_duration, ..reader }));
}

/// A master playlist has the reader turn to its first variant: that is the playlist from then on,
/// and what it names is resolved against the variant's own address. One without variants, and a
/// playlist whose numbers do not fit, change nothing.
pub proof fn master_playlist_leads_to_its_first_variant(
    reader: HlsView,
    uris: Seq<Seq<char>>,
    media_sequence: u64,
    target_duration: u64,
)
    ensures
        ({
            let after = reader.with_playlist(PlaylistView::Master { uris });
            let url = resolved(reader.base_url, uris[0]);
            &&& uris.len() > 0 ==> after == (HlsView {
                playlist_url: url,
                base_url: base_of(url, reader.base_url),
                ..reader
            })
            &&& uris.len() == 0 ==> after == reader
            &&& media_sequence + uris.len() > u64::MAX ==> reader.with_playlist(
                PlaylistView::Media { media_sequence, target_duration, uris },
            ) == reader
        }),
{
}

/// A list of segments is taken over, a list of variants is followed. Refused is a list without
/// variants, and one whose numbers do not fit in 64 bits.
pub proof fn playlists_are_taken_over_or_refused(
    uris: Seq<Seq<char>>,
    media_sequence: u64,
    target_duration: u64,
)
    ensures
        ({
            let media = refresh_result(
                PlaylistView::Media { media_sequence, target_duration, uris },
            );
            let master = refresh_result(PlaylistView::Master { uris });
            &&& media_sequence + uris.len() <= u64::MAX ==> media == Ok::<Refreshed, PlaylistError>(
                Refreshed::Updated,
            )
            &&& media_sequence + uris.len() > u64::MAX ==> media == Err::<Refreshed, PlaylistError>(
                PlaylistError::SequenceOverflow,
            )
            &&& uris.len() > 0 ==> master == Ok::<Refreshed, PlaylistError>(Refreshed::Follow)
            &&& uris.len() == 0 ==> master == Err::<Refreshed, PlaylistError>(
                PlaylistError::EmptyMaster,
            )
            &&& sequence_fits(PlaylistView::Master { uris })
            &&& sequence_fits(PlaylistView::Media { media_sequence, target_duration, uris })
                <==> media_sequence + uris.len() <= u64::MAX
        }),
{
}

/// A playlist is taken as what it holds.
pub proof fn playlists_are_taken_as_they_are(playlist: Playlist)
    ensures
        playlist matches Playlist::Media { media_sequence, target_duration, uris } ==> playlist@
            == (PlaylistView::Media {
            media_sequence,
            target_duration,
            uris: crate::text::string_views(uris@),
        }),
        playlist matches Playlist::Master { uris } ==> playlist@ == (PlaylistView::Master {
            uris: crate::text::string_views(uris@),
        }),
{
}

/// Of a segment that is a transport stream, the audio is extracted; any other segment is audio
/// itself. It takes the place of what was read before, and nothing else changes.
pub proof fn segment_is_audio_or_holds_it(reader: HlsView, data: Seq<u8>)
    ensures
        reader.with_segment(data).unread == if data.len() >= 188 && data[0] == 0x47 {
            crate::mpegts::demuxed(data)
        } else {
            data
        },
        reader.with_segment(data) == (HlsView {
            unread: reader.with_segment(data).unread,
            ..reader
        }),
{
}

/// Reading fills the buffer as far as there is something to read, from the front of it, and
/// leaves the rest for later.
pub proof fn reading_takes_what_fits(reader: HlsView, size: nat)
    ensures
        ({
            let n = reader.readable(size);
            &&& n <= size && n <= reader.unread.len()
            &&& n == size || n == reader.unread.len()
            &&& reader.after_read(size) == (HlsView {
                unread: reader.unread.subrange(n as int, reader.unread.len() as int),
                ..reader
            })
        }),
{
    let n = reader.readable(size) as int;
    assert(reader.unread.skip(n) =~= reader.unread.subrange(n, reader.unread.len() as int));
}

/// The wait before a refresh is half the target duration, and at least half a second.
pub proof fn refresh_waits_half_a_segment(target_duration: u64)
    ensures
        500 <= refresh_wait(target_duration) <= u64::MAX,
        0 < target_duration && target_duration * 500 <= u64::MAX ==> 2 * refresh_wait(
            target_duration,
        ) == target_duration * 1000,
        target_duration == 0 ==> refresh_wait(target_duration) == 500,
        target_duration * 500 > u64::MAX ==> refresh_wait(target_duration) == u64::MAX,
{
}

} // verus!
