//! Extraction of the audio elementary stream from MPEG transport stream segments.
use vstd::prelude::*;

verus! {

/// Size of a transport stream packet in bytes.
pub const PACKET_LEN: usize = 188;

/// First byte of every transport stream packet.
pub const SYNC_BYTE: u8 = 0x47;

/// The `k`-th complete packet of a segment.
pub open spec fn packet(ts: Seq<u8>, k: int) -> Seq<u8> {
    ts.subrange(188 * k, 188 * k + 188)
}

/// The packet identifier: the low five bits of byte 1, then all of byte 2.
pub open spec fn packet_pid(p: Seq<u8>) -> int {
    (p[1] as int % 32) * 256 + p[2] as int
}

/// Bit 6 of byte 1: a PES packet starts in this packet.
pub open spec fn unit_start(p: Seq<u8>) -> bool {
    (p[1] as int / 64) % 2 == 1
}

/// Bit 5 of byte 3: an adaptation field precedes the payload.
pub open spec fn has_adaptation(p: Seq<u8>) -> bool {
    (p[3] as int / 32) % 2 == 1
}

/// Bit 4 of byte 3: the packet has a payload.
pub open spec fn has_payload(p: Seq<u8>) -> bool {
    (p[3] as int / 16) % 2 == 1
}

/// Where the payload starts: behind the header and the adaptation field, if there is one.
pub open spec fn payload_offset(p: Seq<u8>) -> int {
    if has_adaptation(p) {
        5 + p[4] as int
    } else {
        4
    }
}

/// A packet that is read at all: in sync, with a payload inside the packet, and not the
/// program association table on PID 0.
pub open spec fn carries_payload(p: Seq<u8>) -> bool {
    &&& p[0] == SYNC_BYTE
    &&& has_payload(p)
    &&& payload_offset(p) < 188
    &&& packet_pid(p) != 0
}

pub open spec fn payload(p: Seq<u8>) -> Seq<u8> {
    p.skip(payload_offset(p))
}

/// PIDs on which streams are carried, as opposed to tables and null packets.
pub open spec fn is_stream_pid(pid: int) -> bool {
    0x20 <= pid < 0x1FFF
}

/// MPEG audio (0xC0 to 0xDF) and private stream 1 (0xBD).
pub open spec fn is_audio_stream_id(id: u8) -> bool {
    0xC0 <= id <= 0xDF || id == 0xBD
}

/// The payload opens a PES packet of an audio stream.
pub open spec fn is_audio_pes(payload: Seq<u8>) -> bool {
    &&& payload.len() >= 9
    &&& payload[0] == 0
    &&& payload[1] == 0
    &&& payload[2] == 1
    &&& is_audio_stream_id(payload[3])
}

/// An audio PES packet starts in this packet.
pub open spec fn starts_audio(p: Seq<u8>) -> bool {
    carries_payload(p) && unit_start(p) && is_audio_pes(payload(p))
}

/// What follows the PES header, whose variable part has the length given in its ninth byte.
pub open spec fn pes_data(payload: Seq<u8>) -> Seq<u8> {
    let header_len = 9 + payload[8] as int;
    if header_len < payload.len() {
        payload.skip(header_len)
    } else {
        Seq::empty()
    }
}

/// The audio PID known behind a packet: once found it stays.
pub open spec fn locked_after(p: Seq<u8>, locked: Option<int>) -> Option<int> {
    if locked is None && starts_audio(p) {
        Some(packet_pid(p))
    } else {
        locked
    }
}

/// The PID of the first packet that starts audio among the first `n` packets.
pub open spec fn audio_pid(ts: Seq<u8>, n: int) -> Option<int>
    decreases n,
{
    if n <= 0 {
        None
    } else {
        locked_after(packet(ts, n - 1), audio_pid(ts, n - 1))
    }
}

/// The audio bytes of one packet, where `locked` is the audio PID found before it.
///
/// A packet that starts audio counts on the audio PID and on any stream PID; a packet that
/// does not counts on the audio PID alone.
pub open spec fn audio_bytes(p: Seq<u8>, locked: Option<int>) -> Seq<u8> {
    if !carries_payload(p) {
        Seq::empty()
    } else if locked is Some && locked != Some(packet_pid(p)) && !is_stream_pid(packet_pid(p)) {
        Seq::empty()
    } else if starts_audio(p) {
        pes_data(payload(p))
    } else if locked == Some(packet_pid(p)) {
        payload(p)
    } else {
        Seq::empty()
    }
}

/// The audio bytes of the first `n` packets, in order.
pub open spec fn audio_of(ts: Seq<u8>, n: int) -> Seq<u8>
    decreases n,
{
    if n <= 0 {
        Seq::empty()
    } else {
        audio_of(ts, n - 1) + audio_bytes(packet(ts, n - 1), audio_pid(ts, n - 1))
    }
}

/// The audio of a whole segment. Bytes behind the last complete packet do not count.
pub open spec fn demuxed(ts: Seq<u8>) -> Seq<u8> {
    audio_of(ts, ts.len() as int / 188)
}

spec fn pid_view(pid: Option<u16>) -> Option<int> {
    match pid {
        Some(p) => Some(p as int),
        None => None,
    }
}

/// The pieces of a packet header that decide how the packet is read.
struct Header {
    pid: u16,
    unit_start: bool,
    has_adaptation: bool,
    has_payload: bool,
}

fn parse_header(b1: u8, b2: u8, b3: u8) -> (h: Header)
    ensures
        h.pid == (b1 as int % 32) * 256 + b2 as int,
        h.unit_start == ((b1 as int / 64) % 2 == 1),
        h.has_adaptation == ((b3 as int / 32) % 2 == 1),
        h.has_payload == ((b3 as int / 16) % 2 == 1),
{
    let pid: u16 = (((b1 & 0x1F) as u16) << 8) | (b2 as u16);
    let unit_start = (b1 & 0x40) != 0;
    let has_adaptation = (b3 & 0x20) != 0;
    let has_payload = (b3 & 0x10) != 0;
    assert((((b1 & 0x1F) as u16) << 8u16) | (b2 as u16) == (b1 % 32) * 256 + b2) by (bit_vector);
    assert(((b1 & 0x40) != 0) == ((b1 / 64) % 2 == 1)) by (bit_vector);
    assert(((b3 & 0x20) != 0) == ((b3 / 32) % 2 == 1)) by (bit_vector);
    assert(((b3 & 0x10) != 0) == ((b3 / 16) % 2 == 1)) by (bit_vector);
    Header { pid, unit_start, has_adaptation, has_payload }
}

/// Reads one packet: appends its audio bytes to `out` and returns the audio PID known
/// afterwards.
fn demux_packet(chunk: &[u8], locked: Option<u16>, out: &mut Vec<u8>) -> (next: Option<u16>)
    requires
        chunk@.len() == 188,
    ensures
        final(out)@ == old(out)@ + audio_bytes(chunk@, pid_view(locked)),
        pid_view(next) == locked_after(chunk@, pid_view(locked)),
{
    if chunk[0] != SYNC_BYTE {
        assert(out@ =~= old(out)@ + Seq::<u8>::empty());
        return locked;
    }
    let header = parse_header(chunk[1], chunk[2], chunk[3]);
    if !header.has_payload {
        assert(out@ =~= old(out)@ + Seq::<u8>::empty());
        return locked;
    }
    let mut offset: usize = 4;
    if header.has_adaptation {
        offset = 5 + chunk[4] as usize;
    }
    if offset >= PACKET_LEN || header.pid == 0 {
        assert(out@ =~= old(out)@ + Seq::<u8>::empty());
        return locked;
    }
    let stream_pid = header.pid >= 0x20 && header.pid < 0x1FFF;
    let on_audio_pid = match locked {
        Some(pid) => pid == header.pid,
        None => false,
    };
    if !on_audio_pid && !stream_pid && locked.is_some() {
        assert(out@ =~= old(out)@ + Seq::<u8>::empty());
        return locked;
    }
    let payload_bytes = &chunk[offset..PACKET_LEN];
    assert(payload_bytes@ =~= payload(chunk@));
    if header.unit_start && payload_bytes.len() >= 9 && payload_bytes[0] == 0x00
        && payload_bytes[1] == 0x00 && payload_bytes[2] == 0x01 {
        let stream_id = payload_bytes[3];
        if (stream_id >= 0xC0 && stream_id <= 0xDF) || stream_id == 0xBD {
            let header_len: usize = 9 + payload_bytes[8] as usize;
            if header_len < payload_bytes.len() {
                let data = &payload_bytes[header_len..payload_bytes.len()];
                assert(data@ =~= pes_data(payload(chunk@)));
                out.extend_from_slice(data);
                assert(out@ =~= old(out)@ + data@);
            } else {
                assert(out@ =~= old(out)@ + Seq::<u8>::empty());
            }
            return match locked {
                Some(pid) => Some(pid),
                None => Some(header.pid),
            };
        }
    }
    if on_audio_pid {
        out.extend_from_slice(payload_bytes);
        assert(out@ =~= old(out)@ + payload_bytes@);
    } else {
        assert(out@ =~= old(out)@ + Seq::<u8>::empty());
    }
    locked
}

/// Extracts the audio payload from transport stream data.
///
/// The stream is taken in packets of 188 bytes; those out of sync, without a payload or on
/// PID 0 are skipped, and so is an incomplete packet at the end. The first packet that starts
/// an audio PES packet fixes the audio PID.
pub fn demux_ts_audio(ts_data: &[u8]) -> (audio: Vec<u8>)
    ensures
        audio@ == demuxed(ts_data@),
{
    let mut audio_data: Vec<u8> = Vec::new();
    let mut locked: Option<u16> = None;
    let len: usize = ts_data.len();
    let count: usize = len / PACKET_LEN;
    let mut k: usize = 0;
    while k < count
        invariant
            k <= count,
            len == ts_data@.len(),
            count == len / 188,
            audio_data@ == audio_of(ts_data@, k as int),
            pid_view(locked) == audio_pid(ts_data@, k as int),
        decreases count - k,
    {
        assert(188 * k + 188 <= len);
        let start: usize = PACKET_LEN * k;
        let chunk = &ts_data[start..start + PACKET_LEN];
        assert(chunk@ =~= packet(ts_data@, k as int));
        locked = demux_packet(chunk, locked, &mut audio_data);
        k += 1;
    }
    audio_data
}

/// The bytes behind the last complete packet never matter.
pub proof fn incomplete_tail_is_ignored(ts: Seq<u8>)
    ensures
        demuxed(ts) == demuxed(ts.take(188 * (ts.len() as int / 188))),
{
    let n = ts.len() as int / 188;
    assert(ts.take(188 * n).take(188 * n) =~= ts.take(188 * n));
    prefix_decides(ts, ts.take(188 * n), n);
    assert(ts.take(188 * n).len() == 188 * n);
}

/// What the first `n` packets yield depends on those packets alone.
proof fn prefix_decides(a: Seq<u8>, b: Seq<u8>, n: int)
    requires
        188 * n <= a.len(),
        188 * n <= b.len(),
        a.take(188 * n) == b.take(188 * n),
        n >= 0,
    ensures
        audio_pid(a, n) == audio_pid(b, n),
        audio_of(a, n) == audio_of(b, n),
    decreases n,
{
    if n > 0 {
        assert(a.take(188 * (n - 1)) =~= a.take(188 * n).take(188 * (n - 1)));
        assert(b.take(188 * (n - 1)) =~= b.take(188 * n).take(188 * (n - 1)));
        prefix_decides(a, b, n - 1);
        assert(packet(a, n - 1) =~= a.take(188 * n).subrange(188 * (n - 1), 188 * n));
        assert(packet(b, n - 1) =~= b.take(188 * n).subrange(188 * (n - 1), 188 * n));
    }
}

/// No more audio comes out than data went in.
pub proof fn audio_is_no_longer_than_input(ts: Seq<u8>)
    ensures
        demuxed(ts).len() <= ts.len(),
{
    audio_len_bound(ts, ts.len() as int / 188);
}

proof fn audio_len_bound(ts: Seq<u8>, n: int)
    requires
        0 <= n,
        188 * n <= ts.len(),
    ensures
        audio_of(ts, n).len() <= 184 * n,
    decreases n,
{
    if n > 0 {
        audio_len_bound(ts, n - 1);
    }
}

/// A segment in which no packet starts audio yields nothing.
pub proof fn without_audio_start_nothing_comes_out(ts: Seq<u8>)
    requires
        forall|k: int| 0 <= k < ts.len() as int / 188 ==> !starts_audio(#[trigger] packet(ts, k)),
    ensures
        demuxed(ts) == Seq::<u8>::empty(),
{
    no_lock_without_audio_start(ts, ts.len() as int / 188);
}

proof fn no_lock_without_audio_start(ts: Seq<u8>, n: int)
    requires
        0 <= n,
        forall|k: int| 0 <= k < n ==> !starts_audio(#[trigger] packet(ts, k)),
    ensures
        audio_pid(ts, n) is None,
        audio_of(ts, n) == Seq::<u8>::empty(),
    decreases n,
{
    if n > 0 {
        no_lock_without_audio_start(ts, n - 1);
        assert(!starts_audio(packet(ts, n - 1)));
    }
}

/// The audio PID, once found, does not change.
pub proof fn audio_pid_is_stable(ts: Seq<u8>, i: int, j: int)
    requires
        i <= j,
        audio_pid(ts, i) is Some,
    ensures
        audio_pid(ts, j) == audio_pid(ts, i),
    decreases j - i,
{
    if i < j {
        audio_pid_is_stable(ts, i, j - 1);
    }
}

/// Data that follows a whole number of packets only adds audio behind what was there.
pub proof fn audio_grows_by_appending(head: Seq<u8>, tail: Seq<u8>)
    requires
        head.len() % 188 == 0,
    ensures
        demuxed(head).is_prefix_of(demuxed(head + tail)),
{
    let whole = head + tail;
    let n = head.len() as int / 188;
    assert(whole.take(188 * n) =~= head.take(188 * n));
    prefix_decides(head, whole, n);
    audio_of_is_monotone(whole, n, whole.len() as int / 188);
}

proof fn audio_of_is_monotone(ts: Seq<u8>, i: int, j: int)
    requires
        i <= j,
    ensures
        audio_of(ts, i).is_prefix_of(audio_of(ts, j)),
    decreases j - i,
{
    if i < j {
        audio_of_is_monotone(ts, i, j - 1);
    }
}

/// The fields of a header are told apart, whatever its other bits are: PID, start of a PES
/// packet, adaptation field and payload.
pub proof fn header_fields_are_told_apart(
    p: Seq<u8>,
    pid: int,
    start: int,
    adaptation: int,
    payload_bit: int,
    error: int,
    priority: int,
    scrambling: int,
    counter: int,
)
    requires
        0 <= pid < 0x2000,
        0 <= start < 2 && 0 <= adaptation < 2 && 0 <= payload_bit < 2,
        0 <= error < 2 && 0 <= priority < 2 && 0 <= scrambling < 4 && 0 <= counter < 16,
        p[1] as int == 128 * error + 64 * start + 32 * priority + pid / 256,
        p[2] as int == pid % 256,
        p[3] as int == 64 * scrambling + 32 * adaptation + 16 * payload_bit + counter,
    ensures
        packet_pid(p) == pid,
        unit_start(p) == (start == 1),
        has_adaptation(p) == (adaptation == 1),
        has_payload(p) == (payload_bit == 1),
{
}

/// The payload is all that follows the four bytes of the header, or, where bit 5 of byte 3 says
/// that there is an adaptation field, all that follows that field, whose length comes first.
pub proof fn payload_follows_header_and_adaptation(
    header: Seq<u8>,
    adaptation: Seq<u8>,
    body: Seq<u8>,
)
    requires
        header.len() == 4,
        adaptation.len() <= 255,
    ensures
        (header[3] as int / 32) % 2 == 0 ==> payload(header + body) == body,
        (header[3] as int / 32) % 2 == 1 ==> payload(
            header.push(adaptation.len() as u8) + adaptation + body,
        ) == body,
{
    assert((header + body).skip(4) =~= body);
    let p = header.push(adaptation.len() as u8) + adaptation + body;
    assert(p[3] == header[3] && p[4] == adaptation.len());
    assert(p.skip(5 + adaptation.len() as int) =~= body);
}

/// A packet is read if it begins with the sync byte, has a payload that begins inside the
/// packet, and is not on PID 0; no other packet is.
pub proof fn packets_in_sync_are_read(p: Seq<u8>)
    ensures
        carries_payload(p) <==> {
            &&& p[0] == 0x47
            &&& (p[3] as int / 16) % 2 == 1
            &&& (p[3] as int / 32) % 2 == 1 ==> p[4] < 183
            &&& p[1] as int % 32 != 0 || p[2] != 0
        },
{
}

/// A payload opens an audio PES packet if it has the start code, behind it the identifier of an
/// audio stream or of private stream 1, and room for the rest of the header; no other does.
pub proof fn audio_is_known_by_its_start_code(payload: Seq<u8>)
    ensures
        is_audio_pes(payload) <==> {
            &&& payload.len() >= 9
            &&& payload.take(3) == seq![0u8, 0, 1]
            &&& payload[3] == 0xBD || payload[3] as int / 32 == 6
        },
{
    if payload.len() >= 9 {
        if payload[0] == 0 && payload[1] == 0 && payload[2] == 1 {
            assert(payload.take(3) =~= seq![0u8, 0, 1]);
        }
        if payload.take(3) == seq![0u8, 0, 1] {
            assert(payload.take(3)[0] == payload[0]);
            assert(payload.take(3)[1] == payload[1]);
            assert(payload.take(3)[2] == payload[2]);
        }
    }
}

/// The audio of a PES packet is all that follows its header: nine bytes, of which the last says
/// how many more belong to it.
pub proof fn audio_follows_the_pes_header(fixed: Seq<u8>, more: Seq<u8>, data: Seq<u8>)
    requires
        fixed.len() == 9,
        fixed[8] == more.len(),
    ensures
        pes_data(fixed + more + data) == data,
{
    let payload = fixed + more + data;
    assert(payload[8] == fixed[8]);
    if data.len() > 0 {
        assert(payload.skip(9 + more.len() as int) =~= data);
    } else {
        assert(data =~= Seq::empty());
    }
}

/// A packet of full length, in sync, with a payload and without an adaptation field.
pub open spec fn is_plain(p: Seq<u8>) -> bool {
    p.len() == 188 && p[0] == 0x47 && (p[3] as int / 16) % 4 == 1
}

/// A packet of full length, in sync, with an adaptation field and a payload behind it.
pub open spec fn is_adapted(p: Seq<u8>) -> bool {
    p.len() == 188 && p[0] == 0x47 && (p[3] as int / 16) % 4 == 3 && p[4] < 183
}

/// The bytes from `at` on open a PES packet of an audio stream, which starts there on a PID that
/// is not 0.
pub open spec fn opens_at(p: Seq<u8>, at: int) -> bool {
    &&& (p[1] as int / 64) % 2 == 1
    &&& p[1] as int % 32 != 0 || p[2] != 0
    &&& at + 9 <= 188
    &&& p[at] == 0 && p[at + 1] == 0 && p[at + 2] == 1
    &&& 0xC0 <= p[at + 3] <= 0xDF || p[at + 3] == 0xBD
}

/// A PES packet of an audio stream starts in this packet, behind its header or its adaptation
/// field.
pub open spec fn opens_audio(p: Seq<u8>) -> bool {
    is_plain(p) && opens_at(p, 4) || is_adapted(p) && opens_at(p, 5 + p[4])
}

/// Two packets are on the same PID: the low five bits of byte 1 and all of byte 2 agree.
pub open spec fn share_pid(p: Seq<u8>, q: Seq<u8>) -> bool {
    p[1] as int % 32 == q[1] as int % 32 && p[2] == q[2]
}

/// Packets one behind the other.
pub open spec fn stream_of(packets: Seq<Seq<u8>>) -> Seq<u8>
    decreases packets.len(),
{
    if packets.len() == 0 {
        Seq::empty()
    } else {
        stream_of(packets.drop_last()) + packets.last()
    }
}

proof fn packet_appends(ts: Seq<u8>, p: Seq<u8>)
    requires
        ts.len() % 188 == 0,
        p.len() == 188,
    ensures
        demuxed(ts + p) == demuxed(ts) + audio_bytes(p, audio_pid(ts, ts.len() as int / 188)),
{
    let n = ts.len() as int / 188;
    let whole = ts + p;
    assert(whole.len() as int / 188 == n + 1);
    assert(whole.take(188 * n) =~= ts.take(188 * n));
    prefix_decides(ts, whole, n);
    assert(packet(whole, n) =~= p);
}

proof fn opening_packet_starts_audio(p: Seq<u8>)
    requires
        p.len() == 188,
    ensures
        starts_audio(p) <==> opens_audio(p),
        is_plain(p) ==> carries_payload(p) == (packet_pid(p) != 0) && payload(p) == p.subrange(
            4,
            188,
        ),
        is_adapted(p) ==> carries_payload(p) == (packet_pid(p) != 0) && payload(p) == p.subrange(
            5 + p[4],
            188,
        ),
        !is_plain(p) && !is_adapted(p) ==> !carries_payload(p),
{
    if is_plain(p) {
        assert(!has_adaptation(p) && has_payload(p));
        assert(payload(p) =~= p.subrange(4, 188));
    } else if is_adapted(p) {
        assert(has_adaptation(p) && has_payload(p));
        assert(payload(p) =~= p.subrange(5 + p[4], 188));
    } else if p[0] == 0x47 {
        let bits = (p[3] as int / 16) % 4;
        assert(bits == 0 || bits == 2 || bits == 3);
        assert(bits != 3 ==> !has_payload(p));
        assert(bits == 3 ==> has_adaptation(p));
    }
}

/// Audio begins with the first packet in which an audio PES packet starts, and with no other.
pub proof fn audio_begins_where_it_is_opened(p: Seq<u8>)
    requires
        p.len() == 188,
    ensures
        starts_audio(p) <==> opens_audio(p),
{
    opening_packet_starts_audio(p);
}

proof fn opening_packet_locks(ts: Seq<u8>)
    requires
        ts.len() >= 188,
        opens_audio(ts.take(188)),
    ensures
        audio_pid(ts, ts.len() as int / 188) == Some(packet_pid(ts.take(188))),
{
    let first = ts.take(188);
    assert(packet(ts, 0) =~= first);
    opening_packet_starts_audio(first);
    assert(audio_pid(ts, 0) is None);
    assert(audio_pid(ts, 1) == locked_after(packet(ts, 0), audio_pid(ts, 0)));
    audio_pid_is_stable(ts, 1, ts.len() as int / 188);
}

proof fn first_packet_alone(p: Seq<u8>)
    requires
        p.len() == 188,
    ensures
        demuxed(p) == audio_bytes(p, None),
{
    let none = Seq::<u8>::empty();
    packet_appends(none, p);
    assert(none + p =~= p);
    assert(audio_of(none, 0) =~= none);
    assert(demuxed(none) + audio_bytes(p, None) =~= audio_bytes(p, None));
}

/// The audio of a packet in which an audio PES packet starts is what follows the four bytes of
/// its header, its adaptation field, the nine bytes of the PES header and as many more as the
/// last of those says. Any other packet has no audio of its own.
pub proof fn opening_packet_yields_what_follows_its_headers(p: Seq<u8>)
    requires
        p.len() == 188,
    ensures
        is_plain(p) && opens_at(p, 4) ==> demuxed(p) == if p[12] < 175 {
            p.subrange(4 + 9 + p[12], 188)
        } else {
            Seq::empty()
        },
        is_adapted(p) && opens_at(p, 5 + p[4]) ==> demuxed(p) == if 14 + p[4] + p[13 + p[4]]
            < 188 {
            p.subrange(5 + p[4] + 9 + p[13 + p[4]], 188)
        } else {
            Seq::empty()
        },
        !opens_audio(p) ==> demuxed(p) == Seq::<u8>::empty(),
{
    first_packet_alone(p);
    opening_packet_starts_audio(p);
    let body = payload(p);
    if is_plain(p) && opens_at(p, 4) {
        assert(body[8] == p[12]);
        if p[12] < 175 {
            assert(body.skip(9 + p[12] as int) =~= p.subrange(4 + 9 + p[12], 188));
        }
    } else if is_adapted(p) && opens_at(p, 5 + p[4]) {
        let at = 5 + p[4];
        assert(body[8] == p[at + 8]);
        if at + 9 + p[at + 8] < 188 {
            assert(body.skip(9 + p[at + 8]) =~= p.subrange(at + 9 + p[at + 8], 188));
        }
    }
}

/// Once audio has begun, a packet on its PID in which no audio PES packet starts adds all 184
/// bytes behind its header, or, with an adaptation field, all behind that.
pub proof fn continuation_adds_all_its_payload(ts: Seq<u8>, p: Seq<u8>)
    requires
        ts.len() >= 188,
        ts.len() % 188 == 0,
        opens_audio(ts.take(188)),
        share_pid(ts, p),
        !opens_audio(p),
    ensures
        is_plain(p) ==> demuxed(ts + p) == demuxed(ts) + p.subrange(4, 188),
        is_adapted(p) ==> demuxed(ts + p) == demuxed(ts) + p.subrange(5 + p[4], 188),
{
    if is_plain(p) || is_adapted(p) {
        packet_appends(ts, p);
        opening_packet_locks(ts);
        opening_packet_starts_audio(p);
        let first = ts.take(188);
        assert(first[1] == ts[1] && first[2] == ts[2]);
        assert(packet_pid(first) == packet_pid(p));
    }
}

/// Once audio has begun, an audio PES packet that starts on its PID, or on any other PID of a
/// stream, adds what follows its headers; one on a PID of tables or of null packets does not.
pub proof fn later_starts_add_what_follows_their_headers(ts: Seq<u8>, p: Seq<u8>)
    requires
        ts.len() >= 188,
        ts.len() % 188 == 0,
        opens_audio(ts.take(188)),
        opens_audio(p),
    ensures
        ({
            let pid = (p[1] as int % 32) * 256 + p[2] as int;
            demuxed(ts + p) == demuxed(ts) + if share_pid(ts, p) || 0x20 <= pid < 0x1FFF {
                demuxed(p)
            } else {
                Seq::empty()
            }
        }),
{
    packet_appends(ts, p);
    opening_packet_locks(ts);
    first_packet_alone(p);
    opening_packet_starts_audio(p);
    let first = ts.take(188);
    assert(first[1] == ts[1] && first[2] == ts[2]);
    let pid = (p[1] as int % 32) * 256 + p[2] as int;
    assert(share_pid(ts, p) <==> pid == packet_pid(first));
}

/// Packets out of sync, without a payload or on PID 0 add nothing, wherever they stand, and
/// neither does a packet on another PID in which no audio PES packet starts.
pub proof fn other_packets_add_nothing(ts: Seq<u8>, p: Seq<u8>)
    requires
        ts.len() % 188 == 0,
        p.len() == 188,
        ({
            ||| !is_plain(p) && !is_adapted(p)
            ||| p[1] as int % 32 == 0 && p[2] == 0
            ||| ts.len() >= 188 && opens_audio(ts.take(188)) && !share_pid(ts, p) && !opens_audio(p)
        }),
    ensures
        demuxed(ts + p) == demuxed(ts),
{
    packet_appends(ts, p);
    opening_packet_starts_audio(p);
    if ts.len() >= 188 && opens_audio(ts.take(188)) {
        opening_packet_locks(ts);
        let first = ts.take(188);
        assert(first[1] == ts[1] && first[2] == ts[2]);
        assert(share_pid(ts, p) <==> packet_pid(p) == packet_pid(first));
    }
    assert(demuxed(ts) + Seq::<u8>::empty() =~= demuxed(ts));
}

/// Packets before the first that starts audio do not count.
pub proof fn packets_before_audio_do_not_count(lead: Seq<u8>, ts: Seq<u8>)
    requires
        lead.len() % 188 == 0,
        forall|k: int|
            0 <= k < lead.len() as int / 188 ==> !opens_audio(
                #[trigger] lead.subrange(188 * k, 188 * k + 188),
            ),
    ensures
        demuxed(lead + ts) == demuxed(ts),
{
    assert forall|k: int| 0 <= k < lead.len() as int / 188 implies !starts_audio(
        #[trigger] packet(lead, k),
    ) by {
        assert(packet(lead, k) == lead.subrange(188 * k, 188 * k + 188));
        opening_packet_starts_audio(packet(lead, k));
    }
    let m = lead.len() as int / 188;
    let whole = lead + ts;
    assert(whole.take(188 * m) =~= lead.take(188 * m));
    prefix_decides(lead, whole, m);
    no_lock_without_audio_start(lead, m);
    behind_silent_packets(lead, ts, ts.len() as int / 188);
    assert(whole.len() as int / 188 == m + ts.len() as int / 188);
}

proof fn behind_silent_packets(lead: Seq<u8>, ts: Seq<u8>, n: int)
    requires
        lead.len() % 188 == 0,
        0 <= 188 * n <= ts.len(),
        audio_pid(lead + ts, lead.len() as int / 188) is None,
        audio_of(lead + ts, lead.len() as int / 188) == Seq::<u8>::empty(),
    ensures
        audio_pid(lead + ts, lead.len() as int / 188 + n) == audio_pid(ts, n),
        audio_of(lead + ts, lead.len() as int / 188 + n) == audio_of(ts, n),
    decreases n,
{
    if n > 0 {
        behind_silent_packets(lead, ts, n - 1);
        let m = lead.len() as int / 188;
        assert(packet(lead + ts, m + n - 1) =~= packet(ts, n - 1));
    }
}

/// A segment of one audio PES packet gives back all its audio, in order: what follows the
/// headers in its first packet, and then all 184 bytes of each packet that continues it.
pub proof fn segment_yields_all_its_audio(first: Seq<u8>, more: Seq<Seq<u8>>)
    requires
        opens_audio(first),
        forall|k: int|
            #![trigger more[k]]
            0 <= k < more.len() ==> is_plain(more[k]) && share_pid(first, more[k]) && !opens_audio(
                more[k],
            ),
    ensures
        stream_of(more).len() == 188 * more.len(),
        demuxed(first + stream_of(more)) == demuxed(first) + stream_of(
            more.map_values(|p: Seq<u8>| p.subrange(4, 188)),
        ),
        demuxed(first + stream_of(more)).len() == demuxed(first).len() + 184 * more.len(),
    decreases more.len(),
{
    let bodies = more.map_values(|p: Seq<u8>| p.subrange(4, 188));
    if more.len() == 0 {
        assert(first + stream_of(more) =~= first);
        assert(demuxed(first) + stream_of(bodies) =~= demuxed(first));
    } else {
        let rest = more.drop_last();
        assert forall|k: int|
            #![trigger rest[k]]
            0 <= k < rest.len() implies is_plain(rest[k]) && share_pid(first, rest[k])
            && !opens_audio(rest[k]) by {
            assert(rest[k] == more[k]);
        }
        segment_yields_all_its_audio(first, rest);
        let p = more[more.len() - 1];
        let ts = first + stream_of(rest);
        assert(ts.take(188) =~= first);
        continuation_adds_all_its_payload(ts, p);
        assert(first + stream_of(more) =~= ts + p);
        assert(bodies.drop_last() =~= rest.map_values(|p: Seq<u8>| p.subrange(4, 188)));
        assert(demuxed(first) + stream_of(bodies) =~= demuxed(first) + stream_of(bodies.drop_last())
            + p.subrange(4, 188));
    }
}

} // verus!
