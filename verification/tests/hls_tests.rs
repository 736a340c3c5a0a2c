use lego_radio::hls::{
    is_hls_url, refresh_wait_ms, FetchAction, HlsReader, Playlist, PlaylistError, ReadOutcome,
    Refreshed,
};
use lego_radio::mpegts::demux_ts_audio;

fn media(sequence: u64, uris: &[&str]) -> Playlist {
    Playlist::Media {
        media_sequence: sequence,
        target_duration: 10,
        uris: uris.iter().map(|u| u.to_string()).collect(),
    }
}

fn next_url(reader: &mut HlsReader) -> Option<String> {
    let mut fetch = reader.begin_fetch();
    match reader.next_fetch(&mut fetch) {
        FetchAction::Fetch(url) => Some(url),
        _ => None,
    }
}

const MEDIA: &str = "#EXTM3U\n#EXT-X-VERSION:3\n#EXT-X-TARGETDURATION:4\n#EXT-X-MEDIA-SEQUENCE:100\n#EXTINF:4.0,\na.ts\n#EXTINF:4.0,\nhttp://other/b.ts\n";

const MASTER: &str = "#EXTM3U\n#EXT-X-STREAM-INF:BANDWIDTH=128000\nlow/list.m3u8\n#EXT-X-STREAM-INF:BANDWIDTH=256000\nhigh/list.m3u8\n";

#[test]
fn media_playlist_queues_its_segments() {
    let mut reader = HlsReader::new("https://radio/live/list.m3u8");
    assert_eq!(reader.playlist_url(), "https://radio/live/list.m3u8");
    assert!(matches!(
        reader.refresh_playlist(MEDIA),
        Ok(Refreshed::Updated)
    ));
    assert_eq!(reader.pending_len(), 2);
    assert_eq!(reader.next_media_sequence(), 102);
    assert_eq!(reader.begin_fetch().wait_ms, 2000);
    assert_eq!(
        next_url(&mut reader),
        Some("https://radio/live/a.ts".to_string())
    );
    assert_eq!(next_url(&mut reader), Some("http://other/b.ts".to_string()));
}

#[test]
fn same_playlist_again_queues_nothing() {
    let mut reader = HlsReader::new("https://radio/live/list.m3u8");
    reader.refresh_playlist(MEDIA).unwrap();
    reader.refresh_playlist(MEDIA).unwrap();
    assert_eq!(reader.pending_len(), 2);
    assert_eq!(reader.next_media_sequence(), 102);
}

#[test]
fn overlapping_playlist_queues_what_is_new() {
    let mut reader = HlsReader::new("https://radio/list.m3u8");
    reader.apply_playlist(&media(5, &["5", "6", "7"])).unwrap();
    reader.apply_playlist(&media(6, &["6", "7", "8"])).unwrap();
    assert_eq!(reader.pending_len(), 4);
    assert_eq!(reader.next_media_sequence(), 9);
    let urls: Vec<String> = (0..4).map(|_| next_url(&mut reader).unwrap()).collect();
    assert_eq!(
        urls,
        vec![
            "https://radio/5",
            "https://radio/6",
            "https://radio/7",
            "https://radio/8"
        ]
    );
}

#[test]
fn sequence_never_goes_back() {
    let mut reader = HlsReader::new("https://radio/list.m3u8");
    reader.apply_playlist(&media(50, &["a"])).unwrap();
    reader.apply_playlist(&media(3, &["b", "c"])).unwrap();
    assert_eq!(reader.next_media_sequence(), 51);
    assert_eq!(reader.pending_len(), 1);
}

#[test]
fn segments_are_queued_once_over_many_refreshes() {
    let mut reader = HlsReader::new("https://radio/list.m3u8");
    let mut fetched = Vec::new();
    for first in [10u64, 11, 9, 13, 13, 12, 20] {
        let uris: Vec<String> = (first..first + 3).map(|n| n.to_string()).collect();
        let uris: Vec<&str> = uris.iter().map(|u| u.as_str()).collect();
        reader.apply_playlist(&media(first, &uris)).unwrap();
        fetched.extend(next_url(&mut reader));
    }
    while reader.pending_len() > 0 {
        fetched.extend(next_url(&mut reader));
    }
    let expected: Vec<String> = [10, 11, 12, 13, 14, 15, 20, 21, 22]
        .iter()
        .map(|n| format!("https://radio/{n}"))
        .collect();
    assert_eq!(fetched, expected);
    assert_eq!(reader.next_media_sequence(), 23);
}

#[test]
fn master_playlist_leads_to_its_first_variant() {
    let mut reader = HlsReader::new("https://radio/live/master.m3u8");
    assert!(matches!(
        reader.refresh_playlist(MASTER),
        Ok(Refreshed::Follow)
    ));
    assert_eq!(reader.playlist_url(), "https://radio/live/low/list.m3u8");
    assert_eq!(reader.pending_len(), 0);
    reader.refresh_playlist(MEDIA).unwrap();
    assert_eq!(
        next_url(&mut reader),
        Some("https://radio/live/low/a.ts".to_string())
    );
}

#[test]
fn base_without_a_slash_is_kept() {
    let mut reader = HlsReader::new("list.m3u8");
    reader.apply_playlist(&media(0, &["a.ts"])).unwrap();
    assert_eq!(next_url(&mut reader), Some("list.m3u8a.ts".to_string()));
}

#[test]
fn playlist_that_cannot_be_used_is_refused() {
    let mut reader = HlsReader::new("https://radio/list.m3u8");
    assert!(matches!(
        reader.refresh_playlist("no playlist"),
        Err(PlaylistError::Invalid(_))
    ));
    assert!(matches!(
        reader.apply_playlist(&Playlist::Master { uris: vec![] }),
        Err(PlaylistError::EmptyMaster)
    ));
    let huge = MEDIA.replace("SEQUENCE:100", "SEQUENCE:18446744073709551615");
    assert!(matches!(
        reader.refresh_playlist(&huge),
        Err(PlaylistError::SequenceOverflow)
    ));
    assert_eq!(reader.pending_len(), 0);
    assert_eq!(reader.playlist_url(), "https://radio/list.m3u8");
}

#[test]
fn dry_playlist_is_refreshed_twice_and_then_given_up() {
    let mut reader = HlsReader::new("https://radio/list.m3u8");
    let mut fetch = reader.begin_fetch();
    assert!(matches!(
        reader.next_fetch(&mut fetch),
        FetchAction::WaitAndRefresh(3000)
    ));
    assert!(matches!(
        reader.next_fetch(&mut fetch),
        FetchAction::WaitAndRefresh(3000)
    ));
    assert!(matches!(
        reader.next_fetch(&mut fetch),
        FetchAction::EndOfStream
    ));
    reader.apply_playlist(&media(0, &["a"])).unwrap();
    assert!(matches!(
        reader.next_fetch(&mut fetch),
        FetchAction::Fetch(_)
    ));
}

#[test]
fn refresh_waits_half_the_target_duration() {
    assert_eq!(refresh_wait_ms(0), 500);
    assert_eq!(refresh_wait_ms(1), 500);
    assert_eq!(refresh_wait_ms(6), 3000);
    assert_eq!(refresh_wait_ms(u64::MAX), u64::MAX);
}

#[test]
fn segments_are_read_as_one_stream() {
    let mut reader = HlsReader::new("https://radio/list.m3u8");
    let mut heard = Vec::new();
    let mut segments = vec![vec![1u8, 2, 3], vec![4, 5]].into_iter();
    let mut buf = [0u8; 2];
    loop {
        match reader.read(&mut buf, false) {
            ReadOutcome::Read(n) => heard.extend_from_slice(&buf[..n]),
            ReadOutcome::NeedSegment => match segments.next() {
                Some(data) => reader.accept_segment(data),
                None => break,
            },
            ReadOutcome::Interrupted => unreachable!(),
        }
    }
    assert_eq!(heard, vec![1, 2, 3, 4, 5]);
}

#[test]
fn empty_buffer_changes_nothing() {
    let mut reader = HlsReader::new("https://radio/list.m3u8");
    assert_eq!(reader.read(&mut [], false), ReadOutcome::Read(0));
    reader.accept_segment(vec![1, 2]);
    assert_eq!(reader.read(&mut [], false), ReadOutcome::Read(0));
    let mut buf = [0u8; 4];
    assert_eq!(reader.read(&mut buf, false), ReadOutcome::Read(2));
    assert_eq!(buf, [1, 2, 0, 0]);
    assert_eq!(reader.read(&mut buf, false), ReadOutcome::NeedSegment);
}

#[test]
fn empty_segment_does_not_end_the_stream() {
    let mut reader = HlsReader::new("https://radio/list.m3u8");
    reader.accept_segment(vec![]);
    let mut buf = [0u8; 4];
    assert_eq!(reader.read(&mut buf, false), ReadOutcome::NeedSegment);
    reader.accept_segment(vec![7]);
    assert_eq!(reader.read(&mut buf, false), ReadOutcome::Read(1));
}

#[test]
fn stopped_reader_says_so() {
    let mut reader = HlsReader::new("https://radio/list.m3u8");
    reader.accept_segment(vec![1, 2, 3]);
    let mut buf = [9u8; 2];
    assert_eq!(reader.read(&mut buf, true), ReadOutcome::Interrupted);
    assert_eq!(buf, [9, 9]);
    assert_eq!(reader.read_segment(&mut buf), 2);
    assert_eq!(buf, [1, 2]);
}

#[test]
fn address_of_a_playlist_is_recognized() {
    assert!(is_hls_url("https://radio/a.m3u8"));
    assert!(is_hls_url(".m3u8"));
    assert!(!is_hls_url("https://radio/a.m3u"));
    assert!(!is_hls_url(""));
}

// ==================== Transport streams ====================

fn packet(pid: u16, start: bool, adaptation: Option<u8>, payload: &[u8]) -> Vec<u8> {
    let mut p = vec![
        0x47,
        ((pid >> 8) as u8) | if start { 0x40 } else { 0 },
        pid as u8,
        0x10 | if adaptation.is_some() { 0x20 } else { 0 },
    ];
    if let Some(len) = adaptation {
        p.push(len);
        p.extend(std::iter::repeat(0xFF).take(len as usize));
    }
    p.extend_from_slice(payload);
    p.resize(188, 0);
    p
}

/// An adaptation field so long that exactly `n` bytes of payload fit behind it.
fn room_for(n: usize) -> Option<u8> {
    Some((188 - 5 - n) as u8)
}

#[test]
fn test_demux_empty() {
    assert!(demux_ts_audio(&[]).is_empty());
    assert!(demux_ts_audio(&[0x47; 187]).is_empty());
}

#[test]
fn audio_is_found_and_followed() {
    let mut ts = packet(0, true, None, &[1, 2, 3]);
    ts.extend(packet(
        0x101,
        true,
        room_for(12),
        &[0, 0, 1, 0xC0, 0, 0, 0, 0, 1, 0xEE, 10, 11],
    ));
    ts.extend(packet(0x101, false, room_for(2), &[12, 13]));
    ts.extend(packet(0x102, false, room_for(2), &[98, 99]));
    ts.extend(packet(0x101, true, room_for(10), &[0, 0, 1, 0xBD, 0, 0, 0, 0, 0, 14]));
    ts.extend([0x47, 1, 2]);
    assert_eq!(demux_ts_audio(&ts), vec![10, 11, 12, 13, 14]);
}

#[test]
fn video_and_broken_packets_are_left_out() {
    let mut ts = packet(0x100, true, room_for(10), &[0, 0, 1, 0xE0, 0, 0, 0, 0, 0, 14]);
    ts.extend(packet(0x100, false, room_for(2), &[1, 2]));
    let mut broken = packet(0x101, true, room_for(10), &[0, 0, 1, 0xC0, 0, 0, 0, 0, 0, 14]);
    broken[0] = 0x46;
    ts.extend(&broken);
    let mut without_payload = packet(0x101, true, room_for(10), &[0, 0, 1, 0xC0, 0, 0, 0, 0, 0, 1]);
    without_payload[3] = 0x20;
    ts.extend(&without_payload);
    assert!(demux_ts_audio(&ts).is_empty());
}

#[test]
fn transport_stream_segment_is_demuxed_when_accepted() {
    let mut reader = HlsReader::new("https://radio/list.m3u8");
    reader.accept_segment(packet(
        0x101,
        true,
        room_for(11),
        &[0, 0, 1, 0xC0, 0, 0, 0, 0, 0, 10, 11],
    ));
    let mut buf = [0u8; 8];
    assert_eq!(reader.read(&mut buf, false), ReadOutcome::Read(2));
    assert_eq!(&buf[..2], &[10, 11]);
}

#[test]
fn audio_grows_with_the_data() {
    let head = packet(0x101, true, room_for(11), &[0, 0, 1, 0xC0, 0, 0, 0, 0, 0, 10, 11]);
    let mut whole = head.clone();
    whole.extend(packet(0x101, false, room_for(1), &[12]));
    assert_eq!(demux_ts_audio(&head), vec![10, 11]);
    assert_eq!(demux_ts_audio(&whole), vec![10, 11, 12]);
}
