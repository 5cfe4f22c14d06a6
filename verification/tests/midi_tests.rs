use wavescore::midi::{MIDIEventType, MIDIFile, MIDITrack, ParseError, read_value};

// A 14-byte file header announcing `tracks` track chunks.
fn header(tracks: u8) -> Vec<u8> {
    vec![
        0x4D, 0x54, 0x68, 0x64, // "MThd"
        0x00, 0x00, 0x00, 0x06, // header length
        0x00, 0x00, // format
        0x00, tracks, // track chunks
        0x00, 0x60, // division
    ]
}

// An 8-byte track chunk header; the decoder reads and ignores its fields.
fn chunk_header(len: u32) -> Vec<u8> {
    let mut v = vec![0x4D, 0x54, 0x72, 0x6B]; // "MTrk"
    v.extend_from_slice(&len.to_be_bytes());
    v
}

fn file_of(tracks: Vec<Vec<u8>>) -> Vec<u8> {
    let mut bytes = header(tracks.len() as u8);
    for t in tracks {
        bytes.extend(chunk_header(t.len() as u32));
        bytes.extend(t);
    }
    bytes
}

const END_OF_TRACK: [u8; 4] = [0xFF, 0x00, 0x2F, 0x00];

#[test]
fn test_vlq_two_byte_decodes_128() {
    let bytes: Vec<u8> = vec![0x81, 0x00];
    let mut pos: usize = 0;
    let r = read_value(&bytes, &mut pos);
    assert_eq!(r, Ok(128));
    assert_eq!(pos, 2);
}

#[test]
fn test_vlq_single_byte() {
    let bytes: Vec<u8> = vec![0x05];
    let mut pos: usize = 0;
    assert_eq!(read_value(&bytes, &mut pos), Ok(5));
    assert_eq!(pos, 1);
}

#[test]
fn test_vlq_two_continuations() {
    // 1 * 128 * 128 + 2 * 128 + 3
    let bytes: Vec<u8> = vec![0x81, 0x82, 0x03];
    let mut pos: usize = 0;
    assert_eq!(read_value(&bytes, &mut pos), Ok(16643));
}

#[test]
fn test_vlq_empty_is_eof() {
    let bytes: Vec<u8> = vec![];
    let mut pos: usize = 0;
    assert_eq!(read_value(&bytes, &mut pos), Err(ParseError::UnexpectedEof));
}

#[test]
fn test_vlq_unterminated_is_eof() {
    let bytes: Vec<u8> = vec![0x81, 0x80];
    let mut pos: usize = 0;
    assert_eq!(read_value(&bytes, &mut pos), Err(ParseError::UnexpectedEof));
}

#[test]
fn test_parse_empty_file_is_eof() {
    assert!(MIDIFile::parse(&vec![]).is_err());
}

#[test]
fn test_parse_truncated_header_is_eof() {
    let mut bytes = header(0);
    bytes.truncate(13);
    assert_eq!(MIDIFile::parse(&bytes).err(), Some(ParseError::UnexpectedEof));
}

#[test]
fn test_parse_zero_tracks() {
    let f = MIDIFile::parse(&header(0)).unwrap();
    assert_eq!(f.tracks.len(), 0);
}

#[test]
fn test_parse_note_on_event() {
    let mut track = vec![0x90, 0x00, 0x3C, 0x40]; // note-on, delta 0, key 60, velocity 64
    track.extend_from_slice(&END_OF_TRACK);
    let f = MIDIFile::parse(&file_of(vec![track])).unwrap();
    assert_eq!(f.tracks.len(), 1);
    let events = &f.tracks[0].events;
    assert_eq!(events.len(), 1);
    assert_eq!(events[0].event, MIDIEventType::NoteOn);
    assert_eq!(events[0].key, 0x3C);
    assert_eq!(events[0].velocity, 0x40);
    assert_eq!(events[0].delta_tick, 0);
}

#[test]
fn test_note_on_with_zero_velocity_is_note_off() {
    let mut track = vec![0x90, 0x00, 0x3C, 0x00];
    track.extend_from_slice(&END_OF_TRACK);
    let f = MIDIFile::parse(&file_of(vec![track])).unwrap();
    assert_eq!(f.tracks[0].events[0].event, MIDIEventType::NoteOff);
}

#[test]
fn test_note_off_event() {
    let mut track = vec![0x80, 0x00, 0x3C, 0x20];
    track.extend_from_slice(&END_OF_TRACK);
    let f = MIDIFile::parse(&file_of(vec![track])).unwrap();
    assert_eq!(f.tracks[0].events[0].event, MIDIEventType::NoteOff);
    assert_eq!(f.tracks[0].events[0].velocity, 0x20);
}

#[test]
fn test_running_status_reuses_note_on() {
    // A second event whose status position holds a data byte: it is decoded
    // under the previous note-on status, the byte being the key.
    let mut track = vec![0x90, 0x00, 0x3C, 0x40];
    track.extend_from_slice(&[0x3E, 0x00, 0x50]); // key 62, delta 0, velocity 80
    track.extend_from_slice(&END_OF_TRACK);
    let f = MIDIFile::parse(&file_of(vec![track])).unwrap();
    let events = &f.tracks[0].events;
    assert_eq!(events.len(), 2);
    assert_eq!(events[1].event, MIDIEventType::NoteOn);
    assert_eq!(events[1].key, 0x3E);
    assert_eq!(events[1].velocity, 0x50);
}

#[test]
fn test_end_of_track_leaves_rest_of_stream() {
    // Two chunks back to back: the first track's end-of-track event must
    // not consume the second chunk's bytes.
    let mut t1 = vec![0x90, 0x00, 0x3C, 0x40];
    t1.extend_from_slice(&END_OF_TRACK);
    let mut t2 = vec![0x80, 0x00, 0x3E, 0x10];
    t2.extend_from_slice(&END_OF_TRACK);
    let f = MIDIFile::parse(&file_of(vec![t1, t2])).unwrap();
    assert_eq!(f.tracks.len(), 2);
    assert_eq!(f.tracks[0].events.len(), 1);
    assert_eq!(f.tracks[1].events.len(), 1);
    assert_eq!(f.tracks[1].events[0].key, 0x3E);
}

#[test]
fn test_end_of_track_ignores_trailing_bytes() {
    // Bytes after the end-of-track event of the last track are never read.
    let mut track = Vec::new();
    track.extend_from_slice(&END_OF_TRACK);
    let mut bytes = file_of(vec![track]);
    bytes.extend_from_slice(&[0xDE, 0xAD]);
    let f = MIDIFile::parse(&bytes).unwrap();
    assert_eq!(f.tracks.len(), 1);
    assert_eq!(f.tracks[0].events.len(), 0);
}

#[test]
fn test_stream_ending_between_events_ends_track() {
    // No end-of-track event, but the bytes end cleanly on an event
    // boundary: the track simply ends there.
    let track = vec![0x90, 0x00, 0x3C, 0x40];
    let f = MIDIFile::parse(&file_of(vec![track])).unwrap();
    assert_eq!(f.tracks[0].events.len(), 1);
}

#[test]
fn test_truncated_event_is_eof() {
    let track = vec![0x90, 0x00, 0x3C]; // velocity missing
    assert_eq!(
        MIDIFile::parse(&file_of(vec![track])).err(),
        Some(ParseError::UnexpectedEof)
    );
}

#[test]
fn test_truncated_chunk_header_is_eof() {
    let mut bytes = header(1);
    bytes.extend_from_slice(&[0x4D, 0x54, 0x72]); // chunk header cut short
    assert_eq!(MIDIFile::parse(&bytes).err(), Some(ParseError::UnexpectedEof));
}

#[test]
fn test_track_name_captured() {
    let mut track = vec![0xFF, 0x00, 0x03, 0x05];
    track.extend_from_slice(b"Piano");
    track.extend_from_slice(&END_OF_TRACK);
    let f = MIDIFile::parse(&file_of(vec![track])).unwrap();
    assert_eq!(f.tracks[0].name.as_deref(), Some("Piano"));
    assert_eq!(f.tracks[0].instrument, None);
}

#[test]
fn test_instrument_name_captured() {
    let mut track = vec![0xFF, 0x00, 0x04, 0x04];
    track.extend_from_slice(b"Harp");
    track.extend_from_slice(&END_OF_TRACK);
    let f = MIDIFile::parse(&file_of(vec![track])).unwrap();
    assert_eq!(f.tracks[0].instrument.as_deref(), Some("Harp"));
    assert_eq!(f.tracks[0].name, None);
}

#[test]
fn test_later_track_name_wins() {
    let mut track = vec![0xFF, 0x00, 0x03, 0x03];
    track.extend_from_slice(b"Old");
    track.extend_from_slice(&[0xFF, 0x00, 0x03, 0x03]);
    track.extend_from_slice(b"New");
    track.extend_from_slice(&END_OF_TRACK);
    let f = MIDIFile::parse(&file_of(vec![track])).unwrap();
    assert_eq!(f.tracks[0].name.as_deref(), Some("New"));
}

#[test]
fn test_truncated_name_is_eof() {
    let mut track = vec![0xFF, 0x00, 0x03, 0x08]; // claims 8 bytes
    track.extend_from_slice(b"abc");
    assert_eq!(
        MIDIFile::parse(&file_of(vec![track])).err(),
        Some(ParseError::UnexpectedEof)
    );
}

#[test]
fn test_text_meta_payload_skipped() {
    let mut track = vec![0xFF, 0x00, 0x01, 0x03];
    track.extend_from_slice(b"abc");
    track.extend_from_slice(&[0x90, 0x00, 0x3C, 0x40]);
    track.extend_from_slice(&END_OF_TRACK);
    let f = MIDIFile::parse(&file_of(vec![track])).unwrap();
    assert_eq!(f.tracks[0].events.len(), 1);
    assert_eq!(f.tracks[0].name, None);
}

#[test]
fn test_sequence_number_consumes_two_bytes() {
    let mut track = vec![0xFF, 0x00, 0x00, 0x02, 0xAA, 0xBB];
    track.extend_from_slice(&[0x90, 0x00, 0x3C, 0x40]);
    track.extend_from_slice(&END_OF_TRACK);
    let f = MIDIFile::parse(&file_of(vec![track])).unwrap();
    assert_eq!(f.tracks[0].events.len(), 1);
}

#[test]
fn test_unknown_meta_payload_not_consumed() {
    // A set-tempo meta event announces three payload bytes, but the decoder
    // leaves them in place; the next event is read right after the length.
    let mut track = vec![0xFF, 0x00, 0x51, 0x03];
    track.extend_from_slice(&[0x90, 0x00, 0x3C, 0x40]);
    track.extend_from_slice(&END_OF_TRACK);
    let f = MIDIFile::parse(&file_of(vec![track])).unwrap();
    assert_eq!(f.tracks[0].events.len(), 1);
    assert_eq!(f.tracks[0].events[0].key, 0x3C);
}

#[test]
fn test_program_change_consumes_one_byte() {
    let mut track = vec![0xC0, 0x00, 0x07]; // program change, delta 0, program 7
    track.extend_from_slice(&[0x90, 0x00, 0x3C, 0x40]);
    track.extend_from_slice(&END_OF_TRACK);
    let f = MIDIFile::parse(&file_of(vec![track])).unwrap();
    assert_eq!(f.tracks[0].events.len(), 1);
}

#[test]
fn test_control_change_discarded() {
    let mut track = vec![0xB0, 0x00, 0x07, 0x64];
    track.extend_from_slice(&END_OF_TRACK);
    let f = MIDIFile::parse(&file_of(vec![track])).unwrap();
    assert_eq!(f.tracks[0].events.len(), 0);
}

#[test]
fn test_data_byte_without_running_status_ignored() {
    // At the start of a track there is no running status: a data byte in
    // status position is ignored along with its delta time.
    let mut track = vec![0x10, 0x00];
    track.extend_from_slice(&[0x90, 0x00, 0x3C, 0x40]);
    track.extend_from_slice(&END_OF_TRACK);
    let f = MIDIFile::parse(&file_of(vec![track])).unwrap();
    assert_eq!(f.tracks[0].events.len(), 1);
}

#[test]
fn test_new_track_is_empty() {
    let t = MIDITrack::new();
    assert_eq!(t.name, None);
    assert_eq!(t.instrument, None);
    assert_eq!(t.events.len(), 0);
}
