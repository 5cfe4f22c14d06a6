//! A sequential decoder for standard MIDI files.
//!
//! The decoder walks the raw bytes of the file once: the 14-byte container
//! header, then one chunk per track, each chunk an 8-byte header followed
//! by a stream of (status, delta-time) event pairs under the running-status
//! protocol. Voice note-on and note-off events are kept; the other voice
//! events are consumed and discarded; meta events are dispatched by type,
//! with the track-name and instrument-name strings stored on the track and
//! the end-of-track event closing the stream.
//!
//! Delta times and meta lengths are variable-length quantities read with
//! the standard MIDI continuation rule: a set high bit marks a continuation
//! byte, and the byte that clears it ends the value.
//!
//! A truncated file — one that ends in the middle of a header, an event or
//! a string — is reported as an explicit error rather than padded out;
//! a stream that ends cleanly between events simply ends the track there.
//!
//! The whole decode is specified by a spec-level interpreter of the byte
//! stream, `spec_parse`, and `MIDIFile::parse` is proved to return exactly
//! its verdict.

use vstd::prelude::*;

use crate::text::{lossy_string, lossy_utf8};

verus! {

/// Decoding failed because the byte stream ended inside a structure that
/// needed more bytes.
#[derive(Clone, Copy, Debug, PartialEq, Eq, Structural)]
pub enum ParseError {
    UnexpectedEof,
}

/// The kind of a retained voice event.
#[derive(Clone, Copy, Debug, PartialEq, Eq, Structural)]
pub enum MIDIEventType {
    NoteOff,
    NoteOn,
    /// Reserved for events of neither kind; the decoder never stores one.
    Other,
}

/// One retained voice event: a note turned on or off.
#[derive(Clone, Copy, Debug, PartialEq, Eq, Structural)]
pub struct MIDIEvent {
    pub event: MIDIEventType,
    pub key: u8,
    pub velocity: u8,
    pub delta_tick: u32,
}

/// One decoded track: its note events in file order, and the name strings
/// of its last track-name and instrument-name meta events, if any.
#[derive(Clone, Debug)]
pub struct MIDITrack {
    pub name: Option<String>,
    pub instrument: Option<String>,
    pub events: Vec<MIDIEvent>,
}

/// The mathematical content of a track.
#[verifier::ext_equal]
pub ghost struct TrackModel {
    pub name: Option<Seq<char>>,
    pub instrument: Option<Seq<char>>,
    pub events: Seq<MIDIEvent>,
}

impl TrackModel {
    /// A track with nothing decoded yet.
    pub open spec fn empty() -> TrackModel {
        TrackModel { name: None, instrument: None, events: Seq::empty() }
    }
}

impl View for MIDITrack {
    type V = TrackModel;

    open spec fn view(&self) -> TrackModel {
        TrackModel {
            name: match self.name {
                Some(s) => Some(s@),
                None => None,
            },
            instrument: match self.instrument {
                Some(s) => Some(s@),
                None => None,
            },
            events: self.events@,
        }
    }
}

impl MIDITrack {
    pub fn new() -> (t: MIDITrack)
        ensures
            t@ == TrackModel::empty(),
    {
        let t = MIDITrack { name: None, instrument: None, events: Vec::new() };
        proof {
            assert(t@ =~= TrackModel::empty());
        }
        t
    }
}

/// A decoded MIDI file: one decoded track per track chunk.
#[derive(Clone, Debug)]
pub struct MIDIFile {
    pub tracks: Vec<MIDITrack>,
}

impl View for MIDIFile {
    type V = Seq<TrackModel>;

    open spec fn view(&self) -> Seq<TrackModel> {
        self.tracks@.map(|i: int, t: MIDITrack| t@)
    }
}

/// The big-endian 16-bit value at `pos`.
pub open spec fn spec_be_u16(b: Seq<u8>, pos: int) -> u16 {
    (b[pos] * 0x100 + b[pos + 1]) as u16
}

/// The big-endian 32-bit value at `pos`.
pub open spec fn spec_be_u32(b: Seq<u8>, pos: int) -> u32 {
    (b[pos] * 0x1000000 + b[pos + 1] * 0x10000 + b[pos + 2] * 0x100 + b[pos + 3]) as u32
}

/// One accumulation step of a variable-length quantity: seven more bits
/// arrive at the low end. The accumulator keeps its low 25 bits so that the
/// value never outgrows 32 bits however many bytes arrive.
pub open spec fn spec_vlq_step(acc: u32, byte: u8) -> u32 {
    ((acc % 0x2000000) * 0x80 + (byte % 0x80)) as u32
}

/// The variable-length quantity starting at `pos`, folded onto `acc`:
/// a set high bit marks a continuation byte, and the byte that clears it
/// ends the value. Yields the value and the position after it, or `None`
/// when the bytes run out first.
pub open spec fn spec_vlq(b: Seq<u8>, pos: int, acc: u32) -> Option<(u32, int)>
    decreases b.len() - pos,
{
    if pos < 0 || pos >= b.len() {
        None
    } else if b[pos] >= 0x80 {
        spec_vlq(b, pos + 1, spec_vlq_step(acc, b[pos]))
    } else {
        Some((spec_vlq_step(acc, b[pos]), pos + 1))
    }
}

/// A decoded variable-length quantity ends past where it began and within
/// the stream.
pub proof fn lemma_vlq_advances(b: Seq<u8>, pos: int, acc: u32)
    ensures
        spec_vlq(b, pos, acc) matches Some(r) ==> pos < r.1 <= b.len(),
    decreases b.len() - pos,
{
    if 0 <= pos && pos < b.len() && b[pos] >= 0x80 {
        lemma_vlq_advances(b, pos + 1, spec_vlq_step(acc, b[pos]));
    }
}

/// What one event, starting at the status-byte candidate `pos`, does to the
/// decoder.
#[verifier::ext_equal]
pub ghost enum EventStep {
    /// The event was the end-of-track meta event: the stream ends here and
    /// nothing past `next` is consumed.
    Done { next: int },
    /// Any other event: decoding continues at `next` with running status
    /// `prev`; `ev` is a retained note event, and `name` and `instrument`
    /// are strings captured from the corresponding meta events.
    Next {
        next: int,
        prev: u8,
        ev: Option<MIDIEvent>,
        name: Option<Seq<char>>,
        instrument: Option<Seq<char>>,
    },
}

/// A meta event (status `0xFF`), with its type byte at `p2`: a type and a
/// variable-length payload length follow. Track-name and instrument-name
/// events capture their payload as text; the sequence-number event carries
/// two bytes; the text-like events skip their payload; end-of-track ends
/// the stream; every other type leaves its payload in place.
pub open spec fn spec_meta(b: Seq<u8>, p2: int) -> Option<EventStep> {
    if p2 >= b.len() {
        None
    } else {
        let meta = b[p2];
        match spec_vlq(b, p2 + 1, 0) {
            None => None,
            Some((length, p3)) => {
                if meta == 0x2F {
                    Some(EventStep::Done { next: p3 })
                } else if meta == 0x00 {
                    if p3 + 2 > b.len() {
                        None
                    } else {
                        Some(
                            EventStep::Next {
                                next: p3 + 2,
                                prev: 0,
                                ev: None,
                                name: None,
                                instrument: None,
                            },
                        )
                    }
                } else if meta == 0x03 {
                    if p3 + length > b.len() {
                        None
                    } else {
                        Some(
                            EventStep::Next {
                                next: p3 + length,
                                prev: 0,
                                ev: None,
                                name: Some(lossy_utf8(b.subrange(p3, p3 + length))),
                                instrument: None,
                            },
                        )
                    }
                } else if meta == 0x04 {
                    if p3 + length > b.len() {
                        None
                    } else {
                        Some(
                            EventStep::Next {
                                next: p3 + length,
                                prev: 0,
                                ev: None,
                                name: None,
                                instrument: Some(lossy_utf8(b.subrange(p3, p3 + length))),
                            },
                        )
                    }
                } else if meta == 0x01 || meta == 0x02 || meta == 0x05 || meta == 0x06 || meta
                    == 0x07 || meta == 0x20 {
                    if p3 + length > b.len() {
                        None
                    } else {
                        Some(
                            EventStep::Next {
                                next: p3 + length,
                                prev: 0,
                                ev: None,
                                name: None,
                                instrument: None,
                            },
                        )
                    }
                } else {
                    Some(EventStep::Next { next: p3, prev: 0, ev: None, name: None, instrument: None })
                }
            },
        }
    }
}

/// One event of the stream, starting at `pos` with running status `prev`.
///
/// The byte at `pos` is the status candidate and a variable-length delta
/// time follows it. A candidate below `0x80` is not a status byte but the
/// first data byte of an event under the previous running status. Voice
/// events consume their fixed number of data bytes — two for note-off,
/// note-on, aftertouch, control-change and pitch-bend, one for
/// program-change and channel-pressure — and only note events are
/// retained, a note-on with velocity zero counting as a note-off. Status
/// bytes `0xF0`..`0xFE` clear the running status and consume nothing
/// further; `0xFF` is a meta event; anything else is ignored.
pub open spec fn spec_event(b: Seq<u8>, pos: int, prev: u8) -> Option<EventStep> {
    let cand = b[pos];
    match spec_vlq(b, pos + 1, 0) {
        None => None,
        Some((delta, p2)) => {
            let running = cand < 0x80;
            let status = if running {
                prev
            } else {
                cand
            };
            if 0x80 <= status && status < 0xF0 && !(0xC0 <= status && status < 0xE0) {
                let need = if running {
                    1int
                } else {
                    2int
                };
                if p2 + need > b.len() {
                    None
                } else {
                    let d1 = if running {
                        cand
                    } else {
                        b[p2]
                    };
                    let d2 = if running {
                        b[p2]
                    } else {
                        b[p2 + 1]
                    };
                    let ev = if status < 0x90 {
                        Some(
                            MIDIEvent {
                                event: MIDIEventType::NoteOff,
                                key: d1,
                                velocity: d2,
                                delta_tick: delta,
                            },
                        )
                    } else if status < 0xA0 {
                        Some(
                            MIDIEvent {
                                event: if d2 == 0 {
                                    MIDIEventType::NoteOff
                                } else {
                                    MIDIEventType::NoteOn
                                },
                                key: d1,
                                velocity: d2,
                                delta_tick: delta,
                            },
                        )
                    } else {
                        None
                    };
                    Some(
                        EventStep::Next {
                            next: p2 + need,
                            prev: status,
                            ev,
                            name: None,
                            instrument: None,
                        },
                    )
                }
            } else if 0xC0 <= status && status < 0xE0 {
                let need = if running {
                    0int
                } else {
                    1int
                };
                if p2 + need > b.len() {
                    None
                } else {
                    Some(
                        EventStep::Next {
                            next: p2 + need,
                            prev: status,
                            ev: None,
                            name: None,
                            instrument: None,
                        },
                    )
                }
            } else if status >= 0xF0 {
                if status == 0xFF {
                    spec_meta(b, p2)
                } else {
                    Some(EventStep::Next { next: p2, prev: 0, ev: None, name: None, instrument: None })
                }
            } else {
                Some(EventStep::Next { next: p2, prev, ev: None, name: None, instrument: None })
            }
        },
    }
}

/// Folds what one event captured into the track decoded so far: a new
/// note event is appended, and a captured name or instrument string
/// replaces the one held before.
pub open spec fn spec_track_apply(
    acc: TrackModel,
    ev: Option<MIDIEvent>,
    name: Option<Seq<char>>,
    instrument: Option<Seq<char>>,
) -> TrackModel {
    TrackModel {
        name: if name is Some {
            name
        } else {
            acc.name
        },
        instrument: if instrument is Some {
            instrument
        } else {
            acc.instrument
        },
        events: match ev {
            Some(e) => acc.events.push(e),
            None => acc.events,
        },
    }
}

/// The event stream of a track, decoded from `pos` with running status
/// `prev` onto the track `acc`: events are folded in until the
/// end-of-track meta event or the end of the bytes, whichever comes first.
/// Yields the finished track and the position after it, or `None` when the
/// bytes run out inside an event.
pub open spec fn spec_track(b: Seq<u8>, pos: int, prev: u8, acc: TrackModel) -> Option<
    (TrackModel, int),
>
    decreases b.len() - pos,
{
    if pos >= b.len() {
        Some((acc, pos))
    } else {
        match spec_event(b, pos, prev) {
            None => None,
            Some(EventStep::Done { next }) => Some((acc, next)),
            Some(EventStep::Next { next, prev: p, ev, name, instrument }) => {
                if pos < next <= b.len() {
                    spec_track(b, next, p, spec_track_apply(acc, ev, name, instrument))
                } else {
                    None
                }
            },
        }
    }
}

/// `n` track chunks decoded from `pos`: each chunk is an 8-byte header —
/// the decoder does not validate it — followed by its event stream.
/// Yields the tracks in order and the position after the last, or `None`
/// when the bytes run out inside a header or an event.
pub open spec fn spec_chunks(b: Seq<u8>, pos: int, n: int) -> Option<(Seq<TrackModel>, int)>
    decreases n,
{
    if n <= 0 {
        Some((Seq::empty(), pos))
    } else if pos < 0 || pos + 8 > b.len() {
        None
    } else {
        match spec_track(b, pos + 8, 0, TrackModel::empty()) {
            None => None,
            Some((t, p2)) => match spec_chunks(b, p2, n - 1) {
                None => None,
                Some((ts, p3)) => Some((seq![t] + ts, p3)),
            },
        }
    }
}

/// The whole file: a 14-byte header whose track count stands big-endian at
/// offset 10 — the other header fields are decoded and not validated —
/// followed by that many track chunks. `None` when the bytes run out
/// inside the header, a chunk header or an event.
pub open spec fn spec_parse(b: Seq<u8>) -> Option<Seq<TrackModel>> {
    if b.len() < 14 {
        None
    } else {
        match spec_chunks(b, 14, spec_be_u16(b, 10) as int) {
            None => None,
            Some((ts, _)) => Some(ts),
        }
    }
}

/// Reads one byte.
fn read_u8(b: &Vec<u8>, pos: &mut usize) -> (r: Result<u8, ParseError>)
    requires
        *old(pos) <= b@.len(),
    ensures
        match r {
            Ok(v) => *old(pos) + 1 <= b@.len() && v == b@[*old(pos) as int] && *final(pos) == *old(pos)
                + 1,
            Err(_) => *old(pos) + 1 > b@.len() && *final(pos) == *old(pos),
        },
        *final(pos) <= b@.len(),
{
    if b.len() - *pos >= 1 {
        let v = b[*pos];
        *pos = *pos + 1;
        Ok(v)
    } else {
        Err(ParseError::UnexpectedEof)
    }
}

/// Reads a big-endian 16-bit value.
fn read_u16(b: &Vec<u8>, pos: &mut usize) -> (r: Result<u16, ParseError>)
    requires
        *old(pos) <= b@.len(),
    ensures
        match r {
            Ok(v) => *old(pos) + 2 <= b@.len() && v == spec_be_u16(b@, *old(pos) as int) && *final(pos)
                == *old(pos) + 2,
            Err(_) => *old(pos) + 2 > b@.len() && *final(pos) == *old(pos),
        },
        *final(pos) <= b@.len(),
{
    if b.len() - *pos >= 2 {
        let v0 = b[*pos];
        let v1 = b[*pos + 1];
        *pos = *pos + 2;
        Ok((v0 as u16) * 0x100 + (v1 as u16))
    } else {
        Err(ParseError::UnexpectedEof)
    }
}

/// Reads a big-endian 32-bit value.
fn read_u32(b: &Vec<u8>, pos: &mut usize) -> (r: Result<u32, ParseError>)
    requires
        *old(pos) <= b@.len(),
    ensures
        match r {
            Ok(v) => *old(pos) + 4 <= b@.len() && v == spec_be_u32(b@, *old(pos) as int) && *final(pos)
                == *old(pos) + 4,
            Err(_) => *old(pos) + 4 > b@.len() && *final(pos) == *old(pos),
        },
        *final(pos) <= b@.len(),
{
    if b.len() - *pos >= 4 {
        let v0 = b[*pos];
        let v1 = b[*pos + 1];
        let v2 = b[*pos + 2];
        let v3 = b[*pos + 3];
        *pos = *pos + 4;
        Ok((v0 as u32) * 0x1000000 + (v1 as u32) * 0x10000 + (v2 as u32) * 0x100 + (v3 as u32))
    } else {
        Err(ParseError::UnexpectedEof)
    }
}

/// Reads a variable-length quantity under the standard MIDI rule: a set
/// high bit marks a continuation byte, seven payload bits per byte, and
/// the byte whose high bit is clear ends the value.
#[verifier::loop_isolation(false)]
pub fn read_value(b: &Vec<u8>, pos: &mut usize) -> (r: Result<u32, ParseError>)
    requires
        *old(pos) <= b@.len(),
    ensures
        match r {
            Ok(v) => spec_vlq(b@, *old(pos) as int, 0) == Some((v, *final(pos) as int)) && *old(pos)
                < *final(pos),
            Err(_) => spec_vlq(b@, *old(pos) as int, 0) is None && *old(pos) <= *final(pos),
        },
        *final(pos) <= b@.len(),
{
    let ghost pos0: int = *pos as int;
    let mut value: u32 = 0;
    loop
        invariant
            *pos <= b@.len(),
            pos0 <= *pos,
            spec_vlq(b@, pos0, 0) == spec_vlq(b@, *pos as int, value),
        decreases b@.len() - *pos,
    {
        let ghost p: int = *pos as int;
        let ghost acc: u32 = value;
        match read_u8(b, pos) {
            Err(e) => {
                return Err(e);
            },
            Ok(byte) => {
                value = (value % 0x2000000) * 0x80 + (byte % 0x80) as u32;
                proof {
                    assert(value == spec_vlq_step(acc, byte));
                }
                if byte < 0x80 {
                    proof {
                        assert(spec_vlq(b@, p, acc) == Some((value, *pos as int)));
                        lemma_vlq_advances(b@, pos0, 0);
                    }
                    return Ok(value);
                }
            },
        }
    }
}

/// Skips `length` bytes of payload.
fn skip_bytes(b: &Vec<u8>, pos: &mut usize, length: u32) -> (r: Result<(), ParseError>)
    requires
        *old(pos) <= b@.len(),
    ensures
        match r {
            Ok(_) => *old(pos) + length <= b@.len() && *final(pos) == *old(pos) + length,
            Err(_) => *old(pos) + length > b@.len() && *final(pos) == *old(pos),
        },
        *final(pos) <= b@.len(),
{
    if length as usize <= b.len() - *pos {
        *pos = *pos + length as usize;
        Ok(())
    } else {
        Err(ParseError::UnexpectedEof)
    }
}

/// Reads `length` bytes and decodes them as text.
#[verifier::loop_isolation(false)]
fn read_string(b: &Vec<u8>, pos: &mut usize, length: u32) -> (r: Result<String, ParseError>)
    requires
        *old(pos) <= b@.len(),
    ensures
        match r {
            Ok(s) => *old(pos) + length <= b@.len() && s@ == lossy_utf8(
                b@.subrange(*old(pos) as int, *old(pos) + length),
            ) && *final(pos) == *old(pos) + length,
            Err(_) => *old(pos) + length > b@.len() && *final(pos) == *old(pos),
        },
        *final(pos) <= b@.len(),
{
    if length as usize <= b.len() - *pos {
        let start: usize = *pos;
        let mut buf: Vec<u8> = Vec::new();
        let mut i: usize = 0;
        while i < length as usize
            invariant
                i <= length,
                start + length <= b@.len(),
                buf@ == b@.subrange(start as int, start + i),
            decreases length - i,
        {
            buf.push(b[start + i]);
            proof {
                assert(buf@ =~= b@.subrange(start as int, start + i + 1));
            }
            i = i + 1;
        }
        let s = lossy_string(&buf);
        *pos = start + length as usize;
        Ok(s)
    } else {
        Err(ParseError::UnexpectedEof)
    }
}

/// Decodes one track's event stream, starting at the first status-byte
/// candidate, with a fresh running status and an empty track. Returns the
/// finished track, leaving `pos` after the end-of-track event or at the
/// end of the bytes; errs exactly when the bytes run out inside an event.
#[verifier::loop_isolation(false)]
#[verifier::rlimit(60)]
fn parse_track(b: &Vec<u8>, pos: &mut usize) -> (r: Result<MIDITrack, ParseError>)
    requires
        *old(pos) <= b@.len(),
    ensures
        match r {
            Ok(t) => spec_track(b@, *old(pos) as int, 0, TrackModel::empty()) == Some(
                (t@, *final(pos) as int),
            ) && *old(pos) <= *final(pos) <= b@.len(),
            Err(_) => spec_track(b@, *old(pos) as int, 0, TrackModel::empty()) is None,
        },
{
    let ghost pos0: int = *pos as int;
    let mut track = MIDITrack::new();
    let mut prev_status: u8 = 0;
    let mut end_of_track = false;
    while !end_of_track && *pos < b.len()
        invariant
            *pos <= b@.len(),
            pos0 <= *pos,
            !end_of_track ==> spec_track(b@, pos0, 0, TrackModel::empty()) == spec_track(
                b@,
                *pos as int,
                prev_status,
                track@,
            ),
            end_of_track ==> spec_track(b@, pos0, 0, TrackModel::empty()) == Some(
                (track@, *pos as int),
            ),
        decreases b@.len() - *pos,
    {
        let ghost pos_at: int = *pos as int;
        let ghost prev_at: u8 = prev_status;
        let ghost track_at: TrackModel = track@;

        let cand = match read_u8(b, pos) {
            Ok(v) => v,
            Err(_) => {
                proof {
                    assert(false);
                }
                return Err(ParseError::UnexpectedEof);
            },
        };
        let delta = match read_value(b, pos) {
            Ok(v) => v,
            Err(e) => {
                proof {
                    assert(spec_event(b@, pos_at, prev_at) is None);
                    assert(spec_track(b@, pos_at, prev_at, track_at) is None);
                }
                return Err(e);
            },
        };
        let running = cand < 0x80;
        let status: u8 = if running {
            prev_status
        } else {
            cand
        };

        if status >= 0x80 && status < 0xF0 && !(status >= 0xC0 && status < 0xE0) {
            // note-off, note-on, aftertouch, control change, pitch bend
            let d1: u8 = if running {
                cand
            } else {
                match read_u8(b, pos) {
                    Ok(v) => v,
                    Err(e) => {
                        proof {
                            assert(spec_event(b@, pos_at, prev_at) is None);
                            assert(spec_track(b@, pos_at, prev_at, track_at) is None);
                        }
                        return Err(e);
                    },
                }
            };
            let d2: u8 = match read_u8(b, pos) {
                Ok(v) => v,
                Err(e) => {
                    proof {
                        assert(spec_event(b@, pos_at, prev_at) is None);
                        assert(spec_track(b@, pos_at, prev_at, track_at) is None);
                    }
                    return Err(e);
                },
            };
            prev_status = status;
            if status < 0xA0 {
                let e_type = if status < 0x90 {
                    MIDIEventType::NoteOff
                } else if d2 == 0 {
                    MIDIEventType::NoteOff
                } else {
                    MIDIEventType::NoteOn
                };
                let ev = MIDIEvent { event: e_type, key: d1, velocity: d2, delta_tick: delta };
                track.events.push(ev);
                proof {
                    assert(spec_event(b@, pos_at, prev_at) == Some(
                        EventStep::Next {
                            next: *pos as int,
                            prev: status,
                            ev: Some(ev),
                            name: None,
                            instrument: None,
                        },
                    ));
                    assert(track@ =~= spec_track_apply(track_at, Some(ev), None, None));
                }
            } else {
                proof {
                    assert(spec_event(b@, pos_at, prev_at) == Some(
                        EventStep::Next {
                            next: *pos as int,
                            prev: status,
                            ev: None,
                            name: None,
                            instrument: None,
                        },
                    ));
                    assert(track@ =~= spec_track_apply(track_at, None, None, None));
                }
            }
        } else if status >= 0xC0 && status < 0xE0 {
            // program change, channel pressure
            if !running {
                match read_u8(b, pos) {
                    Ok(_) => (),
                    Err(e) => {
                        proof {
                            assert(spec_event(b@, pos_at, prev_at) is None);
                            assert(spec_track(b@, pos_at, prev_at, track_at) is None);
                        }
                        return Err(e);
                    },
                };
            }
            prev_status = status;
            proof {
                assert(spec_event(b@, pos_at, prev_at) == Some(
                    EventStep::Next {
                        next: *pos as int,
                        prev: status,
                        ev: None,
                        name: None,
                        instrument: None,
                    },
                ));
                assert(track@ =~= spec_track_apply(track_at, None, None, None));
            }
        } else if status >= 0xF0 {
            // system exclusive and meta events unset the running status
            prev_status = 0;
            if status == 0xFF {
                let meta = match read_u8(b, pos) {
                    Ok(v) => v,
                    Err(e) => {
                        proof {
                            assert(spec_event(b@, pos_at, prev_at) is None);
                            assert(spec_track(b@, pos_at, prev_at, track_at) is None);
                        }
                        return Err(e);
                    },
                };
                let length = match read_value(b, pos) {
                    Ok(v) => v,
                    Err(e) => {
                        proof {
                            assert(spec_event(b@, pos_at, prev_at) is None);
                            assert(spec_track(b@, pos_at, prev_at, track_at) is None);
                        }
                        return Err(e);
                    },
                };
                let ghost p3: int = *pos as int;
                if meta == 0x2F {
                    end_of_track = true;
                    proof {
                        assert(spec_event(b@, pos_at, prev_at) == Some(
                            EventStep::Done { next: *pos as int },
                        ));
                        assert(spec_track(b@, pos_at, prev_at, track_at) == Some(
                            (track_at, *pos as int),
                        ));
                    }
                } else if meta == 0x00 {
                    match read_u8(b, pos) {
                        Ok(_) => (),
                        Err(e) => {
                            proof {
                                assert(spec_event(b@, pos_at, prev_at) is None);
                                assert(spec_track(b@, pos_at, prev_at, track_at) is None);
                            }
                            return Err(e);
                        },
                    };
                    match read_u8(b, pos) {
                        Ok(_) => (),
                        Err(e) => {
                            proof {
                                assert(spec_event(b@, pos_at, prev_at) is None);
                                assert(spec_track(b@, pos_at, prev_at, track_at) is None);
                            }
                            return Err(e);
                        },
                    };
                    proof {
                        assert(spec_event(b@, pos_at, prev_at) == Some(
                            EventStep::Next {
                                next: *pos as int,
                                prev: 0,
                                ev: None,
                                name: None,
                                instrument: None,
                            },
                        ));
                        assert(track@ =~= spec_track_apply(track_at, None, None, None));
                    }
                } else if meta == 0x03 {
                    let s = match read_string(b, pos, length) {
                        Ok(v) => v,
                        Err(e) => {
                            proof {
                                assert(spec_event(b@, pos_at, prev_at) is None);
                                assert(spec_track(b@, pos_at, prev_at, track_at) is None);
                            }
                            return Err(e);
                        },
                    };
                    track.name = Some(s);
                    proof {
                        assert(spec_event(b@, pos_at, prev_at) == Some(
                            EventStep::Next {
                                next: *pos as int,
                                prev: 0,
                                ev: None,
                                name: Some(lossy_utf8(b@.subrange(p3, p3 + length))),
                                instrument: None,
                            },
                        ));
                        assert(track@ =~= spec_track_apply(
                            track_at,
                            None,
                            Some(lossy_utf8(b@.subrange(p3, p3 + length))),
                            None,
                        ));
                    }
                } else if meta == 0x04 {
                    let s = match read_string(b, pos, length) {
                        Ok(v) => v,
                        Err(e) => {
                            proof {
                                assert(spec_event(b@, pos_at, prev_at) is None);
                                assert(spec_track(b@, pos_at, prev_at, track_at) is None);
                            }
                            return Err(e);
                        },
                    };
                    track.instrument = Some(s);
                    proof {
                        assert(spec_event(b@, pos_at, prev_at) == Some(
                            EventStep::Next {
                                next: *pos as int,
                                prev: 0,
                                ev: None,
                                name: None,
                                instrument: Some(lossy_utf8(b@.subrange(p3, p3 + length))),
                            },
                        ));
                        assert(track@ =~= spec_track_apply(
                            track_at,
                            None,
                            None,
                            Some(lossy_utf8(b@.subrange(p3, p3 + length))),
                        ));
                    }
                } else if meta == 0x01 || meta == 0x02 || meta == 0x05 || meta == 0x06 || meta
                    == 0x07 || meta == 0x20 {
                    match skip_bytes(b, pos, length) {
                        Ok(_) => (),
                        Err(e) => {
                            proof {
                                assert(spec_event(b@, pos_at, prev_at) is None);
                                assert(spec_track(b@, pos_at, prev_at, track_at) is None);
                            }
                            return Err(e);
                        },
                    };
                    proof {
                        assert(spec_event(b@, pos_at, prev_at) == Some(
                            EventStep::Next {
                                next: *pos as int,
                                prev: 0,
                                ev: None,
                                name: None,
                                instrument: None,
                            },
                        ));
                        assert(track@ =~= spec_track_apply(track_at, None, None, None));
                    }
                } else {
                    proof {
                        assert(spec_event(b@, pos_at, prev_at) == Some(
                            EventStep::Next {
                                next: *pos as int,
                                prev: 0,
                                ev: None,
                                name: None,
                                instrument: None,
                            },
                        ));
                        assert(track@ =~= spec_track_apply(track_at, None, None, None));
                    }
                }
            } else {
                proof {
                    assert(spec_event(b@, pos_at, prev_at) == Some(
                        EventStep::Next {
                            next: *pos as int,
                            prev: 0,
                            ev: None,
                            name: None,
                            instrument: None,
                        },
                    ));
                    assert(track@ =~= spec_track_apply(track_at, None, None, None));
                }
            }
        } else {
            // no event recognised: nothing beyond the candidate and the
            // delta time is consumed, and the running status keeps its value
            proof {
                assert(spec_event(b@, pos_at, prev_at) == Some(
                    EventStep::Next {
                        next: *pos as int,
                        prev: prev_status,
                        ev: None,
                        name: None,
                        instrument: None,
                    },
                ));
                assert(track@ =~= spec_track_apply(track_at, None, None, None));
            }
        }
        proof {
            if !end_of_track {
                assert(spec_track(b@, pos_at, prev_at, track_at) == spec_track(
                    b@,
                    *pos as int,
                    prev_status,
                    track@,
                ));
            }
        }
    }
    proof {
        if !end_of_track {
            assert(spec_track(b@, *pos as int, prev_status, track@) == Some(
                (track@, *pos as int),
            ));
        }
    }
    Ok(track)
}

/// Running status replays the previous status byte: when the byte in
/// status position is a data byte (below `0x80`) and the running status is
/// a note-on, that byte is the key of a further note-on under the same
/// status — same channel — the byte after the delta time is its velocity
/// (zero turning it into a note-off), and the running status keeps its
/// value.
pub proof fn lemma_running_status_note_on(b: Seq<u8>, pos: int, prev: u8, d: (u32, int))
    requires
        0 <= pos < b.len(),
        b[pos] < 0x80,
        0x90 <= prev < 0xA0,
        spec_vlq(b, pos + 1, 0) == Some(d),
        d.1 + 1 <= b.len(),
    ensures
        spec_event(b, pos, prev) == Some(
            EventStep::Next {
                next: d.1 + 1,
                prev: prev,
                ev: Some(
                    MIDIEvent {
                        event: if b[d.1] == 0 {
                            MIDIEventType::NoteOff
                        } else {
                            MIDIEventType::NoteOn
                        },
                        key: b[pos],
                        velocity: b[d.1],
                        delta_tick: d.0,
                    },
                ),
                name: None,
                instrument: None,
            },
        ),
{
}

/// An end-of-track meta event ends the track at once: whatever was decoded
/// so far is the track's content, and no byte past the event's own length
/// field is consumed from the stream.
pub proof fn lemma_end_of_track_stops(
    b: Seq<u8>,
    pos: int,
    prev: u8,
    acc: TrackModel,
    d: (u32, int),
    l: (u32, int),
)
    requires
        0 <= pos < b.len(),
        b[pos] == 0xFF,
        spec_vlq(b, pos + 1, 0) == Some(d),
        d.1 < b.len(),
        b[d.1] == 0x2F,
        spec_vlq(b, d.1 + 1, 0) == Some(l),
    ensures
        spec_event(b, pos, prev) == Some(EventStep::Done { next: l.1 }),
        spec_track(b, pos, prev, acc) == Some((acc, l.1)),
{
}

/// The tracks decoded so far, joined with what remains to decode.
spec fn spec_chunks_join(done: Seq<TrackModel>, rest: Option<(Seq<TrackModel>, int)>) -> Option<
    (Seq<TrackModel>, int),
> {
    match rest {
        None => None,
        Some((ts, p)) => Some((done + ts, p)),
    }
}

impl MIDIFile {
    /// Decodes a whole file image: the 14-byte header, then one track per
    /// chunk the header announces. Returns the decoded tracks, or reports
    /// the truncation when the bytes run out inside a header or an event —
    /// exactly as the spec-level interpreter `spec_parse` says.
    #[verifier::loop_isolation(false)]
    #[verifier::rlimit(30)]
    pub fn parse(bytes: &Vec<u8>) -> (r: Result<MIDIFile, ParseError>)
        ensures
            match r {
                Ok(f) => spec_parse(bytes@) == Some(f@),
                Err(_) => spec_parse(bytes@) is None,
            },
    {
        let mut pos: usize = 0;
        // The file id, header length, format and division are decoded and
        // not validated; only the track count steers the decoder.
        let _file_id = match read_u32(bytes, &mut pos) {
            Ok(v) => v,
            Err(e) => {
                return Err(e);
            },
        };
        let _header_length = match read_u32(bytes, &mut pos) {
            Ok(v) => v,
            Err(e) => {
                return Err(e);
            },
        };
        let _format = match read_u16(bytes, &mut pos) {
            Ok(v) => v,
            Err(e) => {
                return Err(e);
            },
        };
        let track_chunks = match read_u16(bytes, &mut pos) {
            Ok(v) => v,
            Err(e) => {
                return Err(e);
            },
        };
        let _division = match read_u16(bytes, &mut pos) {
            Ok(v) => v,
            Err(e) => {
                return Err(e);
            },
        };

        let mut file = MIDIFile { tracks: Vec::new() };
        let n: usize = track_chunks as usize;
        let mut i: usize = 0;
        proof {
            assert(file@ =~= Seq::<TrackModel>::empty());
            if let Some((ts, p)) = spec_chunks(bytes@, 14, n as int) {
                assert(Seq::<TrackModel>::empty() + ts =~~= ts);
            }
        }
        while i < n
            invariant
                i <= n,
                pos <= bytes@.len(),
                spec_chunks_join(file@, spec_chunks(bytes@, pos as int, n - i)) == spec_chunks(
                    bytes@,
                    14,
                    n as int,
                ),
            decreases n - i,
        {
            let ghost pos_at: int = pos as int;
            let ghost file_at: Seq<TrackModel> = file@;
            // The chunk id and length are decoded and not validated: the
            // stream itself, up to the end-of-track event, bounds the track.
            let _track_id = match read_u32(bytes, &mut pos) {
                Ok(v) => v,
                Err(e) => {
                    proof {
                        assert(spec_chunks(bytes@, pos_at, (n - i) as int) is None);
                        assert(spec_parse(bytes@) is None);
                    }
                    return Err(e);
                },
            };
            let _track_length = match read_u32(bytes, &mut pos) {
                Ok(v) => v,
                Err(e) => {
                    proof {
                        assert(spec_chunks(bytes@, pos_at, (n - i) as int) is None);
                        assert(spec_parse(bytes@) is None);
                    }
                    return Err(e);
                },
            };
            match parse_track(bytes, &mut pos) {
                Err(e) => {
                    proof {
                        assert(spec_chunks(bytes@, pos_at, (n - i) as int) is None);
                        assert(spec_parse(bytes@) is None);
                    }
                    return Err(e);
                },
                Ok(t) => {
                    file.tracks.push(t);
                    proof {
                        assert(file@ =~~= file_at.push(t@));
                        if let Some((ts, p)) = spec_chunks(bytes@, pos as int, (n - i - 1) as int) {
                            assert(file_at.push(t@) + ts =~~= file_at + (seq![t@] + ts));
                        }
                        assert(spec_chunks_join(file@, spec_chunks(bytes@, pos as int, n - i - 1))
                            == spec_chunks(bytes@, 14, n as int));
                    }
                },
            }
            i = i + 1;
        }
        proof {
            assert(spec_chunks(bytes@, pos as int, 0) == Some(
                (Seq::<TrackModel>::empty(), pos as int),
            ));
            assert(file@ + Seq::<TrackModel>::empty() =~~= file@);
            assert(spec_parse(bytes@) == Some(file@));
        }
        Ok(file)
    }
}

} // verus!
