//! Standard MIDI files: reading their outline, and writing a recorded track.
use midly::live::LiveEvent;
use midly::MetaMessage::{EndOfTrack, Tempo, TimeSignature as Meter};
use midly::TrackEventKind::Meta;
use midly::Format::SingleTrack;
use midly::Timing::{Metrical, Timecode};
use midly::{Arena, Header, Smf, TrackEvent};
use vstd::prelude::*;

use crate::midi_file::MidiMessage;

verus! {

/// What an event of a file says about the metre: how many pulses after the event
/// before it it comes, and the numerator and the power-of-two denominator that
/// it sets, if it is a time signature.
pub type OutlineEvent = (u32, Option<(u8, u8)>);

/// What is read of a file: how many pulses a quarter note has, if it counts in
/// them, and its tracks.
#[derive(Debug)]
pub struct SmfOutline {
    pub pulses_per_quarter: Option<u16>,
    pub tracks: Vec<Vec<OutlineEvent>>,
}

/// The tracks of an outline as mathematics.
pub open spec fn outline_tracks(tracks: Seq<Vec<OutlineEvent>>) -> Seq<Seq<OutlineEvent>> {
    tracks.map_values(|track: Vec<OutlineEvent>| track@)
}

/// What `midly::Smf::parse` reads from some bytes: pulses per quarter note and
/// tracks, or nothing where it reports an error.
pub uninterp spec fn parsed(bytes: Seq<u8>) -> Option<
    (Option<u16>, Seq<Seq<OutlineEvent>>),
>;

/// Whether four bytes stand at a place.
pub open spec fn tagged(bytes: Seq<u8>, at: int, tag: Seq<u8>) -> bool {
    bytes.subrange(at, at + 4) == tag
}

/// `a`, or `end` where that comes first.
pub open spec fn up_to(a: int, end: int) -> int {
    if a < end {
        a
    } else {
        end
    }
}

/// Four bytes as a number, the most significant first.
pub open spec fn big_endian(bytes: Seq<u8>, at: int) -> int {
    ((bytes[at] * 256 + bytes[at + 1]) * 256 + bytes[at + 2]) * 256 + bytes[at + 3]
}

/// Four bytes as a number, the least significant first.
pub open spec fn little_endian(bytes: Seq<u8>, at: int) -> int {
    ((bytes[at + 3] * 256 + bytes[at + 2]) * 256 + bytes[at + 1]) * 256 + bytes[at]
}

/// Where the file lies inside a RIFF wrapper, whose chunks follow each other from
/// `at` to `end`, each padded to an even length.
pub open spec fn riff_data(bytes: Seq<u8>, at: int, end: int) -> Option<(int, int)>
    decreases end - at,
{
    if at + 8 > end {
        None
    } else {
        let len = little_endian(bytes, at + 4);
        let next = up_to(at + 8 + len, end);
        if tagged(bytes, at, seq![0x64u8, 0x61, 0x74, 0x61]) {
            Some((at + 8, next))
        } else {
            riff_data(bytes, up_to(next + len % 2, end), end)
        }
    }
}

/// Where the chunks of a file lie: all of it, or a part of a RIFF wrapper.
pub open spec fn chunks_of(bytes: Seq<u8>) -> Option<(int, int)> {
    let total = bytes.len() as int;
    if total < 4 {
        None
    } else if tagged(bytes, 0, seq![0x4du8, 0x54, 0x68, 0x64]) {
        Some((0, total))
    } else if total < 8 || !tagged(bytes, 0, seq![0x52u8, 0x49, 0x46, 0x46]) {
        None
    } else {
        let end = up_to(8 + little_endian(bytes, 4), total);
        if end < 12 || !tagged(bytes, 8, seq![0x52u8, 0x4d, 0x49, 0x44]) {
            None
        } else {
            riff_data(bytes, 12, end)
        }
    }
}

/// Whether a header counts in frames of a rate that there is: 24, 25, 29 or 30 a
/// second, written as a negative number.
pub open spec fn is_frame_rate(timing: u8) -> bool {
    timing == 0xe8 || timing == 0xe7 || timing == 0xe3 || timing == 0xe2
}

/// Whether no header among the chunks from `at` to `end` that gets read gives its
/// frame rate as -128. Reading ends at a header that is cut off, of an unknown
/// format or of an unknown rate, and at a track before the first header.
pub open spec fn negatable_from(bytes: Seq<u8>, at: int, end: int, first: bool) -> bool
    decreases end - at,
{
    if at + 8 > end {
        true
    } else {
        let len = big_endian(bytes, at + 4);
        let data = at + 8;
        let next = up_to(data + len, end);
        if tagged(bytes, at, seq![0x4du8, 0x54, 0x68, 0x64]) {
            let timing = bytes[data + 4];
            if next - data < 6 || bytes[data] * 256 + bytes[data + 1] > 2 {
                true
            } else if timing >= 0x80 && !is_frame_rate(timing) {
                timing != 0x80
            } else {
                negatable_from(bytes, next, end, false)
            }
        } else if tagged(bytes, at, seq![0x4du8, 0x54, 0x72, 0x6b]) {
            first || negatable_from(bytes, next, end, false)
        } else {
            negatable_from(bytes, next, end, first)
        }
    }
}

/// Whether the frame rate of every header that gets read can be negated in eight
/// bits.
pub open spec fn negatable(bytes: Seq<u8>) -> bool {
    match chunks_of(bytes) {
        Some((at, end)) => negatable_from(bytes, at, end, true),
        None => true,
    }
}

fn has_tag(bytes: &[u8], at: usize, tag: [u8; 4]) -> (has: bool)
    requires
        at + 4 <= bytes@.len(),
    ensures
        has == tagged(bytes@, at as int, tag@),
{
    let has = bytes[at] == tag[0] && bytes[at + 1] == tag[1] && bytes[at + 2] == tag[2] && bytes[at
        + 3] == tag[3];
    proof {
        let here = bytes@.subrange(at as int, at + 4);
        if has {
            assert(here =~= tag@);
        } else if here == tag@ {
            assert(here[0] == tag@[0] && here[1] == tag@[1] && here[2] == tag@[2] && here[3]
                == tag@[3]);
        }
    }
    has
}

fn number(a: u8, b: u8, c: u8, d: u8) -> (n: u64)
    ensures
        n == ((a * 256 + b) * 256 + c) * 256 + d,
        n <= u32::MAX,
{
    ((a as u64 * 256 + b as u64) * 256 + c as u64) * 256 + d as u64
}

/// `at + len`, or `end` where that comes first.
fn reach(at: usize, len: u64, end: usize) -> (to: usize)
    requires
        at <= end,
    ensures
        to == up_to(at + len, end as int),
        at <= to <= end,
{
    if len < (end - at) as u64 {
        at + len as usize
    } else {
        end
    }
}

fn find_riff_data(bytes: &[u8], from: usize, end: usize) -> (found: Option<(usize, usize)>)
    requires
        from <= end <= bytes@.len(),
    ensures
        match found {
            Some((a, b)) => riff_data(bytes@, from as int, end as int) == Some((a as int, b as int))
                && a <= b <= end,
            None => riff_data(bytes@, from as int, end as int) is None,
        },
{
    let mut at: usize = from;
    while end - at >= 8
        invariant
            from <= at <= end <= bytes@.len(),
            riff_data(bytes@, at as int, end as int) == riff_data(bytes@, from as int, end as int),
        decreases end - at,
    {
        let len: u64 = number(bytes[at + 7], bytes[at + 6], bytes[at + 5], bytes[at + 4]);
        let next: usize = reach(at + 8, len, end);
        let tag: [u8; 4] = [0x64, 0x61, 0x74, 0x61];
        assert(tag@ =~= seq![0x64u8, 0x61, 0x74, 0x61]);
        if has_tag(bytes, at, tag) {
            return Some((at + 8, next));
        }
        at = reach(next, len % 2, end);
    }
    None
}

fn find_chunks(bytes: &[u8]) -> (found: Option<(usize, usize)>)
    ensures
        match found {
            Some((a, b)) => chunks_of(bytes@) == Some((a as int, b as int)) && a <= b
                <= bytes@.len(),
            None => chunks_of(bytes@) is None,
        },
{
    let total: usize = bytes.len();
    if total < 4 {
        return None;
    }
    let head: [u8; 4] = [0x4d, 0x54, 0x68, 0x64];
    let riff: [u8; 4] = [0x52, 0x49, 0x46, 0x46];
    let form: [u8; 4] = [0x52, 0x4d, 0x49, 0x44];
    proof {
        assert(head@ =~= seq![0x4du8, 0x54, 0x68, 0x64]);
        assert(riff@ =~= seq![0x52u8, 0x49, 0x46, 0x46]);
        assert(form@ =~= seq![0x52u8, 0x4d, 0x49, 0x44]);
    }
    if has_tag(bytes, 0, head) {
        return Some((0, total));
    }
    if total < 8 || !has_tag(bytes, 0, riff) {
        return None;
    }
    let end: usize = reach(8, number(bytes[7], bytes[6], bytes[5], bytes[4]), total);
    if end < 12 || !has_tag(bytes, 8, form) {
        return None;
    }
    find_riff_data(bytes, 12, end)
}

/// Whether the frame rate of every header that gets read can be negated in eight
/// bits.
pub(crate) fn is_negatable(bytes: &[u8]) -> (safe: bool)
    ensures
        safe == negatable(bytes@),
{
    let (start, end): (usize, usize) = match find_chunks(bytes) {
        Some(found) => found,
        None => return true,
    };
    let head: [u8; 4] = [0x4d, 0x54, 0x68, 0x64];
    let track: [u8; 4] = [0x4d, 0x54, 0x72, 0x6b];
    proof {
        assert(head@ =~= seq![0x4du8, 0x54, 0x68, 0x64]);
        assert(track@ =~= seq![0x4du8, 0x54, 0x72, 0x6b]);
    }
    let mut at: usize = start;
    let mut first = true;
    while end - at >= 8
        invariant
            at <= end <= bytes@.len(),
            head@ == seq![0x4du8, 0x54, 0x68, 0x64],
            track@ == seq![0x4du8, 0x54, 0x72, 0x6b],
            negatable(bytes@) == negatable_from(bytes@, at as int, end as int, first),
        decreases end - at,
    {
        let len: u64 = number(bytes[at + 4], bytes[at + 5], bytes[at + 6], bytes[at + 7]);
        let data: usize = at + 8;
        let next: usize = reach(data, len, end);
        if has_tag(bytes, at, head) {
            if next - data < 6 || bytes[data] as u32 * 256 + bytes[data + 1] as u32 > 2 {
                return true;
            }
            let timing: u8 = bytes[data + 4];
            if timing >= 0x80 && timing != 0xe8 && timing != 0xe7 && timing != 0xe3 && timing
                != 0xe2 {
                return timing != 0x80;
            }
            first = false;
        } else if has_tag(bytes, at, track) {
            if first {
                return true;
            }
        }
        at = next;
    }
    true
}

/// Calls `midly::Smf::parse` and keeps what the metre depends on: the timing of
/// the header, and of every event its delta and its time signature. What is read
/// depends on the bytes alone; how the bytes encode it is not stated. A header
/// that gives its frame rate as -128 is left out: the call negates that in eight
/// bits, which overflows.
#[verifier::external_body]
pub(crate) fn read_outline(bytes: &[u8]) -> (outline: Option<SmfOutline>)
    requires
        negatable(bytes@),
    ensures
        match outline {
            Some(o) => parsed(bytes@) == Some((o.pulses_per_quarter, outline_tracks(o.tracks@))),
            None => parsed(bytes@) is None,
        },
{
    let smf = Smf::parse(bytes).ok()?;
    let pulses_per_quarter = match smf.header.timing {
        Metrical(pulses) => Some(pulses.as_int()),
        Timecode(_, _) => None,
    };
    let outline = |event: &TrackEvent| match event.kind {
        Meta(Meter(num, den, _, _)) => (event.delta.as_int(), Some((num, den))),
        _ => (event.delta.as_int(), None),
    };
    let tracks = smf.tracks.iter().map(|t| t.iter().map(outline).collect()).collect();
    Some(SmfOutline { pulses_per_quarter, tracks })
}

/// What an event of a track to be written says.
#[derive(Debug, Clone, Copy, PartialEq, Eq, Structural)]
pub enum SmfKind {
    /// Microseconds per quarter note.
    Tempo(u32),
    /// Numerator, power-of-two denominator, clocks per click, 32nd notes per
    /// quarter.
    TimeSignature(u8, u8, u8, u8),
    /// A channel message as its three bytes on the wire; a message with one data
    /// byte leaves the third unused.
    Midi(u8, u8, u8),
    EndOfTrack,
}

/// One event of a track to be written.
#[derive(Debug, Clone, Copy, PartialEq, Eq, Structural)]
pub struct SmfEvent {
    pub delta: u32,
    pub kind: SmfKind,
}

impl SmfEvent {
    /// Whether the numbers fit the fields that a file has for them.
    pub open spec fn fits(self) -> bool {
        &&& self.delta < 0x1000_0000
        &&& match self.kind {
            SmfKind::Tempo(micros) => micros < 0x100_0000,
            SmfKind::Midi(status, first, second) => 0x80 <= status < 0xf0 && first < 0x80 && second
                < 0x80,
            _ => true,
        }
    }

    /// What the event says about the metre.
    pub open spec fn outline(self) -> OutlineEvent {
        (
            self.delta,
            match self.kind {
                SmfKind::TimeSignature(num, den, _, _) => Some((num, den)),
                _ => None,
            },
        )
    }
}

/// What the events of a track say about the metre.
pub open spec fn outline_of(events: Seq<SmfEvent>) -> Seq<OutlineEvent> {
    events.map_values(|event: SmfEvent| event.outline())
}

/// What `midly::Smf::write` writes for a file of one track, or nothing where it
/// reports an error.
pub uninterp spec fn written(pulses_per_quarter: u16, events: Seq<SmfEvent>) -> Option<Seq<u8>>;

/// Calls `midly::Smf::write` for a file of one track, whose channel messages
/// `midly::live::LiveEvent::parse` takes from the wire. What is written depends
/// on the arguments alone. It is an error only for a track of four gigabytes,
/// and no event takes over eleven bytes; and what was written, which has one
/// header and counts in pulses, `midly::Smf::parse` reads back event by event.
#[verifier::external_body]
pub(crate) fn write_track(pulses_per_quarter: u16, events: &[SmfEvent]) -> (bytes: Option<Vec<u8>>)
    requires
        pulses_per_quarter < 0x8000,
        forall|n: int| 0 <= n < events@.len() ==> (#[trigger] events@[n]).fits(),
    ensures
        match bytes {
            Some(b) => written(pulses_per_quarter, events@) == Some(b@) && negatable(b@)
                && parsed(b@) == Some((Some(pulses_per_quarter), seq![outline_of(events@)])),
            None => written(pulses_per_quarter, events@) is None,
        },
        events@.len() <= 300_000_000 ==> bytes is Some,
{
    let arena = Arena::new();
    let mut smf = Smf::new(Header::new(SingleTrack, Metrical(pulses_per_quarter.into())));
    smf.tracks.push(events.iter().map(|e| TrackEvent {
        delta: e.delta.into(),
        kind: match e.kind {
            SmfKind::Tempo(micros) => Meta(Tempo(micros.into())),
            SmfKind::TimeSignature(num, den, clocks, parts) => Meta(Meter(num, den, clocks, parts)),
            SmfKind::Midi(s, a, b) => LiveEvent::parse(&[s, a, b]).unwrap().as_track_event(&arena),
            SmfKind::EndOfTrack => Meta(EndOfTrack),
        },
    }).collect());
    let mut bytes = Vec::new();
    smf.write(&mut bytes).ok()?;
    Some(bytes)
}

/// The bytes of a channel message on the wire: its kind and its channel in one
/// byte, then its data, each cut to the seven bits that MIDI has for it.
pub open spec fn wire(channel: u8, message: MidiMessage) -> SmfKind {
    let on = (channel % 16) as int;
    match message {
        MidiMessage::NoteOff { key, vel } => SmfKind::Midi(
            (0x80 + on) as u8,
            (key % 128) as u8,
            (vel % 128) as u8,
        ),
        MidiMessage::NoteOn { key, vel } => SmfKind::Midi(
            (0x90 + on) as u8,
            (key % 128) as u8,
            (vel % 128) as u8,
        ),
        MidiMessage::Aftertouch { key, vel } => SmfKind::Midi(
            (0xa0 + on) as u8,
            (key % 128) as u8,
            (vel % 128) as u8,
        ),
        MidiMessage::Controller { controller, value } => SmfKind::Midi(
            (0xb0 + on) as u8,
            (controller % 128) as u8,
            (value % 128) as u8,
        ),
        MidiMessage::ProgramChange { program } => SmfKind::Midi(
            (0xc0 + on) as u8,
            (program % 128) as u8,
            0,
        ),
        MidiMessage::ChannelAftertouch { vel } => SmfKind::Midi(
            (0xd0 + on) as u8,
            (vel % 128) as u8,
            0,
        ),
        MidiMessage::PitchBend { bend } => SmfKind::Midi(
            (0xe0 + on) as u8,
            (bend % 128) as u8,
            (bend / 128 % 128) as u8,
        ),
    }
}

/// Puts a channel message on the wire.
pub fn wire_bytes(channel: u8, message: MidiMessage) -> (kind: SmfKind)
    ensures
        kind == wire(channel, message),
        (SmfEvent { delta: 0, kind }).fits(),
{
    let on: u8 = channel % 16;
    match message {
        MidiMessage::NoteOff { key, vel } => SmfKind::Midi(0x80 + on, key % 128, vel % 128),
        MidiMessage::NoteOn { key, vel } => SmfKind::Midi(0x90 + on, key % 128, vel % 128),
        MidiMessage::Aftertouch { key, vel } => SmfKind::Midi(0xa0 + on, key % 128, vel % 128),
        MidiMessage::Controller { controller, value } => SmfKind::Midi(
            0xb0 + on,
            controller % 128,
            value % 128,
        ),
        MidiMessage::ProgramChange { program } => SmfKind::Midi(0xc0 + on, program % 128, 0),
        MidiMessage::ChannelAftertouch { vel } => SmfKind::Midi(0xd0 + on, vel % 128, 0),
        MidiMessage::PitchBend { bend } => SmfKind::Midi(
            0xe0 + on,
            (bend % 128) as u8,
            (bend / 128 % 128) as u8,
        ),
    }
}

/// What a message on the wire says: the kind by the high half of its first byte, the
/// channel by the low half, and then its data.
pub open spec fn heard_on_wire(status: u8, first: u8, second: u8) -> (u8, Option<MidiMessage>) {
    let kind = status / 16;
    (
        (status % 16) as u8,
        if kind == 8 {
            Some(MidiMessage::NoteOff { key: first, vel: second })
        } else if kind == 9 {
            Some(MidiMessage::NoteOn { key: first, vel: second })
        } else if kind == 10 {
            Some(MidiMessage::Aftertouch { key: first, vel: second })
        } else if kind == 11 {
            Some(MidiMessage::Controller { controller: first, value: second })
        } else if kind == 12 {
            Some(MidiMessage::ProgramChange { program: first })
        } else if kind == 13 {
            Some(MidiMessage::ChannelAftertouch { vel: first })
        } else if kind == 14 {
            Some(MidiMessage::PitchBend { bend: (second * 128 + first) as u16 })
        } else {
            None
        },
    )
}

/// Whether the numbers of a message are in the range that MIDI has for them.
pub open spec fn in_midi_range(message: MidiMessage) -> bool {
    match message {
        MidiMessage::NoteOff { key, vel } => key < 128 && vel < 128,
        MidiMessage::NoteOn { key, vel } => key < 128 && vel < 128,
        MidiMessage::Aftertouch { key, vel } => key < 128 && vel < 128,
        MidiMessage::Controller { controller, value } => controller < 128 && value < 128,
        MidiMessage::ProgramChange { program } => program < 128,
        MidiMessage::ChannelAftertouch { vel } => vel < 128,
        MidiMessage::PitchBend { bend } => bend < 16384,
    }
}

/// A message that is put on the wire is heard as it was, on its channel.
pub proof fn law_the_wire_carries_the_message(channel: u8, message: MidiMessage)
    requires
        channel < 16,
        in_midi_range(message),
    ensures
        wire(channel, message) matches SmfKind::Midi(status, first, second) && heard_on_wire(
            status,
            first,
            second,
        ) == (channel, Some(message)),
{
    if let MidiMessage::PitchBend { bend } = message {
        assert(bend / 128 % 128 == bend / 128);
        assert(bend / 128 * 128 + bend % 128 == bend);
    }
}

/// Numbers of four bytes are read with the most significant first in a MIDI file, and
/// with the least significant first in the wrapper that it may lie in.
pub proof fn law_numbers_of_four_bytes(bytes: Seq<u8>, at: int)
    ensures
        big_endian(bytes, at) == 16777216 * bytes[at] + 65536 * bytes[at + 1] + 256 * bytes[at + 2]
            + bytes[at + 3],
        little_endian(bytes, at) == 16777216 * bytes[at + 3] + 65536 * bytes[at + 2] + 256
            * bytes[at + 1] + bytes[at],
{
}

/// Whether a header that gives its frame rate as -128 stands at a place.
pub open spec fn bad_header_at(bytes: Seq<u8>, at: int) -> bool {
    &&& 0 <= at
    &&& at + 14 <= bytes.len()
    &&& bytes.subrange(at, at + 4) == seq![0x4du8, 0x54, 0x68, 0x64]
    &&& bytes[at + 12] == 0x80
}

/// The only files that are not read for their frame rate are those that hold a header
/// which gives it as -128; a plain file whose first header does so is one of them.
pub proof fn law_only_a_bad_frame_rate_is_refused(bytes: Seq<u8>)
    ensures
        !negatable(bytes) ==> exists|at: int| #[trigger] bad_header_at(bytes, at),
        bad_header_at(bytes, 0) && bytes[8] == 0 && bytes[9] <= 2 && big_endian(bytes, 4) >= 6
            ==> !negatable(bytes),
{
    if let Some((at, end)) = chunks_of(bytes) {
        lemma_chunks_lie_inside(bytes);
        lemma_refused(bytes, at, end, true);
    }
}

proof fn lemma_chunks_lie_inside(bytes: Seq<u8>)
    ensures
        match chunks_of(bytes) {
            Some((at, end)) => 0 <= at <= end <= bytes.len(),
            None => true,
        },
{
    if bytes.len() >= 12 {
        let end = up_to(8 + little_endian(bytes, 4), bytes.len() as int);
        if end >= 12 {
            lemma_riff_inside(bytes, 12, end);
        }
    }
}

proof fn lemma_riff_inside(bytes: Seq<u8>, at: int, end: int)
    requires
        0 <= at <= end <= bytes.len(),
    ensures
        match riff_data(bytes, at, end) {
            Some((from, to)) => 0 <= from <= to <= end,
            None => true,
        },
    decreases end - at,
{
    if at + 8 <= end {
        let len = little_endian(bytes, at + 4);
        let next = up_to(at + 8 + len, end);
        lemma_riff_inside(bytes, up_to(next + len % 2, end), end);
    }
}

proof fn lemma_refused(bytes: Seq<u8>, at: int, end: int, first: bool)
    requires
        0 <= at <= end <= bytes.len(),
    ensures
        !negatable_from(bytes, at, end, first) ==> exists|h: int| #[trigger] bad_header_at(bytes, h),
    decreases end - at,
{
    if at + 8 <= end && !negatable_from(bytes, at, end, first) {
        let len = big_endian(bytes, at + 4);
        let next = up_to(at + 8 + len, end);
        if tagged(bytes, at, seq![0x4du8, 0x54, 0x68, 0x64]) {
            let timing = bytes[at + 12];
            if timing == 0x80 {
                assert(bad_header_at(bytes, at));
            } else {
                lemma_refused(bytes, next, end, false);
            }
        } else {
            lemma_refused(bytes, next, end, false);
            lemma_refused(bytes, next, end, first);
        }
    }
}

/// What fits a file: times of 28 bits, tempos of 24, and channel messages whose data has
/// seven.
pub proof fn law_what_fits_a_file(delta: u32, status: u8, first: u8, second: u8, micros: u32)
    ensures
        (SmfEvent { delta, kind: SmfKind::EndOfTrack }).fits() <==> delta <= 0xfff_ffff,
        (SmfEvent { delta: 0, kind: SmfKind::Tempo(micros) }).fits() <==> micros <= 0xff_ffff,
        (SmfEvent { delta: 0, kind: SmfKind::Midi(status, first, second) }).fits() <==> 0x80
            <= status <= 0xef && first <= 0x7f && second <= 0x7f,
{
}

/// Only time signatures say anything of the metre, and every event takes its time.
pub proof fn law_what_an_event_says_of_the_metre(events: Seq<SmfEvent>, n: int)
    requires
        0 <= n < events.len(),
    ensures
        outline_of(events).len() == events.len(),
        outline_of(events)[n].0 == events[n].delta,
        outline_of(events)[n].1 is Some <==> events[n].kind is TimeSignature,
        events[n].kind is TimeSignature ==> outline_of(events)[n].1 == Some(
            (events[n].kind->TimeSignature_0, events[n].kind->TimeSignature_1),
        ),
{
}

/// Whatever a message holds, seven bits of each of its numbers go on the wire, on one of
/// sixteen channels.
pub proof fn law_the_wire_carries_seven_bits(channel: u8, message: MidiMessage)
    ensures
        wire(channel, message) matches SmfKind::Midi(status, first, second) && {
            &&& 0x80 <= status < 0xf0
            &&& first < 128 && second < 128
            &&& status as int % 16 == channel as int % 16
        },
{
}

} // verus!
