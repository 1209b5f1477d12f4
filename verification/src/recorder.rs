//! Recording free play: the notes, the sound, and what becomes of them.
use vstd::prelude::*;
use vstd::string::*;

use crate::microphone::{DeviceAction, MicPassthrough};
use crate::midi_file::{
    earliest_signature, first_signature, metre, pulses_before, signature_of, MidiMessage,
    TimeSignature,
};
use crate::sample::{is_nan, magnitude_of, INFINITY};
use crate::smf::{
    negatable, outline_of, parsed, wire, wire_bytes, write_track, written, SmfEvent, SmfKind,
};
use crate::take::VoiceTake;
use crate::text::{decimal, digit, push_decimal};

verus! {

/// How many pulses a recorded quarter note has.
pub const TICKS_PER_BEAT: u16 = 480;

/// How many microseconds a recorded quarter note lasts.
pub const TEMPO_MICROS_PER_BEAT: u32 = 500_000;

/// The bit pattern of 0.01, the least that counts as a voice. A live input is
/// never exactly silent: a microphone left open in a quiet room still sends its
/// own noise.
pub const HEARD: u32 = 0x3c23_d70a;

#[derive(Debug, PartialEq, Eq)]
pub enum RecorderError {
    NoNotesFound,
    NothingRecorded,
    Write,
    WriteAudio,
    MidiFileParse(String),
}

impl RecorderError {
    pub open spec fn label(self) -> Seq<char> {
        match self {
            RecorderError::NoNotesFound => "No note events recorded"@,
            RecorderError::NothingRecorded => "Nothing recorded"@,
            RecorderError::Write => "Failed to write MIDI file"@,
            RecorderError::WriteAudio => "Failed to write WAV file"@,
            RecorderError::MidiFileParse(why) => why@,
        }
    }

    pub fn text(&self) -> (text: String)
        ensures
            text@ == self.label(),
    {
        match self {
            RecorderError::NoNotesFound => String::from_str("No note events recorded"),
            RecorderError::NothingRecorded => String::from_str("Nothing recorded"),
            RecorderError::Write => String::from_str("Failed to write MIDI file"),
            RecorderError::WriteAudio => String::from_str("Failed to write WAV file"),
            RecorderError::MidiFileParse(why) => why.clone(),
        }
    }
}

/// What ended up on a take.
///
/// The take is a mix, so nothing in the file itself can tell a silent microphone
/// from one that never opened: both leave a recording of piano. Only the screen
/// can say.
#[derive(Debug, Clone, Copy, PartialEq, Eq, Structural)]
pub enum TakeOutcome {
    /// The playing and the singing, both on it.
    PianoAndVoice,
    /// The playing alone: the microphone was open and heard nothing.
    SilentMicrophone,
    /// The playing alone: no microphone could be opened.
    NoMicrophone,
    /// Something was lost on the way, so the recording has a gap in it.
    Gapped,
    /// Nothing was recorded at all, because the output is not the built-in synth.
    NoAudio,
}

impl TakeOutcome {
    pub open spec fn label(self) -> Seq<char> {
        match self {
            TakeOutcome::PianoAndVoice => "piano and voice"@,
            TakeOutcome::SilentMicrophone => "piano only, microphone heard nothing"@,
            TakeOutcome::NoMicrophone => "piano only, no microphone"@,
            TakeOutcome::Gapped => "piano and voice, some samples dropped"@,
            TakeOutcome::NoAudio => "MIDI only, no audio to record"@,
        }
    }

    pub fn text(&self) -> (text: &'static str)
        ensures
            text@ == self.label(),
    {
        match self {
            TakeOutcome::PianoAndVoice => "piano and voice",
            TakeOutcome::SilentMicrophone => "piano only, microphone heard nothing",
            TakeOutcome::NoMicrophone => "piano only, no microphone",
            TakeOutcome::Gapped => "piano and voice, some samples dropped",
            TakeOutcome::NoAudio => "MIDI only, no audio to record",
        }
    }
}

#[derive(Debug)]
pub enum RecorderStatus {
    Idle,
    RecordingFinished(u64, TakeOutcome),
    Saved(String),
    Error(RecorderError),
}

/// A time in tenths of a second, to the nearest one, halves to the even one.
pub open spec fn tenths(time: int) -> int {
    let whole = time / 100_000_000;
    let rest = time % 100_000_000;
    if rest < 50_000_000 || (rest == 50_000_000 && whole % 2 == 0) {
        whole
    } else {
        whole + 1
    }
}

/// A time in seconds with one decimal, as it is shown.
pub open spec fn seconds(time: int) -> Seq<char> {
    decimal((tenths(time) / 10) as nat) + "."@ + seq![digit(tenths(time) % 10)] + "s"@
}

/// Appends a time in seconds with one decimal.
fn push_seconds(out: &mut String, time: u64)
    ensures
        final(out)@ == old(out)@ + seconds(time as int),
{
    let whole: u64 = time / 100_000_000;
    let rest: u64 = time % 100_000_000;
    let rounded: u64 = if rest < 50_000_000 || (rest == 50_000_000 && whole % 2 == 0) {
        whole
    } else {
        whole + 1
    };
    push_decimal(out, rounded / 10);
    out.append(".");
    push_decimal(out, rounded % 10);
    out.append("s");
    assert(out@ =~= old(out)@ + seconds(time as int));
}

impl RecorderStatus {
    pub open spec fn label(self) -> Seq<char> {
        match self {
            RecorderStatus::Idle => Seq::empty(),
            RecorderStatus::RecordingFinished(time, outcome) => "Recorded "@ + seconds(time as int)
                + " · "@ + outcome.label(),
            RecorderStatus::Saved(what) => "Saved "@ + what@,
            RecorderStatus::Error(error) => error.label(),
        }
    }

    pub fn text(&self) -> (text: String)
        ensures
            text@ == self.label(),
    {
        match self {
            RecorderStatus::Idle => String::new(),
            RecorderStatus::RecordingFinished(time, outcome) => {
                let mut out = String::from_str("Recorded ");
                push_seconds(&mut out, *time);
                out.append(" · ");
                out.append(outcome.text());
                out
            },
            RecorderStatus::Saved(what) => {
                let mut out = String::from_str("Saved ");
                out.append(what.as_str());
                out
            },
            RecorderStatus::Error(error) => error.text(),
        }
    }
}

impl Default for RecorderStatus {
    fn default() -> (status: Self)
        ensures
            status is Idle,
    {
        RecorderStatus::Idle
    }
}

#[derive(Debug, Clone, Copy, PartialEq, Eq, Structural)]
pub struct RecordedMidiEvent {
    pub timestamp: u64,
    pub channel: u8,
    pub message: MidiMessage,
}

/// A key on a channel, as one number: channels first, then keys.
pub open spec fn key_code(channel: u8, key: u8) -> u16 {
    (channel * 256 + key) as u16
}

/// The keys that are down after some events.
pub open spec fn held(events: Seq<RecordedMidiEvent>) -> Set<u16>
    decreases events.len(),
{
    if events.len() == 0 {
        Set::empty()
    } else {
        let before = held(events.drop_last());
        let event = events.last();
        match event.message {
            MidiMessage::NoteOn { key, .. } => before.insert(key_code(event.channel, key)),
            MidiMessage::NoteOff { key, .. } => before.remove(key_code(event.channel, key)),
            _ => before,
        }
    }
}

/// The releases of some keys.
pub open spec fn releases(codes: Seq<u16>, timestamp: u64) -> Seq<RecordedMidiEvent> {
    codes.map_values(
        |code: u16|
            RecordedMidiEvent {
                timestamp,
                channel: (code / 256) as u8,
                message: MidiMessage::NoteOff { key: (code % 256) as u8, vel: 0 },
            },
    )
}

/// Whether numbers only go up.
pub open spec fn ascending(codes: Seq<u16>) -> bool {
    forall|m: int, n: int| 0 <= m < n < codes.len() ==> (#[trigger] codes[m]) < (#[trigger] codes[n])
}

pub struct RecordingInProgressState {
    pub started_at: u64,
    pub events: Vec<RecordedMidiEvent>,
    /// The keys that are down, in order.
    pub active_notes: Vec<u16>,
    /// The performance as it was heard, swept out of the tape a frame at a time.
    pub audio: Vec<u32>,
    /// False when the microphone would not open.
    pub microphone: bool,
}

impl RecordingInProgressState {
    /// The keys that are down are those that the events left down.
    pub open spec fn wf(self) -> bool {
        &&& ascending(self.active_notes@)
        &&& self.active_notes@.to_set() == held(self.events@)
    }

    /// Where a key belongs among those that are down.
    fn position(&self, code: u16) -> (at: usize)
        requires
            ascending(self.active_notes@),
        ensures
            at <= self.active_notes@.len(),
            forall|n: int| 0 <= n < at ==> #[trigger] self.active_notes@[n] < code,
            forall|n: int|
                at <= n < self.active_notes@.len() ==> #[trigger] self.active_notes@[n] >= code,
    {
        let mut at: usize = 0;
        while at < self.active_notes.len() && self.active_notes[at] < code
            invariant
                at <= self.active_notes@.len(),
                forall|n: int| 0 <= n < at ==> #[trigger] self.active_notes@[n] < code,
            decreases self.active_notes@.len() - at,
        {
            at = at + 1;
        }
        assert forall|n: int|
            at <= n < self.active_notes@.len() implies #[trigger] self.active_notes@[n] >= code by {
            if n > at {
                assert(self.active_notes@[at as int] < self.active_notes@[n]);
            }
        }
        at
    }

    /// Notes an event and which keys it leaves down.
    fn push(&mut self, event: RecordedMidiEvent)
        requires
            old(self).wf(),
        ensures
            final(self).wf(),
            final(self).events@ == old(self).events@.push(event),
            final(self).started_at == old(self).started_at,
            final(self).audio == old(self).audio,
            final(self).microphone == old(self).microphone,
    {
        self.events.push(event);
        let ghost before = self.active_notes@;
        proof {
            assert(self.events@.drop_last() =~= old(self).events@);
        }
        match event.message {
            MidiMessage::NoteOn { key, .. } => {
                let code: u16 = event.channel as u16 * 256 + key as u16;
                let at: usize = self.position(code);
                if at == self.active_notes.len() || self.active_notes[at] != code {
                    self.active_notes.insert(at, code);
                    proof {
                        lemma_insert_is_insert(before, at as int, code);
                    }
                } else {
                    assert(before[at as int] == code);
                    assert(before.to_set().insert(code) =~= before.to_set());
                }
            },
            MidiMessage::NoteOff { key, .. } => {
                let code: u16 = event.channel as u16 * 256 + key as u16;
                let at: usize = self.position(code);
                if at < self.active_notes.len() && self.active_notes[at] == code {
                    let _removed = self.active_notes.remove(at);
                    proof {
                        lemma_remove_is_remove(before, at as int);
                    }
                } else {
                    proof {
                        assert forall|n: int| 0 <= n < before.len() implies #[trigger] before[n]
                            != code by {
                            if n > at {
                                assert(before[at as int] < before[n]);
                            }
                        }
                        assert(before.to_set().remove(code) =~= before.to_set());
                    }
                }
            },
            _ => {},
        }
    }

    /// Lets go of every key that is still down.
    fn finish_active_notes(&mut self, timestamp: u64)
        requires
            old(self).wf(),
        ensures
            final(self).wf(),
            final(self).active_notes@.len() == 0,
            final(self).events@ == old(self).events@ + releases(
                old(self).active_notes@,
                timestamp,
            ),
            final(self).started_at == old(self).started_at,
            final(self).audio == old(self).audio,
            final(self).microphone == old(self).microphone,
    {
        let ghost codes = self.active_notes@;
        let mut n: usize = 0;
        proof {
            assert(releases(codes.take(0), timestamp) =~= Seq::<RecordedMidiEvent>::empty());
            assert(codes.skip(0) =~= codes);
        }
        while n < self.active_notes.len()
            invariant
                n <= codes.len(),
                codes == old(self).active_notes@,
                self.active_notes@ == codes,
                ascending(codes),
                self.events@ == old(self).events@ + releases(codes.take(n as int), timestamp),
                held(self.events@) == codes.skip(n as int).to_set(),
                self.started_at == old(self).started_at,
                self.audio == old(self).audio,
                self.microphone == old(self).microphone,
            decreases codes.len() - n,
        {
            let code: u16 = self.active_notes[n];
            let event = RecordedMidiEvent {
                timestamp,
                channel: (code / 256) as u8,
                message: MidiMessage::NoteOff { key: (code % 256) as u8, vel: 0 },
            };
            let ghost earlier = self.events@;
            self.events.push(event);
            proof {
                assert(self.events@.drop_last() =~= earlier);
                assert(key_code(event.channel, (code % 256) as u8) == code);
                assert(releases(codes.take(n + 1), timestamp) =~= releases(
                    codes.take(n as int),
                    timestamp,
                ).push(event));
                assert(self.events@ =~= old(self).events@ + releases(codes.take(n + 1), timestamp));
                lemma_skip_is_remove(codes, n as int);
            }
            n = n + 1;
        }
        self.active_notes.clear();
        proof {
            assert(codes.take(n as int) =~= codes);
            assert(codes.skip(n as int) =~= Seq::<u16>::empty());
            assert(self.active_notes@ =~= Seq::<u16>::empty());
        }
    }
}

proof fn lemma_insert_is_insert(codes: Seq<u16>, at: int, code: u16)
    requires
        ascending(codes),
        0 <= at <= codes.len(),
        forall|n: int| 0 <= n < at ==> #[trigger] codes[n] < code,
        forall|n: int| at <= n < codes.len() ==> #[trigger] codes[n] > code,
    ensures
        ascending(codes.insert(at, code)),
        codes.insert(at, code).to_set() == codes.to_set().insert(code),
{
    let more = codes.insert(at, code);
    assert forall|m: int, n: int| 0 <= m < n < more.len() implies (#[trigger] more[m])
        < (#[trigger] more[n]) by {
        let gm = if m < at { m } else { m - 1 };
        let gn = if n < at { n } else { n - 1 };
        if m != at && n != at {
            assert(codes[gm] < codes[gn]);
        } else if m == at {
            assert(codes[gn] > code);
        } else {
            assert(codes[gm] < code);
        }
    }
    assert forall|c: u16| more.to_set().contains(c) == codes.to_set().insert(code).contains(c) by {
        if more.contains(c) {
            let m = choose|m: int| 0 <= m < more.len() && more[m] == c;
            if m < at {
                assert(codes[m] == c);
            } else if m > at {
                assert(codes[m - 1] == c);
            }
        }
        if codes.contains(c) {
            let m = choose|m: int| 0 <= m < codes.len() && codes[m] == c;
            if m < at {
                assert(more[m] == c);
            } else {
                assert(more[m + 1] == c);
            }
        }
        assert(more[at] == code);
    }
    assert(more.to_set() =~= codes.to_set().insert(code));
}

proof fn lemma_remove_is_remove(codes: Seq<u16>, at: int)
    requires
        ascending(codes),
        0 <= at < codes.len(),
    ensures
        ascending(codes.remove(at)),
        codes.remove(at).to_set() == codes.to_set().remove(codes[at]),
{
    let fewer = codes.remove(at);
    assert forall|m: int, n: int| 0 <= m < n < fewer.len() implies (#[trigger] fewer[m])
        < (#[trigger] fewer[n]) by {
        let gm = if m < at { m } else { m + 1 };
        let gn = if n < at { n } else { n + 1 };
        assert(codes[gm] < codes[gn]);
    }
    assert forall|c: u16| fewer.to_set().contains(c) == codes.to_set().remove(codes[at]).contains(
        c,
    ) by {
        if fewer.contains(c) {
            let m = choose|m: int| 0 <= m < fewer.len() && fewer[m] == c;
            let g = if m < at { m } else { m + 1 };
            assert(codes[g] == c);
            if g < at {
                assert(codes[g] < codes[at]);
            } else {
                assert(codes[at] < codes[g]);
            }
        }
        if codes.contains(c) && c != codes[at] {
            let m = choose|m: int| 0 <= m < codes.len() && codes[m] == c;
            if m < at {
                assert(fewer[m] == c);
            } else {
                assert(fewer[m - 1] == c);
            }
        }
    }
    assert(fewer.to_set() =~= codes.to_set().remove(codes[at]));
}

proof fn lemma_skip_is_remove(codes: Seq<u16>, n: int)
    requires
        ascending(codes),
        0 <= n < codes.len(),
    ensures
        codes.skip(n + 1).to_set() == codes.skip(n).to_set().remove(codes[n]),
{
    let here = codes.skip(n);
    assert forall|m: int, k: int| 0 <= m < k < here.len() implies (#[trigger] here[m])
        < (#[trigger] here[k]) by {
        assert(codes[m + n] < codes[k + n]);
    }
    lemma_remove_is_remove(here, 0);
    assert(here.remove(0) =~= codes.skip(n + 1));
}

/// A time in pulses: 960 of them a second, to the nearest one, halves up, as far
/// as they can be counted.
pub open spec fn ticks(time: int) -> int {
    let rounded = (6 * time + 3_125_000) / 6_250_000;
    if rounded > u32::MAX {
        u32::MAX as int
    } else {
        rounded
    }
}

pub fn duration_to_ticks(time: u64) -> (count: u32)
    ensures
        count == ticks(time as int),
{
    let rounded: u128 = (6 * time as u128 + 3_125_000) / 6_250_000;
    if rounded > u32::MAX as u128 {
        u32::MAX
    } else {
        rounded as u32
    }
}

/// How many pulses after the event before it event `n` comes, cut to the 28 bits
/// that a file has for it.
pub open spec fn delta_at(events: Seq<RecordedMidiEvent>, n: int) -> u32 {
    let before = if n > 0 {
        ticks(events[n - 1].timestamp as int)
    } else {
        0
    };
    let now = ticks(events[n].timestamp as int);
    (if now > before {
        (now - before) % 0x1000_0000
    } else {
        0
    }) as u32
}

/// Event `n` of a recording, as it is written.
pub open spec fn track_event(events: Seq<RecordedMidiEvent>, n: int) -> SmfEvent {
    SmfEvent { delta: delta_at(events, n), kind: wire(events[n].channel, events[n].message) }
}

/// The track of a recording: tempo and 4/4 first, then the events, then the end.
pub open spec fn track_of(events: Seq<RecordedMidiEvent>) -> Seq<SmfEvent> {
    seq![
        SmfEvent { delta: 0, kind: SmfKind::Tempo(TEMPO_MICROS_PER_BEAT) },
        SmfEvent { delta: 0, kind: SmfKind::TimeSignature(4, 2, 24, 8) },
    ] + Seq::new(events.len(), |n: int| track_event(events, n)) + seq![
        SmfEvent { delta: 1, kind: SmfKind::EndOfTrack },
    ]
}

/// Whether any note was played: releases and pedals alone are no song.
pub open spec fn has_notes(events: Seq<RecordedMidiEvent>) -> bool {
    exists|n: int| 0 <= n < events.len() && (#[trigger] events[n]).message is NoteOn
}

/// Turns a recording into the track of a file. Preview and export need at least
/// one played note, not just release or control data.
pub fn to_smf(events: &Vec<RecordedMidiEvent>) -> (track: Result<Vec<SmfEvent>, RecorderError>)
    ensures
        match track {
            Ok(t) => has_notes(events@) && t@ == track_of(events@),
            Err(e) => !has_notes(events@) && e is NoNotesFound,
        },
{
    let mut any = false;
    let mut n: usize = 0;
    while n < events.len()
        invariant
            n <= events@.len(),
            any == exists|m: int| 0 <= m < n && (#[trigger] events@[m]).message is NoteOn,
        decreases events@.len() - n,
    {
        if matches!(events[n].message, MidiMessage::NoteOn { .. }) {
            assert(events@[n as int].message is NoteOn);
            any = true;
        }
        n = n + 1;
    }
    if !any {
        return Err(RecorderError::NoNotesFound);
    }
    let mut track: Vec<SmfEvent> = Vec::new();
    track.push(SmfEvent { delta: 0, kind: SmfKind::Tempo(TEMPO_MICROS_PER_BEAT) });
    track.push(SmfEvent { delta: 0, kind: SmfKind::TimeSignature(4, 2, 24, 8) });
    let ghost start = track@;
    let mut before: u32 = 0;
    let mut m: usize = 0;
    while m < events.len()
        invariant
            m <= events@.len(),
            before == (if m > 0 {
                ticks(events@[m - 1].timestamp as int)
            } else {
                0
            }),
            track@ == start + Seq::new(m as nat, |k: int| track_event(events@, k)),
        decreases events@.len() - m,
    {
        let event = events[m];
        let now: u32 = duration_to_ticks(event.timestamp);
        let delta: u32 = now.saturating_sub(before) % 0x1000_0000;
        before = now;
        let ghost earlier = track@;
        track.push(SmfEvent { delta, kind: wire_bytes(event.channel, event.message) });
        proof {
            assert(track@.last() == track_event(events@, m as int));
            assert(Seq::new(m as nat + 1, |k: int| track_event(events@, k)) =~= Seq::new(
                m as nat,
                |k: int| track_event(events@, k),
            ).push(track_event(events@, m as int)));
            assert(track@ =~= start + Seq::new(m as nat + 1, |k: int| track_event(events@, k)));
        }
        m = m + 1;
    }
    track.push(SmfEvent { delta: 1, kind: SmfKind::EndOfTrack });
    assert(track@ =~= track_of(events@));
    Ok(track)
}

/// Every event of a recording fits the fields that a file has for it.
proof fn lemma_track_fits(events: Seq<RecordedMidiEvent>)
    ensures
        forall|n: int| 0 <= n < track_of(events).len() ==> (#[trigger] track_of(events)[n]).fits(),
{
    let track = track_of(events);
    assert forall|n: int| 0 <= n < track.len() implies (#[trigger] track[n]).fits() by {
        if 2 <= n < track.len() - 1 {
            assert(track[n] == track_event(events, n - 2));
        }
    }
}

/// The time of event `n` in the file: what the deltas before it come to.
pub open spec fn file_time(events: Seq<RecordedMidiEvent>, n: int) -> int
    decreases n + 1,
{
    if n < 0 {
        0
    } else {
        file_time(events, n - 1) + delta_at(events, n)
    }
}

/// In a recording whose events come in order and that is not over three days
/// long, every event keeps its time, to the pulse.
pub proof fn law_recording_keeps_time(events: Seq<RecordedMidiEvent>, n: int)
    requires
        0 <= n < events.len(),
        forall|i: int, j: int|
            0 <= i < j < events.len() ==> (#[trigger] events[i]).timestamp <= (#[trigger] events[j]).timestamp,
        forall|i: int| 0 <= i < events.len() ==> ticks((#[trigger] events[i]).timestamp as int) < 0x1000_0000,
    ensures
        file_time(events, n) == ticks(events[n].timestamp as int),
    decreases n,
{
    assert(ticks(events[n].timestamp as int) < 0x1000_0000);
    if n > 0 {
        law_recording_keeps_time(events, n - 1);
        assert(events[n - 1].timestamp <= events[n].timestamp);
        lemma_ticks_grow(events[n - 1].timestamp as int, events[n].timestamp as int);
    } else {
        reveal_with_fuel(file_time, 2);
        lemma_ticks_grow(0, events[n].timestamp as int);
    }
}

proof fn lemma_ticks_grow(a: int, b: int)
    requires
        0 <= a <= b,
    ensures
        0 <= ticks(a) <= ticks(b),
{
}

/// The metre that is read back from a recording is the one it was written in.
pub proof fn law_recording_reads_back_in_four_four(events: Seq<RecordedMidiEvent>)
    ensures
        metre(seq![outline_of(track_of(events))]) == (TimeSignature {
            numerator: 4,
            denominator: 4,
        }),
{
    let outline = outline_of(track_of(events));
    assert(outline[0] == (0u32, None::<(u8, u8)>));
    assert(outline[1] == (0u32, Some((4u8, 2u8))));
    reveal_with_fuel(first_signature, 3);
    reveal_with_fuel(pulses_before, 3);
    reveal_with_fuel(earliest_signature, 2);
    let tracks = seq![outline];
    assert(tracks[0] == outline);
    assert(first_signature(outline, 0) == Some((0nat, signature_of(4, 2))));
}

/// A finished take, in the two forms worth keeping: the notes, and the sound.
///
/// Either may be missing and the take is still worth keeping, so neither absence
/// throws the other away.
pub struct RecordedTake {
    pub duration: u64,
    /// Missing when no notes were played. Only this half can drive a preview.
    pub smf: Option<Vec<SmfEvent>>,
    pub audio: Option<VoiceTake>,
    pub outcome: TakeOutcome,
}

pub enum RecorderState {
    Idle,
    Recording(RecordingInProgressState),
    Recorded(RecordedTake),
}

pub struct FreeplayRecorder {
    pub state: RecorderState,
}

/// Whether a microphone's loudest sample counts as silence.
pub open spec fn unheard(peak: u32) -> bool {
    if is_nan(peak) {
        false
    } else {
        peak >= 0x8000_0000 || peak < HEARD
    }
}

/// What ended up on a take. What the microphone did is a separate question from
/// what was recorded, since the recording is a mix.
pub open spec fn outcome_of(audio: bool, microphone: bool, peak: u32, gapped: bool) -> TakeOutcome {
    if !audio {
        TakeOutcome::NoAudio
    } else if !microphone {
        TakeOutcome::NoMicrophone
    } else if unheard(peak) {
        TakeOutcome::SilentMicrophone
    } else if gapped {
        TakeOutcome::Gapped
    } else {
        TakeOutcome::PianoAndVoice
    }
}

fn judge_take(audio: bool, microphone: bool, peak: u32, gapped: bool) -> (outcome: TakeOutcome)
    ensures
        outcome == outcome_of(audio, microphone, peak, gapped),
{
    let silent = magnitude_of(peak) <= INFINITY && (peak >= 0x8000_0000 || peak < HEARD);
    if !audio {
        TakeOutcome::NoAudio
    } else if !microphone {
        TakeOutcome::NoMicrophone
    } else if silent {
        TakeOutcome::SilentMicrophone
    } else if gapped {
        TakeOutcome::Gapped
    } else {
        TakeOutcome::PianoAndVoice
    }
}

/// How long after `start` it is `now`.
pub open spec fn elapsed(now: u64, start: u64) -> u64 {
    if now >= start {
        (now - start) as u64
    } else {
        0
    }
}

/// The events of a take that ends at `time`: every key that was still down is let
/// go of.
pub open spec fn closed_events(
    in_progress: RecordingInProgressState,
    time: u64,
) -> Seq<RecordedMidiEvent> {
    in_progress.events@ + releases(in_progress.active_notes@, time)
}

/// Whether `take` is what a recording that ends at `now` leaves behind.
pub open spec fn is_take(
    take: RecordedTake,
    in_progress: RecordingInProgressState,
    rate: u32,
    gapped: bool,
    peak: u32,
    now: u64,
) -> bool {
    let time = elapsed(now, in_progress.started_at);
    let events = closed_events(in_progress, time);
    &&& take.duration == time
    &&& take.smf is Some <==> has_notes(events)
    &&& take.smf is Some ==> take.smf->0@ == track_of(events)
    &&& take.audio is Some <==> in_progress.audio@.len() > 0
    &&& take.audio is Some ==> (take.audio->0).samples@ == in_progress.audio@
        && (take.audio->0).rate == (if rate == 0 {
        1
    } else {
        rate
    })
    &&& take.outcome == outcome_of(
        in_progress.audio@.len() > 0,
        in_progress.microphone,
        peak,
        gapped,
    )
}

impl RecorderState {
    pub open spec fn wf(self) -> bool {
        match self {
            RecorderState::Recording(in_progress) => in_progress.wf(),
            RecorderState::Recorded(take) => take.wf(),
            RecorderState::Idle => true,
        }
    }
}

impl RecordedTake {
    /// The notes can be written to a file.
    pub open spec fn wf(self) -> bool {
        self.smf is Some ==> forall|n: int|
            0 <= n < self.smf->0@.len() ==> (#[trigger] self.smf->0@[n]).fits()
    }

    /// The notes as the bytes of a MIDI file, if any were played.
    pub fn midi_bytes(&self) -> (bytes: Option<Result<Vec<u8>, RecorderError>>)
        requires
            self.wf(),
        ensures
            bytes is Some <==> self.smf is Some,
            match bytes {
                Some(Ok(b)) => written(TICKS_PER_BEAT, self.smf->0@) == Some(b@) && negatable(b@) && parsed(b@)
                    == Some((Some(TICKS_PER_BEAT), seq![outline_of(self.smf->0@)])),
                Some(Err(e)) => e is Write && written(TICKS_PER_BEAT, self.smf->0@) is None,
                None => true,
            },
            bytes is Some && self.smf->0@.len() <= 300_000_000 ==> bytes->0 is Ok,
    {
        match &self.smf {
            Some(track) => {
                match write_track(TICKS_PER_BEAT, track.as_slice()) {
                    Some(bytes) => Some(Ok(bytes)),
                    None => Some(Err(RecorderError::Write)),
                }
            },
            None => None,
        }
    }
}

impl FreeplayRecorder {
    pub open spec fn wf(self) -> bool {
        self.state.wf()
    }

    pub fn new() -> (recorder: Self)
        ensures
            recorder.state is Idle,
            recorder.wf(),
    {
        FreeplayRecorder { state: RecorderState::Idle }
    }

    pub fn is_recording(&self) -> (recording: bool)
        ensures
            recording == (self.state is Recording),
    {
        matches!(self.state, RecorderState::Recording(_))
    }

    /// Starts a take at time `now`; what was there before is gone.
    pub fn begin(&mut self, microphone: bool, now: u64)
        ensures
            final(self).wf(),
            match final(self).state {
                RecorderState::Recording(in_progress) => {
                    &&& in_progress.started_at == now
                    &&& in_progress.events@.len() == 0
                    &&& in_progress.active_notes@.len() == 0
                    &&& in_progress.audio@.len() == 0
                    &&& in_progress.microphone == microphone
                },
                _ => false,
            },
    {
        let in_progress = RecordingInProgressState {
            started_at: now,
            events: Vec::new(),
            active_notes: Vec::new(),
            audio: Vec::new(),
            microphone,
        };
        assert(in_progress.active_notes@.to_set() =~= Set::<u16>::empty());
        self.state = RecorderState::Recording(in_progress);
    }

    /// Sweeps the tape into the take. Called every frame while recording: falling
    /// behind is what costs samples.
    pub fn collect_audio(&mut self, mic: &mut MicPassthrough)
        requires
            old(self).wf(),
            old(mic).wf(),
        ensures
            final(self).wf(),
            final(mic).wf(),
            match (old(self).state, final(self).state) {
                (RecorderState::Recording(before), RecorderState::Recording(after)) => {
                    &&& after.audio@ == before.audio@ + old(mic).sinks.tape.ring@
                    &&& final(mic).sinks.tape.ring@.len() == 0
                    &&& after.started_at == before.started_at
                    &&& after.events == before.events
                    &&& after.active_notes == before.active_notes
                    &&& after.microphone == before.microphone
                },
                (before, after) => before == after && before !is Recording && *final(mic) == *old(mic),
            },
            final(mic).sinks.monitor == old(mic).sinks.monitor,
            final(mic).sinks.tape.armed == old(mic).sinks.tape.armed,
            final(mic).sinks.tape.dropped == old(mic).sinks.tape.dropped,
            final(mic).open == old(mic).open,
            final(mic).passthrough == old(mic).passthrough,
            final(mic).level == old(mic).level,
            final(mic).rate == old(mic).rate,
            final(mic).error == old(mic).error,
    {
        if let RecorderState::Recording(in_progress) = &mut self.state {
            mic.collect_recording(&mut in_progress.audio);
            proof {
                assert(mic.sinks.tape.ring@ =~= Seq::<u32>::empty());
            }
        }
    }

    /// Walks away from a take in progress. What was captured is not kept: leaving
    /// the screen mid-recording is not a request to preview or save anything.
    pub fn abandon(&mut self, mic: &mut MicPassthrough) -> (action: DeviceAction)
        requires
            old(mic).wf(),
        ensures
            final(self).state is Idle,
            final(self).wf(),
            final(mic).wf(),
            !final(mic).sinks.tape.armed,
            final(mic).sinks.tape.ring == old(mic).sinks.tape.ring,
            final(mic).sinks.tape.dropped == old(mic).sinks.tape.dropped,
            final(mic).sinks.monitor == old(mic).sinks.monitor,
            final(mic).passthrough == old(mic).passthrough,
            final(mic).open == old(mic).open,
            final(mic).level == old(mic).level,
            final(mic).rate == old(mic).rate,
            final(mic).error == old(mic).error,
            action == final(mic).due(),
    {
        self.state = RecorderState::Idle;
        mic.stop_recording()
    }

    /// Whether `after` and `result` are what stopping at `now` leaves: the take
    /// with everything that was still on the tape swept into it. Where none was
    /// under way there is an error, and what was there stays.
    pub open spec fn stops(
        self,
        after: FreeplayRecorder,
        mic: MicPassthrough,
        peak: u32,
        now: u64,
        result: Result<(), RecorderError>,
    ) -> bool {
        match self.state {
            RecorderState::Recording(in_progress) => {
                &&& after.state matches RecorderState::Recorded(take)
                &&& exists|swept: RecordingInProgressState|
                    {
                        &&& swept.started_at == in_progress.started_at
                        &&& swept.events == in_progress.events
                        &&& swept.active_notes == in_progress.active_notes
                        &&& swept.microphone == in_progress.microphone
                        &&& swept.audio@ == in_progress.audio@ + mic.sinks.tape.ring@
                        &&& #[trigger] is_take(
                            take,
                            swept,
                            mic.rate,
                            mic.sinks.tape.dropped,
                            peak,
                            now,
                        )
                    }
                &&& result is Ok <==> take.smf is Some
                &&& result is Err ==> result->Err_0 is NoNotesFound
            },
            _ => after.state == self.state && result is Err && result->Err_0 is NothingRecorded,
        }
    }

    /// Finishes the take and keeps whatever it has. An error means that there is
    /// nothing to preview, not that the take was thrown away: the recording is
    /// kept either way and can still be saved. `peak` is the loudest that the
    /// microphone was during the take.
    pub fn stop(&mut self, mic: &mut MicPassthrough, peak: u32, now: u64) -> (stopped: (
        Result<(), RecorderError>,
        DeviceAction,
    ))
        requires
            old(self).wf(),
            old(mic).wf(),
        ensures
            final(self).wf(),
            final(mic).wf(),
            !final(mic).sinks.tape.armed,
            final(mic).sinks.monitor == old(mic).sinks.monitor,
            final(mic).sinks.tape.dropped == old(mic).sinks.tape.dropped,
            old(self).state is Recording ==> final(mic).sinks.tape.ring@.len() == 0,
            old(self).state !is Recording ==> final(mic).sinks.tape.ring
                == old(mic).sinks.tape.ring,
            final(mic).passthrough == old(mic).passthrough,
            final(mic).open == old(mic).open,
            final(mic).level == old(mic).level,
            final(mic).rate == old(mic).rate,
            final(mic).error == old(mic).error,
            stopped.1 == final(mic).due(),
            old(self).stops(*final(self), *old(mic), peak, now, stopped.0),
    {
        self.collect_audio(mic);
        let rate: u32 = mic.rate;
        let gapped = mic.recording_dropped_samples();
        let action = mic.stop_recording();
        let result = self.finish(rate, gapped, peak, now);
        (result, action)
    }

    /// Turns what was gathered into a take, whatever it did or did not end up
    /// containing. Without a recording under way nothing changes.
    pub fn finish(&mut self, rate: u32, gapped: bool, peak: u32, now: u64) -> (result: Result<
        (),
        RecorderError,
    >)
        requires
            old(self).wf(),
        ensures
            final(self).wf(),
            match old(self).state {
                RecorderState::Recording(in_progress) => {
                    &&& final(self).state matches RecorderState::Recorded(take)
                    &&& is_take(take, in_progress, rate, gapped, peak, now)
                    &&& result is Ok <==> take.smf is Some
                    &&& result is Err ==> result->Err_0 is NoNotesFound
                },
                _ => final(self).state == old(self).state && result is Err && result->Err_0
                    is NothingRecorded,
            },
    {
        let mut state = RecorderState::Idle;
        std::mem::swap(&mut state, &mut self.state);
        let mut in_progress = match state {
            RecorderState::Recording(in_progress) => in_progress,
            other => {
                self.state = other;
                return Err(RecorderError::NothingRecorded);
            },
        };
        let ghost before = in_progress;
        let time: u64 = now.saturating_sub(in_progress.started_at);
        in_progress.finish_active_notes(time);
        let smf = match to_smf(&in_progress.events) {
            Ok(track) => Some(track),
            Err(_) => None,
        };
        let has_audio = in_progress.audio.len() > 0;
        let outcome = judge_take(has_audio, in_progress.microphone, peak, gapped);
        let audio = if has_audio {
            Some(VoiceTake::new(in_progress.audio, rate))
        } else {
            None
        };
        let previewable = smf.is_some();
        let take = RecordedTake { duration: time, smf, audio, outcome };
        proof {
            lemma_track_fits(closed_events(before, time));
            assert(is_take(take, before, rate, gapped, peak, now));
        }
        self.state = RecorderState::Recorded(take);
        if previewable {
            Ok(())
        } else {
            Err(RecorderError::NoNotesFound)
        }
    }

    /// How long the take is, or has run so far.
    pub fn duration(&self, now: u64) -> (time: u64)
        ensures
            time == (match self.state {
                RecorderState::Idle => 0,
                RecorderState::Recording(in_progress) => elapsed(now, in_progress.started_at),
                RecorderState::Recorded(take) => take.duration,
            }),
    {
        match &self.state {
            RecorderState::Idle => 0,
            RecorderState::Recording(in_progress) => now.saturating_sub(in_progress.started_at),
            RecorderState::Recorded(take) => take.duration,
        }
    }

    /// Whether the microphone is being captured into the take in progress.
    pub fn has_microphone(&self) -> (has: bool)
        ensures
            has == (match self.state {
                RecorderState::Recording(in_progress) => in_progress.microphone,
                _ => false,
            }),
    {
        match &self.state {
            RecorderState::Recording(in_progress) => in_progress.microphone,
            _ => false,
        }
    }

    /// Notes a message, at time `now`, if a take is in progress.
    pub fn push_event(&mut self, channel: u8, message: MidiMessage, now: u64)
        requires
            old(self).wf(),
        ensures
            final(self).wf(),
            match (old(self).state, final(self).state) {
                (RecorderState::Recording(before), RecorderState::Recording(after)) => {
                    &&& after.events@ == before.events@.push(
                        RecordedMidiEvent {
                            timestamp: elapsed(now, before.started_at),
                            channel,
                            message,
                        },
                    )
                    &&& after.started_at == before.started_at
                    &&& after.audio == before.audio
                    &&& after.microphone == before.microphone
                },
                (before, after) => before == after && before !is Recording,
            },
    {
        if let RecorderState::Recording(in_progress) = &mut self.state {
            let timestamp: u64 = now.saturating_sub(in_progress.started_at);
            in_progress.push(RecordedMidiEvent { timestamp, channel, message });
        }
    }

    pub fn recorded(&self) -> (take: Option<&RecordedTake>)
        ensures
            match self.state {
                RecorderState::Recorded(recorded) => take == Some(&recorded),
                _ => take is None,
            },
    {
        match &self.state {
            RecorderState::Recorded(take) => Some(take),
            _ => None,
        }
    }

    /// Whether there is anything that a save would write.
    pub fn has_something_to_save(&self) -> (savable: bool)
        ensures
            savable == (match self.state {
                RecorderState::Recorded(take) => take.smf is Some || take.audio is Some,
                _ => false,
            }),
    {
        match self.recorded() {
            Some(take) => take.smf.is_some() || take.audio.is_some(),
            None => false,
        }
    }
}

/// When a take ends no key is left down.
pub proof fn law_take_leaves_no_key_down(in_progress: RecordingInProgressState, time: u64)
    requires
        in_progress.wf(),
    ensures
        held(closed_events(in_progress, time)) == Set::<u16>::empty(),
{
    let codes = in_progress.active_notes@;
    lemma_released(in_progress.events@, codes, time, codes.len() as int);
    assert(codes.take(codes.len() as int) =~= codes);
    assert(codes.skip(codes.len() as int).to_set() =~= Set::<u16>::empty());
}

proof fn lemma_released(events: Seq<RecordedMidiEvent>, codes: Seq<u16>, time: u64, n: int)
    requires
        ascending(codes),
        codes.to_set() == held(events),
        0 <= n <= codes.len(),
    ensures
        held(events + releases(codes.take(n), time)) == codes.skip(n).to_set(),
    decreases n,
{
    if n == 0 {
        assert(events + releases(codes.take(0), time) =~= events);
        assert(codes.skip(0) =~= codes);
    } else {
        lemma_released(events, codes, time, n - 1);
        let all = events + releases(codes.take(n), time);
        assert(all.drop_last() =~= events + releases(codes.take(n - 1), time));
        let code = codes[n - 1];
        assert(all.last().message == (MidiMessage::NoteOff { key: (code % 256) as u8, vel: 0 }));
        assert(key_code((code / 256) as u8, (code % 256) as u8) == code);
        lemma_skip_is_remove(codes, n - 1);
    }
}

/// What a save is to write, and what the file dialog offers.
#[derive(Debug, Clone, Copy, PartialEq, Eq, Structural)]
pub enum SavePlan {
    /// The notes under a chosen name, and the sound beside them if there is any.
    Notes { audio: bool },
    /// The sound alone.
    Sound,
    /// A dialog for the sound, but nothing to write.
    Empty,
}

impl SavePlan {
    /// The name that the dialog suggests: that of whichever half exists; when
    /// both do, the notes are what gets picked.
    pub fn file_name(&self) -> (name: &'static str)
        ensures
            name@ == (match self {
                SavePlan::Notes { .. } => "freeplay-recording.mid"@,
                _ => "freeplay-recording.wav"@,
            }),
    {
        match self {
            SavePlan::Notes { .. } => "freeplay-recording.mid",
            _ => "freeplay-recording.wav",
        }
    }
}

impl FreeplayRecorder {
    /// Decides what a click on save does: an error while there is no take.
    pub fn plan_save(&self) -> (plan: Result<SavePlan, RecorderError>)
        ensures
            match self.state {
                RecorderState::Recorded(_) => plan == Ok::<SavePlan, RecorderError>(self.plan()),
                _ => plan is Err && plan->Err_0 is NothingRecorded,
            },
    {
        match self.recorded() {
            Some(take) => {
                if take.smf.is_some() {
                    Ok(SavePlan::Notes { audio: take.audio.is_some() })
                } else if take.audio.is_some() {
                    Ok(SavePlan::Sound)
                } else {
                    Ok(SavePlan::Empty)
                }
            },
            None => Err(RecorderError::NothingRecorded),
        }
    }

    /// What is shown after a recording was stopped. `parsed` says whether the
    /// notes made a song.
    pub fn stopped_status(
        &self,
        stopped: Result<(), RecorderError>,
        parsed: Result<(), String>,
        now: u64,
    ) -> (status: RecorderStatus)
        ensures
            match stopped {
                Err(error) => status == RecorderStatus::Error(error),
                Ok(_) => match self.state {
                    RecorderState::Recorded(take) => match (take.smf, parsed) {
                        (None, _) => status == RecorderStatus::Error(RecorderError::NoNotesFound),
                        (Some(_), Err(why)) => status == RecorderStatus::Error(
                            RecorderError::MidiFileParse(why),
                        ),
                        (Some(_), Ok(_)) => status == RecorderStatus::RecordingFinished(
                            take.duration,
                            take.outcome,
                        ),
                    },
                    _ => status == RecorderStatus::Error(RecorderError::NothingRecorded),
                },
            },
    {
        if let Err(error) = stopped {
            return RecorderStatus::Error(error);
        }
        match self.recorded() {
            Some(take) => {
                if take.smf.is_none() {
                    return RecorderStatus::Error(RecorderError::NoNotesFound);
                }
                match parsed {
                    Err(why) => RecorderStatus::Error(RecorderError::MidiFileParse(why)),
                    Ok(_) => RecorderStatus::RecordingFinished(self.duration(now), take.outcome),
                }
            },
            None => RecorderStatus::Error(RecorderError::NothingRecorded),
        }
    }
}

/// The names of the files that were written, joined.
pub open spec fn joined(midi: Option<Seq<char>>, wav: Option<Seq<char>>) -> Seq<char> {
    match (midi, wav) {
        (Some(a), Some(b)) => a + " and "@ + b,
        (Some(a), None) => a,
        (None, Some(b)) => b,
        (None, None) => Seq::empty(),
    }
}

/// How writing one half of a take went: there was none, it has a name now, or it
/// failed.
pub enum Written {
    Absent,
    Named(String),
    Failed,
}

impl Written {
    pub open spec fn name(self) -> Option<Seq<char>> {
        match self {
            Written::Named(name) => Some(name@),
            _ => None,
        }
    }
}

/// What is shown after a save: the first half that failed, or what was written
/// and where. The sound is only tried once the notes are written.
pub fn saved_status(midi: Written, wav: Written, directory: &str) -> (status: RecorderStatus)
    ensures
        midi is Failed ==> status == RecorderStatus::Error(RecorderError::Write),
        midi !is Failed && wav is Failed ==> status == RecorderStatus::Error(
            RecorderError::WriteAudio,
        ),
        midi !is Failed && wav !is Failed ==> (status matches RecorderStatus::Saved(what) && what@
            == joined(midi.name(), wav.name()) + " to "@ + directory@),
{
    if matches!(midi, Written::Failed) {
        return RecorderStatus::Error(RecorderError::Write);
    }
    if matches!(wav, Written::Failed) {
        return RecorderStatus::Error(RecorderError::WriteAudio);
    }
    let mut text = String::new();
    if let Written::Named(name) = &midi {
        text.append(name.as_str());
        if let Written::Named(_) = &wav {
            text.append(" and ");
        }
    }
    if let Written::Named(name) = &wav {
        text.append(name.as_str());
    }
    assert(text@ =~= joined(midi.name(), wav.name()));
    text.append(" to ");
    text.append(directory);
    RecorderStatus::Saved(text)
}

/// What the player did to the bar over the preview, this frame.
#[derive(Debug, Clone, Copy, PartialEq, Eq, Structural)]
pub struct PreviewClicks {
    pub back: bool,
    pub play: bool,
    pub save: bool,
    pub record: bool,
    pub progress: bool,
}

/// What the bar over the preview asks for.
#[derive(Debug, Clone, Copy, PartialEq, Eq, Structural)]
pub enum PreviewMessage {
    TogglePlay,
    Seek,
    GoBack,
    Record,
    Save,
    Nothing,
}

/// How the bar over the preview looks.
#[derive(Debug)]
pub struct PreviewBar {
    pub status: String,
    /// Whether a meter is drawn for the microphone.
    pub meter: bool,
    /// The play button shows a play sign rather than a pause sign.
    pub shows_play: bool,
    pub play_color: (u8, u8, u8, u8),
    pub save_color: (u8, u8, u8, u8),
    /// The record button shows a stop sign.
    pub shows_stop: bool,
    pub record_color: (u8, u8, u8, u8),
    pub record_hover: (u8, u8, u8),
    pub record_pressed: (u8, u8, u8),
}

/// The colour of a sign that can be clicked, or of one that cannot.
pub open spec fn sign_color(lit: bool) -> (u8, u8, u8, u8) {
    if lit {
        (255, 255, 255, 255)
    } else {
        (255, 255, 255, 100)
    }
}

fn sign_rgba(lit: bool) -> (color: (u8, u8, u8, u8))
    ensures
        color == sign_color(lit),
{
    if lit {
        (255, 255, 255, 255)
    } else {
        (255, 255, 255, 100)
    }
}

/// The line in the middle of the bar: while recording, how long already, and that
/// there is no microphone if there is none.
pub open spec fn bar_label(recorder: FreeplayRecorder, status: RecorderStatus, now: u64) -> Seq<
    char,
> {
    match recorder.state {
        RecorderState::Recording(in_progress) => "Recording "@ + seconds(
            elapsed(now, in_progress.started_at) as int,
        ) + (if in_progress.microphone {
            Seq::empty()
        } else {
            " · no microphone"@
        }),
        _ => status.label(),
    }
}

impl PreviewBar {
    /// Whether this is how the bar looks. `paused` is how the preview stands, if
    /// there is one.
    pub open spec fn of(
        self,
        recorder: FreeplayRecorder,
        status: RecorderStatus,
        paused: Option<bool>,
        now: u64,
    ) -> bool {
        let recording = recorder.state is Recording;
        &&& self.status@ == bar_label(recorder, status, now)
        &&& self.meter == recording
        &&& self.shows_play == (paused != Some(false))
        &&& self.play_color == sign_color(paused is Some)
        &&& self.save_color == sign_color(recorder.savable())
        &&& self.shows_stop == recording
        &&& self.record_color == (if recording {
            (208u8, 18u8, 0u8, 255u8)
        } else {
            (0u8, 0u8, 0u8, 0u8)
        })
        &&& self.record_hover == (if recording {
            (165u8, 47u8, 47u8)
        } else {
            (97u8, 97u8, 97u8)
        })
        &&& self.record_pressed == (if recording {
            (145u8, 37u8, 37u8)
        } else {
            (87u8, 87u8, 87u8)
        })
    }
}

impl FreeplayRecorder {
    /// Whether there is anything that a save would write.
    pub open spec fn savable(self) -> bool {
        self.state matches RecorderState::Recorded(take) && (take.smf is Some || take.audio is Some)
    }

    /// What a frame's clicks on the bar ask for.
    pub open spec fn asked(self, clicks: PreviewClicks, available: bool) -> PreviewMessage {
        if available && clicks.progress {
            PreviewMessage::Seek
        } else if clicks.record {
            PreviewMessage::Record
        } else if clicks.save && self.savable() {
            PreviewMessage::Save
        } else if clicks.play && available {
            PreviewMessage::TogglePlay
        } else if clicks.back {
            PreviewMessage::GoBack
        } else {
            PreviewMessage::Nothing
        }
    }

    /// What a save of a finished take writes.
    pub open spec fn plan(self) -> SavePlan {
        let take = self.state->Recorded_0;
        if take.smf is Some {
            SavePlan::Notes { audio: take.audio is Some }
        } else if take.audio is Some {
            SavePlan::Sound
        } else {
            SavePlan::Empty
        }
    }

    /// Lays out the bar over the preview. `paused` is how the preview stands, if
    /// there is one.
    pub fn preview_bar(&self, status: &RecorderStatus, paused: Option<bool>, now: u64) -> (bar:
        PreviewBar)
        ensures
            bar.of(*self, *status, paused, now),
    {
        let recording = self.is_recording();
        let text = if recording {
            let mut out = String::from_str("Recording ");
            push_seconds(&mut out, self.duration(now));
            if !self.has_microphone() {
                out.append(" · no microphone");
            }
            assert(out@ =~= bar_label(*self, *status, now));
            out
        } else {
            status.text()
        };
        let shows_play = match paused {
            Some(paused) => paused,
            None => true,
        };
        PreviewBar {
            status: text,
            meter: recording,
            shows_play,
            play_color: sign_rgba(paused.is_some()),
            save_color: sign_rgba(self.has_something_to_save()),
            shows_stop: recording,
            record_color: if recording {
                (208, 18, 0, 255)
            } else {
                (0, 0, 0, 0)
            },
            record_hover: if recording {
                (165, 47, 47)
            } else {
                (97, 97, 97)
            },
            record_pressed: if recording {
                (145, 37, 37)
            } else {
                (87, 87, 87)
            },
        }
    }

    /// What a frame's clicks on the bar ask for. Play needs a preview, save
    /// something to save; where two things were hit at once the later one in the
    /// bar's order wins.
    pub fn preview_message(&self, clicks: PreviewClicks, available: bool) -> (message:
        PreviewMessage)
        ensures
            message == self.asked(clicks, available),
    {
        let savable = self.has_something_to_save();
        let mut message = PreviewMessage::Nothing;
        if clicks.back {
            message = PreviewMessage::GoBack;
        }
        if clicks.play && available {
            message = PreviewMessage::TogglePlay;
        }
        if clicks.save && savable {
            message = PreviewMessage::Save;
        }
        if clicks.record {
            message = PreviewMessage::Record;
        }
        if available && clicks.progress {
            message = PreviewMessage::Seek;
        }
        message
    }
}

/// The colour of a bar line of the progress bar: bright once it has been passed.
pub fn measure_color(measure: u64, position: u64) -> (color: (u8, u8, u8, u8))
    ensures
        color == (if measure < position {
            (255u8, 255u8, 255u8, 127u8)
        } else {
            (102u8, 102u8, 102u8, 255u8)
        }),
{
    if measure < position {
        (255, 255, 255, 127)
    } else {
        (102, 102, 102, 255)
    }
}

/// The colour of the microphone meter at a level, as a bit pattern: a warning
/// once it is over 0.98, which is clipping before the app ever sees it.
pub fn meter_color(level: u32) -> (color: (u8, u8, u8))
    requires
        level <= INFINITY,
    ensures
        color == (if level > 0x3f7a_e148 {
            (220u8, 110u8, 90u8)
        } else {
            (80u8, 200u8, 120u8)
        }),
{
    if level > 0x3f7a_e148 {
        (220, 110, 90)
    } else {
        (80, 200, 120)
    }
}

/// A pulse is a 960th of a second, and the pulse of a time lies within half a pulse
/// of it, unless there are more of them than can be counted.
pub proof fn law_ticks_lie_within_half_a_tick(time: int)
    requires
        time >= 0,
    ensures
        0 <= ticks(time) <= 0xffff_ffff,
        time * 960 < 0xffff_ffff * 1_000_000_000 ==> -500_000_000 <= ticks(time) * 1_000_000_000
            - time * 960 <= 500_000_000,
        time * 960 >= 0xffff_ffff * 1_000_000_000 ==> ticks(time) == 0xffff_ffff,
{
    let nearest = (6 * time + 3_125_000) / 6_250_000;
    assert(nearest * 6_250_000 <= 6 * time + 3_125_000 < nearest * 6_250_000 + 6_250_000);
}

/// In a recording whose events come in order and that is not over three days long,
/// every event of the file comes within half a pulse of when it was played: the
/// pulses before it, at 480 a beat and two beats a second, add up to its time.
pub proof fn law_recording_keeps_time_to_the_nanosecond(events: Seq<RecordedMidiEvent>, n: int)
    requires
        0 <= n < events.len(),
        forall|i: int, j: int|
            0 <= i < j < events.len() ==> (#[trigger] events[i]).timestamp <= (#[trigger] events[j]).timestamp,
        forall|i: int|
            0 <= i < events.len() ==> (#[trigger] events[i]).timestamp * 960 < 0x0fff_ffff
                * 1_000_000_000,
    ensures
        track_of(events).len() == events.len() + 3,
        track_of(events)[0].delta == 0,
        track_of(events)[0].kind == SmfKind::Tempo(500_000),
        track_of(events)[1].delta == 0,
        TICKS_PER_BEAT == 480,
        -500_000_000 <= pulses_up_to(track_of(events), n + 2) * 1_000_000_000
            - events[n].timestamp * 960 <= 500_000_000,
        track_of(events)[n + 2].kind == wire(events[n].channel, events[n].message),
{
    assert forall|i: int| 0 <= i < events.len() implies ticks(
        (#[trigger] events[i]).timestamp as int,
    ) < 0x1000_0000 by {
        law_ticks_lie_within_half_a_tick(events[i].timestamp as int);
    }
    law_recording_keeps_time(events, n);
    law_ticks_lie_within_half_a_tick(events[n].timestamp as int);
    lemma_pulses_up_to(events, n);
}

/// How many pulses into a track event `n` comes.
pub open spec fn pulses_up_to(track: Seq<SmfEvent>, n: int) -> int
    decreases n + 1,
{
    if n < 0 {
        0
    } else {
        pulses_up_to(track, n - 1) + track[n].delta
    }
}

proof fn lemma_pulses_up_to(events: Seq<RecordedMidiEvent>, n: int)
    requires
        -1 <= n < events.len(),
    ensures
        pulses_up_to(track_of(events), n + 2) == file_time(events, n),
    decreases n + 1,
{
    let track = track_of(events);
    if n >= 0 {
        lemma_pulses_up_to(events, n - 1);
        assert(track[n + 2] == track_event(events, n));
    } else {
        reveal_with_fuel(pulses_up_to, 3);
    }
}

/// A time is shown to the nearest tenth of a second, halves to the even tenth.
pub proof fn law_tenths_are_the_nearest(time: int)
    requires
        time >= 0,
    ensures
        -50_000_000 <= tenths(time) * 100_000_000 - time <= 50_000_000,
        (time % 100_000_000 == 50_000_000) ==> tenths(time) % 2 == 0,
        seconds(time).len() == decimal((tenths(time) / 10) as nat).len() + 3,
        seconds(time).take(seconds(time).len() - 3) == decimal((tenths(time) / 10) as nat),
        seconds(time)[seconds(time).len() - 3] == '.',
        seconds(time)[seconds(time).len() - 2] == digit(tenths(time) % 10),
        seconds(time)[seconds(time).len() - 1] == 's',
{
    reveal_strlit(".");
    reveal_strlit("s");
    let whole = decimal((tenths(time) / 10) as nat);
    assert(seconds(time).take(whole.len() as int) =~= whole);
}

/// A key is down after some events exactly when the last thing that happened to it was
/// that it was pressed: other events leave it as it was.
pub proof fn law_a_key_is_down_until_it_is_let_go(
    events: Seq<RecordedMidiEvent>,
    event: RecordedMidiEvent,
    channel: u8,
    key: u8,
)
    ensures
        ({
            let code = (channel * 256 + key) as u16;
            let after = held(events.push(event));
            let here = event.channel == channel;
            &&& event.message is NoteOn && here && event.message->NoteOn_key == key
                ==> after.contains(code)
            &&& event.message is NoteOff && here && event.message->NoteOff_key == key
                ==> !after.contains(code)
            &&& !(event.message is NoteOn && here && event.message->NoteOn_key == key) && !(
            event.message is NoteOff && here && event.message->NoteOff_key == key) ==> (
            after.contains(code) <==> held(events).contains(code))
        }),
        held(Seq::empty()) == Set::<u16>::empty(),
{
    assert(events.push(event).drop_last() =~= events);
    let code = (channel * 256 + key) as u16;
    match event.message {
        MidiMessage::NoteOn { key: k, .. } => {
            assert(key_code(event.channel, k) == code <==> event.channel == channel && k == key);
        },
        MidiMessage::NoteOff { key: k, .. } => {
            assert(key_code(event.channel, k) == code <==> event.channel == channel && k == key);
        },
        _ => {},
    }
}

/// When a take ends each key that is down is let go of then, on its own channel.
pub proof fn law_each_key_is_let_go_of(codes: Seq<u16>, timestamp: u64, n: int)
    requires
        0 <= n < codes.len(),
    ensures
        releases(codes, timestamp).len() == codes.len(),
        releases(codes, timestamp)[n].timestamp == timestamp,
        releases(codes, timestamp)[n].message is NoteOff,
        releases(codes, timestamp)[n].message->NoteOff_vel == 0,
        releases(codes, timestamp)[n].channel * 256 + releases(
            codes,
            timestamp,
        )[n].message->NoteOff_key == codes[n],
{
}

/// The track of a recording begins with its tempo, half a second a beat, and four-four
/// time; then come the events in order; and it ends one pulse after the last.
pub proof fn law_how_a_recorded_track_is_framed(events: Seq<RecordedMidiEvent>)
    ensures
        ({
            let track = track_of(events);
            &&& track.len() == events.len() + 3
            &&& track[0] == (SmfEvent { delta: 0, kind: SmfKind::Tempo(500_000) })
            &&& track[1] == (SmfEvent { delta: 0, kind: SmfKind::TimeSignature(4, 2, 24, 8) })
            &&& track.last() == (SmfEvent { delta: 1, kind: SmfKind::EndOfTrack })
        }),
        forall|n: int|
            0 <= n < events.len() ==> (#[trigger] track_of(events)[n + 2]).kind == wire(
                events[n].channel,
                events[n].message,
            ),
{
    assert forall|n: int| 0 <= n < events.len() implies (#[trigger] track_of(events)[n + 2]).kind
        == wire(events[n].channel, events[n].message) by {
        assert(track_of(events)[n + 2] == track_event(events, n));
    }
}

/// What is said of a take: without sound that there is none to record; with sound but no
/// microphone that; with a microphone that stayed under a hundredth of full scale that it
/// heard nothing; and only then whether something was lost.
pub proof fn law_what_is_said_of_a_take(audio: bool, microphone: bool, peak: u32, gapped: bool)
    requires
        peak <= 0x7f80_0000,
    ensures
        ({
            let heard = peak >= 0x3c23_d70a;
            let said = outcome_of(audio, microphone, peak, gapped);
            &&& said == TakeOutcome::NoAudio <==> !audio
            &&& said == TakeOutcome::NoMicrophone <==> audio && !microphone
            &&& said == TakeOutcome::SilentMicrophone <==> audio && microphone && !heard
            &&& said == TakeOutcome::Gapped <==> audio && microphone && heard && gapped
            &&& said == TakeOutcome::PianoAndVoice <==> audio && microphone && heard && !gapped
        }),
{
}

/// The words that go with a take and with an error.
pub proof fn law_outcomes_have_their_words(
    time: u64,
    outcome: TakeOutcome,
    what: String,
    why: String,
)
    ensures
        TakeOutcome::PianoAndVoice.label() == "piano and voice"@,
        TakeOutcome::SilentMicrophone.label() == "piano only, microphone heard nothing"@,
        TakeOutcome::NoMicrophone.label() == "piano only, no microphone"@,
        TakeOutcome::Gapped.label() == "piano and voice, some samples dropped"@,
        TakeOutcome::NoAudio.label() == "MIDI only, no audio to record"@,
        RecorderError::NoNotesFound.label() == "No note events recorded"@,
        RecorderError::NothingRecorded.label() == "Nothing recorded"@,
        RecorderError::Write.label() == "Failed to write MIDI file"@,
        RecorderError::WriteAudio.label() == "Failed to write WAV file"@,
        RecorderStatus::Idle.label().len() == 0,
        RecorderStatus::RecordingFinished(time, outcome).label() == "Recorded "@ + seconds(
            time as int,
        ) + " · "@ + outcome.label(),
        RecorderStatus::Saved(what).label() == "Saved "@ + what@,
        RecorderStatus::Error(RecorderError::MidiFileParse(why)).label() == why@,
{
}

/// A take keeps everything that was recorded: it lasts from the start to the end, its notes
/// are all that were played and the releases of the keys still down, its sound is all that
/// was captured. Notes without sound and sound without notes are kept alike.
pub proof fn law_a_take_keeps_everything(
    take: RecordedTake,
    in_progress: RecordingInProgressState,
    rate: u32,
    gapped: bool,
    peak: u32,
    now: u64,
)
    requires
        in_progress.wf(),
        in_progress.started_at <= now,
        is_take(take, in_progress, rate, gapped, peak, now),
    ensures
        take.duration == now - in_progress.started_at,
        take.smf is Some <==> exists|n: int|
            0 <= n < in_progress.events@.len() && (
            #[trigger] in_progress.events@[n]).message is NoteOn,
        take.smf is Some ==> take.smf->0@.len() == in_progress.events@.len()
            + in_progress.active_notes@.len() + 3,
        take.audio is Some <==> in_progress.audio@.len() > 0,
        take.audio is Some ==> (take.audio->0).samples@ == in_progress.audio@,
        take.audio is Some && rate > 0 ==> (take.audio->0).rate == rate,
        take.outcome == TakeOutcome::NoAudio <==> in_progress.audio@.len() == 0,
{
    let time = elapsed(now, in_progress.started_at);
    let events = closed_events(in_progress, time);
    let played = in_progress.events@;
    if has_notes(events) {
        let n = choose|n: int| 0 <= n < events.len() && (#[trigger] events[n]).message is NoteOn;
        assert(n < played.len());
        assert(played[n].message is NoteOn);
    }
    if exists|n: int| 0 <= n < played.len() && (#[trigger] played[n]).message is NoteOn {
        let n = choose|n: int| 0 <= n < played.len() && (#[trigger] played[n]).message is NoteOn;
        assert(events[n].message is NoteOn);
    }
}

/// Time is counted from the start of the take, and never backwards.
pub proof fn law_time_is_counted_from_the_start(now: u64, start: u64)
    ensures
        now >= start ==> elapsed(now, start) + start == now,
        now < start ==> elapsed(now, start) == 0,
{
}

/// What a save writes: the notes where there are any, with the sound beside them where
/// there is some; else the sound; else nothing, which cannot be asked for.
pub proof fn law_what_a_save_writes(recorder: FreeplayRecorder, take: RecordedTake)
    requires
        recorder.state == RecorderState::Recorded(take),
    ensures
        recorder.plan() == (SavePlan::Notes { audio: true }) <==> take.smf is Some
            && take.audio is Some,
        recorder.plan() == (SavePlan::Notes { audio: false }) <==> take.smf is Some
            && take.audio is None,
        recorder.plan() == SavePlan::Sound <==> take.smf is None && take.audio is Some,
        recorder.plan() == SavePlan::Empty <==> !recorder.savable(),
        recorder.savable() <==> take.smf is Some || take.audio is Some,
{
}

/// Clicks on the bar: with a preview the progress bar goes before everything, then come
/// record, save, play and back; play needs a preview, and save something to save.
pub proof fn law_which_click_counts(
    recorder: FreeplayRecorder,
    clicks: PreviewClicks,
    available: bool,
)
    ensures
        ({
            let asked = recorder.asked(clicks, available);
            let seeks = clicks.progress && available;
            let saves = clicks.save && recorder.savable();
            let plays = clicks.play && available;
            &&& asked == PreviewMessage::Seek <==> seeks
            &&& asked == PreviewMessage::Record <==> clicks.record && !seeks
            &&& asked == PreviewMessage::Save <==> saves && !clicks.record && !seeks
            &&& asked == PreviewMessage::TogglePlay <==> plays && !saves && !clicks.record && !seeks
            &&& asked == PreviewMessage::GoBack <==> clicks.back && !plays && !saves
                && !clicks.record && !seeks
        }),
        !(recorder.state is Recorded) ==> !recorder.savable(),
{
}

/// What the bar over the preview says and shows: while recording how long already, and
/// whether there is no microphone; what cannot be clicked is dimmed; the record button is
/// red and shows a stop sign while a take is under way.
pub proof fn law_what_the_bar_shows(
    bar: PreviewBar,
    recorder: FreeplayRecorder,
    status: RecorderStatus,
    paused: Option<bool>,
    now: u64,
)
    requires
        bar.of(recorder, status, paused, now),
    ensures
        recorder.state matches RecorderState::Recording(take) ==> {
            &&& bar.meter && bar.shows_stop
            &&& bar.record_color == (208u8, 18u8, 0u8, 255u8)
            &&& take.microphone && take.started_at <= now ==> bar.status@ == "Recording "@
                + seconds(now - take.started_at)
            &&& !take.microphone && take.started_at <= now ==> bar.status@ == "Recording "@
                + seconds(now - take.started_at) + " · no microphone"@
        },
        !(recorder.state is Recording) ==> !bar.meter && !bar.shows_stop && bar.status@
            == status.label() && bar.record_color.3 == 0,
        bar.shows_play <==> paused is None || paused->0,
        bar.play_color == (255u8, 255u8, 255u8, if paused is Some {
            255u8
        } else {
            100u8
        }),
        bar.save_color == (255u8, 255u8, 255u8, if recorder.savable() {
            255u8
        } else {
            100u8
        }),
{
    if let RecorderState::Recording(take) = recorder.state {
        if take.microphone && take.started_at <= now {
            assert("Recording "@ + seconds(now - take.started_at) + Seq::<char>::empty()
                =~= "Recording "@ + seconds(now - take.started_at));
        }
    }
}

/// The names of the files that were written are joined by "and" where there are two.
pub proof fn law_written_names_are_joined(midi: Seq<char>, wav: Seq<char>)
    ensures
        joined(Some(midi), Some(wav)) == midi + " and "@ + wav,
        joined(Some(midi), None) == midi,
        joined(None, Some(wav)) == wav,
        joined(None, None).len() == 0,
{
}

/// Stopping loses nothing of a take: what was played, when it began, whether there was a
/// microphone, and the sound with what was left on the tape at its end. It is an error
/// where there are no notes, and where there is no take; then what was there stays.
pub proof fn law_stopping_loses_nothing(
    recorder: FreeplayRecorder,
    after: FreeplayRecorder,
    mic: MicPassthrough,
    peak: u32,
    now: u64,
    result: Result<(), RecorderError>,
)
    requires
        recorder.stops(after, mic, peak, now, result),
    ensures
        recorder.state is Recording ==> {
            let was = recorder.state->Recording_0;
            &&& after.state is Recorded
            &&& exists|swept: RecordingInProgressState|
                swept.events@ == was.events@ && swept.active_notes@ == was.active_notes@
                    && swept.started_at == was.started_at && swept.microphone == was.microphone
                    && swept.audio@ == was.audio@ + mic.sinks.tape.ring@ && #[trigger] is_take(
                    after.state->Recorded_0,
                    swept,
                    mic.rate,
                    mic.sinks.tape.dropped,
                    peak,
                    now,
                )
            &&& result is Ok <==> after.state->Recorded_0.smf is Some
            &&& result is Err ==> result->Err_0 is NoNotesFound
        },
        !(recorder.state is Recording) ==> after.state == recorder.state && result is Err
            && result->Err_0 is NothingRecorded,
{
}

} // verus!
