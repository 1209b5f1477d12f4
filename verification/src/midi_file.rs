//! What a MIDI file says: its notes, its metre and its bar grid.
use vstd::prelude::*;
use vstd::string::*;

use crate::smf::{
    is_negatable, negatable, outline_tracks, parsed, read_outline, OutlineEvent, SmfOutline,
};

verus! {

/// The metre a file is written in.
///
/// Only the signature in force at the start is tracked: mid-piece changes are
/// rare, and a bar grid that is right for the opening beats a grid that assumes
/// 4/4 everywhere.
#[derive(Debug, Clone, Copy, PartialEq, Eq, Structural)]
pub struct TimeSignature {
    pub numerator: u8,
    /// Always a power of two: 4 for 3/4, 8 for 6/8.
    pub denominator: u8,
}

/// A number of quarter notes, as the fraction `num / den`.
#[derive(Debug, Clone, Copy, PartialEq, Eq, Structural)]
pub struct Quarters {
    pub num: u32,
    pub den: u32,
}

impl Default for TimeSignature {
    fn default() -> (sig: Self)
        ensures
            sig == (TimeSignature { numerator: 4, denominator: 4 }),
    {
        TimeSignature { numerator: 4, denominator: 4 }
    }
}

impl TimeSignature {
    /// Length of one bar in quarter notes: 3 for 3/4, also 3 for 6/8.
    pub open spec fn bar(self) -> Quarters {
        if self.denominator == 0 {
            Quarters { num: 4, den: 1 }
        } else {
            Quarters { num: (self.numerator * 4) as u32, den: self.denominator as u32 }
        }
    }

    /// Length of one bar in quarter notes: 3 for 3/4, also 3 for 6/8.
    pub fn quarters_per_bar(self) -> (quarters: Quarters)
        ensures
            quarters == self.bar(),
            quarters.den > 0,
            self.denominator > 0 ==> quarters.num * self.denominator == self.numerator * 4
                * quarters.den,
    {
        if self.denominator == 0 {
            return Quarters { num: 4, den: 1 };
        }
        Quarters { num: self.numerator as u32 * 4, den: self.denominator as u32 }
    }
}

/// One note of a track, in nanoseconds from the start of the song.
#[derive(Debug, Clone, Copy, PartialEq, Eq, Structural)]
pub struct MidiNote {
    pub start: u64,
    pub end: u64,
    pub duration: u64,
    pub note: u8,
    pub velocity: u8,
    pub channel: u8,
    pub track_id: usize,
    pub track_color_id: usize,
}

impl MidiNote {
    /// The note in a colour.
    pub open spec fn colored(self, color: nat) -> MidiNote {
        MidiNote { track_color_id: color as usize, ..self }
    }
}

/// A message on a MIDI channel.
#[derive(Debug, Clone, Copy, PartialEq, Eq, Structural)]
pub enum MidiMessage {
    NoteOff { key: u8, vel: u8 },
    NoteOn { key: u8, vel: u8 },
    Aftertouch { key: u8, vel: u8 },
    Controller { controller: u8, value: u8 },
    ProgramChange { program: u8 },
    ChannelAftertouch { vel: u8 },
    PitchBend { bend: u16 },
}

impl MidiMessage {
    /// The key that a note message is about.
    pub open spec fn key(self) -> Option<u8> {
        match self {
            MidiMessage::NoteOn { key, .. } => Some(key),
            MidiMessage::NoteOff { key, .. } => Some(key),
            _ => None,
        }
    }

    /// The key that a note message is about.
    pub fn note_key(&self) -> (key: Option<u8>)
        ensures
            key == self.key(),
    {
        match self {
            MidiMessage::NoteOn { key, .. } => Some(*key),
            MidiMessage::NoteOff { key, .. } => Some(*key),
            _ => None,
        }
    }
}

/// One event of a track, as playback hands it out.
#[derive(Debug, Clone, Copy, PartialEq, Eq, Structural)]
pub struct MidiEvent {
    pub channel: u8,
    pub track_id: usize,
    pub track_color_id: usize,
    pub message: MidiMessage,
}

impl MidiEvent {
    /// The event in a colour.
    pub open spec fn colored(self, color: nat) -> MidiEvent {
        MidiEvent { track_color_id: color as usize, ..self }
    }
}

/// One track of a file.
#[derive(Debug)]
pub struct MidiTrack {
    pub notes: Vec<MidiNote>,
    pub events: Vec<MidiEvent>,
    pub track_id: usize,
    pub track_color_id: usize,
    /// The instruments that the track asks for, in order.
    pub programs: Vec<u8>,
    pub has_drums: bool,
    pub has_other_than_drums: bool,
}

impl MidiTrack {
    /// Whether the track is percussion and nothing else.
    pub open spec fn only_drums(self) -> bool {
        self.has_drums && !self.has_other_than_drums
    }

    /// Whether a player can be handed the track: it has notes, and they are not
    /// drum hits.
    pub open spec fn melodic(self) -> bool {
        !self.only_drums() && self.notes@.len() > 0
    }

    /// Whether it is a track put in a colour, together with its notes and events;
    /// nothing else differs.
    pub open spec fn is_colored(self, track: MidiTrack, color: nat) -> bool {
        &&& self.track_color_id == color
        &&& self.notes@ == track.notes@.map_values(|note: MidiNote| note.colored(color))
        &&& self.events@ == track.events@.map_values(|event: MidiEvent| event.colored(color))
        &&& self.track_id == track.track_id
        &&& self.programs == track.programs
        &&& self.has_drums == track.has_drums
        &&& self.has_other_than_drums == track.has_other_than_drums
    }

    /// Puts the track, its notes and its events in a colour.
    fn put_in_color(&mut self, color: usize)
        ensures
            final(self).is_colored(*old(self), color as nat),
    {
        self.track_color_id = color;
        let mut n: usize = 0;
        while n < self.notes.len()
            invariant
                n <= self.notes@.len() == old(self).notes@.len(),
                forall|m: int|
                    0 <= m < n ==> #[trigger] self.notes@[m] == old(self).notes@[m].colored(
                        color as nat,
                    ),
                forall|m: int|
                    n <= m < self.notes@.len() ==> #[trigger] self.notes@[m] == old(
                        self,
                    ).notes@[m],
                *self == (MidiTrack { notes: self.notes, track_color_id: color, ..*old(self) }),
            decreases self.notes@.len() - n,
        {
            let note = self.notes[n];
            self.notes[n] = MidiNote { track_color_id: color, ..note };
            n = n + 1;
        }
        assert(self.notes@ =~= old(self).notes@.map_values(
            |note: MidiNote| note.colored(color as nat),
        ));
        let ghost painted = *self;
        let mut n: usize = 0;
        while n < self.events.len()
            invariant
                n <= self.events@.len() == old(self).events@.len(),
                forall|m: int|
                    0 <= m < n ==> #[trigger] self.events@[m] == old(self).events@[m].colored(
                        color as nat,
                    ),
                forall|m: int|
                    n <= m < self.events@.len() ==> #[trigger] self.events@[m] == old(
                        self,
                    ).events@[m],
                *self == (MidiTrack { events: self.events, ..painted }),
            decreases self.events@.len() - n,
        {
            let event = self.events[n];
            self.events[n] = MidiEvent { track_color_id: color, ..event };
            n = n + 1;
        }
        assert(self.events@ =~= old(self).events@.map_values(
            |event: MidiEvent| event.colored(color as nat),
        ));
    }

    pub fn is_drums(&self) -> (drums: bool)
        ensures
            drums == self.only_drums(),
    {
        self.has_drums && !self.has_other_than_drums
    }

    pub fn is_melodic(&self) -> (melodic: bool)
        ensures
            melodic == self.melodic(),
    {
        !self.is_drums() && self.notes.len() > 0
    }
}

/// A file that was read.
#[derive(Debug)]
pub struct MidiFile {
    pub name: String,
    pub tracks: Vec<MidiTrack>,
    /// When each bar begins.
    pub measures: Vec<u64>,
    pub time_signature: TimeSignature,
}

/// The time signature that an event's numbers mean: a bar has at least one beat,
/// and a denominator that is out of range counts as 4.
pub open spec fn signature_of(num: u8, den_pow: u8) -> TimeSignature {
    TimeSignature {
        numerator: if num == 0 {
            1
        } else {
            num
        },
        denominator: if den_pow == 0 {
            1
        } else if den_pow == 1 {
            2
        } else if den_pow == 2 {
            4
        } else if den_pow == 3 {
            8
        } else if den_pow == 4 {
            16
        } else if den_pow == 5 {
            32
        } else if den_pow == 6 {
            64
        } else if den_pow == 7 {
            128
        } else {
            4
        },
    }
}

/// How many pulses into its track the event after the first `n` events comes.
pub open spec fn pulses_before(events: Seq<OutlineEvent>, n: int) -> nat
    decreases n,
{
    if n <= 0 {
        0
    } else {
        pulses_before(events, n - 1) + events[n - 1].0 as nat
    }
}

/// The first time signature of a track from event `n` on, and when it comes.
pub open spec fn first_signature(events: Seq<OutlineEvent>, n: int) -> Option<(nat, TimeSignature)>
    decreases events.len() - n,
{
    if n < 0 || n >= events.len() {
        None
    } else {
        match events[n].1 {
            Some((num, den_pow)) => Some(
                (pulses_before(events, n + 1), signature_of(num, den_pow)),
            ),
            None => first_signature(events, n + 1),
        }
    }
}

/// The earliest time signature of the first `n` tracks, each track counting with
/// its first one; of two that come at once the one of the first track.
pub open spec fn earliest_signature(
    tracks: Seq<Seq<OutlineEvent>>,
    n: int,
) -> Option<(nat, TimeSignature)>
    decreases n,
{
    if n <= 0 {
        None
    } else {
        let before = earliest_signature(tracks, n - 1);
        match (before, first_signature(tracks[n - 1], 0)) {
            (None, here) => here,
            (Some(best), None) => Some(best),
            (Some(best), Some(here)) => if here.0 < best.0 {
                Some(here)
            } else {
                Some(best)
            },
        }
    }
}

/// The metre of a file: its earliest time signature, or else 4/4.
pub open spec fn metre(tracks: Seq<Seq<OutlineEvent>>) -> TimeSignature {
    match earliest_signature(tracks, tracks.len() as int) {
        Some((_, sig)) => sig,
        None => TimeSignature { numerator: 4, denominator: 4 },
    }
}

fn make_signature(num: u8, den_pow: u8) -> (sig: TimeSignature)
    ensures
        sig == signature_of(num, den_pow),
{
    let numerator: u8 = if num == 0 {
        1
    } else {
        num
    };
    let denominator: u8 = match den_pow {
        0 => 1,
        1 => 2,
        2 => 4,
        3 => 8,
        4 => 16,
        5 => 32,
        6 => 64,
        7 => 128,
        _ => 4,
    };
    TimeSignature { numerator, denominator }
}

/// Looks for the first time signature of a track.
fn find_first_signature(events: &Vec<OutlineEvent>) -> (found: Option<(u128, TimeSignature)>)
    ensures
        match found {
            Some((at, sig)) => first_signature(events@, 0) == Some((at as nat, sig)),
            None => first_signature(events@, 0) is None,
        },
{
    let mut pulses: u128 = 0;
    let mut n: usize = 0;
    while n < events.len()
        invariant
            n <= events@.len(),
            pulses == pulses_before(events@, n as int),
            pulses <= n * 0xffff_ffff,
            first_signature(events@, 0) == first_signature(events@, n as int),
        decreases events@.len() - n,
    {
        let (delta, meter): OutlineEvent = events[n];
        assert(n * 0xffff_ffff <= 0xffff_ffff_ffff_ffff * 0xffff_ffff) by (nonlinear_arith)
            requires
                0 <= n <= 0xffff_ffff_ffff_ffff,
        ;
        pulses = pulses + delta as u128;
        if let Some((num, den_pow)) = meter {
            return Some((pulses, make_signature(num, den_pow)));
        }
        n = n + 1;
    }
    None
}

/// The earliest time signature in the file, across all tracks.
pub fn find_time_signature(tracks: &Vec<Vec<OutlineEvent>>) -> (sig: TimeSignature)
    ensures
        sig == metre(outline_tracks(tracks@)),
{
    let ghost lists = outline_tracks(tracks@);
    let mut best: Option<(u128, TimeSignature)> = None;
    let mut n: usize = 0;
    while n < tracks.len()
        invariant
            n <= tracks@.len(),
            lists == outline_tracks(tracks@),
            match best {
                Some((at, sig)) => earliest_signature(lists, n as int) == Some((at as nat, sig)),
                None => earliest_signature(lists, n as int) is None,
            },
        decreases tracks@.len() - n,
    {
        let found: Option<(u128, TimeSignature)> = find_first_signature(&tracks[n]);
        assert(lists[n as int] == tracks@[n as int]@);
        if let Some((here, sig)) = found {
            let earlier = match best {
                Some((at, _)) => here < at,
                None => true,
            };
            if earlier {
                best = Some((here, sig));
            }
        }
        n = n + 1;
    }
    match best {
        Some((_, sig)) => sig,
        None => TimeSignature::default(),
    }
}

/// What the bar grid of a file rests on.
#[derive(Debug, Clone, Copy, PartialEq, Eq, Structural)]
pub struct Metre {
    pub pulses_per_quarter: u16,
    pub time_signature: TimeSignature,
}

/// Whether a reading is what some bytes say: the two kinds of file that cannot be
/// used, and those that cannot be read at all, each have their error.
pub open spec fn reads_as(
    outline: Option<(Option<u16>, Seq<Seq<OutlineEvent>>)>,
    reading: Result<Metre, String>,
) -> bool {
    match outline {
        None => reading matches Err(e) && e@ == "Midi Parsing Error (midly lib)"@,
        Some((None, _)) => reading matches Err(e) && e@
            == "Midi With Timecode Timing, Not Supported!"@,
        Some((Some(pulses), tracks)) => if tracks.len() == 0 {
            reading matches Err(e) && e@ == "Midi File Has No Tracks"@
        } else {
            reading == Ok::<Metre, String>(
                Metre { pulses_per_quarter: pulses, time_signature: metre(tracks) },
            )
        },
    }
}

impl MidiFile {
    /// Reads the metre of a file from its bytes. A file whose frame rate cannot be
    /// negated cannot be read.
    pub fn read_metre(bytes: &[u8]) -> (reading: Result<Metre, String>)
        ensures
            negatable(bytes@) ==> reads_as(parsed(bytes@), reading),
            !negatable(bytes@) ==> reads_as(None, reading),
    {
        if !is_negatable(bytes) {
            return Err(String::from_str("Midi Parsing Error (midly lib)"));
        }
        match read_outline(bytes) {
            Some(outline) => MidiFile::from_outline(&outline),
            None => Err(String::from_str("Midi Parsing Error (midly lib)")),
        }
    }

    /// The metre of a file whose outline was read.
    pub fn from_outline(outline: &SmfOutline) -> (reading: Result<Metre, String>)
        ensures
            reads_as(
                Some((outline.pulses_per_quarter, outline_tracks(outline.tracks@))),
                reading,
            ),
    {
        let pulses_per_quarter: u16 = match outline.pulses_per_quarter {
            Some(pulses) => pulses,
            None => return Err(String::from_str("Midi With Timecode Timing, Not Supported!")),
        };
        if outline.tracks.len() == 0 {
            return Err(String::from_str("Midi File Has No Tracks"));
        }
        Ok(
            Metre {
                pulses_per_quarter,
                time_signature: find_time_signature(&outline.tracks),
            },
        )
    }
}

/// How many of the first `n` tracks have notes.
pub open spec fn noted(has_notes: Seq<bool>, n: int) -> nat
    decreases n,
{
    if n <= 0 {
        0
    } else {
        noted(has_notes, n - 1) + if has_notes[n - 1] {
            1nat
        } else {
            0nat
        }
    }
}

/// Track colours: a track's colour is how many tracks before it have notes, so
/// that empty tracks use none up.
pub fn color_ids(has_notes: &[bool]) -> (colors: Vec<usize>)
    ensures
        colors@.len() == has_notes@.len(),
        forall|n: int| 0 <= n < colors@.len() ==> #[trigger] colors@[n] == noted(has_notes@, n),
{
    let mut colors: Vec<usize> = Vec::new();
    let mut color: usize = 0;
    let mut n: usize = 0;
    while n < has_notes.len()
        invariant
            n <= has_notes@.len(),
            color <= n,
            color == noted(has_notes@, n as int),
            colors@.len() == n,
            forall|m: int| 0 <= m < n ==> #[trigger] colors@[m] == noted(has_notes@, m),
        decreases has_notes@.len() - n,
    {
        colors.push(color);
        if has_notes[n] {
            color = color + 1;
        }
        n = n + 1;
    }
    colors
}

/// Which tracks have notes.
pub open spec fn with_notes(tracks: Seq<MidiTrack>) -> Seq<bool> {
    tracks.map_values(|track: MidiTrack| track.notes@.len() > 0)
}

fn find_with_notes(tracks: &Vec<MidiTrack>) -> (has_notes: Vec<bool>)
    ensures
        has_notes@ == with_notes(tracks@),
{
    let mut has_notes: Vec<bool> = Vec::new();
    let mut n: usize = 0;
    while n < tracks.len()
        invariant
            n <= tracks@.len(),
            has_notes@ == with_notes(tracks@).take(n as int),
        decreases tracks@.len() - n,
    {
        has_notes.push(tracks[n].notes.len() > 0);
        n = n + 1;
    }
    assert(with_notes(tracks@).take(n as int) =~= with_notes(tracks@));
    has_notes
}

/// When the last note of the first `n` tracks ends, each track counting with the
/// last note of its list.
pub open spec fn last_end(tracks: Seq<MidiTrack>, n: int) -> int
    decreases n,
{
    if n <= 0 {
        0
    } else {
        let before = last_end(tracks, n - 1);
        let notes = tracks[n - 1].notes@;
        if notes.len() > 0 && notes.last().start + notes.last().duration > before {
            notes.last().start + notes.last().duration
        } else {
            before
        }
    }
}

/// When the last note of a song ends.
pub fn last_note_end(tracks: &[MidiTrack]) -> (end: u64)
    requires
        forall|n: int|
            0 <= n < tracks@.len() && (#[trigger] tracks@[n]).notes@.len() > 0
                ==> tracks@[n].notes@.last().start + tracks@[n].notes@.last().duration <= u64::MAX,
    ensures
        end == last_end(tracks@, tracks@.len() as int),
{
    let mut end: u64 = 0;
    let mut n: usize = 0;
    while n < tracks.len()
        invariant
            n <= tracks@.len(),
            forall|m: int|
                0 <= m < tracks@.len() && (#[trigger] tracks@[m]).notes@.len() > 0
                    ==> tracks@[m].notes@.last().start + tracks@[m].notes@.last().duration
                    <= u64::MAX,
            end == last_end(tracks@, n as int),
        decreases tracks@.len() - n,
    {
        let track = &tracks[n];
        assert(tracks@[n as int].notes@ == track.notes@);
        if track.notes.len() > 0 {
            let note = track.notes[track.notes.len() - 1];
            let this: u64 = note.start + note.duration;
            if this > end {
                end = this;
            }
        }
        n = n + 1;
    }
    end
}

impl Metre {
    /// How many pulses a bar has: as many quarter notes as the metre says, to the
    /// nearest pulse, halves rounded up, and never none.
    pub open spec fn pulses(self) -> int {
        let bar = self.time_signature.bar();
        let pulses = (2 * (self.pulses_per_quarter * bar.num) + bar.den) / (2 * bar.den);
        if pulses < 1 {
            1
        } else {
            pulses
        }
    }

    /// How many pulses a bar has. A bar is however many quarter notes the metre
    /// says, not always four: a 3/4 minuet gets bar lines every three beats.
    pub fn pulses_per_bar(&self) -> (pulses: u64)
        ensures
            pulses == self.pulses(),
            1 <= pulses <= 0x1_0000_0000,
    {
        let bar = self.time_signature.quarters_per_bar();
        let quarter: u64 = self.pulses_per_quarter as u64;
        let num: u64 = bar.num as u64;
        let den: u64 = bar.den as u64;
        assert(0 <= quarter * num <= 0xffff * 1020) by (nonlinear_arith)
            requires
                0 <= quarter <= 0xffff,
                0 <= num <= 1020,
        ;
        let pulses: u64 = (2 * (quarter * num) + den) / (2 * den);
        assert(0 <= (2 * (quarter * num) + den) / (2 * den) <= 2 * (quarter * num) + den)
            by (nonlinear_arith)
            requires
                den > 0,
                quarter * num >= 0,
        ;
        if pulses < 1 {
            1
        } else {
            pulses
        }
    }
}

/// The bar grid of a song, as it is laid out bar by bar: the tempo map says when
/// each bar begins, and the grid runs until a bar begins after the last note.
#[derive(Debug)]
pub struct MeasureGrid {
    pub pulses_per_bar: u64,
    pub last_note_end: u64,
    pub measures: Vec<u64>,
}

impl MeasureGrid {
    /// Whether another bar is to be laid out.
    pub open spec fn is_open(self) -> bool {
        self.measures@.len() == 0 || self.measures@.last() <= self.last_note_end
    }

    /// Every bar but the last begins before the last note is over.
    pub open spec fn wf(self) -> bool {
        forall|n: int|
            0 <= n < self.measures@.len() - 1 ==> #[trigger] self.measures@[n]
                <= self.last_note_end
    }

    pub fn new(metre: &Metre, last_note_end: u64) -> (grid: Self)
        ensures
            grid.pulses_per_bar == metre.pulses(),
            grid.last_note_end == last_note_end,
            grid.measures@.len() == 0,
            grid.wf(),
    {
        MeasureGrid { pulses_per_bar: metre.pulses_per_bar(), last_note_end, measures: Vec::new() }
    }

    /// The pulse at which the next bar begins, while the grid is still open.
    pub fn next_pulse(&self) -> (pulse: Option<u64>)
        requires
            self.measures@.len() * self.pulses_per_bar <= u64::MAX,
        ensures
            pulse is Some <==> self.is_open(),
            pulse is Some ==> pulse->0 == self.measures@.len() * self.pulses_per_bar,
    {
        let id: usize = self.measures.len();
        if id == 0 || self.measures[id - 1] <= self.last_note_end {
            Some(id as u64 * self.pulses_per_bar)
        } else {
            None
        }
    }

    /// Lays out the next bar, which begins at `time`.
    pub fn push(&mut self, time: u64)
        requires
            old(self).wf(),
            old(self).is_open(),
        ensures
            final(self).wf(),
            final(self).measures@ == old(self).measures@.push(time),
            final(self).pulses_per_bar == old(self).pulses_per_bar,
            final(self).last_note_end == old(self).last_note_end,
            final(self).is_open() <==> time <= final(self).last_note_end,
    {
        self.measures.push(time);
        assert forall|n: int| 0 <= n < self.measures@.len() - 1 implies #[trigger] self.measures@[n]
            <= self.last_note_end by {
            assert(self.measures@[n] == old(self).measures@[n]);
        }
    }
}

/// Puts a file together from its parts: each track is put in its colour, together
/// with its notes and events, and the bars are those of a grid that is complete.
pub fn assemble(
    name: String,
    metre: &Metre,
    tracks: Vec<MidiTrack>,
    grid: MeasureGrid,
) -> (file: MidiFile)
    requires
        grid.wf(),
        !grid.is_open(),
    ensures
        file.name@ == name@,
        file.time_signature == metre.time_signature,
        file.measures@ == grid.measures@,
        file.tracks@.len() == tracks@.len(),
        forall|n: int|
            0 <= n < tracks@.len() ==> (#[trigger] file.tracks@[n]).is_colored(
                tracks@[n],
                noted(with_notes(tracks@), n),
            ),
{
    let ghost plain = tracks@;
    let has_notes = find_with_notes(&tracks);
    let colors = color_ids(has_notes.as_slice());
    let mut tracks = tracks;
    let mut n: usize = 0;
    while n < tracks.len()
        invariant
            n <= tracks@.len() == plain.len() == colors@.len(),
            forall|m: int|
                0 <= m < colors@.len() ==> #[trigger] colors@[m] == noted(with_notes(plain), m),
            forall|m: int|
                0 <= m < n ==> (#[trigger] tracks@[m]).is_colored(
                    plain[m],
                    noted(with_notes(plain), m),
                ),
            forall|m: int| n <= m < tracks@.len() ==> #[trigger] tracks@[m] == plain[m],
        decreases tracks@.len() - n,
    {
        tracks[n].put_in_color(colors[n]);
        n = n + 1;
    }
    MidiFile { name, tracks, measures: grid.measures, time_signature: metre.time_signature }
}

/// A bar of 3/4 and a bar of 6/8 are equally long, as are any two metres whose
/// fractions agree.
pub proof fn law_bars_of_equal_metres_are_equal(a: TimeSignature, b: TimeSignature)
    requires
        a.denominator > 0,
        b.denominator > 0,
        a.numerator * b.denominator == b.numerator * a.denominator,
    ensures
        a.bar().num * b.bar().den == b.bar().num * a.bar().den,
{
    assert((a.numerator * 4) * b.denominator == (b.numerator * 4) * a.denominator)
        by (nonlinear_arith)
        requires
            a.numerator * b.denominator == b.numerator * a.denominator,
    ;
}

/// The metre of a file comes no later than the first time signature of any
/// track.
pub proof fn law_metre_is_the_earliest(tracks: Seq<Seq<OutlineEvent>>, n: int, k: int)
    requires
        0 <= k < n <= tracks.len(),
        first_signature(tracks[k], 0) is Some,
    ensures
        earliest_signature(tracks, n) is Some,
        (earliest_signature(tracks, n)->0).0 <= (first_signature(tracks[k], 0)->0).0,
    decreases n,
{
    if k < n - 1 {
        law_metre_is_the_earliest(tracks, n - 1, k);
    }
}

/// What the numbers of a time signature mean: the beats in a bar, at least one, and the
/// note that is a beat as a power of two, a quarter where that is out of range.
pub proof fn law_time_signatures_mean_their_numbers(num: u8, den_pow: u8)
    ensures
        num > 0 ==> signature_of(num, den_pow).numerator == num,
        signature_of(0, den_pow).numerator == 1,
        signature_of(num, 0).denominator == 1,
        den_pow < 7 ==> signature_of(num, (den_pow + 1) as u8).denominator == 2 * signature_of(
            num,
            den_pow,
        ).denominator,
        den_pow > 7 ==> signature_of(num, den_pow).denominator == 4,
{
}

/// A bar of `n / d` lasts four `n`-ths of a quarter over `d`: `n` quarters in four-four
/// time and the like; without a denominator it counts as four quarters.
pub proof fn law_length_of_a_bar(sig: TimeSignature)
    ensures
        sig.denominator > 0 ==> sig.bar().num * sig.denominator == 4 * sig.numerator * sig.bar().den,
        sig.denominator == 0 ==> sig.bar().num == 4 * sig.bar().den,
        sig.bar().den > 0,
{
    let (n, d) = (sig.numerator as int, sig.denominator as int);
    assert((n * 4) * d == 4 * n * d) by (nonlinear_arith);
}

/// A bar has as many pulses as its quarters come to, to the nearest one, but at least one.
pub proof fn law_pulses_of_a_bar(metre: Metre)
    ensures
        ({
            let bar = metre.time_signature.bar();
            let exact = metre.pulses_per_quarter * bar.num;
            &&& metre.pulses() >= 1
            &&& 2 * exact >= bar.den ==> -bar.den <= 2 * (metre.pulses() * bar.den - exact)
                <= bar.den
            &&& 2 * exact < bar.den ==> metre.pulses() == 1
        }),
{
    let bar = metre.time_signature.bar();
    let (den, exact) = (bar.den as int, metre.pulses_per_quarter * bar.num);
    assert(exact >= 0) by (nonlinear_arith)
        requires
            exact == metre.pulses_per_quarter * bar.num,
    ;
    let pulses = (2 * exact + den) / (2 * den);
    assert(-den <= 2 * (pulses * den - exact) <= den) by (nonlinear_arith)
        requires
            pulses == (2 * exact + den) / (2 * den),
            den > 0,
    ;
    assert(2 * exact >= den <==> pulses >= 1) by (nonlinear_arith)
        requires
            pulses == (2 * exact + den) / (2 * den),
            den > 0,
    ;
}

/// The pulses before an event add up, and the first time signature of a track is the
/// first event that has one, at the pulse at which it comes.
pub proof fn law_first_signature_of_a_track(events: Seq<OutlineEvent>, n: int)
    requires
        0 <= n < events.len(),
    ensures
        pulses_before(events, 0) == 0,
        pulses_before(events, n + 1) == pulses_before(events, n) + events[n].0,
        (forall|m: int| 0 <= m < n ==> (#[trigger] events[m]).1 is None) && events[n].1 is Some
            ==> first_signature(events, 0) == Some(
            (
                pulses_before(events, n + 1),
                signature_of((events[n].1->0).0, (events[n].1->0).1),
            ),
        ),
        (forall|m: int| 0 <= m < events.len() ==> (#[trigger] events[m]).1 is None)
            ==> first_signature(events, 0) is None,
{
    if forall|m: int| 0 <= m < n ==> (#[trigger] events[m]).1 is None {
        lemma_skips_plain(events, 0, n);
    }
    if forall|m: int| 0 <= m < events.len() ==> (#[trigger] events[m]).1 is None {
        lemma_skips_plain(events, 0, events.len() as int);
    }
}

proof fn lemma_skips_plain(events: Seq<OutlineEvent>, from: int, to: int)
    requires
        0 <= from <= to <= events.len(),
        forall|m: int| from <= m < to ==> (#[trigger] events[m]).1 is None,
    ensures
        first_signature(events, from) == first_signature(events, to),
    decreases to - from,
{
    if from < to {
        assert(events[from].1 is None);
        lemma_skips_plain(events, from + 1, to);
    }
}

/// The metre of a file is a time signature of one of its tracks, that track's first; of
/// two that come at once the one of the earlier track counts. A file without any is in
/// four-four time.
pub proof fn law_metre_is_one_of_the_tracks(tracks: Seq<Seq<OutlineEvent>>, n: int)
    requires
        0 <= n <= tracks.len(),
    ensures
        earliest_signature(tracks, n) is Some ==> exists|k: int|
            0 <= k < n && first_signature(#[trigger] tracks[k], 0) == earliest_signature(tracks, n)
                && forall|j: int|
                0 <= j < k && first_signature(#[trigger] tracks[j], 0) is Some ==> (first_signature(
                    tracks[j],
                    0,
                )->0).0 > (earliest_signature(tracks, n)->0).0,
        earliest_signature(tracks, n) is None <==> forall|k: int|
            0 <= k < n ==> first_signature(#[trigger] tracks[k], 0) is None,
        earliest_signature(tracks, tracks.len() as int) is None ==> metre(tracks)
            == (TimeSignature { numerator: 4, denominator: 4 }),
        earliest_signature(tracks, tracks.len() as int) is Some ==> metre(tracks) == (
        earliest_signature(tracks, tracks.len() as int)->0).1,
    decreases n,
{
    if n > 0 {
        law_metre_is_one_of_the_tracks(tracks, n - 1);
        let before = earliest_signature(tracks, n - 1);
        let here = first_signature(tracks[n - 1], 0);
        let now = earliest_signature(tracks, n);
        if now is Some {
            if before is Some && now == before && !(here is Some && (here->0).0 < (before->0).0) {
                let k = choose|k: int|
                    0 <= k < n - 1 && first_signature(#[trigger] tracks[k], 0) == before && forall|
                        j: int,
                    |
                        0 <= j < k && first_signature(#[trigger] tracks[j], 0) is Some ==> (
                        first_signature(tracks[j], 0)->0).0 > (before->0).0;
                assert(first_signature(tracks[k], 0) == now);
            } else {
                assert(first_signature(tracks[n - 1], 0) == now);
                assert forall|j: int|
                    0 <= j < n - 1 && first_signature(#[trigger] tracks[j], 0) is Some implies (
                first_signature(tracks[j], 0)->0).0 > (now->0).0 by {
                    law_metre_is_the_earliest(tracks, n - 1, j);
                }
            }
        }
        if now is None {
            assert forall|k: int| 0 <= k < n implies first_signature(#[trigger] tracks[k], 0)
                is None by {
                if k < n - 1 {
                    assert(first_signature(tracks[k], 0) is None);
                }
            }
        }
    }
}

/// Tracks with notes are counted one by one, so that the colours of the tracks with notes
/// are 0, 1, 2 and so on, and no track without notes uses one up.
pub proof fn law_colours_are_handed_out_in_order(has_notes: Seq<bool>, n: int, m: int)
    requires
        0 <= n < m <= has_notes.len(),
    ensures
        noted(has_notes, 0) == 0,
        noted(has_notes, n + 1) == noted(has_notes, n) + (if has_notes[n] {
            1int
        } else {
            0
        }),
        noted(has_notes, n) <= noted(has_notes, m) <= m,
        has_notes[n] ==> noted(has_notes, n) < noted(has_notes, m),
    decreases m,
{
    if n + 1 < m {
        law_colours_are_handed_out_in_order(has_notes, n, m - 1);
    } else if n > 0 {
        law_colours_are_handed_out_in_order(has_notes, n - 1, n);
    }
}

/// Putting a track in a colour puts all its notes and events in that colour and changes
/// nothing else of any of them.
pub proof fn law_a_colour_changes_nothing_else(
    painted: MidiTrack,
    track: MidiTrack,
    color: nat,
    k: int,
)
    requires
        painted.is_colored(track, color),
        color <= usize::MAX,
        0 <= k,
    ensures
        painted.track_color_id == color,
        painted.notes@.len() == track.notes@.len(),
        painted.events@.len() == track.events@.len(),
        k < track.notes@.len() ==> {
            let (is, was) = (painted.notes@[k], track.notes@[k]);
            &&& is.track_color_id == color
            &&& is.start == was.start && is.end == was.end && is.duration == was.duration
            &&& is.note == was.note && is.velocity == was.velocity && is.channel == was.channel
            &&& is.track_id == was.track_id
        },
        k < track.events@.len() ==> {
            let (is, was) = (painted.events@[k], track.events@[k]);
            &&& is.track_color_id == color
            &&& is.channel == was.channel && is.track_id == was.track_id && is.message
                == was.message
        },
        painted.track_id == track.track_id,
        painted.programs@ == track.programs@,
        painted.melodic() == track.melodic(),
        painted.only_drums() == track.only_drums(),
{
}

/// No track ends after the song does, and some track ends with it, each by the last note
/// of its list.
pub proof fn law_the_song_ends_with_a_note(tracks: Seq<MidiTrack>, n: int, k: int)
    requires
        0 <= k < n <= tracks.len(),
    ensures
        tracks[k].notes@.len() > 0 ==> tracks[k].notes@.last().start
            + tracks[k].notes@.last().duration <= last_end(tracks, n),
        last_end(tracks, n) == 0 || exists|j: int|
            0 <= j < n && (#[trigger] tracks[j]).notes@.len() > 0 && tracks[j].notes@.last().start
                + tracks[j].notes@.last().duration == last_end(tracks, n),
        last_end(tracks, 0) == 0,
    decreases n,
{
    if n > 1 {
        law_the_song_ends_with_a_note(tracks, n - 1, if k < n - 1 {
            k
        } else {
            0
        });
        if last_end(tracks, n) == last_end(tracks, n - 1) && last_end(tracks, n) != 0 {
            let j = choose|j: int|
                0 <= j < n - 1 && (#[trigger] tracks[j]).notes@.len() > 0
                    && tracks[j].notes@.last().start + tracks[j].notes@.last().duration == last_end(
                    tracks,
                    n - 1,
                );
            assert(tracks[j].notes@.len() > 0);
        }
    }
    let last = tracks[n - 1];
    assert(last.notes@.len() >= 0);
    reveal_with_fuel(last_end, 2);
}

/// Which files cannot be read, and why: bytes that make no sense, files that count in
/// frames, and files without tracks. All others have a metre.
pub proof fn law_why_a_file_cannot_be_read(
    outline: Option<(Option<u16>, Seq<Seq<OutlineEvent>>)>,
    reading: Result<Metre, String>,
)
    requires
        reads_as(outline, reading),
    ensures
        outline is None ==> reading is Err && reading->Err_0@ == "Midi Parsing Error (midly lib)"@,
        outline is Some && (outline->0).0 is None ==> reading is Err && reading->Err_0@
            == "Midi With Timecode Timing, Not Supported!"@,
        outline is Some && (outline->0).0 is Some && (outline->0).1.len() == 0 ==> reading is Err
            && reading->Err_0@ == "Midi File Has No Tracks"@,
        outline is Some && (outline->0).0 is Some && (outline->0).1.len() > 0 ==> reading is Ok
            && reading->Ok_0.pulses_per_quarter == (outline->0).0->0
            && reading->Ok_0.time_signature == metre((outline->0).1),
{
}

/// A track is percussion when it has drum hits and nothing else, and a player can be
/// handed it when it has notes and is not percussion. The key of a message is that of a
/// note beginning or ending, and of no other message.
pub proof fn law_which_tracks_are_melodic(track: MidiTrack, key: u8, vel: u8, message: MidiMessage)
    ensures
        track.only_drums() <==> track.has_drums && !track.has_other_than_drums,
        track.melodic() <==> track.notes@.len() > 0 && (!track.has_drums
            || track.has_other_than_drums),
        (MidiMessage::NoteOn { key, vel }).key() == Some(key),
        (MidiMessage::NoteOff { key, vel }).key() == Some(key),
        message.key() is Some ==> message is NoteOn || message is NoteOff,
{
}

/// A bar is laid out as long as there is none, or the last one begins no later than the
/// last note ends.
pub proof fn law_when_the_grid_is_done(grid: MeasureGrid, last: u64)
    ensures
        grid.measures@.len() == 0 ==> grid.is_open(),
        grid.measures@.len() > 0 && grid.measures@.last() == last ==> (grid.is_open() <==> last
            <= grid.last_note_end),
{
}

/// A track counts as having notes when it has at least one.
pub proof fn law_which_tracks_have_notes(tracks: Seq<MidiTrack>, n: int)
    requires
        0 <= n < tracks.len(),
    ensures
        with_notes(tracks).len() == tracks.len(),
        with_notes(tracks)[n] <==> tracks[n].notes@.len() >= 1,
{
}

} // verus!
