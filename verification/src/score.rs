//! A whole song, engraved: noteheads, stems, bar lines.
use vstd::prelude::*;

use crate::arith::product_le;
use crate::engrave::{
    alteration, detect_fifths, is_best_fit, key_alterations, law_spelling_sounds_the_pitch,
    pitch_at, spell, spelling, Accidental, Head, Staff, Staves,
};
use crate::midi_file::{MidiNote, Quarters};
use crate::order::{before, in_key_order, lemma_in_key_order, sort_positions};

verus! {

/// Half a second: the beat where the bar grid says nothing.
pub const DEFAULT_BEAT: u64 = 500_000_000;

/// Ten milliseconds: bars no longer than this are noise, and no beat is shorter.
pub const SHORTEST_BEAT: u64 = 10_000_000;

/// Thirty milliseconds: notes struck closer together were meant as one chord.
pub const CHORD_WINDOW: u64 = 30_000_000;

/// Four seconds: how far bar lines run on past the last note.
pub const BARLINE_TAIL: u64 = 4_000_000_000;

/// The percussion channel.
pub const DRUM_CHANNEL: u8 = 9;

/// Middle C, where the staves of the two hands meet.
pub const MIDDLE_C: u8 = 60;

/// One notehead, already placed on the staff.
#[derive(Debug, Clone, Copy, PartialEq, Eq, Structural)]
pub struct SheetNote {
    pub start: u64,
    pub end: u64,
    /// Diatonic staff position: 0 is middle C, +1 per letter upwards. Even
    /// numbers land on lines, on both staves.
    pub step: i32,
    pub accidental: Option<Accidental>,
    pub head: Head,
    pub dotted: bool,
    pub staff: Staff,
    /// Noteheads a second apart cannot share a stem side, so the upper one of
    /// the pair is nudged right by one notehead width.
    pub head_shift: bool,
}

/// The stem shared by every notehead struck at the same instant on one staff.
#[derive(Debug, Clone, Copy, PartialEq, Eq, Structural)]
pub struct SheetStem {
    pub start: u64,
    pub staff: Staff,
    pub down: bool,
    /// Position of the notehead the stem grows out of.
    pub base_step: i32,
    /// Where the stem ends: 3.5 spaces, or 7 positions, past the far notehead.
    pub tip_step: i32,
    /// Set when the attached notehead is the shifted one of a second.
    pub base_shifted: bool,
    /// 0 for a quarter or longer, 1 for a quaver, 2 for a semiquaver.
    pub flags: u8,
}

/// A whole song, engraved.
#[derive(Debug, Clone)]
pub struct Score {
    pub notes: Vec<SheetNote>,
    pub stems: Vec<SheetStem>,
    /// Key signature as a count of sharps (positive) or flats (negative).
    pub fifths: i32,
    pub staves: Staves,
    /// Bar lines, in nanoseconds.
    pub barlines: Vec<u64>,
    /// Highest and lowest staff position anything in the song reaches, stem
    /// tips included.
    pub top_step: i32,
    pub bottom_step: i32,
}

/// A written note value: its head, its dot, and the flags of its stem.
pub type NoteValue = (Head, bool, u8);

impl Score {
    /// Whether this is the score of a song without melodic notes.
    pub open spec fn is_blank(self) -> bool {
        &&& self.notes@.len() == 0
        &&& self.stems@.len() == 0
        &&& self.fifths == 0
        &&& self.staves == Staves::Grand
        &&& self.barlines@.len() == 0
        &&& self.top_step == 0
        &&& self.bottom_step == 0
    }
}

impl Default for Score {
    fn default() -> (score: Self)
        ensures
            score.is_blank(),
    {
        Score {
            notes: Vec::new(),
            stems: Vec::new(),
            fifths: 0,
            staves: Staves::Grand,
            barlines: Vec::new(),
            top_step: 0,
            bottom_step: 0,
        }
    }
}

/// Staff position of the `n`-th sharp of a signature on the treble staff.
pub open spec fn sharp_sign_step(n: int) -> int {
    seq![10int, 7, 11, 8, 5, 9, 6][n]
}

/// Staff position of the `n`-th flat of a signature on the treble staff.
pub open spec fn flat_sign_step(n: int) -> int {
    seq![6int, 9, 5, 8, 4, 7, 3][n]
}

/// How many signs a signature prints: there are seven letters to alter.
pub open spec fn sign_count(fifths: int) -> int {
    if fifths > 7 || fifths < -7 {
        7
    } else if fifths > 0 {
        fifths
    } else {
        -fifths
    }
}

impl Score {
    /// Where the key-signature accidentals go on the given staff, and which
    /// symbol to draw, in writing order. The bass staff repeats the treble one
    /// two octaves lower.
    pub fn key_signature(&self, staff: Staff) -> (signs: Vec<(i32, Accidental)>)
        ensures
            signs@.len() == sign_count(self.fifths as int),
            forall|n: int|
                0 <= n < signs@.len() ==> (#[trigger] signs@[n]).0 == (if self.fifths > 0 {
                    sharp_sign_step(n)
                } else {
                    flat_sign_step(n)
                }) - (if staff == Staff::Treble {
                    0int
                } else {
                    14
                }),
            forall|n: int|
                0 <= n < signs@.len() ==> (#[trigger] signs@[n]).1 == (if self.fifths > 0 {
                    Accidental::Sharp
                } else {
                    Accidental::Flat
                }),
    {
        let drop: i32 = if staff == Staff::Treble {
            0
        } else {
            14
        };
        let (steps, sign): ([i32; 7], Accidental) = if self.fifths > 0 {
            ([10, 7, 11, 8, 5, 9, 6], Accidental::Sharp)
        } else {
            ([6, 9, 5, 8, 4, 7, 3], Accidental::Flat)
        };
        let count: usize = if self.fifths > 7 || self.fifths < -7 {
            7
        } else if self.fifths > 0 {
            self.fifths as usize
        } else {
            (-self.fifths) as usize
        };
        let mut signs: Vec<(i32, Accidental)> = Vec::new();
        let mut n: usize = 0;
        while n < count
            invariant
                n <= count <= 7,
                signs@.len() == n,
                drop == 0 || drop == 14,
                forall|m: int| 0 <= m < 7 ==> 0 <= #[trigger] steps@[m] <= 11,
                forall|m: int|
                    0 <= m < n ==> (#[trigger] signs@[m]).0 == steps@[m] - drop && signs@[m].1
                        == sign,
            decreases count - n,
        {
            assert(0 <= steps@[n as int] <= 11);
            signs.push((steps[n] - drop, sign));
            n = n + 1;
        }
        signs
    }
}

/// How many bars have begun by time `t`.
pub open spec fn bars_begun(measures: Seq<u64>, t: int) -> nat
    decreases measures.len(),
{
    if measures.len() == 0 {
        0
    } else {
        bars_begun(measures.drop_last(), t) + if measures.last() <= t {
            1nat
        } else {
            0nat
        }
    }
}

/// The bar that is running at time `t`; the last whole one after the grid ends.
pub open spec fn bar_at(measures: Seq<u64>, t: int) -> int {
    let begun = bars_begun(measures, t) as int;
    if begun >= measures.len() {
        measures.len() - 2
    } else if begun > 0 {
        begun - 1
    } else {
        0
    }
}

/// Length of a quarter note at time `t`, as a fraction of nanoseconds: a bar's
/// length over its number of quarters, counting at least one of them.
pub open spec fn beat_of_bar(measures: Seq<u64>, quarters: Quarters, t: int) -> (int, int) {
    if measures.len() < 2 {
        (DEFAULT_BEAT as int, 1)
    } else {
        let bar = bar_at(measures, t);
        let length = measures[bar + 1] - measures[bar];
        if length <= SHORTEST_BEAT {
            (DEFAULT_BEAT as int, 1)
        } else if quarters.num < quarters.den {
            (length, 1)
        } else {
            (length * quarters.den, quarters.num as int)
        }
    }
}

/// The beat by which note lengths are read: never under ten milliseconds.
pub open spec fn beat(measures: Seq<u64>, quarters: Quarters, t: int) -> (int, int) {
    let (ns, parts) = beat_of_bar(measures, quarters, t);
    if ns < SHORTEST_BEAT * parts {
        (SHORTEST_BEAT as int, 1)
    } else {
        (ns, parts)
    }
}

/// The written values, shortest first, in eighths of a quarter note.
pub open spec fn value_eighths(value: int) -> int {
    seq![2int, 3, 4, 6, 8, 12, 16, 24, 32][value]
}

/// How a written value looks: every second one is dotted.
pub open spec fn value_look(value: int) -> NoteValue {
    (
        if value >= 8 {
            Head::Whole
        } else if value >= 6 {
            Head::Half
        } else {
            Head::Black
        },
        value % 2 == 1,
        if value < 2 {
            2
        } else if value < 4 {
            1
        } else {
            0
        },
    )
}

/// The first value from `value` on whose midpoint to the next one, on a log
/// scale, lies at or above a length of `a / b` eighths.
pub open spec fn value_from(a: int, b: int, value: int) -> int
    decreases 8 - value,
{
    if value >= 8 {
        8
    } else if a * a <= (value_eighths(value) * b) * (value_eighths(value + 1) * b) {
        value
    } else {
        value_from(a, b, value + 1)
    }
}

/// The written value of a note that sounds for `duration` where a quarter lasts
/// `beat.0 / beat.1`.
///
/// MIDI files are performances: a quarter note is usually held for 80 to 95 per
/// cent of its written length. So the sounded length is stretched by 12 per cent
/// before it is matched to the nearest written value on a log scale, where a
/// dotted quaver sits midway between a quaver and a crotchet.
pub open spec fn written_value(duration: int, beat: (int, int)) -> int {
    value_from(224 * (duration * beat.1), 25 * beat.0, 0)
}

/// Counts the bars that have begun by time `t`.
fn count_begun(measures: &[u64], t: u64) -> (begun: usize)
    ensures
        begun == bars_begun(measures@, t as int),
        begun <= measures@.len(),
{
    let mut begun: usize = 0;
    let mut n: usize = 0;
    proof {
        assert(measures@.take(0) =~= Seq::<u64>::empty());
    }
    while n < measures.len()
        invariant
            n <= measures@.len(),
            begun <= n,
            begun == bars_begun(measures@.take(n as int), t as int),
        decreases measures@.len() - n,
    {
        proof {
            assert(measures@.take(n + 1).drop_last() =~= measures@.take(n as int));
        }
        if measures[n] <= t {
            begun = begun + 1;
        }
        n = n + 1;
    }
    proof {
        assert(measures@.take(n as int) =~= measures@);
    }
    begun
}

/// Length of a quarter note at `t`, read off the bar grid rather than the tempo
/// map, so tempo changes and ritardandos are followed for free.
fn quarter_at(measures: &[u64], quarters: Quarters, t: u64) -> (length: (u128, u128))
    requires
        quarters.den > 0,
    ensures
        length.0 == beat(measures@, quarters, t as int).0,
        length.1 == beat(measures@, quarters, t as int).1,
        0 < length.0 <= 0xffff_ffff_ffff_ffff_0000_0000,
        0 < length.1 <= 0xffff_ffff,
{
    if measures.len() < 2 {
        return (DEFAULT_BEAT as u128, 1);
    }
    let begun: usize = count_begun(measures, t);
    let bar: usize = if begun >= measures.len() {
        measures.len() - 2
    } else if begun > 0 {
        begun - 1
    } else {
        0
    };
    if measures[bar + 1] <= measures[bar] || measures[bar + 1] - measures[bar] <= SHORTEST_BEAT {
        return (DEFAULT_BEAT as u128, 1);
    }
    let length: u128 = (measures[bar + 1] - measures[bar]) as u128;
    if quarters.num < quarters.den {
        return (length, 1);
    }
    let den: u128 = quarters.den as u128;
    let parts: u128 = quarters.num as u128;
    assert(length <= length * den <= 0xffff_ffff_ffff_ffff_0000_0000) by (nonlinear_arith)
        requires
            0 <= length <= 0xffff_ffff_ffff_ffff,
            1 <= den <= 0xffff_ffff,
    ;
    let scaled: u128 = length * den;
    assert(length * den == scaled);
    if scaled < SHORTEST_BEAT as u128 * parts {
        (SHORTEST_BEAT as u128, 1)
    } else {
        (scaled, parts)
    }
}

fn eighths_of(value: usize) -> (eighths: u128)
    requires
        value < 9,
    ensures
        eighths == value_eighths(value as int),
        2 <= eighths <= 32,
{
    match value {
        0 => 2,
        1 => 3,
        2 => 4,
        3 => 6,
        4 => 8,
        5 => 12,
        6 => 16,
        7 => 24,
        _ => 32,
    }
}

/// The written value nearest to a length of `a / b` eighths.
fn nearest_value(a: u128, b: u128) -> (value: usize)
    requires
        b <= 25 * 0xffff_ffff_ffff_ffff_0000_0000,
    ensures
        value == value_from(a as int, b as int, 0),
        value <= 8,
{
    let mut value: usize = 0;
    while value < 8
        invariant
            value <= 8,
            b <= 25 * 0xffff_ffff_ffff_ffff_0000_0000,
            value_from(a as int, b as int, 0) == value_from(a as int, b as int, value as int),
        decreases 8 - value,
    {
        let near: u128 = eighths_of(value);
        let far: u128 = eighths_of(value + 1);
        assert(0 <= near * b <= 32 * b && 0 <= far * b <= 32 * b) by (nonlinear_arith)
            requires
                0 <= near <= 32,
                0 <= far <= 32,
                b >= 0,
        ;
        if product_le(a, a, near * b, far * b) {
            return value;
        }
        value = value + 1;
    }
    value
}

/// The written value for a sounded duration.
fn notated_value(duration: u64, beat: (u128, u128)) -> (look: NoteValue)
    requires
        beat.0 <= 0xffff_ffff_ffff_ffff_0000_0000,
        beat.1 <= 0xffff_ffff,
    ensures
        look == value_look(written_value(duration as int, (beat.0 as int, beat.1 as int))),
{
    let parts: u128 = beat.1;
    let span: u128 = duration as u128;
    assert(0 <= span * parts <= 0xffff_ffff_ffff_ffff * 0xffff_ffff) by (nonlinear_arith)
        requires
            0 <= span <= 0xffff_ffff_ffff_ffff,
            0 <= parts <= 0xffff_ffff,
    ;
    let value: usize = nearest_value(224 * (span * parts), 25 * beat.0);
    let head = if value >= 8 {
        Head::Whole
    } else if value >= 6 {
        Head::Half
    } else {
        Head::Black
    };
    let flags: u8 = if value < 2 {
        2
    } else if value < 4 {
        1
    } else {
        0
    };
    (head, value % 2 == 1, flags)
}

/// How far a length of `a / b` eighths is from a written value, as a ratio of
/// at least one: the longer over the shorter.
pub open spec fn spread(a: int, b: int, value: int) -> (int, int) {
    let written = value_eighths(value) * b;
    if a >= written {
        (a, written)
    } else {
        (written, a)
    }
}

/// Of all written values the chosen one is nearest on a log scale: no other has
/// a smaller ratio to the stretched length.
pub proof fn law_value_is_nearest(duration: int, beat: (int, int), other: int)
    requires
        duration > 0,
        beat.0 > 0,
        beat.1 > 0,
        0 <= other < 9,
    ensures
        ({
            let a = 224 * (duration * beat.1);
            let b = 25 * beat.0;
            let chosen = spread(a, b, written_value(duration, beat));
            let rival = spread(a, b, other);
            chosen.0 * rival.1 <= rival.0 * chosen.1
        }),
{
    let a = 224 * (duration * beat.1);
    let b = 25 * beat.0;
    assert(a > 0) by (nonlinear_arith)
        requires
            a == 224 * (duration * beat.1),
            duration > 0,
            beat.1 > 0,
    ;
    lemma_value_from(a, b, 0);
    lemma_nearest(a, b, written_value(duration, beat), other);
}

/// The chosen value is the first whose upper midpoint reaches the length.
proof fn lemma_value_from(a: int, b: int, value: int)
    requires
        0 <= value <= 8,
    ensures
        value <= value_from(a, b, value) <= 8,
        forall|v: int|
            value <= v < value_from(a, b, value) ==> a * a > #[trigger] midpoint_square(b, v),
        value_from(a, b, value) < 8 ==> a * a <= midpoint_square(b, value_from(a, b, value)),
    decreases 8 - value,
{
    if value < 8 {
        lemma_value_from(a, b, value + 1);
    }
}

/// The square of the midpoint, on a log scale, of a written value and the next.
spec fn midpoint_square(b: int, value: int) -> int {
    (value_eighths(value) * b) * (value_eighths(value + 1) * b)
}

proof fn lemma_nearest(a: int, b: int, chosen: int, other: int)
    requires
        a > 0,
        b > 0,
        0 <= chosen <= 8,
        0 <= other <= 8,
        forall|v: int| 0 <= v < chosen ==> a * a > #[trigger] midpoint_square(b, v),
        chosen < 8 ==> a * a <= midpoint_square(b, chosen),
    ensures
        spread(a, b, chosen).0 * spread(a, b, other).1 <= spread(a, b, other).0 * spread(
            a,
            b,
            chosen,
        ).1,
{
    let c = value_eighths(chosen) * b;
    let o = value_eighths(other) * b;
    if other > chosen {
        let n = value_eighths(chosen + 1) * b;
        assert(a * a <= midpoint_square(b, chosen));
        assert(0 < c <= n <= o) by (nonlinear_arith)
            requires
                c == value_eighths(chosen) * b,
                n == value_eighths(chosen + 1) * b,
                o == value_eighths(other) * b,
                0 < value_eighths(chosen) <= value_eighths(chosen + 1) <= value_eighths(other),
                b > 0,
        ;
        assert(a * a <= c * o && a <= o) by (nonlinear_arith)
            requires
                a * a <= c * n,
                0 < c <= n <= o,
                a > 0,
        ;
        if a >= c {
            assert(spread(a, b, chosen) == (a, c));
            if a == o {
                assert(a * o <= a * c) by (nonlinear_arith)
                    requires
                        a * a <= c * o,
                        a == o,
                ;
            }
        } else {
            assert(c * a <= o * a) by (nonlinear_arith)
                requires
                    c <= o,
                    a > 0,
            ;
        }
    } else if other < chosen {
        let p = value_eighths(chosen - 1) * b;
        assert(a * a > midpoint_square(b, chosen - 1));
        assert(0 < o <= p <= c) by (nonlinear_arith)
            requires
                c == value_eighths(chosen) * b,
                p == value_eighths(chosen - 1) * b,
                o == value_eighths(other) * b,
                0 < value_eighths(other) <= value_eighths(chosen - 1) <= value_eighths(chosen),
                b > 0,
        ;
        assert(a * a >= o * c && a >= o) by (nonlinear_arith)
            requires
                a * a > p * c,
                0 < o <= p <= c,
                a > 0,
        ;
        if a >= c {
            assert(a * o <= a * c) by (nonlinear_arith)
                requires
                    o <= c,
                    a > 0,
            ;
        } else {
            assert(spread(a, b, chosen) == (c, a));
            assert(spread(a, b, other) == (a, o));
            assert(c * o == o * c) by (nonlinear_arith);
        }
    }
}

/// The keys by which notes are ordered: by start, then by pitch.
pub open spec fn note_keys(notes: Seq<MidiNote>) -> Seq<i128> {
    notes.map_values(|n: MidiNote| (n.start * 256 + n.note) as i128)
}

/// The positions of the notes that are not percussion.
pub open spec fn melodic_positions(notes: Seq<MidiNote>) -> Seq<usize>
    decreases notes.len(),
{
    if notes.len() == 0 {
        Seq::empty()
    } else if notes.last().channel != DRUM_CHANNEL {
        melodic_positions(notes.drop_last()).push((notes.len() - 1) as usize)
    } else {
        melodic_positions(notes.drop_last())
    }
}

/// The notes that are engraved: percussion left out, in order of start and then
/// of pitch, ties in list order.
pub open spec fn melody(notes: Seq<MidiNote>) -> Seq<MidiNote> {
    in_key_order(note_keys(notes), melodic_positions(notes)).map_values(|n: usize| notes[n as int])
}

pub open spec fn pitches(melody: Seq<MidiNote>) -> Seq<u8> {
    melody.map_values(|n: MidiNote| n.note)
}

/// How many notes lie below middle C.
pub open spec fn low_notes(melody: Seq<MidiNote>) -> nat
    decreases melody.len(),
{
    if melody.len() == 0 {
        0
    } else {
        low_notes(melody.drop_last()) + if melody.last().note < MIDDLE_C {
            1nat
        } else {
            0nat
        }
    }
}

/// The staves a song actually uses: a staff is printed unless fewer than an
/// eighth of the notes would sit on it.
pub open spec fn staves_for(melody: Seq<MidiNote>) -> Staves {
    let below = low_notes(melody);
    if below * 8 < melody.len() {
        Staves::Treble
    } else if (melody.len() - below) * 8 < melody.len() {
        Staves::Bass
    } else {
        Staves::Grand
    }
}

/// The staff a pitch is written on.
pub open spec fn staff_for(staves: Staves, midi: u8) -> Staff {
    match staves {
        Staves::Treble => Staff::Treble,
        Staves::Bass => Staff::Bass,
        Staves::Grand => if midi >= MIDDLE_C {
            Staff::Treble
        } else {
            Staff::Bass
        },
    }
}

/// The alterations of a key signature, letter by letter.
pub open spec fn signature(fifths: int) -> Seq<i32> {
    Seq::new(7, |letter: int| alteration(fifths, letter) as i32)
}

/// What a song is engraved with.
pub struct Layout {
    pub fifths: i32,
    pub staves: Staves,
    pub quarters: Quarters,
}

/// One note on its staff, before the noteheads of its chord are told apart.
pub open spec fn placed(n: MidiNote, layout: Layout, measures: Seq<u64>) -> SheetNote {
    let look = value_look(
        written_value(n.duration as int, beat(measures, layout.quarters, n.start as int)),
    );
    let spelled = spelling(n.note as int, signature(layout.fifths as int));
    SheetNote {
        start: n.start,
        end: (n.start + n.duration) as u64,
        step: spelled.0 as i32,
        accidental: spelled.1,
        head: look.0,
        dotted: look.1,
        staff: staff_for(layout.staves, n.note),
        head_shift: false,
    }
}

/// All notes on their staves.
pub open spec fn placed_notes(
    melody: Seq<MidiNote>,
    layout: Layout,
    measures: Seq<u64>,
) -> Seq<SheetNote> {
    melody.map_values(|n: MidiNote| placed(n, layout, measures))
}

/// Where the chord that note `i` opens ends, counted from note `j` on.
pub open spec fn chord_end(notes: Seq<SheetNote>, i: int, j: int) -> int
    decreases notes.len() - j,
{
    if 0 <= j < notes.len() && notes[j].start - notes[i].start < CHORD_WINDOW {
        chord_end(notes, i, j + 1)
    } else {
        j
    }
}

/// The notes `i..j` that are written on one staff, in list order.
pub open spec fn on_staff(notes: Seq<SheetNote>, i: int, j: int, staff: Staff) -> Seq<usize>
    decreases j - i,
{
    if j <= i {
        Seq::empty()
    } else if notes[j - 1].staff == staff {
        on_staff(notes, i, j - 1, staff).push((j - 1) as usize)
    } else {
        on_staff(notes, i, j - 1, staff)
    }
}

pub open spec fn step_keys(notes: Seq<SheetNote>) -> Seq<i128> {
    notes.map_values(|n: SheetNote| n.step as i128)
}

/// The noteheads of a chord on one staff, lowest first.
pub open spec fn stacked(notes: Seq<SheetNote>, i: int, j: int, staff: Staff) -> Seq<usize> {
    in_key_order(step_keys(notes), on_staff(notes, i, j, staff))
}

/// Whether the `n`-th head of a stack is nudged: it is a second above the one
/// below it, and that one was not nudged itself.
pub open spec fn nudged(notes: Seq<SheetNote>, stack: Seq<usize>, n: int) -> bool
    decreases n,
{
    n > 0 && notes[stack[n - 1] as int].step == notes[stack[n] as int].step - 1 && !nudged(
        notes,
        stack,
        n - 1,
    )
}

/// Whether note `k` of the chord `i..j` is nudged within its stack.
pub open spec fn chord_shift(notes: Seq<SheetNote>, i: int, j: int, k: int) -> bool {
    let stack = stacked(notes, i, j, notes[k].staff);
    exists|n: int| 0 <= n < stack.len() && #[trigger] stack[n] == k && nudged(notes, stack, n)
}

/// The nudges of all notes from note `i` on, chord by chord.
pub open spec fn shifts_from(notes: Seq<SheetNote>, i: int) -> Seq<bool>
    decreases notes.len() - i,
{
    let j = chord_end(notes, i, i + 1);
    if i < 0 || j <= i || j > notes.len() {
        Seq::empty()
    } else {
        Seq::new((j - i) as nat, |d: int| chord_shift(notes, i, j, i + d)) + shifts_from(notes, j)
    }
}

/// How far `a` is from `b`.
pub open spec fn distance(a: int, b: int) -> int {
    if a >= b {
        a - b
    } else {
        b - a
    }
}

/// The stem that the chord `i..j` gets on one staff.
///
/// A chord whose lowest note is a whole note has none. The head furthest from
/// the middle line decides which way the stem points, as in real engraving, and
/// the lowest head's length decides the flags.
pub open spec fn stem_of(
    notes: Seq<SheetNote>,
    measures: Seq<u64>,
    quarters: Quarters,
    i: int,
    j: int,
    staff: Staff,
) -> Option<SheetStem> {
    let stack = stacked(notes, i, j, staff);
    let low = notes[stack[0] as int];
    let high = notes[stack.last() as int];
    let middle = staff.middle_line();
    let down = distance(high.step as int, middle) >= distance(middle, low.step as int);
    if stack.len() == 0 || low.head == Head::Whole {
        None
    } else {
        Some(
            SheetStem {
                start: notes[i].start,
                staff,
                down,
                base_step: if down {
                    high.step
                } else {
                    low.step
                },
                tip_step: if down {
                    (low.step - 7) as i32
                } else {
                    (high.step + 7) as i32
                },
                base_shifted: down && nudged(notes, stack, stack.len() - 1),
                flags: value_look(
                    written_value(
                        low.end - low.start,
                        beat(measures, quarters, notes[i].start as int),
                    ),
                ).2,
            },
        )
    }
}

/// The one element of an option, or none.
pub open spec fn option_seq<A>(a: Option<A>) -> Seq<A> {
    match a {
        Some(x) => seq![x],
        None => Seq::empty(),
    }
}

/// The stems of all chords from note `i` on: the treble stem of a chord, then
/// its bass stem.
pub open spec fn stems_from(
    notes: Seq<SheetNote>,
    measures: Seq<u64>,
    quarters: Quarters,
    i: int,
) -> Seq<SheetStem>
    decreases notes.len() - i,
{
    let j = chord_end(notes, i, i + 1);
    if i < 0 || j <= i || j > notes.len() {
        Seq::empty()
    } else {
        option_seq(stem_of(notes, measures, quarters, i, j, Staff::Treble)) + option_seq(
            stem_of(notes, measures, quarters, i, j, Staff::Bass),
        ) + stems_from(notes, measures, quarters, j)
    }
}

/// The notes with their nudges.
pub open spec fn with_shifts(notes: Seq<SheetNote>) -> Seq<SheetNote> {
    Seq::new(
        notes.len(),
        |k: int| SheetNote { head_shift: shifts_from(notes, 0)[k], ..notes[k] },
    )
}

/// Whether `bars` are the bar lines from the start of the grid up to `limit`.
pub open spec fn is_leading(bars: Seq<u64>, measures: Seq<u64>, limit: int) -> bool {
    &&& bars.len() <= measures.len()
    &&& bars == measures.take(bars.len() as int)
    &&& forall|n: int| 0 <= n < bars.len() ==> #[trigger] bars[n] <= limit
    &&& bars.len() < measures.len() ==> measures[bars.len() as int] > limit
}

/// Whether `step` is a position that a notehead or a stem tip reaches.
pub open spec fn reached(notes: Seq<SheetNote>, stems: Seq<SheetStem>, step: int) -> bool {
    (exists|n: int| 0 <= n < notes.len() && (#[trigger] notes[n]).step == step) || (exists|n: int|
        0 <= n < stems.len() && (#[trigger] stems[n]).tip_step == step)
}

/// Whether nothing reaches above `top` or below `bottom`.
pub open spec fn spans(
    notes: Seq<SheetNote>,
    stems: Seq<SheetStem>,
    top: int,
    bottom: int,
) -> bool {
    &&& forall|n: int| 0 <= n < notes.len() ==> bottom <= (#[trigger] notes[n]).step <= top
    &&& forall|n: int| 0 <= n < stems.len() ==> bottom <= (#[trigger] stems[n]).tip_step <= top
}

impl Score {
    pub open spec fn layout(self, quarters: Quarters) -> Layout {
        Layout { fifths: self.fifths, staves: self.staves, quarters }
    }

    /// Whether this is the score of `notes` on the bar grid `measures`.
    pub open spec fn engraves(
        self,
        notes: Seq<MidiNote>,
        measures: Seq<u64>,
        quarters: Quarters,
    ) -> bool {
        let tune = melody(notes);
        if tune.len() == 0 {
            self.is_blank()
        } else {
            let base = placed_notes(tune, self.layout(quarters), measures);
            &&& is_best_fit(pitches(tune), self.fifths as int)
            &&& self.staves == staves_for(tune)
            &&& self.notes@ == with_shifts(base)
            &&& self.stems@ == stems_from(base, measures, quarters, 0)
            &&& is_leading(self.barlines@, measures, base.last().end + BARLINE_TAIL)
            &&& spans(self.notes@, self.stems@, self.top_step as int, self.bottom_step as int)
            &&& reached(self.notes@, self.stems@, self.top_step as int)
            &&& reached(self.notes@, self.stems@, self.bottom_step as int)
        }
    }
}

/// The chord that note `i` opens holds that note, and lies within the list.
proof fn lemma_chord_end(notes: Seq<SheetNote>, i: int, j: int)
    requires
        0 <= i < j <= notes.len(),
    ensures
        j <= chord_end(notes, i, j) <= notes.len(),
    decreases notes.len() - j,
{
    if notes[j as int].start - notes[i].start < CHORD_WINDOW && j < notes.len() {
        lemma_chord_end(notes, i, j + 1);
    }
}

/// The notes of a chord on one staff are listed once each, in list order.
proof fn lemma_on_staff(notes: Seq<SheetNote>, i: int, j: int, staff: Staff)
    requires
        0 <= i <= j <= notes.len() <= usize::MAX,
    ensures
        forall|m: int|
            0 <= m < on_staff(notes, i, j, staff).len() ==> i <= #[trigger] on_staff(
                notes,
                i,
                j,
                staff,
            )[m] < j,
        forall|m: int, n: int|
            0 <= m < n < on_staff(notes, i, j, staff).len() ==> #[trigger] on_staff(
                notes,
                i,
                j,
                staff,
            )[m] < #[trigger] on_staff(notes, i, j, staff)[n],
        forall|k: int|
            i <= k < j ==> (#[trigger] notes[k].staff == staff <==> on_staff(
                notes,
                i,
                j,
                staff,
            ).contains(k as usize)),
    decreases j - i,
{
    if i < j {
        lemma_on_staff(notes, i, j - 1, staff);
        let shorter = on_staff(notes, i, j - 1, staff);
        let whole = on_staff(notes, i, j, staff);
        assert forall|k: int| i <= k < j implies (#[trigger] notes[k].staff == staff
            <==> whole.contains(k as usize)) by {
            if notes[j - 1].staff == staff {
                assert(whole[shorter.len() as int] == (j - 1) as usize);
                if shorter.contains(k as usize) {
                    let m = choose|m: int| 0 <= m < shorter.len() && shorter[m] == k as usize;
                    assert(whole[m] == k as usize);
                }
                if whole.contains(k as usize) && k != j - 1 {
                    let m = choose|m: int| 0 <= m < whole.len() && whole[m] == k as usize;
                    assert(shorter[m] == k as usize);
                }
            }
        }
    }
}

/// A stack holds the chord's heads on its staff, once each.
proof fn lemma_stacked(notes: Seq<SheetNote>, i: int, j: int, staff: Staff)
    requires
        0 <= i <= j <= notes.len() <= usize::MAX,
    ensures
        stacked(notes, i, j, staff).no_duplicates(),
        forall|m: int|
            0 <= m < stacked(notes, i, j, staff).len() ==> i <= #[trigger] stacked(
                notes,
                i,
                j,
                staff,
            )[m] < j,
        forall|m: int|
            0 <= m < stacked(notes, i, j, staff).len() ==> notes[#[trigger] stacked(
                notes,
                i,
                j,
                staff,
            )[m] as int].staff == staff,
        forall|k: int|
            i <= k < j && notes[k].staff == staff ==> #[trigger] stacked(
                notes,
                i,
                j,
                staff,
            ).contains(k as usize),
        forall|m: int, n: int|
            0 <= m < n < stacked(notes, i, j, staff).len() ==> notes[#[trigger] stacked(
                notes,
                i,
                j,
                staff,
            )[m] as int].step <= notes[#[trigger] stacked(notes, i, j, staff)[n] as int].step,
{
    let picked = on_staff(notes, i, j, staff);
    let stack = stacked(notes, i, j, staff);
    let keys = step_keys(notes);
    lemma_on_staff(notes, i, j, staff);
    lemma_in_key_order(keys, picked);
    assert(picked.no_duplicates());
    picked.lemma_multiset_has_no_duplicates();
    stack.lemma_multiset_has_no_duplicates_conv();
    assert forall|m: int| 0 <= m < stack.len() implies i <= #[trigger] stack[m] < j
        && notes[stack[m] as int].staff == staff by {
        assert(stack.contains(stack[m]));
        assert(picked.contains(stack[m]));
        let p = choose|p: int| 0 <= p < picked.len() && picked[p] == stack[m];
        assert(i <= picked[p] < j);
        assert(notes[stack[m] as int].staff == staff <==> picked.contains(stack[m]));
    }
    assert forall|k: int| i <= k < j && notes[k].staff == staff implies #[trigger] stack.contains(
        k as usize,
    ) by {
        assert(picked.contains(k as usize));
    }
    assert forall|m: int, n: int| 0 <= m < n < stack.len() implies notes[#[trigger] stack[m] as int].step
        <= notes[#[trigger] stack[n] as int].step by {
        assert(before(keys, stack[m], stack[n]));
        assert(keys[stack[m] as int] == notes[stack[m] as int].step);
        assert(keys[stack[n] as int] == notes[stack[n] as int].step);
    }
}

/// Every pitch is spelled near the staves.
proof fn lemma_step_is_small(midi: u8, fifths: int)
    ensures
        -100 <= spelling(midi as int, signature(fifths)).0 <= 200,
{
    let alter = signature(fifths);
    law_spelling_sounds_the_pitch(midi, alter);
    let (step, accidental) = spelling(midi as int, alter);
    assert(0 <= step % 7 < 7);
    assert(alter[step % 7] == alteration(fifths, step % 7) as i32);
}

/// Leaves percussion out and puts the other notes in order.
fn melodic(notes: &[MidiNote]) -> (tune: Vec<MidiNote>)
    ensures
        tune@ == melody(notes@),
        forall|n: int|
            0 <= n < tune@.len() ==> exists|m: int|
                0 <= m < notes@.len() && notes@[m] == #[trigger] tune@[n],
{
    let mut keys: Vec<i128> = Vec::new();
    let mut picked: Vec<usize> = Vec::new();
    let mut n: usize = 0;
    proof {
        assert(notes@.take(0) =~= Seq::<MidiNote>::empty());
        assert(note_keys(notes@.take(0)) =~= Seq::<i128>::empty());
    }
    while n < notes.len()
        invariant
            n <= notes@.len(),
            keys@ == note_keys(notes@.take(n as int)),
            picked@ == melodic_positions(notes@.take(n as int)),
            forall|m: int| 0 <= m < picked@.len() ==> #[trigger] picked@[m] < n,
        decreases notes@.len() - n,
    {
        proof {
            assert(notes@.take(n + 1).drop_last() =~= notes@.take(n as int));
            assert(note_keys(notes@.take(n + 1)) =~= note_keys(notes@.take(n as int)).push(
                (notes@[n as int].start * 256 + notes@[n as int].note) as i128,
            ));
        }
        keys.push(notes[n].start as i128 * 256 + notes[n].note as i128);
        if notes[n].channel != DRUM_CHANNEL {
            picked.push(n);
        }
        n = n + 1;
    }
    proof {
        assert(notes@.take(n as int) =~= notes@);
        lemma_in_key_order(keys@, picked@);
    }
    let order: Vec<usize> = sort_positions(&keys, &picked);
    let mut tune: Vec<MidiNote> = Vec::new();
    let mut m: usize = 0;
    proof {
        assert forall|k: int| 0 <= k < order@.len() implies #[trigger] order@[k] < notes@.len() by {
            assert(order@.contains(order@[k]));
            assert(picked@.contains(order@[k]));
        }
    }
    while m < order.len()
        invariant
            m <= order@.len(),
            tune@.len() == m,
            forall|k: int| 0 <= k < order@.len() ==> #[trigger] order@[k] < notes@.len(),
            forall|k: int| 0 <= k < m ==> #[trigger] tune@[k] == notes@[order@[k] as int],
        decreases order@.len() - m,
    {
        tune.push(notes[order[m]]);
        m = m + 1;
    }
    proof {
        assert(tune@ =~= melody(notes@));
        assert forall|k: int| 0 <= k < tune@.len() implies exists|j: int|
            0 <= j < notes@.len() && notes@[j] == #[trigger] tune@[k] by {
            assert(notes@[order@[k] as int] == tune@[k]);
        }
    }
    tune
}

/// Chooses the staves a song is printed on.
fn choose_staves(tune: &Vec<MidiNote>) -> (staves: Staves)
    ensures
        staves == staves_for(tune@),
{
    let mut below: usize = 0;
    let mut n: usize = 0;
    proof {
        assert(tune@.take(0) =~= Seq::<MidiNote>::empty());
    }
    while n < tune.len()
        invariant
            n <= tune@.len(),
            below <= n,
            below == low_notes(tune@.take(n as int)),
        decreases tune@.len() - n,
    {
        proof {
            assert(tune@.take(n + 1).drop_last() =~= tune@.take(n as int));
        }
        if tune[n].note < MIDDLE_C {
            below = below + 1;
        }
        n = n + 1;
    }
    proof {
        assert(tune@.take(n as int) =~= tune@);
    }
    let total: u128 = tune.len() as u128;
    let low: u128 = below as u128;
    if low * 8 < total {
        Staves::Treble
    } else if (total - low) * 8 < total {
        Staves::Bass
    } else {
        Staves::Grand
    }
}

/// Puts one note on its staff.
fn place(n: MidiNote, layout: &Layout, alter: &[i32; 7], measures: &[u64]) -> (note: SheetNote)
    requires
        layout.quarters.den > 0,
        n.start + n.duration <= u64::MAX,
        forall|l: int| 0 <= l < 7 ==> #[trigger] alter@[l] == alteration(layout.fifths as int, l),
    ensures
        note == placed(n, *layout, measures@),
        -100 <= note.step <= 200,
{
    let length = quarter_at(measures, layout.quarters, n.start);
    let (head, dotted, _) = notated_value(n.duration, length);
    let (step, accidental) = spell(n.note, alter);
    proof {
        assert(alter@ =~= signature(layout.fifths as int));
        lemma_step_is_small(n.note, layout.fifths as int);
    }
    let staff = match layout.staves {
        Staves::Treble => Staff::Treble,
        Staves::Bass => Staff::Bass,
        Staves::Grand => if n.note >= MIDDLE_C {
            Staff::Treble
        } else {
            Staff::Bass
        },
    };
    SheetNote {
        start: n.start,
        end: n.start + n.duration,
        step,
        accidental,
        head,
        dotted,
        staff,
        head_shift: false,
    }
}

/// Stacks the heads of a chord on one staff, lowest first.
fn stack_heads(
    notes: &Vec<SheetNote>,
    keys: &Vec<i128>,
    i: usize,
    j: usize,
    staff: Staff,
) -> (stack: Vec<usize>)
    requires
        i <= j <= notes@.len(),
        keys@ == step_keys(notes@),
    ensures
        stack@ == stacked(notes@, i as int, j as int, staff),
{
    let mut picked: Vec<usize> = Vec::new();
    let mut k: usize = i;
    while k < j
        invariant
            i <= k <= j <= notes@.len(),
            picked@ == on_staff(notes@, i as int, k as int, staff),
            forall|m: int| 0 <= m < picked@.len() ==> #[trigger] picked@[m] < k,
        decreases j - k,
    {
        if notes[k].staff == staff {
            picked.push(k);
        }
        k = k + 1;
    }
    sort_positions(keys, &picked)
}

/// Says which heads of a stack are nudged: one of each second, and never two
/// neighbours, or a cluster would walk off to the right a notehead at a time.
fn nudge_heads(notes: &Vec<SheetNote>, stack: &Vec<usize>) -> (flags: Vec<bool>)
    requires
        forall|n: int| 0 <= n < stack@.len() ==> #[trigger] stack@[n] < notes@.len(),
        forall|k: int| 0 <= k < notes@.len() ==> -100 <= (#[trigger] notes@[k]).step <= 200,
    ensures
        flags@.len() == stack@.len(),
        forall|n: int| 0 <= n < stack@.len() ==> #[trigger] flags@[n] == nudged(notes@, stack@, n),
{
    let mut flags: Vec<bool> = Vec::new();
    let mut n: usize = 0;
    while n < stack.len()
        invariant
            n <= stack@.len(),
            flags@.len() == n,
            forall|m: int| 0 <= m < stack@.len() ==> #[trigger] stack@[m] < notes@.len(),
            forall|k: int| 0 <= k < notes@.len() ==> -100 <= (#[trigger] notes@[k]).step <= 200,
            forall|m: int| 0 <= m < n ==> #[trigger] flags@[m] == nudged(notes@, stack@, m),
        decreases stack@.len() - n,
    {
        let nudge = if n == 0 {
            false
        } else {
            assert(-100 <= notes@[stack@[n as int] as int].step <= 200);
            notes[stack[n - 1]].step == notes[stack[n]].step - 1 && !flags[n - 1]
        };
        flags.push(nudge);
        n = n + 1;
    }
    flags
}

fn distance_of(a: i32, b: i32) -> (d: i32)
    requires
        -1000 <= a <= 1000,
        -1000 <= b <= 1000,
    ensures
        d == distance(a as int, b as int),
{
    if a >= b {
        a - b
    } else {
        b - a
    }
}

/// Draws the stem that a chord gets on one staff.
fn draw_stem(
    notes: &Vec<SheetNote>,
    measures: &[u64],
    quarters: Quarters,
    i: usize,
    j: usize,
    staff: Staff,
    stack: &Vec<usize>,
    flags: &Vec<bool>,
) -> (stem: Option<SheetStem>)
    requires
        quarters.den > 0,
        i < j <= notes@.len(),
        forall|k: int| 0 <= k < notes@.len() ==> -100 <= (#[trigger] notes@[k]).step <= 200,
        forall|k: int| 0 <= k < notes@.len() ==> (#[trigger] notes@[k]).start <= notes@[k].end,
        stack@ == stacked(notes@, i as int, j as int, staff),
        flags@.len() == stack@.len(),
        forall|n: int| 0 <= n < stack@.len() ==> #[trigger] flags@[n] == nudged(notes@, stack@, n),
    ensures
        stem == stem_of(notes@, measures@, quarters, i as int, j as int, staff),
        stem is Some ==> -107 <= stem->0.tip_step <= 207,
{
    if stack.len() == 0 {
        return None;
    }
    let count: usize = notes.len();
    proof {
        assert(notes@.len() == count);
        lemma_stacked(notes@, i as int, j as int, staff);
        assert(stack@[0] < notes@.len());
        assert(stack@[stack@.len() - 1] < notes@.len());
    }
    let low = notes[stack[0]];
    let high = notes[stack[stack.len() - 1]];
    if low.head == Head::Whole {
        return None;
    }
    assert(-100 <= low.step <= 200 && -100 <= high.step <= 200);
    let length = quarter_at(measures, quarters, notes[i].start);
    let (_, _, stem_flags) = notated_value(low.end - low.start, length);
    let middle: i32 = staff.middle_line_step();
    let down = distance_of(high.step, middle) >= distance_of(middle, low.step);
    let (base_step, base_shifted, tip_step): (i32, bool, i32) = if down {
        (high.step, flags[stack.len() - 1], low.step - 7)
    } else {
        (low.step, flags[0], high.step + 7)
    };
    Some(
        SheetStem {
            start: notes[i].start,
            staff,
            down,
            base_step,
            tip_step,
            base_shifted,
            flags: stem_flags,
        },
    )
}

/// Lays out the heads of one chord: which of them are nudged, and its stems.
fn lay_out_chord(
    notes: &Vec<SheetNote>,
    keys: &Vec<i128>,
    measures: &[u64],
    quarters: Quarters,
    i: usize,
    j: usize,
) -> (laid: (Vec<bool>, Vec<SheetStem>))
    requires
        quarters.den > 0,
        i < j <= notes@.len(),
        keys@ == step_keys(notes@),
        forall|k: int| 0 <= k < notes@.len() ==> -100 <= (#[trigger] notes@[k]).step <= 200,
        forall|k: int| 0 <= k < notes@.len() ==> (#[trigger] notes@[k]).start <= notes@[k].end,
    ensures
        laid.0@ == Seq::new(
            (j - i) as nat,
            |d: int| chord_shift(notes@, i as int, j as int, i + d),
        ),
        laid.1@ == option_seq(
            stem_of(notes@, measures@, quarters, i as int, j as int, Staff::Treble),
        ) + option_seq(stem_of(notes@, measures@, quarters, i as int, j as int, Staff::Bass)),
        forall|n: int| 0 <= n < laid.1@.len() ==> -107 <= (#[trigger] laid.1@[n]).tip_step <= 207,
{
    let count: usize = notes.len();
    let treble = stack_heads(notes, keys, i, j, Staff::Treble);
    let bass = stack_heads(notes, keys, i, j, Staff::Bass);
    proof {
        assert(notes@.len() == count);
        lemma_stacked(notes@, i as int, j as int, Staff::Treble);
        lemma_stacked(notes@, i as int, j as int, Staff::Bass);
    }
    let treble_flags = nudge_heads(notes, &treble);
    let bass_flags = nudge_heads(notes, &bass);
    let mut shifts: Vec<bool> = Vec::new();
    let mut k: usize = i;
    while k < j
        invariant
            i <= k <= j,
            shifts@.len() == k - i,
            forall|d: int| 0 <= d < shifts@.len() ==> !(#[trigger] shifts@[d]),
        decreases j - k,
    {
        shifts.push(false);
        k = k + 1;
    }
    set_shifts(&mut shifts, i, j, &treble, &treble_flags);
    let ghost after_treble = shifts@;
    set_shifts(&mut shifts, i, j, &bass, &bass_flags);
    proof {
        let (a, b) = (i as int, j as int);
        assert forall|d: int| 0 <= d < b - a implies #[trigger] shifts@[d] == chord_shift(
            notes@,
            a,
            b,
            a + d,
        ) by {
            let key = (a + d) as usize;
            let stack = stacked(notes@, a, b, notes@[a + d].staff);
            assert(stack.contains(key));
            let n = choose|n: int| 0 <= n < stack.len() && stack[n] == key;
            assert(stack[n] == key);
            if notes@[a + d].staff == Staff::Treble {
                assert(!bass@.contains(key)) by {
                    if bass@.contains(key) {
                        let m = choose|m: int| 0 <= m < bass@.len() && bass@[m] == key;
                        assert(notes@[bass@[m] as int].staff == Staff::Bass);
                    }
                }
                assert(after_treble[treble@[n] - i] == treble_flags@[n]);
            } else {
                assert(shifts@[bass@[n] - i] == bass_flags@[n]);
            }
            assert(shifts@[d] == nudged(notes@, stack, n));
        }
        assert(shifts@ =~= Seq::new((b - a) as nat, |d: int| chord_shift(notes@, a, b, a + d)));
    }
    let mut stems: Vec<SheetStem> = Vec::new();
    if let Some(stem) = draw_stem(
        notes,
        measures,
        quarters,
        i,
        j,
        Staff::Treble,
        &treble,
        &treble_flags,
    ) {
        stems.push(stem);
    }
    if let Some(stem) = draw_stem(notes, measures, quarters, i, j, Staff::Bass, &bass, &bass_flags) {
        stems.push(stem);
    }
    (shifts, stems)
}

/// Writes the nudges of one stack into the flags of its chord.
fn set_shifts(
    shifts: &mut Vec<bool>,
    i: usize,
    j: usize,
    stack: &Vec<usize>,
    flags: &Vec<bool>,
)
    requires
        i <= j,
        old(shifts)@.len() == j - i,
        stack@.no_duplicates(),
        flags@.len() == stack@.len(),
        forall|n: int| 0 <= n < stack@.len() ==> i <= #[trigger] stack@[n] < j,
    ensures
        final(shifts)@.len() == old(shifts)@.len(),
        forall|n: int|
            0 <= n < stack@.len() ==> final(shifts)@[#[trigger] stack@[n] - i] == flags@[n],
        forall|d: int|
            0 <= d < j - i && !stack@.contains((i + d) as usize) ==> #[trigger] final(shifts)@[d]
                == old(shifts)@[d],
{
    let mut n: usize = 0;
    while n < stack.len()
        invariant
            i <= j,
            n <= stack@.len(),
            shifts@.len() == j - i,
            stack@.no_duplicates(),
            flags@.len() == stack@.len(),
            forall|m: int| 0 <= m < stack@.len() ==> i <= #[trigger] stack@[m] < j,
            forall|m: int| 0 <= m < n ==> shifts@[#[trigger] stack@[m] - i] == flags@[m],
            forall|d: int|
                0 <= d < j - i && !stack@.contains((i + d) as usize) ==> #[trigger] shifts@[d]
                    == old(shifts)@[d],
        decreases stack@.len() - n,
    {
        let ghost earlier = shifts@;
        let at: usize = stack[n] - i;
        shifts[at] = flags[n];
        proof {
            assert(shifts@ =~= earlier.update(at as int, flags@[n as int]));
            assert(stack@.contains(stack@[n as int]));
            assert forall|m: int| 0 <= m < n + 1 implies shifts@[#[trigger] stack@[m] - i]
                == flags@[m] by {
                if m < n {
                    assert(stack@[m] != stack@[n as int]);
                }
            }
            assert forall|d: int|
                0 <= d < j - i && !stack@.contains((i + d) as usize) implies #[trigger] shifts@[d]
                == old(shifts)@[d] by {
                assert(earlier[d] == old(shifts)@[d]);
                assert(d != at);
            }
        }
        n = n + 1;
    }
}

/// Places all notes of a tune on their staves.
fn place_notes(tune: &Vec<MidiNote>, layout: &Layout, measures: &[u64]) -> (base: Vec<SheetNote>)
    requires
        layout.quarters.den > 0,
        forall|n: int| 0 <= n < tune@.len() ==> (#[trigger] tune@[n]).start + tune@[n].duration <= u64::MAX,
    ensures
        base@ == placed_notes(tune@, *layout, measures@),
        forall|k: int| 0 <= k < base@.len() ==> -100 <= (#[trigger] base@[k]).step <= 200,
        forall|k: int| 0 <= k < base@.len() ==> (#[trigger] base@[k]).start <= base@[k].end,
{
    let alter = key_alterations(layout.fifths);
    let mut base: Vec<SheetNote> = Vec::new();
    let mut n: usize = 0;
    while n < tune.len()
        invariant
            n <= tune@.len(),
            layout.quarters.den > 0,
            forall|m: int|
                0 <= m < tune@.len() ==> (#[trigger] tune@[m]).start + tune@[m].duration <= u64::MAX,
            forall|l: int|
                0 <= l < 7 ==> #[trigger] alter@[l] == alteration(layout.fifths as int, l),
            base@.len() == n,
            forall|k: int| 0 <= k < n ==> #[trigger] base@[k] == placed(tune@[k], *layout, measures@),
            forall|k: int| 0 <= k < base@.len() ==> -100 <= (#[trigger] base@[k]).step <= 200,
            forall|k: int| 0 <= k < base@.len() ==> (#[trigger] base@[k]).start <= base@[k].end,
        decreases tune@.len() - n,
    {
        assert(tune@[n as int].start + tune@[n as int].duration <= u64::MAX);
        base.push(place(tune[n], layout, &alter, measures));
        n = n + 1;
    }
    proof {
        assert(base@ =~= placed_notes(tune@, *layout, measures@));
    }
    base
}

/// Lays out all chords of a song in turn.
fn lay_out_chords(base: &Vec<SheetNote>, measures: &[u64], quarters: Quarters) -> (laid: (
    Vec<bool>,
    Vec<SheetStem>,
))
    requires
        quarters.den > 0,
        forall|k: int| 0 <= k < base@.len() ==> -100 <= (#[trigger] base@[k]).step <= 200,
        forall|k: int| 0 <= k < base@.len() ==> (#[trigger] base@[k]).start <= base@[k].end,
    ensures
        laid.0@ == shifts_from(base@, 0),
        laid.0@.len() == base@.len(),
        laid.1@ == stems_from(base@, measures@, quarters, 0),
        forall|n: int| 0 <= n < laid.1@.len() ==> -107 <= (#[trigger] laid.1@[n]).tip_step <= 207,
{
    let mut keys: Vec<i128> = Vec::new();
    let mut n: usize = 0;
    while n < base.len()
        invariant
            n <= base@.len(),
            keys@.len() == n,
            forall|m: int| 0 <= m < n ==> #[trigger] keys@[m] == base@[m].step,
        decreases base@.len() - n,
    {
        keys.push(base[n].step as i128);
        n = n + 1;
    }
    proof {
        assert(keys@ =~= step_keys(base@));
    }
    let mut shifts: Vec<bool> = Vec::new();
    let mut stems: Vec<SheetStem> = Vec::new();
    let mut i: usize = 0;
    while i < base.len()
        invariant
            quarters.den > 0,
            i <= base@.len(),
            keys@ == step_keys(base@),
            forall|k: int| 0 <= k < base@.len() ==> -100 <= (#[trigger] base@[k]).step <= 200,
            forall|k: int| 0 <= k < base@.len() ==> (#[trigger] base@[k]).start <= base@[k].end,
            shifts@.len() == i,
            shifts@ + shifts_from(base@, i as int) == shifts_from(base@, 0),
            stems@ + stems_from(base@, measures@, quarters, i as int) == stems_from(
                base@,
                measures@,
                quarters,
                0,
            ),
            forall|m: int| 0 <= m < stems@.len() ==> -107 <= (#[trigger] stems@[m]).tip_step <= 207,
        decreases base@.len() - i,
    {
        let mut j: usize = i + 1;
        while j < base.len() && (base[j].start < base[i].start || base[j].start - base[i].start
            < CHORD_WINDOW)
            invariant
                i < j <= base@.len(),
                chord_end(base@, i as int, j as int) == chord_end(base@, i as int, i + 1),
            decreases base@.len() - j,
        {
            j = j + 1;
        }
        assert(chord_end(base@, i as int, i + 1) == j);
        let (mut chord_shifts, mut chord_stems) = lay_out_chord(
            base,
            &keys,
            measures,
            quarters,
            i,
            j,
        );
        let ghost (shifts_then, stems_then) = (shifts@, stems@);
        let ghost (shifts_now, stems_now) = (chord_shifts@, chord_stems@);
        shifts.append(&mut chord_shifts);
        stems.append(&mut chord_stems);
        proof {
            assert(shifts_from(base@, i as int) == shifts_now + shifts_from(base@, j as int));
            assert(stems_from(base@, measures@, quarters, i as int) =~= stems_now + stems_from(
                base@,
                measures@,
                quarters,
                j as int,
            ));
            assert(shifts@ + shifts_from(base@, j as int) =~= shifts_then + shifts_from(
                base@,
                i as int,
            ));
            assert(stems@ + stems_from(base@, measures@, quarters, j as int) =~= stems_then
                + stems_from(base@, measures@, quarters, i as int));
            assert forall|m: int| 0 <= m < stems@.len() implies -107 <= (#[trigger] stems@[m]).tip_step
                <= 207 by {
                if m >= stems_then.len() {
                    assert(stems@[m] == stems_now[m - stems_then.len()]);
                } else {
                    assert(stems@[m] == stems_then[m]);
                }
            }
        }
        i = j;
    }
    proof {
        assert(chord_end(base@, i as int, i + 1) == i + 1);
        assert(shifts@ + shifts_from(base@, i as int) =~= shifts@);
        assert(stems@ + stems_from(base@, measures@, quarters, i as int) =~= stems@);
    }
    (shifts, stems)
}

/// Keeps the bar lines from the start of the grid up to `limit`.
fn leading_bars(measures: &[u64], limit: u128) -> (bars: Vec<u64>)
    ensures
        is_leading(bars@, measures@, limit as int),
{
    let mut bars: Vec<u64> = Vec::new();
    let mut n: usize = 0;
    while n < measures.len() && measures[n] as u128 <= limit
        invariant
            n <= measures@.len(),
            bars@ == measures@.take(n as int),
            forall|m: int| 0 <= m < bars@.len() ==> #[trigger] bars@[m] <= limit,
        decreases measures@.len() - n,
    {
        bars.push(measures[n]);
        proof {
            assert(bars@ =~= measures@.take(n + 1));
        }
        n = n + 1;
    }
    bars
}

/// Highest and lowest position that the notes and the stem tips reach.
fn reach(notes: &Vec<SheetNote>, stems: &Vec<SheetStem>) -> (extent: (i32, i32))
    requires
        notes@.len() > 0,
    ensures
        spans(notes@, stems@, extent.0 as int, extent.1 as int),
        reached(notes@, stems@, extent.0 as int),
        reached(notes@, stems@, extent.1 as int),
{
    let mut top: i32 = notes[0].step;
    let mut bottom: i32 = notes[0].step;
    let mut n: usize = 0;
    assert(notes@[0].step == top);
    while n < notes.len()
        invariant
            n <= notes@.len(),
            forall|m: int| 0 <= m < n ==> bottom <= (#[trigger] notes@[m]).step <= top,
            bottom <= top,
            reached(notes@, stems@, top as int),
            reached(notes@, stems@, bottom as int),
        decreases notes@.len() - n,
    {
        let step: i32 = notes[n].step;
        assert(notes@[n as int].step == step);
        assert(reached(notes@, stems@, step as int));
        if step > top {
            top = step;
        }
        if step < bottom {
            bottom = step;
        }
        n = n + 1;
    }
    let mut m: usize = 0;
    while m < stems.len()
        invariant
            m <= stems@.len(),
            forall|k: int| 0 <= k < notes@.len() ==> bottom <= (#[trigger] notes@[k]).step <= top,
            forall|k: int| 0 <= k < m ==> bottom <= (#[trigger] stems@[k]).tip_step <= top,
            reached(notes@, stems@, top as int),
            reached(notes@, stems@, bottom as int),
        decreases stems@.len() - m,
    {
        let tip: i32 = stems[m].tip_step;
        assert(stems@[m as int].tip_step == tip);
        assert(reached(notes@, stems@, tip as int));
        if tip > top {
            top = tip;
        }
        if tip < bottom {
            bottom = tip;
        }
        m = m + 1;
    }
    (top, bottom)
}

/// Engraves a set of MIDI notes.
///
/// `measures` is the bar grid and supplies the bar lines; together with the
/// length of a bar in quarters it also gives the beat length by which noteheads
/// are chosen. Note ends must be representable times.
pub fn engrave(notes: &[MidiNote], measures: &[u64], quarters_per_bar: Quarters) -> (score: Score)
    requires
        quarters_per_bar.den > 0,
        forall|n: int|
            0 <= n < notes@.len() ==> (#[trigger] notes@[n]).start + notes@[n].duration <= u64::MAX,
    ensures
        score.engraves(notes@, measures@, quarters_per_bar),
        -107 <= score.bottom_step <= score.top_step <= 207,
        forall|k: int|
            0 <= k < score.notes@.len() ==> -100 <= (#[trigger] score.notes@[k]).step <= 200,
{
    let tune = melodic(notes);
    if tune.len() == 0 {
        return Score::default();
    }
    let mut classes: Vec<u8> = Vec::new();
    let mut n: usize = 0;
    while n < tune.len()
        invariant
            n <= tune@.len(),
            classes@.len() == n,
            forall|m: int| 0 <= m < n ==> #[trigger] classes@[m] == tune@[m].note,
        decreases tune@.len() - n,
    {
        classes.push(tune[n].note);
        n = n + 1;
    }
    proof {
        assert(classes@ =~= pitches(tune@));
        assert forall|m: int| 0 <= m < tune@.len() implies (#[trigger] tune@[m]).start
            + tune@[m].duration <= u64::MAX by {
            let k = choose|k: int| 0 <= k < notes@.len() && notes@[k] == tune@[m];
            assert(notes@[k].start + notes@[k].duration <= u64::MAX);
        }
    }
    let fifths: i32 = detect_fifths(classes.as_slice());
    let staves = choose_staves(&tune);
    let layout = Layout { fifths, staves, quarters: quarters_per_bar };
    let base = place_notes(&tune, &layout, measures);
    let (shifts, stems) = lay_out_chords(&base, measures, quarters_per_bar);
    let mut sheet: Vec<SheetNote> = Vec::new();
    let mut k: usize = 0;
    while k < base.len()
        invariant
            k <= base@.len(),
            shifts@.len() == base@.len(),
            shifts@ == shifts_from(base@, 0),
            sheet@.len() == k,
            forall|m: int|
                0 <= m < k ==> #[trigger] sheet@[m] == (SheetNote {
                    head_shift: shifts_from(base@, 0)[m],
                    ..base@[m]
                }),
        decreases base@.len() - k,
    {
        let note = base[k];
        sheet.push(SheetNote { head_shift: shifts[k], ..note });
        k = k + 1;
    }
    proof {
        assert(sheet@ =~= with_shifts(base@));
    }
    let last: u64 = base[base.len() - 1].end;
    let barlines = leading_bars(measures, last as u128 + BARLINE_TAIL as u128);
    let (top_step, bottom_step) = reach(&sheet, &stems);
    let score = Score { notes: sheet, stems, fifths, staves, barlines, top_step, bottom_step };
    proof {
        assert(score.layout(quarters_per_bar) == layout);
        assert forall|m: int| 0 <= m < score.notes@.len() implies -100 <= (
        #[trigger] score.notes@[m]).step <= 200 by {
            assert(score.notes@[m].step == base@[m].step);
        }
        assert(bottom_step <= score.notes@[0].step <= top_step);
    }
    score
}

/// The engraved notes come in order of start and then of pitch, and every note
/// that is not percussion is among them.
pub proof fn law_melody_is_ordered_and_complete(notes: Seq<MidiNote>)
    requires
        notes.len() <= usize::MAX,
    ensures
        melody(notes).len() == melodic_positions(notes).len(),
        forall|m: int, n: int|
            0 <= m < n < melody(notes).len() ==> {
                let (a, b) = (#[trigger] melody(notes)[m], #[trigger] melody(notes)[n]);
                a.start < b.start || (a.start == b.start && a.note <= b.note)
            },
        forall|m: int|
            0 <= m < melody(notes).len() ==> (#[trigger] melody(notes)[m]).channel != DRUM_CHANNEL,
        forall|k: int|
            0 <= k < notes.len() && notes[k].channel != DRUM_CHANNEL ==> melody(notes).contains(
                #[trigger] notes[k],
            ),
{
    let keys = note_keys(notes);
    let picked = melodic_positions(notes);
    let order = in_key_order(keys, picked);
    lemma_in_key_order(keys, picked);
    lemma_melodic_positions(notes);
    assert forall|m: int| 0 <= m < order.len() implies #[trigger] order[m] < notes.len()
        && notes[order[m] as int].channel != DRUM_CHANNEL by {
        assert(order.contains(order[m]));
        assert(picked.contains(order[m]));
    }
    assert forall|m: int, n: int| 0 <= m < n < melody(notes).len() implies {
        let (a, b) = (#[trigger] melody(notes)[m], #[trigger] melody(notes)[n]);
        a.start < b.start || (a.start == b.start && a.note <= b.note)
    } by {
        let (p, q) = (order[m], order[n]);
        assert(before(keys, p, q));
        assert(keys[p as int] == notes[p as int].start * 256 + notes[p as int].note);
        assert(keys[q as int] == notes[q as int].start * 256 + notes[q as int].note);
    }
    assert forall|k: int|
        0 <= k < notes.len() && notes[k].channel != DRUM_CHANNEL implies melody(notes).contains(
        #[trigger] notes[k],
    ) by {
        assert(picked.contains(k as usize));
        assert(order.contains(k as usize));
        let m = choose|m: int| 0 <= m < order.len() && order[m] == k as usize;
        assert(melody(notes)[m] == notes[k]);
    }
}

/// The picked positions are those of the melodic notes.
proof fn lemma_melodic_positions(notes: Seq<MidiNote>)
    requires
        notes.len() <= usize::MAX,
    ensures
        forall|m: int|
            0 <= m < melodic_positions(notes).len() ==> #[trigger] melodic_positions(notes)[m]
                < notes.len(),
        forall|m: int|
            0 <= m < melodic_positions(notes).len()
                ==> notes[#[trigger] melodic_positions(notes)[m] as int].channel != DRUM_CHANNEL,
        forall|k: int|
            0 <= k < notes.len() && notes[k].channel != DRUM_CHANNEL ==> #[trigger] melodic_positions(
                notes,
            ).contains(k as usize),
    decreases notes.len(),
{
    if notes.len() > 0 {
        let shorter = notes.drop_last();
        lemma_melodic_positions(shorter);
        let picked = melodic_positions(shorter);
        let whole = melodic_positions(notes);
        assert forall|m: int| 0 <= m < whole.len() implies #[trigger] whole[m] < notes.len()
            && notes[whole[m] as int].channel != DRUM_CHANNEL by {
            if m < picked.len() {
                assert(whole[m] == picked[m]);
                assert(shorter[picked[m] as int] == notes[picked[m] as int]);
            }
        }
        assert forall|k: int|
            0 <= k < notes.len() && notes[k].channel
                != DRUM_CHANNEL implies #[trigger] whole.contains(k as usize) by {
            if k < shorter.len() {
                assert(shorter[k].channel != DRUM_CHANNEL);
                assert(picked.contains(k as usize));
                let m = choose|m: int| 0 <= m < picked.len() && picked[m] == k as usize;
                assert(whole[m] == k as usize);
            } else {
                assert(whole[picked.len() as int] == k as usize);
            }
        }
    }
}

/// Two neighbouring heads of a stack are never both nudged.
pub proof fn law_neighbours_are_not_both_nudged(notes: Seq<SheetNote>, stack: Seq<usize>, n: int)
    requires
        0 < n < stack.len(),
    ensures
        !(nudged(notes, stack, n - 1) && nudged(notes, stack, n)),
{
}

/// Every note of a song sits on one of the staves that are printed for it.
pub proof fn law_notes_sit_on_printed_staves(
    score: Score,
    notes: Seq<MidiNote>,
    measures: Seq<u64>,
    quarters: Quarters,
    k: int,
)
    requires
        score.engraves(notes, measures, quarters),
        0 <= k < score.notes@.len(),
    ensures
        score.staves.has(score.notes@[k].staff),
{
}

/// How long a printed note value is, in eighths of a quarter note: a whole note is
/// four quarters, a half note two and a black one one, halved by each flag; a dot
/// makes it half as long again.
pub open spec fn denoted(look: NoteValue) -> int {
    let plain = match look.0 {
        Head::Whole => 32int,
        Head::Half => 16,
        Head::Black => if look.2 == 0 {
            8
        } else if look.2 == 1 {
            4
        } else {
            2
        },
    };
    if look.1 {
        plain + plain / 2
    } else {
        plain
    }
}

/// What is printed says how long the note is: head, dot and flags of each written
/// value denote its length. So two values never look the same, and the values are
/// all those from a semiquaver to a whole note, plain and dotted.
pub proof fn law_print_says_the_length(value: int, other: int)
    requires
        0 <= value < 9,
        0 <= other < 9,
    ensures
        denoted(value_look(value)) == value_eighths(value),
        value_look(value).2 <= 2,
        value_look(value).2 > 0 ==> value_look(value).0 == Head::Black,
        value_look(value) == value_look(other) <==> value == other,
        value < other <==> value_eighths(value) < value_eighths(other),
        value_eighths(0) == 2 && value_eighths(1) == 3 && value_eighths(2) == 4 && value_eighths(3)
            == 6 && value_eighths(4) == 8 && value_eighths(5) == 12 && value_eighths(6) == 16
            && value_eighths(7) == 24 && value_eighths(8) == 32,
{
}

/// A note is printed with the value nearest to 1.12 times what it sounds, by ratio:
/// where a quarter lasts `beat.0 / beat.1` nanoseconds, no value from a semiquaver to
/// a whole note, plain or dotted, is nearer than the printed one.
pub proof fn law_note_is_printed_at_its_length(duration: int, beat: (int, int), rival: int)
    requires
        duration > 0,
        beat.0 > 0,
        beat.1 > 0,
        rival == 2 || rival == 3 || rival == 4 || rival == 6 || rival == 8 || rival == 12 || rival
            == 16 || rival == 24 || rival == 32,
    ensures
        ({
            let shown = denoted(value_look(written_value(duration, beat)));
            // Eighths of a quarter, both sides scaled by 25 quarters.
            let sounds = 224 * (duration * beat.1);
            let quarters = 25 * beat.0;
            let off = if sounds >= shown * quarters {
                (sounds, shown * quarters)
            } else {
                (shown * quarters, sounds)
            };
            let rival_off = if sounds >= rival * quarters {
                (sounds, rival * quarters)
            } else {
                (rival * quarters, sounds)
            };
            &&& 2 <= shown <= 32
            &&& off.0 * rival_off.1 <= rival_off.0 * off.1
        }),
{
    let value = written_value(duration, beat);
    lemma_value_from(224 * (duration * beat.1), 25 * beat.0, 0);
    law_print_says_the_length(value, value);
    let other = if rival == 2 {
        0int
    } else if rival == 3 {
        1
    } else if rival == 4 {
        2
    } else if rival == 6 {
        3
    } else if rival == 8 {
        4
    } else if rival == 12 {
        5
    } else if rival == 16 {
        6
    } else if rival == 24 {
        7
    } else {
        8
    };
    law_value_is_nearest(duration, beat, other);
}

/// Bars that have begun are counted one by one.
pub proof fn law_bars_are_counted(before: Seq<u64>, bar: u64, after: Seq<u64>, t: int)
    ensures
        bars_begun(before + seq![bar] + after, t) - bars_begun(before + after, t) == (if bar <= t {
            1int
        } else {
            0
        }),
        bars_begun(Seq::empty(), t) == 0,
    decreases after.len(),
{
    let (more, fewer) = (before + seq![bar] + after, before + after);
    if after.len() == 0 {
        assert(more.drop_last() =~= fewer);
    } else {
        law_bars_are_counted(before, bar, after.drop_last(), t);
        assert(more.drop_last() =~= before + seq![bar] + after.drop_last());
        assert(fewer.drop_last() =~= before + after.drop_last());
    }
}

/// In a grid whose bars come in order, the bars that have begun by a time in bar
/// `bar` are that one and those before it.
proof fn lemma_bars_begun(measures: Seq<u64>, bar: int, t: int)
    requires
        -1 <= bar < measures.len(),
        forall|m: int, n: int|
            0 <= m < n < measures.len() ==> (#[trigger] measures[m]) < (#[trigger] measures[n]),
        bar >= 0 ==> measures[bar] <= t,
        bar + 1 < measures.len() ==> t < measures[bar + 1],
    ensures
        bars_begun(measures, t) == bar + 1,
    decreases measures.len(),
{
    if measures.len() > 0 {
        let shorter = measures.drop_last();
        if bar + 1 == measures.len() {
            if bar > 0 {
                assert(measures[bar - 1] < measures[bar]);
            }
            lemma_bars_begun(shorter, bar - 1, t);
        } else {
            if bar + 1 < measures.len() - 1 {
                assert(measures[bar + 1] < measures[measures.len() - 1]);
            }
            lemma_bars_begun(shorter, bar, t);
        }
    }
}

/// The beat is that of the bar under way: the bar's length over its number of
/// quarters. Before the first bar the first one counts, and after the grid's end the
/// last whole one; without a whole bar, or where bars are no longer than ten
/// milliseconds, a quarter lasts half a second. No beat is under ten milliseconds.
pub proof fn law_beat_is_of_the_running_bar(
    measures: Seq<u64>,
    quarters: Quarters,
    bar: int,
    t: int,
)
    requires
        quarters.num >= quarters.den > 0,
        0 <= bar,
        bar + 1 < measures.len(),
        forall|m: int, n: int|
            0 <= m < n < measures.len() ==> (#[trigger] measures[m]) < (#[trigger] measures[n]),
        bar > 0 ==> measures[bar] <= t,
        bar + 2 < measures.len() ==> t < measures[bar + 1],
    ensures
        ({
            let length = measures[bar + 1] - measures[bar];
            let (ns, parts) = beat(measures, quarters, t);
            &&& length <= 10_000_000 ==> ns == 500_000_000 * parts
            &&& length > 10_000_000 && length * quarters.den >= 10_000_000 * quarters.num ==> ns
                * quarters.num == length * quarters.den * parts
            &&& length > 10_000_000 && length * quarters.den < 10_000_000 * quarters.num ==> ns
                == 10_000_000 * parts
            &&& ns > 0 && parts > 0
        }),
        beat(Seq::empty(), quarters, t) == (500_000_000int, 1int),
        beat(measures.take(1), quarters, t) == (500_000_000int, 1int),
{
    let here = if t < measures[0] {
        -1int
    } else if t >= measures[bar + 1] {
        bar + 1
    } else {
        bar
    };
    if bar > 0 {
        assert(measures[0] < measures[bar]);
    }
    lemma_bars_begun(measures, here, t);
    let length = measures[bar + 1] - measures[bar];
    assert(measures[bar] < measures[bar + 1]);
    assert(bar_at(measures, t) == bar);
    let den = quarters.den as int;
    let num = quarters.num as int;
    assert((length * den) * num == length * den * num) by (nonlinear_arith);
    assert(length * den > 0) by (nonlinear_arith)
        requires
            length > 0,
            den > 0,
    ;
}

/// The signs of a key signature stand on the letters that it alters, in the order in
/// which they come: the `n`-th sign on the letter that a signature of `n + 1` signs
/// alters and one of `n` does not. Sharps stand between the space above the lowest
/// line but one and the space above the top line, flats two positions lower.
pub proof fn law_signs_stand_on_their_letters(n: int)
    requires
        0 <= n < 7,
    ensures
        alteration(n + 1, sharp_sign_step(n) % 7) == 1,
        alteration(n, sharp_sign_step(n) % 7) == 0,
        5 <= sharp_sign_step(n) <= 11,
        alteration(-(n + 1), flat_sign_step(n) % 7) == -1,
        alteration(-n, flat_sign_step(n) % 7) == 0,
        3 <= flat_sign_step(n) <= 9,
{
}

/// A signature prints as many signs as it has, up to the seven letters.
pub proof fn law_signs_are_as_many_as_the_signature_has(fifths: int)
    ensures
        -7 <= fifths <= 7 ==> sign_count(fifths) == (if fifths < 0 {
            -fifths
        } else {
            fifths
        }),
        fifths > 7 || fifths < -7 ==> sign_count(fifths) == 7,
{
}

/// The notes below middle C are counted one by one.
pub proof fn law_low_notes_are_counted(before: Seq<MidiNote>, note: MidiNote, after: Seq<MidiNote>)
    ensures
        low_notes(before + seq![note] + after) - low_notes(before + after) == (if note.note < 60 {
            1int
        } else {
            0
        }),
        low_notes(Seq::empty()) == 0,
    decreases after.len(),
{
    let (more, fewer) = (before + seq![note] + after, before + after);
    if after.len() == 0 {
        assert(more.drop_last() =~= fewer);
    } else {
        law_low_notes_are_counted(before, note, after.drop_last());
        assert(more.drop_last() =~= before + seq![note] + after.drop_last());
        assert(fewer.drop_last() =~= before + after.drop_last());
    }
}

/// A staff is left out exactly when fewer than an eighth of the notes would sit on
/// it: the bass staff by the notes below middle C, and else the treble staff by the
/// others. On a grand staff the notes from middle C up are on the treble staff.
pub proof fn law_a_staff_is_left_out_when_hardly_used(tune: Seq<MidiNote>, midi: u8)
    requires
        tune.len() > 0,
    ensures
        ({
            let low = low_notes(tune) as int;
            let high = tune.len() - low;
            let staves = staves_for(tune);
            &&& staves.has(Staff::Bass) <==> 8 * low >= tune.len()
            &&& staves.has(Staff::Treble) <==> 8 * low < tune.len() || 8 * high >= tune.len()
            &&& staves == Staves::Grand ==> (staff_for(staves, midi) == Staff::Treble <==> midi
                >= 60)
            &&& staves.has(staff_for(staves, midi))
        }),
{
}

/// The chord that a note opens holds the notes that begin less than 30 ms after it,
/// up to the first that does not.
pub proof fn law_a_chord_begins_together(notes: Seq<SheetNote>, i: int, k: int)
    requires
        0 <= i < notes.len(),
    ensures
        ({
            let j = chord_end(notes, i, i + 1);
            &&& i < j <= notes.len()
            &&& i < k < j ==> notes[k].start < notes[i].start + 30_000_000
            &&& j < notes.len() ==> notes[j].start >= notes[i].start + 30_000_000
        }),
{
    lemma_chord_end(notes, i, i + 1);
    lemma_chord_holds(notes, i, i + 1, k);
}

proof fn lemma_chord_holds(notes: Seq<SheetNote>, i: int, from: int, k: int)
    requires
        0 <= i < from <= notes.len(),
    ensures
        from <= k < chord_end(notes, i, from) ==> notes[k].start < notes[i].start + 30_000_000,
        from <= chord_end(notes, i, from) <= notes.len(),
        chord_end(notes, i, from) < notes.len() ==> notes[chord_end(notes, i, from)].start
            >= notes[i].start + 30_000_000,
    decreases notes.len() - from,
{
    if from < notes.len() && notes[from].start - notes[i].start < CHORD_WINDOW {
        lemma_chord_holds(notes, i, from + 1, k);
    }
}

/// The stem of a chord on a staff joins all of its heads there: it grows out of the
/// one at its far end and ends seven positions past the one at the other. It points
/// down when the highest head is at least as far from the middle line as the lowest.
/// Its flags are those of the lowest head's length. A chord without heads on the
/// staff, or whose lowest head is a whole note, has none.
pub proof fn law_a_stem_joins_its_chord(
    notes: Seq<SheetNote>,
    measures: Seq<u64>,
    quarters: Quarters,
    i: int,
    j: int,
    staff: Staff,
    k: int,
)
    requires
        0 <= i <= k < j <= notes.len() <= usize::MAX,
        notes[k].staff == staff,
        forall|n: int| 0 <= n < notes.len() ==> -100 <= (#[trigger] notes[n]).step <= 200,
    ensures
        match stem_of(notes, measures, quarters, i, j, staff) {
            Some(stem) => {
                let middle = if staff == Staff::Treble {
                    6int
                } else {
                    -6
                };
                let (high, low) = if stem.down {
                    (stem.base_step as int, stem.tip_step + 7)
                } else {
                    (stem.tip_step - 7, stem.base_step as int)
                };
                let above = if high >= middle {
                    high - middle
                } else {
                    middle - high
                };
                let below = if low >= middle {
                    low - middle
                } else {
                    middle - low
                };
                &&& stem.staff == staff
                &&& stem.start == notes[i].start
                &&& low <= notes[k].step <= high
                &&& stem.down <==> above >= below
                &&& exists|n: int|
                    i <= n < j && (#[trigger] notes[n]).staff == staff && notes[n].step == high
                &&& exists|n: int|
                    i <= n < j && (#[trigger] notes[n]).staff == staff && notes[n].step == low
                        && notes[n].head != Head::Whole && stem.flags == value_look(
                        written_value(
                            notes[n].end - notes[n].start,
                            beat(measures, quarters, notes[i].start as int),
                        ),
                    ).2
            },
            None => exists|n: int|
                i <= n < j && (#[trigger] notes[n]).staff == staff && notes[n].head == Head::Whole
                    && notes[n].step <= notes[k].step,
        },
{
    lemma_stacked(notes, i, j, staff);
    let stack = stacked(notes, i, j, staff);
    assert(stack.contains(k as usize));
    let at = choose|m: int| 0 <= m < stack.len() && stack[m] == k as usize;
    let (first, last) = (stack[0] as int, stack.last() as int);
    assert(stack[0] as int == first && stack[stack.len() - 1] as int == last);
    assert(notes[first].staff == staff && notes[last].staff == staff);
    assert(at > 0 ==> notes[stack[0] as int].step <= notes[stack[at] as int].step);
    assert(at < stack.len() - 1 ==> notes[stack[at] as int].step <= notes[stack[stack.len() - 1] as int].step);
}

/// Of two heads that follow each other in a stack, the upper is nudged exactly when
/// it lies a second above the lower and the lower is not nudged itself; the lowest
/// never is.
pub proof fn law_seconds_are_told_apart(notes: Seq<SheetNote>, stack: Seq<usize>, n: int)
    requires
        0 <= n < stack.len(),
    ensures
        n == 0 ==> !nudged(notes, stack, n),
        n > 0 && notes[stack[n] as int].step != notes[stack[n - 1] as int].step + 1 ==> !nudged(
            notes,
            stack,
            n,
        ),
        n > 0 && notes[stack[n] as int].step == notes[stack[n - 1] as int].step + 1 ==> nudged(
            notes,
            stack,
            n,
        ) != nudged(notes, stack, n - 1),
{
}

/// Every note of the song that is not percussion stands in the score, in order, once:
/// it begins and ends when the note does, its position and sign sound the note's
/// pitch, and head and dot are those of its length.
pub proof fn law_score_says_what_is_played(
    score: Score,
    notes: Seq<MidiNote>,
    measures: Seq<u64>,
    quarters: Quarters,
    k: int,
)
    requires
        score.engraves(notes, measures, quarters),
        0 <= k < score.notes@.len(),
        forall|n: int|
            0 <= n < notes.len() ==> (#[trigger] notes[n]).start + notes[n].duration <= u64::MAX,
        notes.len() <= usize::MAX,
    ensures
        score.notes@.len() == melody(notes).len(),
        ({
            let played = melody(notes)[k];
            let shown = score.notes@[k];
            let value = written_value(
                played.duration as int,
                beat(measures, quarters, played.start as int),
            );
            let altered = match shown.accidental {
                Some(Accidental::Sharp) => 1int,
                Some(Accidental::Flat) => -1,
                Some(Accidental::Natural) => 0,
                None => alteration(score.fifths as int, shown.step as int % 7),
            };
            &&& shown.start == played.start
            &&& shown.end == played.start + played.duration
            &&& pitch_at(shown.step as int, altered) == played.note
            &&& shown.head == value_look(value).0
            &&& shown.dotted == value_look(value).1
            &&& shown.staff == staff_for(score.staves, played.note)
        }),
{
    let tune = melody(notes);
    let base = placed_notes(tune, score.layout(quarters), measures);
    let played = tune[k];
    assert(base[k] == placed(played, score.layout(quarters), measures));
    law_melody_is_ordered_and_complete(notes);
    lemma_melody_is_from(notes, k);
    let alter = signature(score.fifths as int);
    law_spelling_sounds_the_pitch(played.note, alter);
    lemma_step_is_small(played.note, score.fifths as int);
    let step = spelling(played.note as int, alter).0;
    assert(alter[step % 7] == alteration(score.fifths as int, step % 7) as i32);
}

proof fn lemma_melody_is_from(notes: Seq<MidiNote>, k: int)
    requires
        0 <= k < melody(notes).len(),
        notes.len() <= usize::MAX,
    ensures
        exists|n: int| 0 <= n < notes.len() && #[trigger] notes[n] == melody(notes)[k],
{
    let keys = note_keys(notes);
    let picked = melodic_positions(notes);
    let order = in_key_order(keys, picked);
    lemma_in_key_order(keys, picked);
    lemma_melodic_positions(notes);
    assert(order.contains(order[k]));
    assert(picked.contains(order[k]));
    let m = choose|m: int| 0 <= m < picked.len() && picked[m] == order[k];
    assert(picked[m] < notes.len());
    assert(notes[order[k] as int] == melody(notes)[k]);
}

/// Bar lines run from the start of the grid to four seconds past the end of the last
/// note, none left out; and the score reaches exactly as high and as low as its heads
/// and stems do.
pub proof fn law_bar_lines_run_past_the_last_note(
    score: Score,
    notes: Seq<MidiNote>,
    measures: Seq<u64>,
    quarters: Quarters,
    n: int,
)
    requires
        score.engraves(notes, measures, quarters),
        score.notes@.len() > 0,
        0 <= n < measures.len(),
        forall|a: int, b: int|
            0 <= a < b < measures.len() ==> (#[trigger] measures[a]) <= (#[trigger] measures[b]),
    ensures
        n < score.barlines@.len() <==> measures[n] <= score.notes@.last().end + 4_000_000_000,
        n < score.barlines@.len() ==> score.barlines@[n] == measures[n],
        forall|k: int|
            0 <= k < score.notes@.len() ==> score.bottom_step <= (#[trigger] score.notes@[k]).step
                <= score.top_step,
        forall|k: int|
            0 <= k < score.stems@.len() ==> score.bottom_step <= (
            #[trigger] score.stems@[k]).tip_step <= score.top_step,
{
    let count = score.barlines@.len() as int;
    if n < count {
        assert(score.barlines@[n] == measures[n]);
    } else {
        assert(measures[count] > score.notes@.last().end + BARLINE_TAIL);
        if n > count {
            assert(measures[count] <= measures[n]);
        }
    }
}

/// The score of a song without melodic notes is empty: no note, no stem, no bar line and
/// no sign, on both staves.
pub proof fn law_a_blank_score_is_empty(score: Score)
    requires
        score.is_blank(),
    ensures
        score.notes@.len() == 0 && score.stems@.len() == 0 && score.barlines@.len() == 0,
        score.fifths == 0,
        score.staves == Staves::Grand,
        score.top_step == 0 && score.bottom_step == 0,
{
}

/// The nudges go chord by chord: every note has one, and it is that of the note within
/// its own chord.
pub proof fn law_nudges_go_chord_by_chord(notes: Seq<SheetNote>, i: int, k: int)
    requires
        0 <= i <= k < notes.len(),
    ensures
        shifts_from(notes, i).len() == notes.len() - i,
        ({
            let j = chord_end(notes, i, i + 1);
            &&& i < j <= notes.len()
            &&& k < j ==> shifts_from(notes, i)[k - i] == chord_shift(notes, i, j, k)
            &&& k >= j ==> shifts_from(notes, i)[k - i] == shifts_from(notes, j)[k - j]
        }),
    decreases notes.len() - i,
{
    lemma_chord_end(notes, i, i + 1);
    let j = chord_end(notes, i, i + 1);
    if j < notes.len() {
        law_nudges_go_chord_by_chord(notes, j, if k >= j {
            k
        } else {
            j
        });
    } else {
        assert(shifts_from(notes, j).len() == 0) by {
            assert(chord_end(notes, j, j + 1) == j + 1);
        }
    }
}

/// A head is nudged only where a head of its own chord, on its own staff, stands on the
/// position right below it, in its usual place.
pub proof fn law_a_nudged_head_has_one_below(notes: Seq<SheetNote>, i: int, j: int, k: int)
    requires
        0 <= i <= k < j <= notes.len() <= usize::MAX,
        chord_shift(notes, i, j, k),
    ensures
        exists|m: int|
            i <= m < j && (#[trigger] notes[m]).staff == notes[k].staff && notes[m].step
                == notes[k].step - 1 && !chord_shift(notes, i, j, m),
{
    let staff = notes[k].staff;
    let stack = stacked(notes, i, j, staff);
    lemma_stacked(notes, i, j, staff);
    let n = choose|n: int|
        0 <= n < stack.len() && #[trigger] stack[n] == k && nudged(notes, stack, n);
    let m = stack[n - 1] as int;
    assert(i <= m < j && notes[m].staff == staff);
    if chord_shift(notes, i, j, m) {
        let o = choose|o: int|
            0 <= o < stack.len() && #[trigger] stack[o] == m && nudged(notes, stack, o);
        assert(stack[o] == stack[n - 1]);
        assert(o == n - 1);
    }
    assert(notes[m].step == notes[k].step - 1);
}

/// Nudging changes nothing of a note but whether its head is shifted.
pub proof fn law_nudging_keeps_the_notes(notes: Seq<SheetNote>, k: int)
    requires
        0 <= k < notes.len(),
    ensures
        with_shifts(notes).len() == notes.len(),
        with_shifts(notes)[k].head_shift == shifts_from(notes, 0)[k],
        ({
            let (was, next) = (notes[k], with_shifts(notes)[k]);
            &&& next.start == was.start && next.end == was.end
            &&& next.step == was.step && next.accidental == was.accidental
            &&& next.head == was.head && next.dotted == was.dotted
            &&& next.staff == was.staff
        }),
{
}

/// The stems go chord by chord, that of the treble staff before that of the bass staff.
pub proof fn law_stems_go_chord_by_chord(
    notes: Seq<SheetNote>,
    measures: Seq<u64>,
    quarters: Quarters,
    i: int,
)
    requires
        0 <= i < notes.len(),
    ensures
        ({
            let j = chord_end(notes, i, i + 1);
            let treble = stem_of(notes, measures, quarters, i, j, Staff::Treble);
            let bass = stem_of(notes, measures, quarters, i, j, Staff::Bass);
            let stems = stems_from(notes, measures, quarters, i);
            let rest = stems_from(notes, measures, quarters, j);
            &&& treble is Some && bass is Some ==> stems == seq![treble->0, bass->0] + rest
            &&& treble is Some && bass is None ==> stems == seq![treble->0] + rest
            &&& treble is None && bass is Some ==> stems == seq![bass->0] + rest
            &&& treble is None && bass is None ==> stems == rest
        }),
        stems_from(notes, measures, quarters, notes.len() as int).len() == 0,
{
    lemma_chord_end(notes, i, i + 1);
    let j = chord_end(notes, i, i + 1);
    let n = notes.len() as int;
    assert(chord_end(notes, n, n + 1) == n + 1);
    let treble = stem_of(notes, measures, quarters, i, j, Staff::Treble);
    let bass = stem_of(notes, measures, quarters, i, j, Staff::Bass);
    let stems = stems_from(notes, measures, quarters, i);
    let rest = stems_from(notes, measures, quarters, j);
    if treble is Some && bass is Some {
        assert(stems =~= seq![treble->0, bass->0] + rest);
    } else if treble is Some {
        assert(stems =~= seq![treble->0] + rest);
    } else if bass is Some {
        assert(stems =~= seq![bass->0] + rest);
    } else {
        assert(stems =~= rest);
    }
}

/// A distance is the same either way.
pub proof fn law_a_distance_is_how_far_apart(a: int, b: int)
    ensures
        distance(a, b) == distance(b, a),
        a <= b ==> a + distance(a, b) == b,
{
}

/// A position is reached when a notehead or the tip of a stem stands on it, and only then.
pub proof fn law_what_a_score_reaches(
    notes: Seq<SheetNote>,
    stems: Seq<SheetStem>,
    n: int,
    step: int,
)
    ensures
        0 <= n < notes.len() ==> reached(notes, stems, notes[n].step as int),
        0 <= n < stems.len() ==> reached(notes, stems, stems[n].tip_step as int),
        (forall|k: int| 0 <= k < notes.len() ==> (#[trigger] notes[k]).step != step) && (forall|
            k: int,
        |
            0 <= k < stems.len() ==> (#[trigger] stems[k]).tip_step != step) ==> !reached(
            notes,
            stems,
            step,
        ),
{
}

/// A score has a note for every note of the song that is not on the drum channel, and is
/// blank only where there is none. Its stems are those of its chords, and it reaches as
/// high and as low as its notes and stems do.
pub proof fn law_no_note_is_left_out(
    score: Score,
    notes: Seq<MidiNote>,
    measures: Seq<u64>,
    quarters: Quarters,
    k: int,
)
    requires
        score.engraves(notes, measures, quarters),
        notes.len() <= usize::MAX,
    ensures
        score.notes@.len() == melodic_positions(notes).len(),
        0 <= k < notes.len() && notes[k].channel != 9 ==> score.notes@.len() > 0,
        score.notes@.len() == 0 ==> score.is_blank(),
        score.notes@.len() > 0 ==> {
            let base = placed_notes(melody(notes), score.layout(quarters), measures);
            &&& score.stems@ == stems_from(base, measures, quarters, 0)
            &&& is_best_fit(pitches(melody(notes)), score.fifths as int)
            &&& score.staves == staves_for(melody(notes))
            &&& reached(score.notes@, score.stems@, score.top_step as int)
            &&& reached(score.notes@, score.stems@, score.bottom_step as int)
        },
        0 <= k < score.notes@.len() ==> score.bottom_step <= score.notes@[k].step
            <= score.top_step,
        0 <= k < score.stems@.len() ==> score.bottom_step <= score.stems@[k].tip_step
            <= score.top_step,
{
    law_melody_is_ordered_and_complete(notes);
    if 0 <= k < notes.len() && notes[k].channel != 9 {
        assert(melody(notes).contains(notes[k]));
    }
}

/// The notes that are not on the drum channel are counted one by one.
pub proof fn law_melodic_notes_are_counted(notes: Seq<MidiNote>, note: MidiNote)
    ensures
        melodic_positions(notes.push(note)).len() == melodic_positions(notes).len() + (
        if note.channel == 9 {
            0nat
        } else {
            1nat
        }),
        melodic_positions(Seq::<MidiNote>::empty()).len() == 0,
{
    assert(notes.push(note).drop_last() =~= notes);
}

} // verus!
