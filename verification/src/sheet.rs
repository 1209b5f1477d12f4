//! The sheet-music strip: which symbols are drawn, and on which positions.
//!
//! Heights are in half pixels, of which a staff position has nine.
use vstd::prelude::*;

use crate::engrave::{Accidental, Head, Staff, Staves};
use crate::midi_file::{MidiNote, Quarters};
use crate::score::{engrave, Score, SheetNote, SheetStem};

verus! {

/// Half pixels from a staff position to the next.
pub const STEP: i32 = 9;

/// Half pixels of breathing room at the very top and bottom of the strip.
pub const MARGIN: i32 = 12;

/// Ceiling on the ledger-line room reserved beyond the staff, so an outlier note
/// cannot stretch the strip down the screen.
pub const MAX_PAD_STEPS: i32 = 12;

/// How far from the playhead music is looked for: half the six seconds that the
/// strip spans, and one more.
pub const REACH: i128 = 4_000_000_000;

/// How long after its start a stem counts as past: 50 ms.
pub const STEM_LINGER: i128 = 50_000_000;

/// A symbol of the music font.
#[derive(Debug, Clone, Copy, PartialEq, Eq, Structural)]
pub enum Glyph {
    Whole,
    Half,
    Black,
    Flat,
    Natural,
    Sharp,
    ClefG,
    ClefF,
    Flag8Up,
    Flag8Down,
    Flag16Up,
    Flag16Down,
}

impl Glyph {
    /// The code point of the symbol in the standard music-font layout.
    pub open spec fn code(self) -> int {
        match self {
            Glyph::Whole => 0xE0A2,
            Glyph::Half => 0xE0A3,
            Glyph::Black => 0xE0A4,
            Glyph::Flat => 0xE260,
            Glyph::Natural => 0xE261,
            Glyph::Sharp => 0xE262,
            Glyph::ClefG => 0xE050,
            Glyph::ClefF => 0xE062,
            Glyph::Flag8Up => 0xE240,
            Glyph::Flag8Down => 0xE241,
            Glyph::Flag16Up => 0xE242,
            Glyph::Flag16Down => 0xE243,
        }
    }

    /// The code point of the symbol in the standard music-font layout.
    pub fn codepoint(&self) -> (code: u32)
        ensures
            code == self.code(),
    {
        match self {
            Glyph::Whole => 0xE0A2,
            Glyph::Half => 0xE0A3,
            Glyph::Black => 0xE0A4,
            Glyph::Flat => 0xE260,
            Glyph::Natural => 0xE261,
            Glyph::Sharp => 0xE262,
            Glyph::ClefG => 0xE050,
            Glyph::ClefF => 0xE062,
            Glyph::Flag8Up => 0xE240,
            Glyph::Flag8Down => 0xE241,
            Glyph::Flag16Up => 0xE242,
            Glyph::Flag16Down => 0xE243,
        }
    }
}

pub open spec fn sign_glyph(accidental: Accidental) -> Glyph {
    match accidental {
        Accidental::Sharp => Glyph::Sharp,
        Accidental::Flat => Glyph::Flat,
        Accidental::Natural => Glyph::Natural,
    }
}

pub fn accidental_glyph(accidental: Accidental) -> (glyph: Glyph)
    ensures
        glyph == sign_glyph(accidental),
{
    match accidental {
        Accidental::Sharp => Glyph::Sharp,
        Accidental::Flat => Glyph::Flat,
        Accidental::Natural => Glyph::Natural,
    }
}

pub open spec fn notehead(head: Head) -> Glyph {
    match head {
        Head::Whole => Glyph::Whole,
        Head::Half => Glyph::Half,
        Head::Black => Glyph::Black,
    }
}

/// The flag that a stem carries, if any.
pub open spec fn flag(flags: u8, down: bool) -> Option<Glyph> {
    if flags == 0 {
        None
    } else if flags == 1 {
        Some(if down {
            Glyph::Flag8Down
        } else {
            Glyph::Flag8Up
        })
    } else {
        Some(if down {
            Glyph::Flag16Down
        } else {
            Glyph::Flag16Up
        })
    }
}

/// `x`, but not under `low` nor over `high`.
pub open spec fn clamped(x: int, low: int, high: int) -> int {
    if x < low {
        low
    } else if x > high {
        high
    } else {
        x
    }
}

fn clamp_steps(x: i32, low: i32, high: i32) -> (y: i32)
    ensures
        y == clamped(x as int, low as int, high as int),
{
    if x < low {
        low
    } else if x > high {
        high
    } else {
        x
    }
}

/// The ledger lines between a staff and a note that has strayed off it, from the
/// staff outwards; they only ever land on even positions.
pub open spec fn ledgers(staff: Staff, step: int) -> Seq<int> {
    let low = staff.middle_line() - 4;
    let high = staff.middle_line() + 4;
    if step < low {
        Seq::new(((low - step) / 2) as nat, |n: int| low - 2 - 2 * n)
    } else if step > high {
        Seq::new(((step - high) / 2) as nat, |n: int| high + 2 + 2 * n)
    } else {
        Seq::empty()
    }
}

/// The ledger lines that a note needs.
pub fn ledger_steps(staff: Staff, step: i32) -> (steps: Vec<i32>)
    requires
        -1_000_000 <= step <= 1_000_000,
    ensures
        steps@.len() == ledgers(staff, step as int).len(),
        forall|n: int|
            0 <= n < steps@.len() ==> #[trigger] steps@[n] == ledgers(staff, step as int)[n],
{
    let low: i32 = staff.middle_line_step() - 4;
    let high: i32 = staff.middle_line_step() + 4;
    let mut steps: Vec<i32> = Vec::new();
    if step < low {
        let mut s: i32 = low - 2;
        while s >= step
            invariant
                -10 <= low <= 2,
                -1_000_000 <= step < low,
                s == low - 2 - 2 * steps@.len(),
                s >= step - 2,
                forall|n: int| 0 <= n < steps@.len() ==> #[trigger] steps@[n] == low - 2 - 2 * n,
            decreases s - step + 2,
        {
            steps.push(s);
            s = s - 2;
        }
    } else if step > high {
        let mut s: i32 = high + 2;
        while s <= step
            invariant
                -2 <= high <= 10,
                high < step <= 1_000_000,
                s == high + 2 + 2 * steps@.len(),
                s <= step + 2,
                forall|n: int| 0 <= n < steps@.len() ==> #[trigger] steps@[n] == high + 2 + 2 * n,
            decreases step - s + 2,
        {
            steps.push(s);
            s = s + 2;
        }
    }
    steps
}

/// How one note is drawn at a moment.
#[derive(Debug)]
pub struct NotePlan {
    pub start: u64,
    pub end: u64,
    pub step: i32,
    /// The key is down right now: drawn bright, with a halo.
    pub sounding: bool,
    /// The note is over: drawn dim.
    pub past: bool,
    pub head: Glyph,
    pub accidental: Option<Glyph>,
    /// The head is drawn one notehead width to the right.
    pub shifted: bool,
    /// Where the dot goes, if there is one.
    pub dot: Option<i32>,
    pub ledgers: Vec<i32>,
}

/// Whether `plan` is how `note` is drawn at time `now`. A dot lives in a space: a
/// note on a line lifts its dot to the space above.
pub open spec fn draws_note(plan: NotePlan, note: SheetNote, now: int) -> bool {
    &&& plan.start == note.start
    &&& plan.end == note.end
    &&& plan.step == note.step
    &&& plan.sounding == (note.start <= now <= note.end)
    &&& plan.past == (note.end < now)
    &&& plan.head == notehead(note.head)
    &&& plan.accidental == (match note.accidental {
        Some(accidental) => Some(sign_glyph(accidental)),
        None => None,
    })
    &&& plan.shifted == note.head_shift
    &&& plan.dot == (if note.dotted {
        Some(if note.step % 2 == 0 {
            (note.step + 1) as i32
        } else {
            note.step
        })
    } else {
        None
    })
    &&& plan.ledgers@.len() == ledgers(note.staff, note.step as int).len()
    &&& forall|n: int|
        0 <= n < plan.ledgers@.len() ==> #[trigger] plan.ledgers@[n] == ledgers(
            note.staff,
            note.step as int,
        )[n]
}

/// Plans how one note is drawn at time `now`.
pub fn plan_note(note: &SheetNote, now: i128) -> (plan: NotePlan)
    requires
        -1_000_000 <= note.step <= 1_000_000,
    ensures
        draws_note(plan, *note, now as int),
{
    let head = match note.head {
        Head::Whole => Glyph::Whole,
        Head::Half => Glyph::Half,
        Head::Black => Glyph::Black,
    };
    let accidental = match note.accidental {
        Some(accidental) => Some(accidental_glyph(accidental)),
        None => None,
    };
    let dot: Option<i32> = if note.dotted {
        let on_line = match note.step.checked_rem_euclid(2) {
            Some(rest) => rest == 0,
            None => false,
        };
        Some(
            if on_line {
                note.step + 1
            } else {
                note.step
            },
        )
    } else {
        None
    };
    NotePlan {
        start: note.start,
        end: note.end,
        step: note.step,
        sounding: note.start as i128 <= now && now <= note.end as i128,
        past: (note.end as i128) < now,
        head,
        accidental,
        shifted: note.head_shift,
        dot,
        ledgers: ledger_steps(note.staff, note.step),
    }
}

/// How one stem is drawn at a moment.
#[derive(Debug, Clone, Copy, PartialEq, Eq, Structural)]
pub struct StemPlan {
    pub start: u64,
    pub down: bool,
    pub base_step: i32,
    pub tip_step: i32,
    pub shifted: bool,
    /// The stem is over: drawn dim.
    pub past: bool,
    pub flag: Option<Glyph>,
}

pub open spec fn stem_plan(stem: SheetStem, now: int) -> StemPlan {
    StemPlan {
        start: stem.start,
        down: stem.down,
        base_step: stem.base_step,
        tip_step: stem.tip_step,
        shifted: stem.base_shifted,
        past: stem.start < now - STEM_LINGER,
        flag: flag(stem.flags, stem.down),
    }
}

/// Plans how one stem is drawn at time `now`.
pub fn plan_stem(stem: &SheetStem, now: i128) -> (plan: StemPlan)
    ensures
        plan == stem_plan(*stem, now as int),
{
    let flag = if stem.flags == 0 {
        None
    } else {
        Some(
            match (stem.flags, stem.down) {
                (1, false) => Glyph::Flag8Up,
                (1, true) => Glyph::Flag8Down,
                (_, false) => Glyph::Flag16Up,
                (_, true) => Glyph::Flag16Down,
            },
        )
    };
    StemPlan {
        start: stem.start,
        down: stem.down,
        base_step: stem.base_step,
        tip_step: stem.tip_step,
        shifted: stem.base_shifted,
        past: now > STEM_LINGER && (stem.start as i128) < now - STEM_LINGER,
        flag,
    }
}

/// How many leading times are before `from`.
pub open spec fn before_count(starts: Seq<u64>, from: int) -> int
    decreases starts.len(),
{
    if starts.len() == 0 || starts[0] >= from {
        0
    } else {
        1 + before_count(starts.skip(1), from)
    }
}

/// How many leading times are not after `to`.
pub open spec fn until_count(starts: Seq<u64>, to: int) -> int
    decreases starts.len(),
{
    if starts.len() == 0 || starts[0] > to {
        0
    } else {
        1 + until_count(starts.skip(1), to)
    }
}

/// The strip for a song.
pub struct SheetMusic {
    pub score: Score,
    /// Half pixels from the top of the strip to middle C.
    pub middle_c_y: i32,
    pub height: i32,
}

/// Positions left clear above the printed lines: what the song reaches, within
/// bounds.
pub open spec fn pad_top(score: Score) -> int {
    clamped(
        score.top_step - score.staves.lines().0 + 1,
        score.staves.min_padding().0,
        MAX_PAD_STEPS as int,
    )
}

/// Positions left clear below the printed lines.
pub open spec fn pad_bottom(score: Score) -> int {
    clamped(
        score.staves.lines().1 - score.bottom_step + 1,
        score.staves.min_padding().1,
        MAX_PAD_STEPS as int,
    )
}

impl SheetMusic {
    /// The strip is as tall as its lines and what is left clear around them.
    pub open spec fn wf(self) -> bool {
        let (top, bottom) = self.score.staves.lines();
        &&& self.height == STEP * (top - bottom + pad_top(self.score) + pad_bottom(self.score)) + 2
            * MARGIN
        &&& self.middle_c_y == MARGIN + STEP * (pad_top(self.score) + top)
    }

    /// Half pixels from the top of the strip to a staff position.
    pub open spec fn y(self, step: int) -> int {
        self.middle_c_y - STEP * step
    }

    /// Sizes a strip to what a song reaches, so that a right-hand melody gets a
    /// shallow staff and only a piece that really does climb onto ledger lines
    /// pays for the room.
    pub fn for_score(score: Score) -> (sheet: Self)
        requires
            -1_000_000 <= score.top_step <= 1_000_000,
            -1_000_000 <= score.bottom_step <= 1_000_000,
        ensures
            sheet.wf(),
            sheet.score == score,
    {
        let (top, bottom): (i32, i32) = score.staves.extent();
        let (min_top, min_bottom): (i32, i32) = score.staves.min_padding_steps();
        let above: i32 = clamp_steps(score.top_step - top + 1, min_top, MAX_PAD_STEPS);
        let below: i32 = clamp_steps(bottom - score.bottom_step + 1, min_bottom, MAX_PAD_STEPS);
        let height: i32 = STEP * (top - bottom + above + below) + 2 * MARGIN;
        let middle_c_y: i32 = MARGIN + STEP * (above + top);
        SheetMusic { score, middle_c_y, height }
    }

    /// Height of the strip in half pixels.
    pub fn height(&self) -> (height: i32)
        ensures
            height == self.height,
    {
        self.height
    }

    pub fn is_empty(&self) -> (empty: bool)
        ensures
            empty == (self.score.notes@.len() == 0),
    {
        self.score.notes.len() == 0
    }

    /// Half pixels from the top of the strip to a staff position.
    pub fn y_of(&self, step: i32) -> (y: i32)
        requires
            self.wf(),
            -1_000_000 <= step <= 1_000_000,
        ensures
            y == self.y(step as int),
    {
        self.middle_c_y - STEP * step
    }

    /// The staves that are drawn, top one first.
    pub fn staves(&self) -> (staves: Vec<Staff>)
        ensures
            staves@ == (match self.score.staves {
                Staves::Treble => seq![Staff::Treble],
                Staves::Bass => seq![Staff::Bass],
                Staves::Grand => seq![Staff::Treble, Staff::Bass],
            }),
    {
        let mut staves: Vec<Staff> = Vec::new();
        if self.score.staves.contains(Staff::Treble) {
            staves.push(Staff::Treble);
        }
        if self.score.staves.contains(Staff::Bass) {
            staves.push(Staff::Bass);
        }
        staves
    }

    /// The clef of a staff and the position it is written on: a G clef curls
    /// around the G above middle C, an F clef's two dots straddle the F below it.
    pub fn clef(staff: Staff) -> (clef: (Glyph, i32))
        ensures
            clef == (match staff {
                Staff::Treble => (Glyph::ClefG, 4i32),
                Staff::Bass => (Glyph::ClefF, -4i32),
            }),
    {
        match staff {
            Staff::Treble => (Glyph::ClefG, 4),
            Staff::Bass => (Glyph::ClefF, -4),
        }
    }

    /// The notes near the playhead at time `now`, each as it is drawn, in order:
    /// those of the printed staves that begin within reach of it.
    pub fn plan_notes(&self, now: i128) -> (plans: Vec<NotePlan>)
        requires
            i128::MIN + REACH <= now <= i128::MAX - REACH,
            forall|k: int|
                0 <= k < self.score.notes@.len() ==> -1_000_000 <= (
                #[trigger] self.score.notes@[k]).step <= 1_000_000,
        ensures
            draws_notes(plans@, near_notes(self.score, now as int), now as int),
    {
        let notes = &self.score.notes;
        let from: i128 = now - REACH;
        let to: i128 = now + REACH;
        let mut first: usize = 0;
        proof {
            assert(note_starts(notes@).skip(0) =~= note_starts(notes@));
        }
        while first < notes.len() && (notes[first].start as i128) < from
            invariant
                first <= notes@.len(),
                first + before_count(note_starts(notes@).skip(first as int), from as int)
                    == before_count(note_starts(notes@), from as int),
            decreases notes@.len() - first,
        {
            proof {
                let rest = note_starts(notes@).skip(first as int);
                assert(rest[0] == notes@[first as int].start);
                assert(rest.skip(1) =~= note_starts(notes@).skip(first + 1));
            }
            first = first + 1;
        }
        let ghost start = first as int;
        let ghost rest = note_starts(notes@).skip(start);
        proof {
            if first < notes@.len() {
                assert(rest[0] == notes@[start].start);
            }
            assert(before_count(rest, from as int) == 0);
            assert(rest.skip(0) =~= rest);
        }
        let mut plans: Vec<NotePlan> = Vec::new();
        let ghost mut shown: Seq<SheetNote> = Seq::empty();
        proof {
            assert(notes@.subrange(start, start) =~= Seq::<SheetNote>::empty());
        }
        while first < notes.len() && notes[first].start as i128 <= to
            invariant
                0 <= start <= first <= notes@.len(),
                notes@ == self.score.notes@,
                rest == note_starts(notes@).skip(start),
                forall|k: int|
                    0 <= k < notes@.len() ==> -1_000_000 <= (#[trigger] notes@[k]).step
                        <= 1_000_000,
                first - start + until_count(rest.skip(first - start), to as int) == until_count(
                    rest,
                    to as int,
                ),
                shown == on_printed(notes@.subrange(start, first as int), self.score.staves),
                draws_notes(plans@, shown, now as int),
            decreases notes@.len() - first,
        {
            let note = notes[first];
            proof {
                let left = rest.skip(first - start);
                assert(left[0] == note.start);
                assert(left.skip(1) =~= rest.skip(first + 1 - start));
                assert(notes@.subrange(start, first + 1).drop_last() =~= notes@.subrange(
                    start,
                    first as int,
                ));
            }
            if self.score.staves.contains(note.staff) {
                let plan = plan_note(&note, now);
                plans.push(plan);
                proof {
                    shown = shown.push(note);
                }
            }
            first = first + 1;
        }
        proof {
            if first < notes@.len() {
                assert(rest.skip(first - start)[0] == notes@[first as int].start);
            }
            assert(until_count(rest.skip(first - start), to as int) == 0);
        }
        plans
    }

    /// The stems near the playhead at time `now`, each as it is drawn, in order.
    pub fn plan_stems(&self, now: i128) -> (plans: Vec<StemPlan>)
        requires
            i128::MIN + REACH <= now <= i128::MAX - REACH,
        ensures
            plans@ == near_stems(self.score, now as int).map_values(
                |s: SheetStem| stem_plan(s, now as int),
            ),
    {
        let stems = &self.score.stems;
        let from: i128 = now - REACH;
        let to: i128 = now + REACH;
        let mut first: usize = 0;
        proof {
            assert(stem_starts(stems@).skip(0) =~= stem_starts(stems@));
        }
        while first < stems.len() && (stems[first].start as i128) < from
            invariant
                first <= stems@.len(),
                first + before_count(stem_starts(stems@).skip(first as int), from as int)
                    == before_count(stem_starts(stems@), from as int),
            decreases stems@.len() - first,
        {
            proof {
                let rest = stem_starts(stems@).skip(first as int);
                assert(rest[0] == stems@[first as int].start);
                assert(rest.skip(1) =~= stem_starts(stems@).skip(first + 1));
            }
            first = first + 1;
        }
        let ghost start = first as int;
        let ghost rest = stem_starts(stems@).skip(start);
        proof {
            if first < stems@.len() {
                assert(rest[0] == stems@[start].start);
            }
            assert(before_count(rest, from as int) == 0);
            assert(rest.skip(0) =~= rest);
            assert(stems@.subrange(start, start) =~= Seq::<SheetStem>::empty());
        }
        let mut plans: Vec<StemPlan> = Vec::new();
        let ghost f = |s: SheetStem| stem_plan(s, now as int);
        while first < stems.len() && stems[first].start as i128 <= to
            invariant
                0 <= start <= first <= stems@.len(),
                stems@ == self.score.stems@,
                rest == stem_starts(stems@).skip(start),
                f == (|s: SheetStem| stem_plan(s, now as int)),
                first - start + until_count(rest.skip(first - start), to as int) == until_count(
                    rest,
                    to as int,
                ),
                plans@ == on_printed_stems(
                    stems@.subrange(start, first as int),
                    self.score.staves,
                ).map_values(f),
            decreases stems@.len() - first,
        {
            let stem = stems[first];
            proof {
                let left = rest.skip(first - start);
                assert(left[0] == stem.start);
                assert(left.skip(1) =~= rest.skip(first + 1 - start));
                assert(stems@.subrange(start, first + 1).drop_last() =~= stems@.subrange(
                    start,
                    first as int,
                ));
            }
            let ghost earlier = plans@;
            let ghost before = on_printed_stems(
                stems@.subrange(start, first as int),
                self.score.staves,
            );
            if self.score.staves.contains(stem.staff) {
                plans.push(plan_stem(&stem, now));
                assert(plans@ =~= before.push(stem).map_values(f));
            }
            first = first + 1;
        }
        proof {
            if first < stems@.len() {
                assert(rest.skip(first - start)[0] == stems@[first as int].start);
            }
            assert(until_count(rest.skip(first - start), to as int) == 0);
        }
        plans
    }
}

pub open spec fn note_starts(notes: Seq<SheetNote>) -> Seq<u64> {
    notes.map_values(|n: SheetNote| n.start)
}

pub open spec fn stem_starts(stems: Seq<SheetStem>) -> Seq<u64> {
    stems.map_values(|s: SheetStem| s.start)
}

/// The notes on staves that are printed.
pub open spec fn on_printed(notes: Seq<SheetNote>, staves: Staves) -> Seq<SheetNote>
    decreases notes.len(),
{
    if notes.len() == 0 {
        notes
    } else if staves.has(notes.last().staff) {
        on_printed(notes.drop_last(), staves).push(notes.last())
    } else {
        on_printed(notes.drop_last(), staves)
    }
}

/// The stems on staves that are printed.
pub open spec fn on_printed_stems(stems: Seq<SheetStem>, staves: Staves) -> Seq<SheetStem>
    decreases stems.len(),
{
    if stems.len() == 0 {
        stems
    } else if staves.has(stems.last().staff) {
        on_printed_stems(stems.drop_last(), staves).push(stems.last())
    } else {
        on_printed_stems(stems.drop_last(), staves)
    }
}

/// The notes of a score that are drawn at time `now`.
pub open spec fn near_notes(score: Score, now: int) -> Seq<SheetNote> {
    let starts = note_starts(score.notes@);
    let first = before_count(starts, now - REACH);
    let count = until_count(starts.skip(first), now + REACH);
    on_printed(score.notes@.subrange(first, first + count), score.staves)
}

/// The stems of a score that are drawn at time `now`.
pub open spec fn near_stems(score: Score, now: int) -> Seq<SheetStem> {
    let starts = stem_starts(score.stems@);
    let first = before_count(starts, now - REACH);
    let count = until_count(starts.skip(first), now + REACH);
    on_printed_stems(score.stems@.subrange(first, first + count), score.staves)
}

/// Whether `plans` are how `notes` are drawn, one by one.
pub open spec fn draws_notes(plans: Seq<NotePlan>, notes: Seq<SheetNote>, now: int) -> bool {
    &&& plans.len() == notes.len()
    &&& forall|k: int| 0 <= k < plans.len() ==> draws_note(#[trigger] plans[k], notes[k], now)
}

/// Engraves a song and sizes its strip.
pub fn sheet_music(notes: &[MidiNote], measures: &[u64], quarters: Quarters) -> (sheet: SheetMusic)
    requires
        quarters.den > 0,
        forall|n: int|
            0 <= n < notes@.len() ==> (#[trigger] notes@[n]).start + notes@[n].duration <= u64::MAX,
    ensures
        sheet.wf(),
        sheet.score.engraves(notes@, measures@, quarters),
        forall|k: int|
            0 <= k < sheet.score.notes@.len() ==> -100 <= (#[trigger] sheet.score.notes@[k]).step
                <= 200,
{
    let score = engrave(notes, measures, quarters);
    SheetMusic::for_score(score)
}

/// Every printed line lies within the strip.
pub proof fn law_lines_lie_within_the_strip(sheet: SheetMusic, staff: Staff, n: int)
    requires
        sheet.wf(),
        sheet.score.staves.has(staff),
        -2 <= n <= 2,
    ensures
        0 <= sheet.y(staff.middle_line() + 2 * n) <= sheet.height,
{
}

/// Notes drawn higher on the strip are higher on the staff.
pub proof fn law_higher_is_higher(sheet: SheetMusic, a: int, b: int)
    ensures
        a < b <==> sheet.y(b) < sheet.y(a),
{
}

/// Every symbol has its own place in the music font.
pub proof fn law_symbols_have_their_places(a: Glyph, b: Glyph)
    ensures
        a.code() == b.code() <==> a == b,
        Glyph::Whole.code() == 0xE0A2 && Glyph::Half.code() == 0xE0A3 && Glyph::Black.code()
            == 0xE0A4,
        Glyph::Flat.code() == 0xE260 && Glyph::Natural.code() == 0xE261 && Glyph::Sharp.code()
            == 0xE262,
        Glyph::ClefG.code() == 0xE050 && Glyph::ClefF.code() == 0xE062,
        Glyph::Flag8Up.code() == 0xE240 && Glyph::Flag8Down.code() == 0xE241,
        Glyph::Flag16Up.code() == 0xE242 && Glyph::Flag16Down.code() == 0xE243,
{
}

/// Signs and heads are drawn as what they are, and a stem carries a flag exactly when its
/// note has flags: one that points down on a stem that does.
pub proof fn law_symbols_are_drawn_as_they_are(flags: u8, down: bool)
    ensures
        sign_glyph(Accidental::Sharp) == Glyph::Sharp,
        sign_glyph(Accidental::Flat) == Glyph::Flat,
        sign_glyph(Accidental::Natural) == Glyph::Natural,
        notehead(Head::Whole) == Glyph::Whole,
        notehead(Head::Half) == Glyph::Half,
        notehead(Head::Black) == Glyph::Black,
        flag(flags, down) is None <==> flags == 0,
        flag(flags, down) == Some(Glyph::Flag8Down) <==> flags == 1 && down,
        flag(flags, down) == Some(Glyph::Flag8Up) <==> flags == 1 && !down,
        flag(flags, down) == Some(Glyph::Flag16Down) <==> flags >= 2 && down,
        flag(flags, down) == Some(Glyph::Flag16Up) <==> flags >= 2 && !down,
{
}

/// A note has a ledger line on every second position beyond the five lines of its staff,
/// as far as the note itself, and on no other; the lines are drawn from the staff outwards.
pub proof fn law_ledger_lines_reach_the_note(staff: Staff, step: int, at: int)
    ensures
        ledgers(staff, step).contains(at) <==> (at - staff.middle_line()) % 2 == 0 && ((
        staff.middle_line() + 4 < at <= step) || (step <= at < staff.middle_line() - 4)),
        forall|m: int, n: int|
            0 <= m < n < ledgers(staff, step).len() ==> (step > staff.middle_line()
                ==> #[trigger] ledgers(staff, step)[m] < #[trigger] ledgers(staff, step)[n]) && (
            step < staff.middle_line() ==> ledgers(staff, step)[m] > ledgers(staff, step)[n]),
{
    let low = staff.middle_line() - 4;
    let high = staff.middle_line() + 4;
    let lines = ledgers(staff, step);
    if (at - staff.middle_line()) % 2 == 0 && high < at <= step {
        let n = (at - high) / 2 - 1;
        assert(lines[n] == at);
    }
    if (at - staff.middle_line()) % 2 == 0 && step <= at < low {
        let n = (low - at) / 2 - 1;
        assert(lines[n] == at);
    }
    if lines.contains(at) {
        let n = choose|n: int| 0 <= n < lines.len() && lines[n] == at;
        assert(lines[n] == at);
    }
}

/// How a note is drawn: where and when it is, bright while it sounds and dim once it is
/// over. Its dot, if it has one, is in a space, no lower than the note and at most one
/// position above.
pub proof fn law_how_a_note_is_drawn(plan: NotePlan, note: SheetNote, now: int)
    requires
        draws_note(plan, note, now),
        -1_000_000 <= note.step <= 1_000_000,
    ensures
        plan.start == note.start && plan.end == note.end && plan.step == note.step,
        plan.sounding <==> note.start <= now && now <= note.end,
        plan.past <==> now > note.end,
        plan.shifted == note.head_shift,
        plan.head == notehead(note.head),
        plan.accidental is Some <==> note.accidental is Some,
        plan.accidental is Some ==> plan.accidental->0 == sign_glyph(note.accidental->0),
        plan.dot is Some <==> note.dotted,
        plan.dot is Some ==> (plan.dot->0 as int) % 2 == 1 && note.step <= plan.dot->0
            <= note.step + 1,
{
}

/// How a stem is drawn: as it is engraved, with its flag, and dim from 50 ms after it
/// begins.
pub proof fn law_how_a_stem_is_drawn(stem: SheetStem, now: int)
    ensures
        ({
            let plan = stem_plan(stem, now);
            &&& plan.start == stem.start && plan.down == stem.down
            &&& plan.base_step == stem.base_step && plan.tip_step == stem.tip_step
            &&& plan.shifted == stem.base_shifted
            &&& plan.past <==> now > stem.start + 50_000_000
            &&& plan.flag == flag(stem.flags, stem.down)
        }),
{
}

proof fn lemma_before_count(starts: Seq<u64>, from: int)
    ensures
        0 <= before_count(starts, from) <= starts.len(),
        forall|i: int| 0 <= i < before_count(starts, from) ==> #[trigger] starts[i] < from,
        before_count(starts, from) < starts.len() ==> starts[before_count(starts, from)] >= from,
    decreases starts.len(),
{
    if starts.len() > 0 && starts[0] < from {
        let rest = starts.skip(1);
        lemma_before_count(rest, from);
        assert forall|i: int| 0 <= i < before_count(starts, from) implies #[trigger] starts[i]
            < from by {
            if i > 0 {
                assert(rest[i - 1] == starts[i]);
            }
        }
        if before_count(starts, from) < starts.len() {
            assert(rest[before_count(rest, from)] == starts[before_count(starts, from)]);
        }
    }
}

proof fn lemma_until_count(starts: Seq<u64>, to: int)
    ensures
        0 <= until_count(starts, to) <= starts.len(),
        forall|i: int| 0 <= i < until_count(starts, to) ==> #[trigger] starts[i] <= to,
        until_count(starts, to) < starts.len() ==> starts[until_count(starts, to)] > to,
    decreases starts.len(),
{
    if starts.len() > 0 && starts[0] <= to {
        let rest = starts.skip(1);
        lemma_until_count(rest, to);
        assert forall|i: int| 0 <= i < until_count(starts, to) implies #[trigger] starts[i]
            <= to by {
            if i > 0 {
                assert(rest[i - 1] == starts[i]);
            }
        }
        if until_count(starts, to) < starts.len() {
            assert(rest[until_count(rest, to)] == starts[until_count(starts, to)]);
        }
    }
}

/// The part of an ascending list of times that lies between two times.
proof fn lemma_window(starts: Seq<u64>, from: int, to: int)
    requires
        forall|i: int, j: int| 0 <= i < j < starts.len() ==> starts[i] <= starts[j],
        from <= to,
    ensures
        ({
            let first = before_count(starts, from);
            let count = until_count(starts.skip(first), to);
            &&& 0 <= first && 0 <= count && first + count <= starts.len()
            &&& forall|i: int|
                0 <= i < starts.len() ==> (first <= i < first + count <==> from
                    <= #[trigger] starts[i] && starts[i] <= to)
        }),
{
    lemma_before_count(starts, from);
    let first = before_count(starts, from);
    let rest = starts.skip(first);
    lemma_until_count(rest, to);
    let count = until_count(rest, to);
    assert forall|i: int| 0 <= i < starts.len() implies (first <= i < first + count <==> from
        <= #[trigger] starts[i] && starts[i] <= to) by {
        if i >= first {
            assert(starts[first] >= from);
            assert(rest[i - first] == starts[i]);
            if i >= first + count {
                assert(rest[count] == starts[first + count]);
            }
        }
    }
}

/// The notes on printed staves are picked one by one, in order.
pub proof fn law_printed_notes_are_picked_one_by_one(
    before: Seq<SheetNote>,
    note: SheetNote,
    after: Seq<SheetNote>,
    staves: Staves,
)
    ensures
        on_printed(before + seq![note] + after, staves) == on_printed(before, staves) + (
        if staves.has(note.staff) {
            seq![note]
        } else {
            Seq::<SheetNote>::empty()
        }) + on_printed(after, staves),
    decreases after.len(),
{
    let all = before + seq![note] + after;
    let own = if staves.has(note.staff) {
        seq![note]
    } else {
        Seq::<SheetNote>::empty()
    };
    if after.len() == 0 {
        assert(all.drop_last() =~= before);
    } else {
        law_printed_notes_are_picked_one_by_one(before, note, after.drop_last(), staves);
        assert(all.drop_last() =~= before + seq![note] + after.drop_last());
    }
    assert(on_printed(all, staves) =~= on_printed(before, staves) + own + on_printed(after, staves));
}

/// The stems on printed staves are picked one by one, in order.
pub proof fn law_printed_stems_are_picked_one_by_one(
    before: Seq<SheetStem>,
    stem: SheetStem,
    after: Seq<SheetStem>,
    staves: Staves,
)
    ensures
        on_printed_stems(before + seq![stem] + after, staves) == on_printed_stems(before, staves)
            + (if staves.has(stem.staff) {
            seq![stem]
        } else {
            Seq::<SheetStem>::empty()
        }) + on_printed_stems(after, staves),
    decreases after.len(),
{
    let all = before + seq![stem] + after;
    let own = if staves.has(stem.staff) {
        seq![stem]
    } else {
        Seq::<SheetStem>::empty()
    };
    if after.len() == 0 {
        assert(all.drop_last() =~= before);
    } else {
        law_printed_stems_are_picked_one_by_one(before, stem, after.drop_last(), staves);
        assert(all.drop_last() =~= before + seq![stem] + after.drop_last());
    }
    assert(on_printed_stems(all, staves) =~= on_printed_stems(before, staves) + own
        + on_printed_stems(after, staves));
}

/// The notes that are drawn are those of printed staves that begin within four seconds of
/// the playhead, either side of it.
pub proof fn law_the_notes_near_the_playhead(score: Score, now: int, from: int, to: int)
    requires
        0 <= from <= to <= score.notes@.len(),
        forall|i: int, j: int|
            0 <= i < j < score.notes@.len() ==> (#[trigger] score.notes@[i]).start <= (
            #[trigger] score.notes@[j]).start,
        forall|i: int|
            0 <= i < score.notes@.len() ==> (from <= i < to <==> now - 4_000_000_000 <= (
            #[trigger] score.notes@[i]).start && score.notes@[i].start <= now + 4_000_000_000),
    ensures
        near_notes(score, now) == on_printed(score.notes@.subrange(from, to), score.staves),
{
    let notes = score.notes@;
    let starts = note_starts(notes);
    assert forall|i: int, j: int| 0 <= i < j < starts.len() implies starts[i] <= starts[j] by {
        assert(notes[i].start <= notes[j].start);
    }
    lemma_window(starts, now - REACH, now + REACH);
    let first = before_count(starts, now - REACH);
    let count = until_count(starts.skip(first), now + REACH);
    assert forall|i: int| 0 <= i < notes.len() implies #[trigger] within(i, from, to) == within(
        i,
        first,
        first + count,
    ) by {
        assert(starts[i] == notes[i].start);
    }
    lemma_same_range(notes.len() as int, from, to, first, first + count);
    if from == to {
        assert(notes.subrange(from, to) =~= notes.subrange(first, first + count));
    }
}

/// The stems that are drawn are those of printed staves that begin within four seconds of
/// the playhead, either side of it.
pub proof fn law_the_stems_near_the_playhead(score: Score, now: int, from: int, to: int)
    requires
        0 <= from <= to <= score.stems@.len(),
        forall|i: int, j: int|
            0 <= i < j < score.stems@.len() ==> (#[trigger] score.stems@[i]).start <= (
            #[trigger] score.stems@[j]).start,
        forall|i: int|
            0 <= i < score.stems@.len() ==> (from <= i < to <==> now - 4_000_000_000 <= (
            #[trigger] score.stems@[i]).start && score.stems@[i].start <= now + 4_000_000_000),
    ensures
        near_stems(score, now) == on_printed_stems(
            score.stems@.subrange(from, to),
            score.staves,
        ),
{
    let stems = score.stems@;
    let starts = stem_starts(stems);
    assert forall|i: int, j: int| 0 <= i < j < starts.len() implies starts[i] <= starts[j] by {
        assert(stems[i].start <= stems[j].start);
    }
    lemma_window(starts, now - REACH, now + REACH);
    let first = before_count(starts, now - REACH);
    let count = until_count(starts.skip(first), now + REACH);
    assert forall|i: int| 0 <= i < stems.len() implies #[trigger] within(i, from, to) == within(
        i,
        first,
        first + count,
    ) by {
        assert(starts[i] == stems[i].start);
    }
    lemma_same_range(stems.len() as int, from, to, first, first + count);
    if from == to {
        assert(stems.subrange(from, to) =~= stems.subrange(first, first + count));
    }
}

/// Two ranges of the same positions are one, or both hold nothing.
proof fn lemma_same_range(len: int, a: int, b: int, c: int, d: int)
    requires
        0 <= a <= b <= len,
        0 <= c <= d <= len,
        forall|i: int| 0 <= i < len ==> #[trigger] within(i, a, b) == within(i, c, d),
    ensures
        (a == c && b == d) || (a == b && c == d),
{
    if a < b {
        assert(within(a, a, b) && within(b - 1, a, b));
        if c < d {
            assert(within(c, c, d) && within(d - 1, c, d));
            assert(within(c, a, b) && within(d - 1, a, b));
        }
    } else if c < d {
        assert(within(c, c, d));
        assert(within(c, a, b) == within(c, c, d));
    }
}

spec fn within(i: int, a: int, b: int) -> bool {
    a <= i < b
}

/// The strip has room, in half pixels, for the song: nine for every position that the
/// lines and the notes take up, twelve at either edge, and no more than twelve positions
/// beyond the lines on either side.
pub proof fn law_the_strip_has_room_for_the_song(sheet: SheetMusic)
    requires
        sheet.wf(),
    ensures
        ({
            let score = sheet.score;
            let (top, bottom) = score.staves.lines();
            let (above, below) = score.staves.min_padding();
            &&& forall|step: int| sheet.y(step) - #[trigger] sheet.y(step + 1) == 9
            &&& above <= 12 && score.top_step <= top + 11 ==> sheet.y(score.top_step as int) >= 21
            &&& below <= 12 && score.bottom_step >= bottom - 11 ==> sheet.height - sheet.y(
                score.bottom_step as int,
            ) >= 21
            &&& above <= 12 && score.top_step - top + 1 < above ==> sheet.y(top) == 12 + 9 * above
            &&& above <= 12 && above <= score.top_step - top + 1 <= 12 ==> sheet.y(
                score.top_step as int,
            ) == 21
            &&& below <= 12 && below <= bottom - score.bottom_step + 1 <= 12 ==> sheet.height
                - sheet.y(score.bottom_step as int) == 21
            &&& above <= 12 && score.top_step - top + 1 > 12 ==> sheet.y(top) == 12 + 9 * 12
            &&& below <= 12 && bottom - score.bottom_step + 1 > 12 ==> sheet.height - sheet.y(
                bottom,
            ) == 12 + 9 * 12
            &&& below <= 12 && bottom - score.bottom_step + 1 < below ==> sheet.height - sheet.y(
                bottom,
            ) == 12 + 9 * below
        }),
{
}

/// The notes are all drawn, one by one, in order.
pub proof fn law_every_near_note_is_drawn(
    plans: Seq<NotePlan>,
    notes: Seq<SheetNote>,
    now: int,
    k: int,
)
    requires
        draws_notes(plans, notes, now),
        0 <= k < notes.len(),
    ensures
        plans.len() == notes.len(),
        plans[k].start == notes[k].start,
        draws_note(plans[k], notes[k], now),
{
    assert(draws_note(plans[k], notes[k], now));
}

} // verus!
