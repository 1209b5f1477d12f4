//! The arcade layer over a performance: combo, chain, surge, score.
//!
//! A chord is one musical event, so it is worth one combo step however many keys
//! it puts down. A chain of clean PERFECT chords calls lightning down and leaves
//! the board surging for a while, every note worth half again as much. The chain
//! does not build while the board is already surging: the lights have to go down
//! before another strike can be earned.
//!
//! Where things are drawn is not decided here. What is decided is what a note
//! does to the tallies, how much there is to draw for it, and which random draws
//! belong to it: they are taken then and there, so that what comes next begins
//! where they ended.
use std::collections::VecDeque;

use vstd::prelude::*;

use crate::chance::{
    advance, draw, draw_bolt, draw_many, drawn, lemma_advance_adds, next_draw, next_u64, BoltPlan,
};
use crate::results::{Fraction, Results};

verus! {

/// The most particles that are alive at once.
pub const MAX_PARTICLES: usize = 6000;

/// The streak from which the keyboard is on fire.
pub const FIRE_COMBO: u32 = 15;

/// How many recent notes the audience judges a player on.
pub const SENTIMENT_WINDOW: usize = 20;

/// A press within 120 ms of the note is PERFECT.
pub const PERFECT_WINDOW: u64 = 120_000_000;

/// A press within 280 ms of the note is GOOD.
pub const GOOD_WINDOW: u64 = 280_000_000;

/// How long the song may sit stalled on a note, 450 ms, before the eventual
/// catch-up stops counting as playing it.
pub const SLOW_WINDOW: u64 = 450_000_000;

/// Notes the song starts within 30 ms of each other are one chord.
pub const CHORD_WINDOW: u64 = 30_000_000;

/// Consecutive chords struck entirely on PERFECT timing that call down the
/// lightning.
pub const BOLT_CHORDS: u32 = 2;

/// How long the board stays lit after a bolt lands: eight seconds.
pub const SURGE_TIME: u64 = 8_000_000_000;

/// How long the combo counter pops after a step: a quarter of a second.
pub const POP_TIME: u64 = 250_000_000;

/// A full white-out, in two-billionths; it fades by seven of them every
/// nanosecond.
pub const FULL_FLASH: u64 = 2_000_000_000;

/// How long a timing grade rises out of its key: 900 ms.
pub const RISING_TIME: u64 = 900_000_000;

/// How long the fireworks of the results screen pause between bursts: 550 ms.
pub const FIREWORK_GAP: u64 = 550_000_000;

/// Timing tag on a rising text: how the note was struck.
#[derive(Debug, Clone, Copy, PartialEq, Eq, Structural)]
pub enum RisingGrade {
    Perfect,
    Good,
    /// Correct key, but only after the song stalled and waited for it.
    Slow,
}

impl RisingGrade {
    pub open spec fn label(self) -> Seq<char> {
        match self {
            RisingGrade::Perfect => "PERFECT!"@,
            RisingGrade::Good => "GOOD"@,
            RisingGrade::Slow => "TOO SLOW"@,
        }
    }

    pub fn text(&self) -> (text: &'static str)
        ensures
            text@ == self.label(),
    {
        match self {
            RisingGrade::Perfect => "PERFECT!",
            RisingGrade::Good => "GOOD",
            RisingGrade::Slow => "TOO SLOW",
        }
    }
}

/// A timing grade rising out of the top of a struck key. The key's place is
/// carried along as two bit patterns.
#[derive(Debug, Clone, Copy, PartialEq, Eq, Structural)]
pub struct RisingText {
    pub x: u32,
    pub y0: u32,
    pub age: u64,
    pub life: u64,
    pub grade: RisingGrade,
}

impl RisingText {
    pub fn text(&self) -> (text: &'static str)
        ensures
            text@ == self.grade.label(),
    {
        self.grade.text()
    }
}

/// A falling note bar that was struck correctly and is currently lit up, in
/// nanoseconds of song time. Its lane is carried along as two bit patterns.
#[derive(Debug, Clone, Copy, PartialEq, Eq, Structural)]
pub struct NoteFlash {
    pub note: u8,
    pub x: u32,
    pub w: u32,
    pub start: u64,
    /// Length of the bar: never under 90 ms.
    pub h: u64,
    pub life: u64,
    pub max_life: u64,
}

/// The running tallies of a song.
#[derive(Debug, Clone, Copy, PartialEq, Eq, Structural)]
pub struct Tally {
    pub combo: u32,
    pub best_combo: u32,
    /// When the song asked for the chord that the last correct hit belonged to.
    pub last_chord: Option<u64>,
    /// Consecutive chords struck entirely on PERFECT timing.
    pub perfect_chords: u32,
    /// Is the chord being played right now still all PERFECT?
    pub chord_all_perfect: bool,
    /// Nanoseconds left on the surge that a bolt kicks off.
    pub surge: u64,
    pub total_perfect: u32,
    pub total_good: u32,
    pub total_ok: u32,
    pub total_wrong: u32,
    /// Targets nobody played.
    pub total_missed: u32,
    pub score: u64,
}

/// What a combo multiplies points by: one more for every ten steps, at most
/// four.
pub open spec fn multiplier_of(combo: int) -> int {
    if combo >= 30 {
        4
    } else {
        1 + combo / 10
    }
}

/// Points after the surge bonus of half as much again.
pub open spec fn boosted(points: int, surge: int) -> int {
    if surge > 0 {
        points * 3 / 2
    } else {
        points
    }
}

/// Whether two notes belong to one chord: by when the song asked for them, not
/// by when they were played, so that a rolled chord is still one chord.
pub open spec fn same_chord(a: Option<u64>, b: Option<u64>) -> bool {
    match (a, b) {
        (Some(x), Some(y)) => -CHORD_WINDOW <= x - y <= CHORD_WINDOW,
        _ => false,
    }
}

/// Whether a press was a catch-up that the song sat and waited for.
pub open spec fn too_slow(delta: u64, late: bool) -> bool {
    late && delta > SLOW_WINDOW
}

/// Points of a hit before any bonus.
pub open spec fn face_value(delta: u64) -> int {
    if delta <= PERFECT_WINDOW {
        100
    } else if delta <= GOOD_WINDOW {
        60
    } else {
        20
    }
}

/// The timing grade that a hit shows; a late catch-up that is not too slow shows
/// none.
pub open spec fn shown_grade(delta: u64, late: bool) -> Option<RisingGrade> {
    if too_slow(delta, late) {
        Some(RisingGrade::Slow)
    } else if delta <= PERFECT_WINDOW {
        Some(RisingGrade::Perfect)
    } else if delta <= GOOD_WINDOW {
        Some(RisingGrade::Good)
    } else {
        None
    }
}

impl Tally {
    /// How many notes were landed.
    pub open spec fn hits(self) -> int {
        self.total_perfect + self.total_good + self.total_ok
    }

    /// How many notes were judged.
    pub open spec fn judged(self) -> int {
        self.hits() + self.total_wrong + self.total_missed
    }

    /// What holds of the tallies at all times: a chain never reaches its goal
    /// without striking, it stays empty while the board surges, there is none
    /// unless the last chord was clean, and no note pays more than 600 points.
    pub open spec fn wf(self) -> bool {
        &&& self.combo <= self.best_combo <= self.hits()
        &&& self.perfect_chords < BOLT_CHORDS
        &&& self.surge <= SURGE_TIME
        &&& self.surge > 0 ==> self.perfect_chords == 0
        &&& self.perfect_chords > 0 ==> self.chord_all_perfect
        &&& self.score <= 600 * self.hits()
    }

    /// The tallies before the first note.
    pub open spec fn is_fresh(self) -> bool {
        self == (Tally {
            combo: 0,
            best_combo: 0,
            last_chord: None,
            perfect_chords: 0,
            chord_all_perfect: false,
            surge: 0,
            total_perfect: 0,
            total_good: 0,
            total_ok: 0,
            total_wrong: 0,
            total_missed: 0,
            score: 0,
        })
    }

    /// The tallies after a mistake: no combo, no chain.
    pub open spec fn broken(self) -> Tally {
        Tally { combo: 0, perfect_chords: 0, chord_all_perfect: false, ..self }
    }

    pub open spec fn after_wrong(self) -> Tally {
        Tally { total_wrong: (self.total_wrong + 1) as u32, ..self.broken() }
    }

    pub open spec fn after_miss(self) -> Tally {
        Tally { total_missed: (self.total_missed + 1) as u32, ..self.broken() }
    }

    /// The tallies after a catch-up that the song waited for: the right note,
    /// worth flat points, but a mistake all the same.
    pub open spec fn after_slow(self, chord: Option<u64>) -> Tally {
        Tally {
            last_chord: chord,
            total_ok: (self.total_ok + 1) as u32,
            score: (self.score + boosted(20, self.surge as int)) as u64,
            ..self.broken()
        }
    }

    /// The combo after a hit: a chord advances it once.
    pub open spec fn next_combo(self, chord: Option<u64>) -> int {
        if same_chord(chord, self.last_chord) {
            self.combo as int
        } else {
            self.combo + 1
        }
    }

    /// The chain of PERFECT chords, and whether the chord under way is still
    /// clean, after a hit. Nothing charges while the board surges. The first key
    /// opens the chord's account; a later sloppy one spoils both the chord and
    /// the chain it was building.
    pub open spec fn next_chain(self, delta: u64, chord: Option<u64>) -> (int, bool) {
        let perfect = delta <= PERFECT_WINDOW;
        if self.surge > 0 {
            (self.perfect_chords as int, self.chord_all_perfect)
        } else if !same_chord(chord, self.last_chord) {
            (
                if perfect {
                    self.perfect_chords + 1
                } else {
                    0
                },
                perfect,
            )
        } else if !perfect && self.chord_all_perfect {
            (0, false)
        } else {
            (self.perfect_chords as int, self.chord_all_perfect)
        }
    }

    /// Whether a hit calls the lightning down.
    pub open spec fn strikes(self, delta: u64, late: bool, chord: Option<u64>) -> bool {
        !too_slow(delta, late) && self.surge == 0 && self.next_chain(delta, chord).0 >= BOLT_CHORDS
    }

    /// The tallies after a correct note.
    pub open spec fn after_hit(self, delta: u64, late: bool, chord: Option<u64>) -> Tally {
        if too_slow(delta, late) {
            self.after_slow(chord)
        } else {
            let combo = self.next_combo(chord);
            let chain = self.next_chain(delta, chord);
            let struck = self.strikes(delta, late, chord);
            let surge = if struck {
                SURGE_TIME
            } else {
                self.surge
            };
            Tally {
                combo: combo as u32,
                best_combo: if combo > self.best_combo {
                    combo as u32
                } else {
                    self.best_combo
                },
                last_chord: chord,
                perfect_chords: if struck {
                    0
                } else {
                    chain.0 as u32
                },
                chord_all_perfect: chain.1,
                surge,
                total_perfect: (self.total_perfect + if face_value(delta) == 100 {
                    1int
                } else {
                    0
                }) as u32,
                total_good: (self.total_good + if face_value(delta) == 60 {
                    1int
                } else {
                    0
                }) as u32,
                total_ok: (self.total_ok + if face_value(delta) == 20 {
                    1int
                } else {
                    0
                }) as u32,
                // The note that summons the bolt is the first one paid at the
                // surge rate.
                score: (self.score + boosted(
                    face_value(delta) * multiplier_of(combo),
                    surge as int,
                )) as u64,
                ..self
            }
        }
    }

    /// The tallies after `dt` nanoseconds.
    pub open spec fn after_time(self, dt: u64) -> Tally {
        Tally {
            surge: if self.surge > dt {
                (self.surge - dt) as u64
            } else {
                0
            },
            ..self
        }
    }

    /// The tallies as the results screen shows them.
    pub open spec fn as_results(self) -> Results {
        Results {
            perfect: self.total_perfect,
            good: self.total_good,
            ok: self.total_ok,
            wrong: self.total_wrong,
            missed: self.total_missed,
            best_combo: self.best_combo,
            score: self.score,
        }
    }

    fn fresh() -> (tally: Tally)
        ensures
            tally.is_fresh(),
            tally.wf(),
    {
        Tally {
            combo: 0,
            best_combo: 0,
            last_chord: None,
            perfect_chords: 0,
            chord_all_perfect: false,
            surge: 0,
            total_perfect: 0,
            total_good: 0,
            total_ok: 0,
            total_wrong: 0,
            total_missed: 0,
            score: 0,
        }
    }

    /// Any mistake (wrong key, missed note, a note the song waited for) ends the
    /// combo and puts the bolt back out of reach.
    fn broken_off(self) -> (tally: Tally)
        ensures
            tally == self.broken(),
    {
        Tally { combo: 0, perfect_chords: 0, chord_all_perfect: false, ..self }
    }

    /// Was this note asked for as part of the same chord as the previous one?
    fn is_same_chord(&self, chord: Option<u64>) -> (same: bool)
        ensures
            same == same_chord(chord, self.last_chord),
    {
        match (chord, self.last_chord) {
            (Some(now), Some(last)) => {
                let gap: u64 = if now >= last {
                    now - last
                } else {
                    last - now
                };
                gap <= CHORD_WINDOW
            },
            _ => false,
        }
    }

    pub fn multiplier(&self) -> (times: u32)
        ensures
            times == multiplier_of(self.combo as int),
            1 <= times <= 4,
    {
        if self.combo >= 30 {
            4
        } else {
            1 + self.combo / 10
        }
    }

    /// Points after the surge bonus, in whole numbers throughout, so that the
    /// displayed score is exact.
    fn boost(&self, points: u64) -> (paid: u64)
        requires
            points <= 1000,
        ensures
            paid == boosted(points as int, self.surge as int),
    {
        if self.surge > 0 {
            points * 3 / 2
        } else {
            points
        }
    }

    /// Counts a correct note.
    pub fn hit(self, delta: u64, late: bool, chord: Option<u64>) -> (tally: Tally)
        requires
            self.wf(),
            self.judged() < u32::MAX,
        ensures
            tally == self.after_hit(delta, late, chord),
            tally.wf(),
            tally.judged() == self.judged() + 1,
    {
        let first_in_chord = !self.is_same_chord(chord);
        let mut t = Tally { last_chord: chord, ..self };
        if late && delta > SLOW_WINDOW {
            let paid: u64 = t.boost(20);
            t = t.broken_off();
            t.total_ok = t.total_ok + 1;
            t.score = t.score + paid;
            return t;
        }
        if first_in_chord {
            t.combo = t.combo + 1;
            if t.combo > t.best_combo {
                t.best_combo = t.combo;
            }
        }
        let perfect = delta <= PERFECT_WINDOW;
        let points: u64 = if perfect {
            t.total_perfect = t.total_perfect + 1;
            100
        } else if delta <= GOOD_WINDOW {
            t.total_good = t.total_good + 1;
            60
        } else {
            t.total_ok = t.total_ok + 1;
            20
        };
        if t.surge == 0 {
            if first_in_chord {
                t.chord_all_perfect = perfect;
                if perfect {
                    t.perfect_chords = t.perfect_chords + 1;
                } else {
                    t.perfect_chords = 0;
                }
            } else if !perfect && t.chord_all_perfect {
                t.perfect_chords = 0;
                t.chord_all_perfect = false;
            }
            if t.perfect_chords >= BOLT_CHORDS {
                t.perfect_chords = 0;
                t.surge = SURGE_TIME;
            }
        }
        let times: u64 = t.multiplier() as u64;
        assert(points * times <= 100 * 4) by (nonlinear_arith)
            requires
                0 <= points <= 100,
                0 <= times <= 4,
        ;
        let paid: u64 = t.boost(points * times);
        t.score = t.score + paid;
        t
    }

    /// Counts a wrong note.
    pub fn wrong(self) -> (tally: Tally)
        requires
            self.wf(),
            self.judged() < u32::MAX,
        ensures
            tally == self.after_wrong(),
            tally.wf(),
            tally.judged() == self.judged() + 1,
    {
        let t = self.broken_off();
        Tally { total_wrong: t.total_wrong + 1, ..t }
    }

    /// Counts a note that nobody played.
    pub fn missed(self) -> (tally: Tally)
        requires
            self.wf(),
            self.judged() < u32::MAX,
        ensures
            tally == self.after_miss(),
            tally.wf(),
            tally.judged() == self.judged() + 1,
    {
        let t = self.broken_off();
        Tally { total_missed: t.total_missed + 1, ..t }
    }
}

/// How many of `wanted` new particles there is room for beside `live` ones.
pub open spec fn allotted(live: int, wanted: int) -> int {
    if live >= MAX_PARTICLES {
        0
    } else if live + wanted > MAX_PARTICLES {
        MAX_PARTICLES - live
    } else {
        wanted
    }
}

/// Is there room for another particle?
pub fn room(live: usize) -> (free: bool)
    ensures
        free == (allotted(live as int, 1) == 1),
{
    live < MAX_PARTICLES
}

/// How many of `wanted` new particles there is room for beside `live` ones.
pub fn allot(live: usize, wanted: usize) -> (count: usize)
    ensures
        count == allotted(live as int, wanted as int),
        count <= wanted,
        count <= MAX_PARTICLES,
{
    if live >= MAX_PARTICLES {
        0
    } else if wanted > MAX_PARTICLES - live {
        MAX_PARTICLES - live
    } else {
        wanted
    }
}

/// How many particles of each kind a hit throws, as far as there is room, in the
/// order in which they are thrown.
#[derive(Debug, Clone, Copy, PartialEq, Eq, Structural)]
pub struct Burst {
    /// A flash ring and sparks where lightning lands.
    pub impact_ring: usize,
    pub impact_sparks: usize,
    /// A light pillar up the lane and a flash ring on the key.
    pub beam: usize,
    pub ring: usize,
    pub sparks: usize,
    /// An aerial firework for every tenth step of a combo.
    pub firework: usize,
    /// A small dark puff: the anti-celebration.
    pub puff: usize,
}

impl Burst {
    pub open spec fn nothing() -> Burst {
        Burst {
            impact_ring: 0,
            impact_sparks: 0,
            beam: 0,
            ring: 0,
            sparks: 0,
            firework: 0,
            puff: 0,
        }
    }

    /// What a puff throws beside `live` particles.
    pub open spec fn of_puff(live: int) -> Burst {
        Burst { puff: allotted(live, 14) as usize, ..Burst::nothing() }
    }

    /// What a hit throws beside `live` particles.
    pub open spec fn of_hit(live: int, struck: bool, times: int, milestone: bool) -> Burst {
        let impact_ring = allotted(live, if struck {
            1
        } else {
            0
        });
        let a = live + impact_ring;
        let impact_sparks = allotted(a, if struck {
            26
        } else {
            0
        });
        let b = a + impact_sparks;
        let beam = allotted(b, 1);
        let c = b + beam;
        let ring = allotted(c, 1);
        let d = c + ring;
        let sparks = allotted(d, 34 + 12 * times + if milestone {
            70int
        } else {
            0
        });
        let firework = allotted(d + sparks, if milestone {
            90
        } else {
            0
        });
        Burst {
            impact_ring: impact_ring as usize,
            impact_sparks: impact_sparks as usize,
            beam: beam as usize,
            ring: ring as usize,
            sparks: sparks as usize,
            firework: firework as usize,
            puff: 0,
        }
    }

    /// How many particles there are in all.
    pub open spec fn total(self) -> int {
        self.impact_ring + self.impact_sparks + self.beam + self.ring + self.sparks + self.firework
            + self.puff
    }

    /// How many draws its particles take: eight for each spark where lightning
    /// lands, seven for each other spark, five for each piece of a firework or of
    /// a puff, none for the rings and the beam.
    pub open spec fn draws(self) -> nat {
        (8 * self.impact_sparks + 7 * self.sparks + 5 * self.firework + 5 * self.puff) as nat
    }

    fn draw_count(&self) -> (count: usize)
        requires
            self.total() <= MAX_PARTICLES,
        ensures
            count == self.draws(),
    {
        8 * self.impact_sparks + 7 * self.sparks + 5 * self.firework + 5 * self.puff
    }

    fn none() -> (burst: Burst)
        ensures
            burst == Burst::nothing(),
    {
        Burst {
            impact_ring: 0,
            impact_sparks: 0,
            beam: 0,
            ring: 0,
            sparks: 0,
            firework: 0,
            puff: 0,
        }
    }

    fn for_puff(live: usize) -> (burst: Burst)
        ensures
            burst == Burst::of_puff(live as int),
            burst.total() <= MAX_PARTICLES,
    {
        let puff: usize = allot(live, 14);
        Burst { puff, ..Burst::none() }
    }

    fn for_hit(live: usize, struck: bool, times: usize, milestone: bool) -> (burst: Burst)
        requires
            times <= 4,
        ensures
            burst == Burst::of_hit(live as int, struck, times as int, milestone),
            burst.total() <= MAX_PARTICLES,
    {
        if live >= MAX_PARTICLES {
            return Burst::none();
        }
        let impact_ring: usize = allot(live, if struck {
            1
        } else {
            0
        });
        let a: usize = live + impact_ring;
        let impact_sparks: usize = allot(a, if struck {
            26
        } else {
            0
        });
        let b: usize = a + impact_sparks;
        let beam: usize = allot(b, 1);
        let c: usize = b + beam;
        let ring: usize = allot(c, 1);
        let d: usize = c + ring;
        let extra: usize = if milestone {
            70
        } else {
            0
        };
        let sparks: usize = allot(d, 34 + 12 * times + extra);
        let firework: usize = allot(d + sparks, if milestone {
            90
        } else {
            0
        });
        Burst { impact_ring, impact_sparks, beam, ring, sparks, firework, puff: 0 }
    }
}

/// What a correct note shows.
pub struct HitShow {
    pub grade: Option<RisingGrade>,
    /// The combo just completed another ten steps.
    pub milestone: bool,
    /// Lightning strikes the key.
    pub bolt: Option<BoltPlan>,
    /// What the hit multiplies its points by; the sparks fly the faster for it.
    pub multiplier: u32,
    pub burst: Burst,
    /// The draws of the particles, one after the other.
    pub draws: Vec<u64>,
}

impl HitShow {
    /// How many draws the hit takes: those of the bolt, if any, and those of the
    /// particles.
    pub open spec fn taken(self) -> nat {
        match self.bolt {
            Some(bolt) => bolt.draws() + self.burst.draws(),
            None => self.burst.draws(),
        }
    }
}

/// What a wrong note shows: a small dark puff, five draws for each piece.
#[derive(Debug, Clone)]
pub struct Puff {
    pub count: usize,
    pub draws: Vec<u64>,
}

/// What a frame shows: electricity along the hit line, flames above it.
#[derive(Debug, Clone)]
pub struct FrameShow {
    pub arcs: usize,
    pub embers: usize,
    /// Seven draws for each arc, and then for each ember.
    pub draws: Vec<u64>,
}

/// One burst of celebration fireworks: two draws for its place, and its colour.
#[derive(Debug, Clone)]
pub struct Firework {
    pub x: u64,
    pub y: u64,
    pub note: u8,
    pub sparks: usize,
    /// Five draws for each spark.
    pub draws: Vec<u64>,
}

/// Running state of the arcade layer.
pub struct EffectsSystem {
    pub tally: Tally,
    /// Rolling record of the last few notes: were they correct?
    pub recent: VecDeque<bool>,
    pub rising: Vec<RisingText>,
    pub note_flashes: Vec<NoteFlash>,
    pub rng: u64,
    /// How much longer the combo counter pops.
    pub combo_pop: u64,
    /// How bright the white-out of a landing bolt still is.
    pub strike_flash: u64,
    /// Parts of arcs and of flames that are still owed.
    pub arc_acc: u64,
    pub ember_acc: u64,
    /// Time since the last burst of celebration fireworks.
    pub celebrate_acc: u64,
}

/// The record of recent notes with one more note.
pub open spec fn recorded(recent: Seq<bool>, good: bool) -> Seq<bool> {
    if recent.len() >= SENTIMENT_WINDOW {
        recent.skip(1).push(good)
    } else {
        recent.push(good)
    }
}

/// How many notes of a record were correct.
pub open spec fn correct(recent: Seq<bool>) -> nat
    decreases recent.len(),
{
    if recent.len() == 0 {
        0
    } else {
        correct(recent.drop_last()) + if recent.last() {
            1nat
        } else {
            0nat
        }
    }
}

/// The mood of the audience: 0 is angry, 2 neutral, 4 a big smile, 5 a star-eyed
/// grin. It needs three notes to form an opinion, and ten to be delighted.
pub open spec fn mood(recent: Seq<bool>) -> Option<int> {
    let good = correct(recent);
    let total = recent.len();
    if total < 3 {
        None
    } else if good * 100 >= 88 * total && total >= 10 {
        Some(5)
    } else if good * 100 >= 75 * total {
        Some(4)
    } else if good * 100 >= 60 * total {
        Some(3)
    } else if good * 100 >= 42 * total {
        Some(2)
    } else if good * 100 >= 25 * total {
        Some(1)
    } else {
        Some(0)
    }
}

/// What is owed after a while: whole pieces come out as far as there is room; the
/// rest of a piece is kept, unless room ran out.
pub open spec fn owed(acc: int, unit: int, free: int) -> (int, int) {
    if acc / unit > free {
        (free, 0)
    } else {
        (acc / unit, acc % unit)
    }
}

/// The rising texts after `dt` nanoseconds: older, and gone when their time is
/// up.
pub open spec fn risen(texts: Seq<RisingText>, dt: u64) -> Seq<RisingText>
    decreases texts.len(),
{
    if texts.len() == 0 {
        texts
    } else {
        let rest = risen(texts.drop_last(), dt);
        let text = texts.last();
        if text.age + dt < text.life {
            rest.push(RisingText { age: (text.age + dt) as u64, ..text })
        } else {
            rest
        }
    }
}

/// The lit note bars after `dt` nanoseconds.
pub open spec fn dimmed(flashes: Seq<NoteFlash>, dt: u64) -> Seq<NoteFlash>
    decreases flashes.len(),
{
    if flashes.len() == 0 {
        flashes
    } else {
        let rest = dimmed(flashes.drop_last(), dt);
        let flash = flashes.last();
        if flash.life > dt {
            rest.push(NoteFlash { life: (flash.life - dt) as u64, ..flash })
        } else {
            rest
        }
    }
}

/// How a struck note bar lights up: for as long as it sounds, but for at least 450
/// ms and at most 1.4 s.
pub open spec fn flash_of(note: u8, x: u32, w: u32, start: u64, duration: u64) -> NoteFlash {
    let life = if duration < 450_000_000 {
        450_000_000u64
    } else if duration > 1_400_000_000 {
        1_400_000_000u64
    } else {
        duration
    };
    let h = if duration < 100_000_000 {
        90_000_000u64
    } else {
        (duration - 10_000_000) as u64
    };
    NoteFlash { note, x, w, start, h, life, max_life: life }
}

/// The letter whose colour a burst of fireworks takes.
pub open spec fn firework_note(choice: int) -> u8 {
    seq![0u8, 2, 4, 5, 7, 9, 11][choice]
}

/// The display colour of a note: the rainbow of the white-key squares, and icy
/// white for sharps.
pub open spec fn note_color(note: u8) -> (u8, u8, u8) {
    let class = note % 12;
    if class == 0 {
        (230, 30, 30)
    } else if class == 2 {
        (255, 140, 0)
    } else if class == 4 {
        (255, 215, 0)
    } else if class == 5 {
        (40, 190, 60)
    } else if class == 7 {
        (40, 90, 230)
    } else if class == 9 {
        (150, 60, 210)
    } else if class == 11 {
        (255, 105, 180)
    } else {
        (210, 235, 255)
    }
}

/// The display colour of a note.
pub fn note_rgb(note: u8) -> (color: (u8, u8, u8))
    ensures
        color == note_color(note),
{
    match note % 12 {
        0 => (230, 30, 30),
        2 => (255, 140, 0),
        4 => (255, 215, 0),
        5 => (40, 190, 60),
        7 => (40, 90, 230),
        9 => (150, 60, 210),
        11 => (255, 105, 180),
        _ => (210, 235, 255),
    }
}

impl EffectsSystem {
    /// What holds of the arcade layer at all times.
    pub open spec fn wf(self) -> bool {
        &&& self.tally.wf()
        &&& self.recent@.len() <= SENTIMENT_WINDOW
        &&& self.combo_pop <= POP_TIME
        &&& self.strike_flash <= FULL_FLASH
        &&& self.arc_acc < 1_000_000_000
        &&& self.ember_acc < 2_000_000_000
        &&& self.celebrate_acc < FIREWORK_GAP
    }

    /// The state before the first note.
    pub open spec fn is_new(self) -> bool {
        &&& self.tally.is_fresh()
        &&& self.recent@.len() == 0
        &&& self.rising@.len() == 0
        &&& self.note_flashes@.len() == 0
        &&& self.rng == 0x9E37_79B9_7F4A_7C15
        &&& self.combo_pop == 0
        &&& self.strike_flash == 0
        &&& self.arc_acc == 0
        &&& self.ember_acc == 0
        &&& self.celebrate_acc == 0
    }

    /// Whether the accumulators of two states agree.
    pub open spec fn same_clocks(self, other: EffectsSystem) -> bool {
        &&& self.arc_acc == other.arc_acc
        &&& self.ember_acc == other.ember_acc
        &&& self.celebrate_acc == other.celebrate_acc
    }

    /// The state of the generator once a bolt, if any, has been drawn.
    pub open spec fn rng_at_burst(self, bolt: Option<BoltPlan>) -> u64 {
        match bolt {
            Some(bolt) => advance(self.rng, bolt.draws()),
            None => self.rng,
        }
    }

    /// Whether `after` is the state after a correct note, but for the note bars
    /// that are lit, and `show` what it shows.
    pub open spec fn lands(
        self,
        after: EffectsSystem,
        x: u32,
        y: u32,
        delta: u64,
        late: bool,
        chord: Option<u64>,
        live: int,
        show: HitShow,
    ) -> bool {
        let slow = too_slow(delta, late);
        let again = same_chord(chord, self.tally.last_chord);
        &&& after.wf()
        &&& after.tally == self.tally.after_hit(delta, late, chord)
        &&& after.recent@ == recorded(self.recent@, !slow)
        &&& show.grade == shown_grade(delta, late)
        &&& after.rising@ == (match show.grade {
            Some(grade) => self.rising@.push(
                RisingText { x, y0: y, age: 0, life: RISING_TIME, grade },
            ),
            None => self.rising@,
        })
        &&& after.combo_pop == (if slow {
            0
        } else if again {
            self.combo_pop
        } else {
            POP_TIME
        })
        &&& after.same_clocks(self)
        &&& show.milestone == (!slow && !again && after.tally.combo % 10 == 0)
        &&& show.bolt is Some <==> self.tally.strikes(delta, late, chord)
        &&& match show.bolt {
            Some(bolt) => bolt.drawn_from(self.rng) && after.strike_flash == FULL_FLASH,
            None => after.strike_flash == self.strike_flash,
        }
        &&& show.draws@ == drawn(self.rng_at_burst(show.bolt), show.burst.draws())
        &&& after.rng == advance(self.rng_at_burst(show.bolt), show.burst.draws())
        &&& show.multiplier == multiplier_of(after.tally.combo as int)
        &&& show.burst == (if slow {
            Burst::of_puff(live)
        } else {
            Burst::of_hit(
                live,
                show.bolt is Some,
                multiplier_of(after.tally.combo as int),
                show.milestone,
            )
        })
    }

    /// Whether `after` is the state after a mistake that brings the tallies to
    /// `tally` and takes that many draws.
    pub open spec fn fails(self, after: EffectsSystem, tally: Tally, draws: nat) -> bool {
        &&& after.wf()
        &&& after.tally == tally
        &&& after.recent@ == recorded(self.recent@, false)
        &&& after.combo_pop == 0
        &&& after.rising == self.rising
        &&& after.note_flashes == self.note_flashes
        &&& after.rng == advance(self.rng, draws)
        &&& after.strike_flash == self.strike_flash
        &&& after.same_clocks(self)
    }

    /// Whether `after` is the state `dt` nanoseconds later, and `show` what the
    /// frame shows beside `live` particles.
    pub open spec fn advances(
        self,
        after: EffectsSystem,
        dt: u64,
        live: int,
        show: FrameShow,
    ) -> bool {
        &&& after.wf()
        &&& after.tally == self.tally.after_time(dt)
        &&& after.recent == self.recent
        &&& after.rising@ == risen(self.rising@, dt)
        &&& after.note_flashes@ == dimmed(self.note_flashes@, dt)
        &&& show.draws@ == drawn(self.rng, (7 * (show.arcs + show.embers)) as nat)
        &&& after.rng == advance(self.rng, (7 * (show.arcs + show.embers)) as nat)
        &&& after.celebrate_acc == self.celebrate_acc
        &&& after.combo_pop == (if self.combo_pop > dt {
            self.combo_pop - dt
        } else {
            0
        })
        &&& after.strike_flash == (if self.strike_flash > 7 * dt {
            self.strike_flash - 7 * dt
        } else {
            0
        })
        &&& (show.arcs as int, after.arc_acc as int) == (if after.tally.surge > 0 {
            owed(self.arc_acc + 95 * dt, 1_000_000_000, allotted(live, 6000))
        } else {
            (0, 0)
        })
        &&& (show.embers as int, after.ember_acc as int) == (if after.tally.combo >= FIRE_COMBO {
            owed(
                self.ember_acc + dt * (120 + 7 * after.tally.combo),
                2_000_000_000,
                allotted(live + show.arcs, 6000),
            )
        } else {
            (0, 0)
        })
    }

    /// Whether `after` is the state after celebrating for `dt` nanoseconds, and
    /// `firework` what that sets off.
    pub open spec fn celebrated(
        self,
        after: EffectsSystem,
        dt: u64,
        live: int,
        firework: Option<Firework>,
    ) -> bool {
        &&& after.wf()
        &&& firework is Some <==> self.celebrate_acc + dt >= FIREWORK_GAP
        &&& match firework {
            Some(work) => {
                &&& after.celebrate_acc == 0
                &&& work.x == draw(self.rng, 1)
                &&& work.y == draw(self.rng, 2)
                &&& work.note == firework_note(advance(self.rng, 3) as int % 7)
                &&& work.sparks == allotted(live, 70)
                &&& work.draws@ == drawn(advance(self.rng, 3), (5 * work.sparks) as nat)
                &&& after.rng == advance(self.rng, (3 + 5 * work.sparks) as nat)
            },
            None => after.celebrate_acc == self.celebrate_acc + dt && after.rng == self.rng,
        }
        &&& after.tally == self.tally
        &&& after.recent == self.recent
        &&& after.rising == self.rising
        &&& after.note_flashes == self.note_flashes
        &&& after.combo_pop == self.combo_pop
        &&& after.strike_flash == self.strike_flash
        &&& after.arc_acc == self.arc_acc
        &&& after.ember_acc == self.ember_acc
    }

    pub fn new() -> (system: Self)
        ensures
            system.wf(),
            system.is_new(),
    {
        EffectsSystem {
            tally: Tally::fresh(),
            recent: VecDeque::new(),
            rising: Vec::new(),
            note_flashes: Vec::new(),
            rng: 0x9E37_79B9_7F4A_7C15,
            combo_pop: 0,
            strike_flash: 0,
            arc_acc: 0,
            ember_acc: 0,
            celebrate_acc: 0,
        }
    }

    pub fn results(&self) -> (results: Results)
        ensures
            results == self.tally.as_results(),
    {
        Results {
            perfect: self.tally.total_perfect,
            good: self.tally.total_good,
            ok: self.tally.total_ok,
            wrong: self.tally.total_wrong,
            missed: self.tally.total_missed,
            best_combo: self.tally.best_combo,
            score: self.tally.score,
        }
    }

    pub fn score(&self) -> (score: u64)
        ensures
            score == self.tally.score,
    {
        self.tally.score
    }

    pub fn combo(&self) -> (combo: u32)
        ensures
            combo == self.tally.combo,
    {
        self.tally.combo
    }

    /// Longest streak this session.
    pub fn best_combo(&self) -> (combo: u32)
        ensures
            combo == self.tally.best_combo,
    {
        self.tally.best_combo
    }

    pub fn multiplier(&self) -> (times: u32)
        ensures
            times == multiplier_of(self.tally.combo as int),
    {
        self.tally.multiplier()
    }

    /// How much of the pop of the combo counter is left.
    pub fn combo_pop(&self) -> (left: Fraction)
        ensures
            left == (Fraction { num: self.combo_pop, den: POP_TIME }),
    {
        Fraction { num: self.combo_pop, den: POP_TIME }
    }

    pub fn on_fire(&self) -> (burning: bool)
        ensures
            burning == (self.tally.combo >= FIRE_COMBO),
    {
        self.tally.combo >= FIRE_COMBO
    }

    /// Is the board still surging from a lightning strike?
    pub fn surging(&self) -> (lit: bool)
        ensures
            lit == (self.tally.surge > 0),
    {
        self.tally.surge > 0
    }

    /// Whole seconds left on the surge, rounded up, for the countdown.
    pub fn surge_secs_left(&self) -> (secs: u32)
        requires
            self.wf(),
        ensures
            (secs - 1) * 1_000_000_000 < self.tally.surge <= secs * 1_000_000_000,
            secs <= 8,
    {
        ((self.tally.surge + 999_999_999) / 1_000_000_000) as u32
    }

    /// Surge brightness: full while it runs, dimming over the last second so the
    /// lights fade out instead of snapping off.
    pub fn surge_intensity(&self) -> (bright: Fraction)
        ensures
            bright.den == 1_000_000_000,
            bright.num == (if self.tally.surge >= 1_000_000_000 {
                1_000_000_000
            } else {
                self.tally.surge
            }),
    {
        let num: u64 = if self.tally.surge >= 1_000_000_000 {
            1_000_000_000
        } else {
            self.tally.surge
        };
        Fraction { num, den: 1_000_000_000 }
    }

    /// Consecutive all-PERFECT chords banked so far.
    pub fn perfect_chords(&self) -> (chords: u32)
        ensures
            chords == self.tally.perfect_chords,
    {
        self.tally.perfect_chords
    }

    /// Has the player done anything gradeable? Misses do not count: an
    /// unattended run must not end in a results screen, and a booing crowd, when
    /// nobody was playing.
    pub fn has_activity(&self) -> (active: bool)
        ensures
            active == (self.tally.hits() + self.tally.total_wrong > 0),
    {
        self.tally.total_perfect > 0 || self.tally.total_good > 0 || self.tally.total_ok > 0
            || self.tally.total_wrong > 0
    }

    pub fn rising_texts(&self) -> (texts: &Vec<RisingText>)
        ensures
            texts@ == self.rising@,
    {
        &self.rising
    }

    /// How many of the recent notes were correct.
    fn count_correct(&self) -> (good: usize)
        ensures
            good == correct(self.recent@),
            good <= self.recent@.len(),
    {
        let mut good: usize = 0;
        let mut n: usize = 0;
        proof {
            assert(self.recent@.take(0) =~= Seq::<bool>::empty());
        }
        while n < self.recent.len()
            invariant
                n <= self.recent@.len(),
                good <= n,
                good == correct(self.recent@.take(n as int)),
            decreases self.recent@.len() - n,
        {
            proof {
                assert(self.recent@.take(n + 1).drop_last() =~= self.recent@.take(n as int));
            }
            if self.recent[n] {
                good = good + 1;
            }
            n = n + 1;
        }
        proof {
            assert(self.recent@.take(n as int) =~= self.recent@);
        }
        good
    }

    /// Rolling accuracy over the sentiment window, if anything was played.
    pub fn accuracy(&self) -> (share: Option<Fraction>)
        ensures
            share is None <==> self.recent@.len() == 0,
            share is Some ==> share->0.num == correct(self.recent@) && share->0.den
                == self.recent@.len(),
    {
        if self.recent.len() == 0 {
            return None;
        }
        Some(Fraction { num: self.count_correct() as u64, den: self.recent.len() as u64 })
    }

    /// Audience sentiment over the last few notes, as a level from 0 to 5;
    /// `None` until a few notes have been judged.
    pub fn sentiment_level(&self) -> (level: Option<u8>)
        requires
            self.wf(),
        ensures
            level is None <==> mood(self.recent@) is None,
            level is Some ==> mood(self.recent@) == Some(level->0 as int),
    {
        let total: usize = self.recent.len();
        if total < 3 {
            return None;
        }
        let good: usize = self.count_correct();
        Some(
            if good * 100 >= 88 * total && total >= 10 {
                5
            } else if good * 100 >= 75 * total {
                4
            } else if good * 100 >= 60 * total {
                3
            } else if good * 100 >= 42 * total {
                2
            } else if good * 100 >= 25 * total {
                1
            } else {
                0
            },
        )
    }

    /// Is the audience as delighted as it gets?
    pub fn crowd_maxed(&self) -> (maxed: bool)
        requires
            self.wf(),
        ensures
            maxed == (mood(self.recent@) == Some(5int)),
    {
        match self.sentiment_level() {
            Some(level) => level == 5,
            None => false,
        }
    }

    fn record_result(&mut self, good: bool)
        requires
            old(self).recent@.len() <= SENTIMENT_WINDOW,
        ensures
            final(self).recent@ == recorded(old(self).recent@, good),
            final(self).tally == old(self).tally,
            final(self).rising == old(self).rising,
            final(self).note_flashes == old(self).note_flashes,
            final(self).rng == old(self).rng,
            final(self).combo_pop == old(self).combo_pop,
            final(self).strike_flash == old(self).strike_flash,
            final(self).same_clocks(*old(self)),
    {
        if self.recent.len() >= SENTIMENT_WINDOW {
            let _dropped = self.recent.pop_front();
            assert(self.recent@ =~= old(self).recent@.skip(1));
        }
        self.recent.push_back(good);
    }

    /// A correct note was played at the key at `x`, `y`, `delta` away from when
    /// the song asked for it; `late` says that it came after. `chord` is when the
    /// song asked for it, shared by every note of a chord.
    ///
    /// Sparks, flashes and timing tallies count every key of a chord; only the
    /// streak counts the chord once. `live` is the number of particles in flight.
    pub fn good_hit(
        &mut self,
        x: u32,
        y: u32,
        delta: u64,
        late: bool,
        chord: Option<u64>,
        live: usize,
    ) -> (show: HitShow)
        requires
            old(self).wf(),
            old(self).tally.judged() < u32::MAX,
        ensures
            old(self).lands(*final(self), x, y, delta, late, chord, live as int, show),
            final(self).note_flashes == old(self).note_flashes,
    {
        let before = self.tally;
        let first_in_chord = !before.is_same_chord(chord);
        let slow = late && delta > SLOW_WINDOW;
        self.tally = before.hit(delta, late, chord);
        self.record_result(!slow);
        if slow {
            self.combo_pop = 0;
            self.rising.push(
                RisingText { x, y0: y, age: 0, life: RISING_TIME, grade: RisingGrade::Slow },
            );
            let burst = Burst::for_puff(live);
            let draws = draw_many(&mut self.rng, burst.draw_count());
            return HitShow {
                grade: Some(RisingGrade::Slow),
                milestone: false,
                bolt: None,
                multiplier: self.tally.multiplier(),
                burst,
                draws,
            };
        }
        if first_in_chord {
            self.combo_pop = POP_TIME;
        }
        let struck = before.surge == 0 && self.tally.surge > 0;
        let bolt = if struck {
            self.strike_flash = FULL_FLASH;
            Some(draw_bolt(&mut self.rng))
        } else {
            None
        };
        let grade = if delta <= PERFECT_WINDOW {
            Some(RisingGrade::Perfect)
        } else if delta <= GOOD_WINDOW {
            Some(RisingGrade::Good)
        } else {
            None
        };
        if let Some(grade) = grade {
            self.rising.push(RisingText { x, y0: y, age: 0, life: RISING_TIME, grade });
        }
        let milestone = first_in_chord && self.tally.combo % 10 == 0;
        let multiplier: u32 = self.tally.multiplier();
        let burst = Burst::for_hit(live, struck, multiplier as usize, milestone);
        let draws = draw_many(&mut self.rng, burst.draw_count());
        HitShow { grade, milestone, bolt, multiplier, burst, draws }
    }

    /// A note bar was struck correctly: light it up for as long as it sounds, but
    /// for at least 450 ms and at most 1.4 s.
    pub fn note_struck(&mut self, note: u8, x: u32, w: u32, start: u64, duration: u64)
        ensures
            final(self).note_flashes@ == old(self).note_flashes@.push(
                flash_of(note, x, w, start, duration),
            ),
            final(self).tally == old(self).tally,
            final(self).recent == old(self).recent,
            final(self).rising == old(self).rising,
            final(self).rng == old(self).rng,
            final(self).combo_pop == old(self).combo_pop,
            final(self).strike_flash == old(self).strike_flash,
            final(self).same_clocks(*old(self)),
    {
        let life: u64 = if duration < 450_000_000 {
            450_000_000
        } else if duration > 1_400_000_000 {
            1_400_000_000
        } else {
            duration
        };
        let h: u64 = if duration < 100_000_000 {
            90_000_000
        } else {
            duration - 10_000_000
        };
        self.note_flashes.push(NoteFlash { note, x, w, start, h, life, max_life: life });
    }

    /// Wrong note: breaks the combo and drops a small dark puff at the key.
    pub fn wrong_hit(&mut self, live: usize) -> (puff: Puff)
        requires
            old(self).wf(),
            old(self).tally.judged() < u32::MAX,
        ensures
            old(self).fails(
                *final(self),
                old(self).tally.after_wrong(),
                (5 * puff.count) as nat,
            ),
            puff.count == allotted(live as int, 14),
            puff.draws@ == drawn(old(self).rng, (5 * puff.count) as nat),
    {
        let before = self.tally;
        self.tally = before.wrong();
        self.combo_pop = 0;
        self.record_result(false);
        let count: usize = allot(live, 14);
        let draws = draw_many(&mut self.rng, 5 * count);
        Puff { count, draws }
    }

    /// The song asked, nobody answered. Breaks the combo with no sound, no puff,
    /// no text: failure by omission is quiet.
    pub fn miss(&mut self)
        requires
            old(self).wf(),
            old(self).tally.judged() < u32::MAX,
        ensures
            old(self).fails(*final(self), old(self).tally.after_miss(), 0),
    {
        let before = self.tally;
        self.tally = before.missed();
        self.combo_pop = 0;
        self.record_result(false);
    }

    /// Celebration fireworks for the results screen: a colourful burst every 550
    /// ms.
    pub fn celebrate(&mut self, dt: u64, live: usize) -> (firework: Option<Firework>)
        requires
            old(self).wf(),
        ensures
            old(self).celebrated(*final(self), dt, live as int, firework),
    {
        if dt < FIREWORK_GAP - self.celebrate_acc {
            self.celebrate_acc = self.celebrate_acc + dt;
            return None;
        }
        self.celebrate_acc = 0;
        let ghost start = self.rng;
        let x: u64 = next_draw(&mut self.rng);
        let y: u64 = next_draw(&mut self.rng);
        let choice: u64 = next_u64(&mut self.rng);
        proof {
            lemma_advance_adds(start, 1, 1);
            lemma_advance_adds(start, 2, 1);
        }
        let notes: [u8; 7] = [0, 2, 4, 5, 7, 9, 11];
        let note: u8 = notes[(choice % 7) as usize];
        let sparks: usize = allot(live, 70);
        let draws = draw_many(&mut self.rng, 5 * sparks);
        proof {
            lemma_advance_adds(start, 3, (5 * sparks) as nat);
        }
        Some(Firework { x, y, note, sparks, draws })
    }

    /// The arcade layer `dt` nanoseconds later. `live` is the number of particles
    /// in flight.
    ///
    /// While the board surges, 95 arcs a second crawl along the hit line; on fire,
    /// flames rise at a rate that grows with the combo.
    pub fn update(&mut self, dt: u64, live: usize) -> (show: FrameShow)
        requires
            old(self).wf(),
        ensures
            old(self).advances(*final(self), dt, live as int, show),
    {
        self.combo_pop = self.combo_pop.saturating_sub(dt);
        self.strike_flash = if self.strike_flash as u128 > 7 * dt as u128 {
            (self.strike_flash as u128 - 7 * dt as u128) as u64
        } else {
            0
        };
        self.note_flashes = dim_flashes(&self.note_flashes, dt);
        self.rising = raise_texts(&self.rising, dt);
        self.tally.surge = self.tally.surge.saturating_sub(dt);
        let mut arcs: usize = 0;
        if self.tally.surge > 0 {
            let (out, rest) = emit(
                self.arc_acc as u128 + 95 * dt as u128,
                1_000_000_000,
                allot(live, MAX_PARTICLES),
            );
            arcs = out;
            self.arc_acc = rest;
        } else {
            self.arc_acc = 0;
        }
        let mut embers: usize = 0;
        if self.tally.combo >= FIRE_COMBO {
            let rate: u128 = 120 + 7 * self.tally.combo as u128;
            let span: u128 = dt as u128;
            assert(0 <= span * rate <= 0xffff_ffff_ffff_ffff * (120 + 7 * 0xffff_ffff)) by (
            nonlinear_arith)
                requires
                    0 <= span <= 0xffff_ffff_ffff_ffff,
                    0 <= rate <= 120 + 7 * 0xffff_ffff,
            ;
            let free: usize = if live >= MAX_PARTICLES {
                0
            } else {
                allot(live + arcs, MAX_PARTICLES)
            };
            let (out, rest) = emit(self.ember_acc as u128 + span * rate, 2_000_000_000, free);
            embers = out;
            self.ember_acc = rest;
        } else {
            self.ember_acc = 0;
        }
        let draws = draw_many(&mut self.rng, 7 * (arcs + embers));
        FrameShow { arcs, embers, draws }
    }
}

/// Takes whole pieces out of what is owed, as far as there is room.
fn emit(acc: u128, unit: u128, free: usize) -> (out: (usize, u64))
    requires
        0 < unit <= 2_000_000_000,
    ensures
        (out.0 as int, out.1 as int) == owed(acc as int, unit as int, free as int),
        out.0 <= free,
        out.1 < unit,
{
    let whole: u128 = acc / unit;
    if whole > free as u128 {
        (free, 0)
    } else {
        let rest: u128 = acc % unit;
        (whole as usize, rest as u64)
    }
}

/// Ages the rising texts.
fn raise_texts(texts: &Vec<RisingText>, dt: u64) -> (left: Vec<RisingText>)
    ensures
        left@ == risen(texts@, dt),
{
    let mut left: Vec<RisingText> = Vec::new();
    let mut n: usize = 0;
    proof {
        assert(texts@.take(0) =~= Seq::<RisingText>::empty());
    }
    while n < texts.len()
        invariant
            n <= texts@.len(),
            left@ == risen(texts@.take(n as int), dt),
        decreases texts@.len() - n,
    {
        proof {
            assert(texts@.take(n + 1).drop_last() =~= texts@.take(n as int));
        }
        let text = texts[n];
        if text.age < text.life && dt < text.life - text.age {
            left.push(RisingText { age: text.age + dt, ..text });
        }
        n = n + 1;
    }
    proof {
        assert(texts@.take(n as int) =~= texts@);
    }
    left
}

/// Dims the lit note bars.
fn dim_flashes(flashes: &Vec<NoteFlash>, dt: u64) -> (left: Vec<NoteFlash>)
    ensures
        left@ == dimmed(flashes@, dt),
{
    let mut left: Vec<NoteFlash> = Vec::new();
    let mut n: usize = 0;
    proof {
        assert(flashes@.take(0) =~= Seq::<NoteFlash>::empty());
    }
    while n < flashes.len()
        invariant
            n <= flashes@.len(),
            left@ == dimmed(flashes@.take(n as int), dt),
        decreases flashes@.len() - n,
    {
        proof {
            assert(flashes@.take(n + 1).drop_last() =~= flashes@.take(n as int));
        }
        let flash = flashes[n];
        if flash.life > dt {
            left.push(NoteFlash { life: flash.life - dt, ..flash });
        }
        n = n + 1;
    }
    proof {
        assert(flashes@.take(n as int) =~= flashes@);
    }
    left
}

/// However many keys of one chord are struck, and however raggedly, the combo
/// advances by one for all of them.
pub proof fn law_chord_advances_combo_once(
    t: Tally,
    delta: u64,
    late: bool,
    chord: u64,
    delta_again: u64,
    late_again: bool,
    again: u64,
)
    requires
        t.wf(),
        t.judged() < u32::MAX - 1,
        !too_slow(delta, late),
        !too_slow(delta_again, late_again),
        !same_chord(Some(chord), t.last_chord),
        same_chord(Some(again), Some(chord)),
    ensures
        ({
            let one = t.after_hit(delta, late, Some(chord));
            one.combo == t.combo + 1 && one.after_hit(delta_again, late_again, Some(again)).combo
                == t.combo + 1
        }),
{
}

/// Every key of a chord is judged and paid for on its own timing: the combo
/// counts a chord once, the tallies and the score count its notes.
pub proof fn law_chord_notes_each_score(
    t: Tally,
    delta: u64,
    late: bool,
    chord: u64,
    delta_again: u64,
    late_again: bool,
    again: u64,
)
    requires
        t.wf(),
        t.judged() < u32::MAX - 1,
        !too_slow(delta, late),
        !too_slow(delta_again, late_again),
        same_chord(Some(again), Some(chord)),
    ensures
        ({
            let one = t.after_hit(delta, late, Some(chord));
            let two = one.after_hit(delta_again, late_again, Some(again));
            &&& two.hits() == one.hits() + 1 == t.hits() + 2
            &&& one.score == t.score + boosted(
                face_value(delta) * multiplier_of(one.combo as int),
                one.surge as int,
            )
            &&& two.score == one.score + boosted(
                face_value(delta_again) * multiplier_of(one.combo as int),
                two.surge as int,
            )
            &&& one.score >= t.score + 20 && two.score >= one.score + 20
        }),
{
    let one = t.after_hit(delta, late, Some(chord));
    let times = multiplier_of(t.next_combo(Some(chord)));
    assert(1 <= times <= 4);
    assert(20 <= face_value(delta) * times <= 400) by (nonlinear_arith)
        requires
            1 <= times <= 4,
            20 <= face_value(delta) <= 100,
    ;
    assert(20 <= face_value(delta_again) * times <= 400) by (nonlinear_arith)
        requires
            1 <= times <= 4,
            20 <= face_value(delta_again) <= 100,
    ;
    assert(one.combo == t.next_combo(Some(chord)));
}

/// Every kind of mistake ends the combo and empties the chain; a hit off the beat
/// empties the chain too.
pub proof fn law_mistakes_empty_the_chain(t: Tally, delta: u64, late: bool, chord: Option<u64>)
    requires
        t.wf(),
    ensures
        t.after_wrong().combo == 0 && t.after_wrong().perfect_chords == 0,
        t.after_miss().combo == 0 && t.after_miss().perfect_chords == 0,
        delta > SLOW_WINDOW ==> t.after_hit(delta, true, chord).combo == 0 && t.after_hit(
            delta,
            true,
            chord,
        ).perfect_chords == 0,
        delta > PERFECT_WINDOW ==> t.after_hit(delta, late, chord).perfect_chords == 0,
{
}

/// Playing well through a surge banks nothing and does not top the timer up.
pub proof fn law_surge_is_not_renewed(t: Tally, delta: u64, late: bool, chord: Option<u64>)
    requires
        t.wf(),
        t.surge > 0,
    ensures
        t.after_hit(delta, late, chord).surge == t.surge,
        t.after_hit(delta, late, chord).perfect_chords == 0,
        !t.strikes(delta, late, chord),
{
}

/// A surge ends by itself, after exactly its time.
pub proof fn law_surge_runs_out(t: Tally, dt: u64)
    requires
        t.wf(),
    ensures
        t.after_time(dt).surge == 0 <==> dt >= t.surge,
        t.after_time(SURGE_TIME).surge == 0,
{
}

/// While the surge holds every hit is worth half again as much, the one that
/// summoned the bolt among them.
pub proof fn law_surge_pays_half_again(t: Tally, delta: u64, chord: Option<u64>)
    requires
        t.wf(),
        t.judged() < u32::MAX,
    ensures
        ({
            let after = t.after_hit(delta, false, chord);
            let plain = face_value(delta) * multiplier_of(after.combo as int);
            &&& after.surge > 0 ==> after.score == t.score + plain + plain / 2
            &&& after.surge == 0 ==> after.score == t.score + plain
        }),
{
    let combo = t.next_combo(chord);
    let times = multiplier_of(combo);
    assert(1 <= times <= 4);
    assert(face_value(delta) * times == 20 * times || face_value(delta) * times == 60 * times
        || face_value(delta) * times == 100 * times);
    assert(boosted(face_value(delta) * times, 1) == face_value(delta) * times + face_value(delta)
        * times / 2);
}

/// The multiplier lies between one and four and never falls as the combo grows.
pub proof fn law_multiplier_is_bounded(combo: int, longer: int)
    requires
        0 <= combo <= longer,
    ensures
        1 <= multiplier_of(combo) <= multiplier_of(longer) <= 4,
{
}

/// What one hit throws never pushes the number of particles over its limit.
pub proof fn law_bursts_respect_the_limit(live: int, struck: bool, times: int, milestone: bool)
    requires
        0 <= live <= MAX_PARTICLES,
        1 <= times <= 4,
    ensures
        live + Burst::of_hit(live, struck, times, milestone).total() <= MAX_PARTICLES,
        live + Burst::of_puff(live).total() <= MAX_PARTICLES,
{
}

/// A mistake costs no points: a wrong note and a note nobody played leave the score,
/// the best combo, the surge and the counts of hits as they were, and are counted
/// once, each as what it is.
pub proof fn law_mistakes_cost_no_points(t: Tally)
    requires
        t.wf(),
        t.judged() < u32::MAX,
    ensures
        ({
            let w = t.after_wrong();
            let m = t.after_miss();
            &&& w.score == t.score && m.score == t.score
            &&& w.best_combo == t.best_combo && m.best_combo == t.best_combo
            &&& w.total_perfect == t.total_perfect && m.total_perfect == t.total_perfect
            &&& w.total_good == t.total_good && m.total_good == t.total_good
            &&& w.total_ok == t.total_ok && m.total_ok == t.total_ok
            &&& w.total_wrong == t.total_wrong + 1 && m.total_wrong == t.total_wrong
            &&& w.total_missed == t.total_missed && m.total_missed == t.total_missed + 1
            &&& w.surge == t.surge && m.surge == t.surge
            &&& w.last_chord == t.last_chord && m.last_chord == t.last_chord
            &&& w.combo == 0 && m.combo == 0
            &&& !w.chord_all_perfect && !m.chord_all_perfect
        }),
{
}

/// The score never falls. A hit pays at least 20 points and is counted once, by its
/// own timing: PERFECT up to 120 ms off, GOOD up to 280 ms, and else, or when the
/// song waited more than 450 ms for it, only OK. No mistake is counted with it, and
/// the best combo is the longest there was.
pub proof fn law_a_hit_never_takes_points(t: Tally, delta: u64, late: bool, chord: Option<u64>)
    requires
        t.wf(),
        t.judged() < u32::MAX,
    ensures
        ({
            let h = t.after_hit(delta, late, chord);
            let slow = late && delta > 450_000_000;
            let perfect = !slow && delta <= 120_000_000;
            let good = !slow && 120_000_000 < delta <= 280_000_000;
            &&& h.score >= t.score + 20
            &&& h.total_perfect - t.total_perfect == (if perfect {
                1int
            } else {
                0
            })
            &&& h.total_good - t.total_good == (if good {
                1int
            } else {
                0
            })
            &&& h.total_ok - t.total_ok == (if !perfect && !good {
                1int
            } else {
                0
            })
            &&& h.total_wrong == t.total_wrong
            &&& h.total_missed == t.total_missed
            &&& h.last_chord == chord
            &&& h.best_combo >= t.best_combo
            &&& h.best_combo >= h.combo
            &&& h.best_combo == t.best_combo || h.best_combo == h.combo
        }),
{
    lemma_points(t, delta, late, chord);
}

/// What a hit is worth: 100 points for a PERFECT, 60 for a GOOD, 20 for any other,
/// times one more for every ten steps of the combo it makes, up to four; half as
/// much again while the board surges. A note the song waited for is worth 20 flat,
/// 30 in a surge.
pub proof fn law_points_of_a_hit(t: Tally, delta: u64, late: bool, chord: Option<u64>)
    requires
        t.wf(),
        t.judged() < u32::MAX,
    ensures
        ({
            let h = t.after_hit(delta, late, chord);
            let paid = h.score - t.score;
            let steps = h.combo as int;
            let times = if steps < 10 {
                1int
            } else if steps < 20 {
                2
            } else if steps < 30 {
                3
            } else {
                4
            };
            let each = if delta <= 120_000_000 {
                100int
            } else if delta <= 280_000_000 {
                60
            } else {
                20
            };
            if late && delta > 450_000_000 {
                paid == (if t.surge > 0 {
                    30int
                } else {
                    20
                })
            } else {
                2 * paid == each * times * (if h.surge > 0 {
                    3int
                } else {
                    2
                })
            }
        }),
{
    lemma_points(t, delta, late, chord);
}

proof fn lemma_points(t: Tally, delta: u64, late: bool, chord: Option<u64>)
    requires
        t.wf(),
        t.judged() < u32::MAX,
    ensures
        !too_slow(delta, late) ==> {
            let h = t.after_hit(delta, late, chord);
            let times = multiplier_of(h.combo as int);
            &&& 1 <= times <= 4
            &&& h.combo == t.next_combo(chord)
            &&& h.surge > 0 ==> 2 * (h.score - t.score) == face_value(delta) * times * 3
            &&& h.surge == 0 ==> h.score - t.score == face_value(delta) * times
            &&& 20 <= face_value(delta) * times <= 400
        },
        too_slow(delta, late) ==> t.after_hit(delta, late, chord).score == t.score + (if t.surge > 0 {
            30int
        } else {
            20
        }),
{
    let combo = t.next_combo(chord);
    let times = multiplier_of(combo);
    assert(1 <= times <= 4);
    let f = face_value(delta);
    assert(f == 100 || f == 60 || f == 20);
    assert(f * times == 100 * times || f * times == 60 * times || f * times == 20 * times);
    assert(f * times * 3 == 3 * (f * times)) by (nonlinear_arith);
}

/// A new chord is one more step of the combo and a note of the same chord none: two
/// notes are of one chord when the song asked for them at most 30 ms apart. A note
/// the song waited for ends the combo.
pub proof fn law_combo_counts_chords(t: Tally, delta: u64, late: bool, asked: u64, before: u64)
    requires
        t.wf(),
        t.judged() < u32::MAX,
        t.last_chord == Some(before),
    ensures
        ({
            let h = t.after_hit(delta, late, Some(asked));
            if late && delta > 450_000_000 {
                h.combo == 0 && h.perfect_chords == 0
            } else if asked > before + 30_000_000 || before > asked + 30_000_000 {
                h.combo == t.combo + 1
            } else {
                h.combo == t.combo
            }
        }),
        t.after_hit(delta, late, None).combo == (if late && delta > 450_000_000 {
            0
        } else {
            t.combo + 1
        }),
{
}

/// Two chords in a row that are struck cleanly, each within 120 ms, call the
/// lightning down, and the board then surges for eight seconds; the first alone, or
/// with anything sloppy in between, does not.
pub proof fn law_two_clean_chords_strike(
    t: Tally,
    delta: u64,
    again: u64,
    first: u64,
    second: u64,
)
    requires
        t.wf(),
        t.judged() < u32::MAX - 1,
        t.surge == 0,
        t.perfect_chords == 0,
        t.last_chord is None,
        first + 30_000_000 < second,
    ensures
        ({
            let one = t.after_hit(delta, false, Some(first));
            let two = one.after_hit(again, false, Some(second));
            &&& one.surge == 0
            &&& two.surge == (if delta <= 120_000_000 && again <= 120_000_000 {
                8_000_000_000u64
            } else {
                0
            })
            &&& two.surge > 0 ==> two.perfect_chords == 0
            &&& one.after_wrong().after_hit(again, false, Some(second)).surge == 0
            &&& one.after_miss().after_hit(again, false, Some(second)).surge == 0
        }),
{
}

/// A sloppy key within a chord spoils the chain that the chord was building.
pub proof fn law_a_sloppy_key_spoils_the_chord(t: Tally, delta: u64, late: bool, chord: Option<u64>)
    requires
        t.wf(),
        t.judged() < u32::MAX,
    ensures
        delta > 120_000_000 ==> t.after_hit(delta, late, chord).perfect_chords == 0,
        delta > 120_000_000 && t.surge == 0 ==> t.after_hit(delta, late, chord).surge == 0,
        t.surge > 0 ==> t.after_hit(delta, late, chord).surge == t.surge,
        t.after_hit(delta, late, chord).surge == t.surge || t.after_hit(delta, late, chord).surge
            == 8_000_000_000,
{
}

/// Time takes from the surge what it lasts and touches nothing else.
pub proof fn law_time_only_wears_the_surge(t: Tally, dt: u64)
    requires
        t.wf(),
    ensures
        ({
            let u = t.after_time(dt);
            &&& dt <= t.surge ==> u.surge == t.surge - dt
            &&& dt > t.surge ==> u.surge == 0
            &&& u == (Tally { surge: u.surge, ..t })
        }),
{
}

/// The results screen shows the tallies, each under its own name.
pub proof fn law_results_are_the_tallies(t: Tally)
    ensures
        t.as_results().perfect == t.total_perfect,
        t.as_results().good == t.total_good,
        t.as_results().ok == t.total_ok,
        t.as_results().wrong == t.total_wrong,
        t.as_results().missed == t.total_missed,
        t.as_results().best_combo == t.best_combo,
        t.as_results().score == t.score,
        t.as_results().judged() == t.judged(),
{
}

/// Where there is room, a hit throws 46 sparks and 12 more for each further step of
/// the multiplier; a bolt adds a ring and 26 sparks where it lands, a milestone 70
/// sparks and a firework of 90. A puff has 14 pieces. Without room nothing is
/// thrown.
pub proof fn law_what_a_hit_throws(live: int, struck: bool, times: int, milestone: bool)
    requires
        0 <= live,
        1 <= times <= 4,
    ensures
        ({
            let burst = Burst::of_hit(live, struck, times, milestone);
            &&& live <= 5000 ==> {
                &&& burst.beam == 1 && burst.ring == 1 && burst.puff == 0
                &&& burst.sparks == 34 + 12 * times + (if milestone {
                    70int
                } else {
                    0
                })
                &&& burst.firework == (if milestone {
                    90int
                } else {
                    0
                })
                &&& burst.impact_ring == (if struck {
                    1int
                } else {
                    0
                })
                &&& burst.impact_sparks == (if struck {
                    26int
                } else {
                    0
                })
                &&& Burst::of_puff(live).puff == 14 == Burst::of_puff(live).total()
            }
            &&& live >= 6000 ==> burst.total() == 0 && Burst::of_puff(live).total() == 0
        }),
{
}

/// As many particles are thrown as there is room for, and no more than are wanted.
pub proof fn law_room_is_used_up(live: int, wanted: int)
    requires
        0 <= live,
        0 <= wanted,
    ensures
        0 <= allotted(live, wanted) <= wanted,
        live <= 6000 ==> live + allotted(live, wanted) <= 6000,
        allotted(live, wanted) < wanted ==> live + allotted(live, wanted) >= 6000,
        live >= 6000 ==> allotted(live, wanted) == 0,
{
}

/// The record holds the last twenty notes, newest last.
pub proof fn law_the_last_twenty_notes_count(recent: Seq<bool>, good: bool, k: int)
    requires
        recent.len() <= 20,
        1 <= k < recorded(recent, good).len(),
    ensures
        recorded(recent, good).last() == good,
        recorded(recent, good).len() == (if recent.len() < 20 {
            recent.len() + 1
        } else {
            20
        }),
        recorded(recent, good)[recorded(recent, good).len() - 1 - k] == recent[recent.len() - k],
{
}

/// Correct notes are counted one by one, wherever they stand in the record.
pub proof fn law_correct_notes_are_counted(before: Seq<bool>, good: bool, after: Seq<bool>)
    ensures
        correct(before + seq![good] + after) - correct(before + after) == (if good {
            1int
        } else {
            0
        }),
        correct(Seq::empty()) == 0,
    decreases after.len(),
{
    let (more, fewer) = (before + seq![good] + after, before + after);
    if after.len() == 0 {
        assert(more.drop_last() =~= fewer);
    } else {
        law_correct_notes_are_counted(before, good, after.drop_last());
        assert(more.drop_last() =~= before + seq![good] + after.drop_last());
        assert(fewer.drop_last() =~= before + after.drop_last());
    }
}

/// The audience has no opinion before three notes. After that its mood follows the
/// share of correct ones: at least a quarter for it to stop being angry, 42 per cent
/// to be neutral, 60 to smile, 75 to beam; and for stars in its eyes 88 per cent of
/// at least ten notes.
pub proof fn law_mood_follows_the_share(recent: Seq<bool>)
    ensures
        ({
            let (good, all) = (100 * correct(recent), recent.len());
            &&& mood(recent) is None <==> all < 3
            &&& all >= 3 ==> {
                &&& 0 <= mood(recent)->0 <= 5
                &&& mood(recent)->0 >= 1 <==> good >= 25 * all
                &&& mood(recent)->0 >= 2 <==> good >= 42 * all
                &&& mood(recent)->0 >= 3 <==> good >= 60 * all
                &&& mood(recent)->0 >= 4 <==> good >= 75 * all
                &&& mood(recent)->0 >= 5 <==> good >= 88 * all && all >= 10
            }
        }),
{
}

/// Nothing that is owed gets lost while there is room: the pieces that come out and
/// the rest that is kept make up what there was, and the rest is less than a piece.
pub proof fn law_nothing_owed_is_lost(acc: int, unit: int, free: int)
    requires
        acc >= 0,
        unit > 0,
        free >= 0,
    ensures
        ({
            let (out, rest) = owed(acc, unit, free);
            &&& 0 <= out <= free
            &&& 0 <= rest < unit
            &&& acc < (free + 1) * unit ==> out * unit + rest == acc
            &&& acc >= (free + 1) * unit ==> out == free && rest == 0
        }),
{
    assert(acc / unit * unit + acc % unit == acc) by (nonlinear_arith)
        requires
            unit > 0,
    ;
    assert(acc / unit > free <==> acc >= (free + 1) * unit) by (nonlinear_arith)
        requires
            unit > 0,
            acc / unit * unit + acc % unit == acc,
            0 <= acc % unit < unit,
    ;
    assert(0 <= acc / unit) by (nonlinear_arith)
        requires
            acc >= 0,
            unit > 0,
    ;
}

/// Each rising text ages on its own, in its place, and goes when its time is up.
pub proof fn law_texts_age_one_by_one(
    before: Seq<RisingText>,
    text: RisingText,
    after: Seq<RisingText>,
    dt: u64,
)
    ensures
        risen(before + seq![text] + after, dt) == risen(before, dt) + (if text.age + dt
            < text.life {
            seq![RisingText { age: (text.age + dt) as u64, ..text }]
        } else {
            Seq::empty()
        }) + risen(after, dt),
    decreases after.len(),
{
    let all = before + seq![text] + after;
    if after.len() == 0 {
        assert(all.drop_last() =~= before);
    } else {
        law_texts_age_one_by_one(before, text, after.drop_last(), dt);
        assert(all.drop_last() =~= before + seq![text] + after.drop_last());
        assert(all.last() == after.last());
    }
}

/// Each lit bar dims on its own, in its place, and goes out when its time is up.
pub proof fn law_bars_dim_one_by_one(
    before: Seq<NoteFlash>,
    flash: NoteFlash,
    after: Seq<NoteFlash>,
    dt: u64,
)
    ensures
        dimmed(before + seq![flash] + after, dt) == dimmed(before, dt) + (if dt < flash.life {
            seq![NoteFlash { life: (flash.life - dt) as u64, ..flash }]
        } else {
            Seq::empty()
        }) + dimmed(after, dt),
    decreases after.len(),
{
    let all = before + seq![flash] + after;
    if after.len() == 0 {
        assert(all.drop_last() =~= before);
    } else {
        law_bars_dim_one_by_one(before, flash, after.drop_last(), dt);
        assert(all.drop_last() =~= before + seq![flash] + after.drop_last());
        assert(all.last() == after.last());
    }
}

/// A struck bar lights up where it is, for as long as it sounds but for at least 450
/// ms and at most 1.4 s, over its length less ten milliseconds, which counts as at
/// least a tenth of a second.
pub proof fn law_a_struck_bar_lights_up(note: u8, x: u32, w: u32, start: u64, duration: u64)
    ensures
        ({
            let flash = flash_of(note, x, w, start, duration);
            &&& flash.note == note && flash.x == x && flash.w == w && flash.start == start
            &&& flash.life == flash.max_life
            &&& 450_000_000 <= flash.life <= 1_400_000_000
            &&& 450_000_000 <= duration <= 1_400_000_000 ==> flash.life == duration
            &&& duration < 450_000_000 ==> flash.life == 450_000_000
            &&& duration > 1_400_000_000 ==> flash.life == 1_400_000_000
            &&& duration >= 100_000_000 ==> flash.h + 10_000_000 == duration
            &&& duration < 100_000_000 ==> flash.h == 90_000_000
        }),
{
}

/// Fireworks take the colours of the seven white keys, each as likely as another.
pub proof fn law_fireworks_take_white_keys(a: int, b: int)
    requires
        0 <= a < b < 7,
    ensures
        firework_note(a) < firework_note(b) <= 11,
        forall|k: int|
            0 <= k < 7 ==> {
                let n = #[trigger] firework_note(k);
                n == 0 || n == 2 || n == 4 || n == 5 || n == 7 || n == 9 || n == 11
            },
{
}

/// Notes an octave apart have one colour: C red, D orange, E yellow, F green, G blue,
/// A violet, B pink, and all black keys an icy white.
pub proof fn law_notes_have_the_colour_of_their_name(note: u8)
    ensures
        note <= 243 ==> note_color(note) == note_color((note + 12) as u8),
        note % 12 == 0 ==> note_color(note) == (230u8, 30u8, 30u8),
        note % 12 == 2 ==> note_color(note) == (255u8, 140u8, 0u8),
        note % 12 == 4 ==> note_color(note) == (255u8, 215u8, 0u8),
        note % 12 == 5 ==> note_color(note) == (40u8, 190u8, 60u8),
        note % 12 == 7 ==> note_color(note) == (40u8, 90u8, 230u8),
        note % 12 == 9 ==> note_color(note) == (150u8, 60u8, 210u8),
        note % 12 == 11 ==> note_color(note) == (255u8, 105u8, 180u8),
        note % 12 == 1 || note % 12 == 3 || note % 12 == 6 || note % 12 == 8 || note % 12 == 10
            ==> note_color(note) == (210u8, 235u8, 255u8),
{
}

/// What a correct note does to the screen: a grade rises out of its key for 900 ms,
/// PERFECT up to 120 ms off, GOOD up to 280 ms, TOO SLOW for one the song waited more
/// than 450 ms for, and else none; a new chord makes the combo counter pop for a
/// quarter of a second; every tenth step is a milestone; a bolt whites the screen
/// out. The audience saw a good note unless it was too slow.
pub proof fn law_what_a_hit_shows(
    before: EffectsSystem,
    after: EffectsSystem,
    x: u32,
    y: u32,
    delta: u64,
    late: bool,
    chord: Option<u64>,
    live: int,
    show: HitShow,
)
    requires
        before.wf(),
        before.tally.judged() < u32::MAX,
        before.lands(after, x, y, delta, late, chord, live, show),
    ensures
        ({
            let slow = late && delta > 450_000_000;
            let grade = if slow {
                Some(RisingGrade::Slow)
            } else if delta <= 120_000_000 {
                Some(RisingGrade::Perfect)
            } else if delta <= 280_000_000 {
                Some(RisingGrade::Good)
            } else {
                None
            };
            &&& show.grade == grade
            &&& grade is None ==> after.rising@ == before.rising@
            &&& grade is Some ==> {
                &&& after.rising@.len() == before.rising@.len() + 1
                &&& after.rising@.take(before.rising@.len() as int) == before.rising@
                &&& after.rising@.last() == (RisingText {
                    x,
                    y0: y,
                    age: 0,
                    life: 900_000_000,
                    grade: grade->0,
                })
            }
            &&& after.recent@.last() == !slow
            &&& slow ==> after.combo_pop == 0 && show.bolt is None && !show.milestone
                && show.burst.sparks == 0
            &&& !slow && after.tally.combo > before.tally.combo ==> after.combo_pop == 250_000_000
            &&& !slow && after.tally.combo == before.tally.combo ==> after.combo_pop
                == before.combo_pop && !show.milestone
            &&& show.milestone <==> !slow && after.tally.combo > before.tally.combo
                && after.tally.combo % 10 == 0
            &&& show.bolt is Some <==> before.tally.surge == 0 && after.tally.surge > 0
            &&& show.bolt is Some ==> after.strike_flash == 2_000_000_000
            &&& show.bolt is None ==> after.strike_flash == before.strike_flash
            &&& show.burst.puff > 0 ==> slow
            &&& after.arc_acc == before.arc_acc && after.ember_acc == before.ember_acc
            &&& after.celebrate_acc == before.celebrate_acc
        }),
{
    if show.grade is Some {
        assert(after.rising@.take(before.rising@.len() as int) =~= before.rising@);
    }
}

/// What a mistake does to the screen: the combo counter stops popping and the
/// audience saw a bad note; no text rises, no bar lights up, nothing else changes.
pub proof fn law_what_a_mistake_shows(
    before: EffectsSystem,
    after: EffectsSystem,
    tally: Tally,
    draws: nat,
)
    requires
        before.wf(),
        before.fails(after, tally, draws),
    ensures
        after.tally == tally,
        !after.recent@.last(),
        after.combo_pop == 0,
        after.rising@ == before.rising@,
        after.note_flashes@ == before.note_flashes@,
        after.strike_flash == before.strike_flash,
        after.rng == advance(before.rng, draws),
        after.arc_acc == before.arc_acc,
        after.ember_acc == before.ember_acc,
        after.celebrate_acc == before.celebrate_acc,
{
}

/// What a frame shows while there is room: 95 arcs a second for as long as the board
/// surges; and from a combo of fifteen on, 60 embers a second and three and a half
/// more for each step. What is owed beyond whole ones is kept for the next frame; the
/// combo counter's pop and the white-out fade.
pub proof fn law_what_a_frame_shows(
    before: EffectsSystem,
    after: EffectsSystem,
    dt: u64,
    live: int,
    show: FrameShow,
)
    requires
        before.wf(),
        0 <= live,
        before.advances(after, dt, live, show),
    ensures
        ({
            let surging = before.tally.surge > dt;
            let burning = before.tally.combo >= 15;
            &&& after.tally.surge > 0 <==> surging
            &&& !surging ==> show.arcs == 0 && after.arc_acc == 0
            &&& surging && live + show.arcs < 6000 ==> show.arcs * 1_000_000_000 + after.arc_acc
                == before.arc_acc + 95 * dt
            &&& !burning ==> show.embers == 0 && after.ember_acc == 0
            &&& burning && live + show.arcs + show.embers < 6000 ==> 2 * (show.embers
                * 1_000_000_000) + after.ember_acc == before.ember_acc + dt * (120 + 7
                * before.tally.combo)
            &&& live <= 6000 ==> live + show.arcs + show.embers <= 6000
            &&& before.combo_pop > dt ==> after.combo_pop == before.combo_pop - dt
            &&& before.combo_pop <= dt ==> after.combo_pop == 0
            &&& before.strike_flash > 7 * dt ==> after.strike_flash == before.strike_flash - 7 * dt
            &&& before.strike_flash <= 7 * dt ==> after.strike_flash == 0
            &&& after.tally.score == before.tally.score && after.tally.combo == before.tally.combo
            &&& after.recent@ == before.recent@
            &&& after.celebrate_acc == before.celebrate_acc
        }),
{
    let free = allotted(live, 6000);
    if before.tally.surge > dt {
        law_nothing_owed_is_lost(before.arc_acc + 95 * dt, 1_000_000_000, free);
    }
    if before.tally.combo >= 15 {
        let rate = 120 + 7 * before.tally.combo;
        assert(dt * rate >= 0) by (nonlinear_arith)
            requires
                dt >= 0,
                rate >= 0,
        ;
        law_nothing_owed_is_lost(
            before.ember_acc + dt * rate,
            2_000_000_000,
            allotted(live + show.arcs, 6000),
        );
    }
}

/// Fireworks go off once 550 ms have gathered, however they are cut into frames, and
/// the clock then starts anew; each has 70 sparks where there is room, and nothing of
/// the performance changes.
pub proof fn law_fireworks_keep_their_pace(
    before: EffectsSystem,
    after: EffectsSystem,
    dt: u64,
    live: int,
    firework: Option<Firework>,
)
    requires
        before.wf(),
        0 <= live,
        before.celebrated(after, dt, live, firework),
    ensures
        firework is Some <==> before.celebrate_acc + dt >= 550_000_000,
        firework is Some ==> after.celebrate_acc == 0,
        firework is None ==> after.celebrate_acc == before.celebrate_acc + dt && after.rng
            == before.rng,
        firework is Some && live <= 5930 ==> firework->0.sparks == 70,
        firework is Some ==> live + firework->0.sparks <= 6000 || firework->0.sparks == 0,
        firework is Some ==> firework->0.note <= 11,
        after.tally == before.tally,
        after.recent@ == before.recent@,
        after.rising@ == before.rising@,
        after.note_flashes@ == before.note_flashes@,
{
    if firework is Some {
        let c = advance(before.rng, 3) as int % 7;
        assert(0 <= c < 7);
    }
}

/// The words of the three grades.
pub proof fn law_grades_have_their_words(grade: RisingGrade)
    ensures
        grade.label() == "PERFECT!"@ <==> grade == RisingGrade::Perfect,
        grade.label() == "GOOD"@ <==> grade == RisingGrade::Good,
        grade.label() == "TOO SLOW"@ <==> grade == RisingGrade::Slow,
{
    reveal_strlit("PERFECT!");
    reveal_strlit("GOOD");
    reveal_strlit("TOO SLOW");
    assert("PERFECT!"@[0] == 'P');
    assert("GOOD"@[0] == 'G');
    assert("TOO SLOW"@[0] == 'T');
}

/// A game starts with nothing on its account, no combo, an undecided crowd, a dark board
/// and nothing in the air.
pub proof fn law_a_game_starts_at_nothing(fx: EffectsSystem)
    requires
        fx.is_new(),
    ensures
        fx.tally.score == 0 && fx.tally.combo == 0 && fx.tally.best_combo == 0,
        fx.tally.total_perfect == 0 && fx.tally.total_good == 0 && fx.tally.total_ok == 0,
        fx.tally.total_wrong == 0 && fx.tally.total_missed == 0,
        fx.tally.perfect_chords == 0 && fx.tally.surge == 0 && fx.tally.last_chord is None
            && !fx.tally.chord_all_perfect,
        fx.recent@.len() == 0 && fx.rising@.len() == 0 && fx.note_flashes@.len() == 0,
        fx.combo_pop == 0 && fx.strike_flash == 0,
        fx.arc_acc == 0 && fx.ember_acc == 0 && fx.celebrate_acc == 0,
        fx.rng == 0x9E37_79B9_7F4A_7C15,
{
}

/// Every spark where lightning lands takes eight draws, every other spark seven, every
/// piece of a firework or of a puff five, and a ring or a beam none.
pub proof fn law_particles_take_their_draws(burst: Burst, more: Burst)
    requires
        burst.total() < 1_000_000,
    ensures
        more == (Burst { impact_sparks: (burst.impact_sparks + 1) as usize, ..burst })
            ==> more.draws() == burst.draws() + 8 && more.total() == burst.total() + 1,
        more == (Burst { sparks: (burst.sparks + 1) as usize, ..burst }) ==> more.draws()
            == burst.draws() + 7 && more.total() == burst.total() + 1,
        more == (Burst { firework: (burst.firework + 1) as usize, ..burst }) ==> more.draws()
            == burst.draws() + 5 && more.total() == burst.total() + 1,
        more == (Burst { puff: (burst.puff + 1) as usize, ..burst }) ==> more.draws()
            == burst.draws() + 5 && more.total() == burst.total() + 1,
        more == (Burst { ring: (burst.ring + 1) as usize, ..burst }) ==> more.draws()
            == burst.draws() && more.total() == burst.total() + 1,
        more == (Burst { beam: (burst.beam + 1) as usize, ..burst }) ==> more.draws()
            == burst.draws() && more.total() == burst.total() + 1,
        more == (Burst { impact_ring: (burst.impact_ring + 1) as usize, ..burst })
            ==> more.draws() == burst.draws() && more.total() == burst.total() + 1,
        Burst::nothing().draws() == 0 && Burst::nothing().total() == 0,
{
}

/// Every draw of a hit is taken once, a bolt's before the particles'; a hit that calls
/// lightning lights the board, and any other leaves it as bright as it was.
pub proof fn law_a_hit_takes_its_draws_in_turn(
    before: EffectsSystem,
    after: EffectsSystem,
    x: u32,
    y: u32,
    delta: u64,
    late: bool,
    chord: Option<u64>,
    live: int,
    show: HitShow,
)
    requires
        before.lands(after, x, y, delta, late, chord, live, show),
    ensures
        show.bolt is None ==> show.draws@ == drawn(before.rng, show.burst.draws()) && after.rng
            == advance(before.rng, show.burst.draws()) && after.strike_flash
            == before.strike_flash,
        show.bolt is Some ==> {
            let bolt = show.bolt->0;
            &&& bolt.drawn_from(before.rng)
            &&& show.draws@ == drawn(advance(before.rng, bolt.draws()), show.burst.draws())
            &&& after.rng == advance(before.rng, bolt.draws() + show.burst.draws())
            &&& after.strike_flash == 2_000_000_000
        },
        show.draws@.len() == show.burst.draws(),
        after.arc_acc == before.arc_acc && after.ember_acc == before.ember_acc
            && after.celebrate_acc == before.celebrate_acc,
{
    if show.bolt is Some {
        lemma_advance_adds(before.rng, (show.bolt->0).draws(), show.burst.draws());
    }
}

/// A firework goes up where the first two draws say, in the colour of the third, and each
/// of its sparks takes five more; nothing else of the board changes with it.
pub proof fn law_a_firework_takes_its_draws_in_turn(
    before: EffectsSystem,
    after: EffectsSystem,
    dt: u64,
    live: int,
    firework: Option<Firework>,
)
    requires
        before.celebrated(after, dt, live, firework),
    ensures
        firework is Some ==> {
            let work = firework->0;
            &&& work.x == draw(before.rng, 1)
            &&& work.y == draw(before.rng, 2)
            &&& work.draws@ == drawn(advance(before.rng, 3), (5 * work.sparks) as nat)
            &&& after.rng == advance(before.rng, (3 + 5 * work.sparks) as nat)
        },
        after.combo_pop == before.combo_pop,
        after.strike_flash == before.strike_flash,
        after.arc_acc == before.arc_acc,
        after.ember_acc == before.ember_acc,
{
}

} // verus!
