use keyboard_hero::chance::{draw_bolt, draw_many, next_draw, next_u64};
use keyboard_hero::effects::{
    allot, note_rgb, room, EffectsSystem, RisingGrade, BOLT_CHORDS, MAX_PARTICLES, SURGE_TIME,
};
use keyboard_hero::results::Results;
use keyboard_hero::text::{decimal_text, thousands};

const MS: u64 = 1_000_000;
const SEC: u64 = 1_000_000_000;

fn start() -> u64 {
    1_000 * SEC
}

/// Strike a correct, well-timed note that the song asked for at `chord`.
fn hit(fx: &mut EffectsSystem, chord: u64) {
    fx.good_hit(0, 0, 10 * MS, false, Some(chord), 0);
}

/// The same, `delta` off the beat: 200 ms is a GOOD, not a PERFECT.
fn hit_off(fx: &mut EffectsSystem, chord: u64, delta: u64) {
    fx.good_hit(0, 0, delta, false, Some(chord), 0);
}

/// Points a chord struck dead on time is actually credited with.
fn pay_for_perfect(fx: &mut EffectsSystem, chord: u64) -> u64 {
    let before = fx.score();
    hit(fx, chord);
    fx.score() - before
}

/// `n` separate chords, each one note struck dead on time.
fn perfect_chords(fx: &mut EffectsSystem, start: u64, n: u64) {
    for i in 0..n {
        hit(fx, start + 100 * MS * i);
    }
}

/// Three keys down for one chord is one musical event, so one combo step,
/// however ragged the hands were about it.
#[test]
fn a_chord_advances_the_combo_once() {
    let mut fx = EffectsSystem::new();
    let chord = start();

    hit(&mut fx, chord);
    hit(&mut fx, chord);
    hit(&mut fx, chord);

    assert_eq!(fx.combo(), 1);
    assert_eq!(fx.best_combo(), 1);
}

/// The song voicing a chord a few ms wide, or the player rolling it, must not
/// turn one chord into several combo steps.
#[test]
fn a_rolled_chord_is_still_one_chord() {
    let mut fx = EffectsSystem::new();
    let chord = start();

    hit(&mut fx, chord);
    hit(&mut fx, chord + 12 * MS);
    hit(&mut fx, chord + 25 * MS);

    assert_eq!(fx.combo(), 1);
}

/// Separate notes stay separate: a fast run must still build a streak.
#[test]
fn consecutive_notes_each_advance_the_combo() {
    let mut fx = EffectsSystem::new();
    let start = start();

    for (i, _note) in [60u8, 62, 64, 65].into_iter().enumerate() {
        hit(&mut fx, start + 100 * MS * i as u64);
    }

    assert_eq!(fx.combo(), 4);
}

/// 32nd notes at 120bpm are ~62ms apart and are not a chord.
#[test]
fn fast_runs_are_not_mistaken_for_chords() {
    let mut fx = EffectsSystem::new();
    let start = start();

    hit(&mut fx, start);
    hit(&mut fx, start + 62 * MS);

    assert_eq!(fx.combo(), 2);
}

/// Chords count once, but each key is still judged on its own timing: the
/// streak changes, the note tallies do not.
#[test]
fn chord_notes_are_still_scored_individually() {
    let mut fx = EffectsSystem::new();
    let chord = start();

    hit(&mut fx, chord);
    hit(&mut fx, chord);
    hit(&mut fx, chord);

    let results = fx.results();
    assert_eq!(fx.combo(), 1);
    assert_eq!(results.perfect, 3);
    assert_eq!(results.total_hit(), 3);
}

fn run(perfect: u32, good: u32, ok: u32, wrong: u32) -> &'static str {
    Results {
        perfect,
        good,
        ok,
        wrong,
        best_combo: 0,
        missed: 0,
        score: 0,
    }
    .grade()
    .0
}

fn run_with_misses(perfect: u32, missed: u32) -> &'static str {
    Results {
        perfect,
        good: 0,
        ok: 0,
        wrong: 0,
        missed,
        best_combo: 0,
        score: 0,
    }
    .grade()
    .0
}

/// The grade ladder is only meaningful if these stay pinned: an A has to mean
/// "played in time", not "eventually hit the right keys", but playing a song
/// *well* has to actually land in the A/B range.
#[test]
fn grades_reward_timing_not_just_correctness() {
    // Flawless timing is the only way to the very top of the ladder.
    assert_eq!(run(100, 0, 0, 0), "A++");
    assert_eq!(run(85, 12, 2, 1), "A+");

    // Right notes, consistently a shade behind: a clean performance.
    assert_eq!(run(0, 100, 0, 0), "A-");

    // Loose but competent.
    assert_eq!(run(60, 25, 10, 5), "A-");

    // A scrappy run: sloppy timing plus a lot of wrong notes.
    assert_eq!(run(27, 28, 25, 20), "C");

    // The song stalled and waited for every single note. That is not a
    // performance, and it should not flatter one.
    assert_eq!(run(0, 0, 100, 0), "D+");
}

/// Wrong notes have to cost more than the slot they take up, or spraying extra
/// notes is nearly free as long as the right ones land too.
#[test]
fn wrong_notes_are_penalised_beyond_dilution() {
    // Same 100 perfectly-timed notes each time; only the spray changes.
    assert_eq!(run(100, 0, 0, 0), "A++");
    assert_eq!(run(100, 0, 0, 20), "B+");
    assert_eq!(run(100, 0, 0, 50), "C+");
}

#[test]
fn empty_run_does_not_divide_by_zero() {
    assert_eq!(run(0, 0, 0, 0), "F");
}

/// Misses are zero-credit attempts: they dilute the grade like wrong notes but
/// at half weight and without the extra penalty, so sitting out part of a jam
/// costs less than fumbling it. Playing nothing at all in jam mode is still an
/// F, though the results screen never shows for it, because misses alone are
/// not activity.
#[test]
fn misses_dilute_the_grade_without_extra_penalty() {
    assert_eq!(run_with_misses(100, 0), "A++");
    assert_eq!(run_with_misses(90, 10), "A+");
    // Jamming along with half the notes is a solid showing, not a fail.
    assert_eq!(run_with_misses(50, 50), "B");
    assert_eq!(run_with_misses(0, 100), "F");

    let mut fx = EffectsSystem::new();
    fx.miss();
    fx.miss();
    assert!(!fx.has_activity());
    assert_eq!(fx.results().missed, 2);
}

/// Hits earn timing points, multiplied once the combo passes each tier of 10,
/// so the 10th consecutive hit is the first one worth double. Graded on GOOD
/// hits (60 points) to keep the lightning out of it: notes a shade behind never
/// charge the chain, so this is the combo tier alone.
#[test]
fn score_applies_the_combo_multiplier() {
    let mut fx = EffectsSystem::new();
    let start = start();

    for i in 0..10u64 {
        hit_off(&mut fx, start + 100 * MS * i, 200 * MS);
    }

    assert!(!fx.surging());
    assert_eq!(fx.score(), 9 * 60 + 60 * 2);
}

/// Every note of a chord scores: the combo counts a chord once, but a three-key
/// chord is still worth three notes of points.
#[test]
fn chord_notes_each_score() {
    let mut fx = EffectsSystem::new();
    let chord = start();

    hit(&mut fx, chord);
    hit(&mut fx, chord);
    hit(&mut fx, chord);

    assert_eq!(fx.combo(), 1);
    assert_eq!(fx.score(), 300);
}

/// A full chain of chords nailed dead-on calls the lightning down, on the chord
/// that completes it, and not one chord sooner.
#[test]
fn a_chain_of_perfect_chords_calls_the_lightning() {
    let mut fx = EffectsSystem::new();
    let start = start();

    let short = BOLT_CHORDS as u64 - 1;
    perfect_chords(&mut fx, start, short);
    assert!(!fx.surging());
    assert_eq!(fx.perfect_chords(), BOLT_CHORDS - 1);

    hit(&mut fx, start + 100 * MS * short);
    assert!(fx.surging());
    // The chain starts over, so a long clean run keeps re-striking.
    assert_eq!(fx.perfect_chords(), 0);
}

/// The surge cannot be extended by playing well through it: the chain is frozen
/// while the lights are up, so the reward has to run out and then be earned
/// again from nothing.
#[test]
fn a_surge_cannot_be_renewed_before_it_ends() {
    let mut fx = EffectsSystem::new();
    let start = start();

    perfect_chords(&mut fx, start, BOLT_CHORDS as u64);
    assert!(fx.surging());
    let struck_at = fx.surge_secs_left();

    // A whole clean chain played inside the surge banks nothing and, above all,
    // does not top the timer back up.
    fx.update(2 * SEC, 0);
    perfect_chords(
        &mut fx,
        start + 100 * MS * BOLT_CHORDS as u64,
        BOLT_CHORDS as u64,
    );
    assert_eq!(fx.perfect_chords(), 0);
    assert!(fx.surge_secs_left() < struck_at);

    // Once it expires, the same playing earns a fresh strike.
    fx.update(SURGE_TIME, 0);
    assert!(!fx.surging());

    let later = start + 30 * SEC;
    perfect_chords(&mut fx, later, BOLT_CHORDS as u64 - 1);
    assert!(!fx.surging());
    hit(&mut fx, later + 100 * MS * BOLT_CHORDS as u64);
    assert!(fx.surging());
}

/// The chain is about *timing*, not correctness: right notes played a shade
/// behind never charge it, however long the streak.
#[test]
fn only_perfect_timing_charges_the_chain() {
    let mut fx = EffectsSystem::new();
    let start = start();

    for i in 0..8u64 {
        hit_off(&mut fx, start + 100 * MS * i, 200 * MS);
    }

    assert_eq!(fx.combo(), 8);
    assert_eq!(fx.perfect_chords(), 0);
    assert!(!fx.surging());
}

/// A chord is only PERFECT if every key in it was: one late hand spoils the
/// chord and empties the chain it was building.
#[test]
fn a_late_key_spoils_the_chord_it_belongs_to() {
    let mut fx = EffectsSystem::new();
    let start = start();

    // Two keys of one chord, the second of them behind the beat. The first
    // opened the chord's account; the second empties it again.
    hit(&mut fx, start);
    assert_eq!(fx.perfect_chords(), 1);
    hit_off(&mut fx, start, 200 * MS);
    assert_eq!(fx.perfect_chords(), 0);

    // So a full chain is owed from scratch: one short of it is still dark.
    let next = start + 100 * MS;
    perfect_chords(&mut fx, next, BOLT_CHORDS as u64 - 1);
    assert!(!fx.surging());

    hit(&mut fx, next + 100 * MS * BOLT_CHORDS as u64);
    assert!(fx.surging());
}

/// Every kind of mistake empties the chain.
#[test]
fn mistakes_empty_the_chain() {
    let start = start();

    let mut fx = EffectsSystem::new();
    perfect_chords(&mut fx, start, BOLT_CHORDS as u64 - 1);
    fx.wrong_hit(0);
    assert_eq!(fx.perfect_chords(), 0);

    let mut fx = EffectsSystem::new();
    perfect_chords(&mut fx, start, BOLT_CHORDS as u64 - 1);
    fx.miss();
    assert_eq!(fx.perfect_chords(), 0);

    // A note the song had to stall and wait for, too.
    let mut fx = EffectsSystem::new();
    perfect_chords(&mut fx, start, BOLT_CHORDS as u64 - 1);
    fx.good_hit(0, 0, 900 * MS, true, Some(start), 0);
    assert_eq!(fx.perfect_chords(), 0);
}

/// While the surge holds, every note is worth half again as much, the note that
/// summoned the bolt included, and it expires on its own.
#[test]
fn the_surge_pays_half_again_per_note() {
    let mut fx = EffectsSystem::new();
    let start = start();

    // One chord short of the chain, so the combo tier is still x1 and each note
    // is worth its face value of 100.
    let mut at = BOLT_CHORDS as u64 - 1;
    perfect_chords(&mut fx, start, at);
    assert_eq!(fx.score(), at * 100);
    let mut next = || {
        at += 1;
        start + 100 * MS * at
    };

    // The chord that summons the bolt is itself paid at the surge rate.
    assert_eq!(pay_for_perfect(&mut fx, next()), 150);
    assert!(fx.surging());
    assert_eq!(pay_for_perfect(&mut fx, next()), 150);

    // Run the clock past the window: the lights go out.
    fx.update(SURGE_TIME + 100 * MS, 0);
    assert!(!fx.surging());

    // One note off the beat, to empty the chain the surged notes were quietly
    // rebuilding: otherwise the very next PERFECT could complete it and
    // re-strike, which is not what is under test here.
    hit_off(&mut fx, next(), 200 * MS);

    // And notes are back to face value.
    assert_eq!(pay_for_perfect(&mut fx, next()), 100);
}

#[test]
fn thousands_formats_groups() {
    assert_eq!(thousands(0), "0");
    assert_eq!(thousands(999), "999");
    assert_eq!(thousands(1000), "1,000");
    assert_eq!(thousands(1234567), "1,234,567");
}

#[test]
fn grouping_keeps_the_digits() {
    assert_eq!(thousands(u64::MAX), "18,446,744,073,709,551,615");
    assert_eq!(thousands(u64::MAX).replace(',', ""), decimal_text(u64::MAX));
    assert_eq!(thousands(1_002_003), "1,002,003");
}

#[test]
fn a_note_the_song_stalled_for_breaks_the_combo() {
    let mut fx = EffectsSystem::new();
    hit(&mut fx, start());
    hit(&mut fx, start() + 100 * MS);
    assert_eq!(fx.combo(), 2);
    let show = fx.good_hit(0, 0, 451 * MS, true, Some(start() + SEC), 0);
    assert_eq!(show.grade, Some(RisingGrade::Slow));
    assert_eq!(show.burst.puff, 14);
    assert_eq!(fx.combo(), 0);
    assert_eq!(fx.best_combo(), 2);
    assert_eq!(fx.rising_texts().last().unwrap().text(), "TOO SLOW");
}

#[test]
fn grades_rise_out_of_keys_and_fade() {
    let mut fx = EffectsSystem::new();
    let show = fx.good_hit(7, 8, 120 * MS, false, Some(start()), 0);
    assert_eq!(show.grade, Some(RisingGrade::Perfect));
    let show = fx.good_hit(7, 8, 121 * MS, false, Some(start() + SEC), 0);
    assert_eq!(show.grade, Some(RisingGrade::Good));
    let show = fx.good_hit(7, 8, 281 * MS, false, Some(start() + 2 * SEC), 0);
    assert_eq!(show.grade, None);
    assert_eq!(fx.rising_texts().len(), 2);
    assert_eq!(fx.rising_texts()[0].text(), "PERFECT!");
    assert_eq!(fx.rising_texts()[1].text(), "GOOD");
    fx.update(899 * MS, 0);
    assert_eq!(fx.rising_texts().len(), 2);
    fx.update(MS, 0);
    assert!(fx.rising_texts().is_empty());
}

#[test]
fn a_bolt_is_drawn_where_the_chain_completes() {
    let mut fx = EffectsSystem::new();
    let first = fx.good_hit(0, 0, 0, false, Some(start()), 0);
    assert!(first.bolt.is_none());
    let second = fx.good_hit(0, 0, 0, false, Some(start() + SEC), 0);
    assert!(second.bolt.is_some());
    assert_eq!(second.burst.impact_ring, 1);
    assert_eq!(second.burst.impact_sparks, 26);
    assert_eq!(fx.surge_secs_left(), 8);
    // A surge fades out over its last second.
    fx.update(7 * SEC + 500 * MS, 0);
    let bright = fx.surge_intensity();
    assert_eq!(bright.num * 2, bright.den);
}

#[test]
fn every_tenth_step_is_a_milestone() {
    let mut fx = EffectsSystem::new();
    let mut milestones = Vec::new();
    for i in 1..=20u64 {
        let show = fx.good_hit(0, 0, 200 * MS, false, Some(start() + i * 100 * MS), 0);
        if show.milestone {
            milestones.push(i);
            assert_eq!(show.burst.firework, 90);
        }
    }
    assert_eq!(milestones, vec![10, 20]);
    assert_eq!(fx.multiplier(), 3);
    assert!(fx.on_fire());
}

#[test]
fn the_multiplier_stops_at_four() {
    let mut fx = EffectsSystem::new();
    for i in 1..=60u64 {
        fx.good_hit(0, 0, 200 * MS, false, Some(start() + i * 100 * MS), 0);
    }
    assert_eq!(fx.combo(), 60);
    assert_eq!(fx.multiplier(), 4);
}

#[test]
fn bursts_keep_to_the_particles_there_are() {
    assert!(room(MAX_PARTICLES - 1));
    assert!(!room(MAX_PARTICLES));
    assert_eq!(allot(MAX_PARTICLES - 10, 34), 10);
    assert_eq!(allot(MAX_PARTICLES + 10, 34), 0);
    let mut fx = EffectsSystem::new();
    let puff = fx.wrong_hit(MAX_PARTICLES - 5);
    assert_eq!(puff.count, 5);
    assert_eq!(puff.draws.len(), 25);
}

#[test]
fn every_particle_takes_its_draws() {
    let mut fx = EffectsSystem::new();
    let mut state = fx.rng;
    // A plain hit: 34 sparks and 12 more for a multiplier of one.
    let show = fx.good_hit(0, 0, 0, false, Some(start()), 0);
    assert_eq!((show.burst.sparks, show.multiplier), (46, 1));
    assert_eq!(show.draws, draw_many(&mut state, 7 * 46));
    assert_eq!(fx.rng, state);
    // A note the song stalled for: a puff of 14.
    let show = fx.good_hit(0, 0, SEC, true, Some(start() + SEC), 0);
    assert_eq!(show.draws, draw_many(&mut state, 5 * 14));
    assert_eq!(fx.rng, state);
    // A wrong note: the same. A miss takes none.
    let puff = fx.wrong_hit(0);
    assert_eq!(puff.draws, draw_many(&mut state, 5 * 14));
    fx.miss();
    assert_eq!(fx.rng, state);
    // Two draws for the place of a firework, one for its colour, and its sparks.
    let firework = fx.celebrate(SEC, 0).unwrap();
    assert_eq!(vec![firework.x, firework.y], draw_many(&mut state, 2));
    draw_many(&mut state, 1);
    assert_eq!(firework.draws, draw_many(&mut state, 5 * 70));
    assert_eq!(fx.rng, state);
    // No particle, no draw.
    let puff = fx.wrong_hit(MAX_PARTICLES);
    assert!(puff.draws.is_empty());
    assert_eq!(fx.rng, state);
}

#[test]
fn a_bolt_is_drawn_after_the_sparks_of_the_hit_before() {
    let mut fx = EffectsSystem::new();
    let mut state = fx.rng;
    let first = fx.good_hit(0, 0, 0, false, Some(start()), 0);
    draw_many(&mut state, first.draws.len());
    let second = fx.good_hit(0, 0, 0, false, Some(start() + SEC), 0);
    let drawn = draw_bolt(&mut state);
    let bolt = second.bolt.unwrap();
    assert_eq!((bolt.entry, bolt.width), (drawn.entry, drawn.width));
    assert_eq!(bolt.kinks, drawn.kinks);
    // Then the impact's 26 sparks, and 46 of the hit itself.
    assert_eq!(second.draws, draw_many(&mut state, 8 * 26 + 7 * 46));
    assert_eq!(fx.rng, state);
}

#[test]
fn the_audience_needs_a_few_notes() {
    let mut fx = EffectsSystem::new();
    assert_eq!(fx.sentiment_level(), None);
    assert!(fx.accuracy().is_none());
    for i in 0..3u64 {
        hit(&mut fx, start() + i * 100 * MS);
    }
    assert_eq!(fx.sentiment_level(), Some(4));
    for i in 3..10u64 {
        hit(&mut fx, start() + i * 100 * MS);
    }
    assert_eq!(fx.sentiment_level(), Some(5));
    assert!(fx.crowd_maxed());
    for _ in 0..20 {
        fx.wrong_hit(0);
    }
    assert_eq!(fx.sentiment_level(), Some(0));
    assert!(!fx.crowd_maxed());
}

#[test]
fn fireworks_go_off_every_so_often() {
    let mut fx = EffectsSystem::new();
    assert!(fx.celebrate(549 * MS, 0).is_none());
    let firework = fx.celebrate(MS, 0).unwrap();
    assert_eq!(firework.sparks, 70);
    assert!([0, 2, 4, 5, 7, 9, 11].contains(&firework.note));
    assert!(fx.celebrate(MS, 0).is_none());
}

#[test]
fn a_struck_bar_stays_lit_for_a_while() {
    let mut fx = EffectsSystem::new();
    fx.note_struck(60, 1, 2, SEC, 50 * MS);
    fx.note_struck(62, 1, 2, SEC, 5 * SEC);
    assert_eq!(fx.note_flashes[0].life, 450 * MS);
    assert_eq!(fx.note_flashes[0].h, 90 * MS);
    assert_eq!(fx.note_flashes[1].life, 1400 * MS);
    assert_eq!(fx.note_flashes[1].h, 5 * SEC - 10 * MS);
    fx.update(450 * MS, 0);
    assert_eq!(fx.note_flashes.len(), 1);
}

#[test]
fn arcs_and_embers_come_at_their_rates() {
    let mut fx = EffectsSystem::new();
    perfect_chords(&mut fx, start(), 15);
    assert!(fx.surging() && fx.on_fire());
    let mut state = fx.rng;
    let show = fx.update(SEC, 0);
    assert_eq!(show.arcs, 95);
    // 60 embers a second, and three and a half more for every step of the combo.
    assert_eq!(show.embers, 112);
    assert_eq!(show.draws, draw_many(&mut state, 7 * (95 + 112)));
    assert_eq!(fx.rng, state);
}

#[test]
fn the_generator_never_sticks() {
    let mut rng = 0x9E37_79B9_7F4A_7C15u64;
    let mut seen = Vec::new();
    for _ in 0..100 {
        let value = next_u64(&mut rng);
        assert!(value != 0);
        assert!(!seen.contains(&value));
        seen.push(value);
    }
    assert!(next_draw(&mut rng) < 0x100_0000);
}

#[test]
fn notes_have_the_colours_of_their_squares() {
    assert_eq!(note_rgb(60), (230, 30, 30));
    assert_eq!(note_rgb(71), (255, 105, 180));
    assert_eq!(note_rgb(61), (210, 235, 255));
}

#[test]
fn better_timing_never_hurts() {
    let loose = Results {
        perfect: 10,
        good: 10,
        ok: 10,
        wrong: 2,
        missed: 3,
        best_combo: 0,
        score: 0,
    };
    let tight = Results {
        perfect: 11,
        good: 9,
        ..loose
    };
    let a = loose.performance();
    let b = tight.performance();
    assert!(a.num * b.den < b.num * a.den);
    assert_eq!(a.num, 1000 + 800 + 350 - 80);
    assert_eq!(a.den, 3200 + 150);
    let share = loose.accuracy();
    assert_eq!((share.num, share.den), (30, 35));
}

#[test]
fn fireworks_are_for_an_a_minus_or_better() {
    let clean = Results {
        perfect: 0,
        good: 100,
        ok: 0,
        wrong: 0,
        missed: 0,
        best_combo: 0,
        score: 0,
    };
    assert!(clean.celebratory());
    assert!(!Results { wrong: 5, ..clean }.celebratory());
}

#[test]
fn flailing_cannot_earn_less_than_nothing() {
    let spray = Results {
        perfect: 1,
        good: 0,
        ok: 0,
        wrong: 100,
        missed: 0,
        best_combo: 0,
        score: 0,
    };
    assert_eq!(spray.performance().num, 0);
    assert_eq!(spray.grade(), ("F", (225, 55, 50)));
}
