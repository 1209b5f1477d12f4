//! Playing a song on screen: what is engraved, what keys do, how hits are judged,
//! and when the song is over.
//!
//! Times are in nanoseconds of the song. Places on screen are carried along as
//! bit patterns.
use vstd::prelude::*;

use crate::chance::{advance, drawn, lemma_advance_adds};
use crate::effects::{
    allotted, flash_of, law_a_hit_never_takes_points, Burst, EffectsSystem, HitShow, Puff,
    MAX_PARTICLES,
};
use crate::midi_file::{MidiNote, MidiTrack};
use crate::midi_player::{PlayerAction, DRUM_CHANNEL};
use crate::play_along::{HitEvent, HitKind};
use crate::song::{has_human, PerformMode, PlayerConfig, Song, TrackConfig};

verus! {

/// Whether a track with this id is the player's.
pub open spec fn human_id(tracks: Seq<TrackConfig>, id: usize) -> bool {
    exists|c: int|
        0 <= c < tracks.len() && (#[trigger] tracks[c]).player == PlayerConfig::Human
            && tracks[c].track_id == id
}

/// Whether a track with this id is not shown.
pub open spec fn hidden_id(tracks: Seq<TrackConfig>, id: usize) -> bool {
    exists|c: int|
        0 <= c < tracks.len() && !(#[trigger] tracks[c]).visible && tracks[c].track_id == id
}

/// Whether a track is on the staff: the part the player is responsible for, if
/// there is one, and otherwise everything visible. Reading along with the
/// accompaniment as well would be unreadable.
pub open spec fn on_staff(tracks: Seq<TrackConfig>, id: usize) -> bool {
    if has_human(tracks) {
        human_id(tracks, id)
    } else {
        !hidden_id(tracks, id)
    }
}

/// The notes on the staff of the first `n` tracks.
pub open spec fn staff_notes(
    tracks: Seq<MidiTrack>,
    configs: Seq<TrackConfig>,
    n: int,
) -> Seq<MidiNote>
    decreases n,
{
    if n <= 0 {
        Seq::empty()
    } else if on_staff(configs, tracks[n - 1].track_id) {
        staff_notes(tracks, configs, n - 1) + tracks[n - 1].notes@
    } else {
        staff_notes(tracks, configs, n - 1)
    }
}

/// Whether the end of every note can be told.
pub open spec fn notes_end(notes: Seq<MidiNote>) -> bool {
    forall|n: int|
        0 <= n < notes.len() ==> (#[trigger] notes[n]).start + notes[n].duration <= u64::MAX
}

fn is_on_staff(configs: &Vec<TrackConfig>, human: bool, id: usize) -> (on: bool)
    requires
        human == has_human(configs@),
    ensures
        on == on_staff(configs@, id),
{
    let mut c: usize = 0;
    while c < configs.len()
        invariant
            c <= configs@.len(),
            human == has_human(configs@),
            forall|d: int|
                0 <= d < c ==> !((#[trigger] configs@[d]).track_id == id && (if human {
                    configs@[d].player == PlayerConfig::Human
                } else {
                    !configs@[d].visible
                })),
        decreases configs@.len() - c,
    {
        let config = configs[c];
        if config.track_id == id {
            if human && config.player == PlayerConfig::Human {
                assert(configs@[c as int].player == PlayerConfig::Human);
                return true;
            }
            if !human && !config.visible {
                assert(!configs@[c as int].visible);
                return false;
            }
        }
        c = c + 1;
    }
    !human
}

fn push_notes(out: &mut Vec<MidiNote>, notes: &Vec<MidiNote>)
    ensures
        final(out)@ == old(out)@ + notes@,
{
    let mut n: usize = 0;
    proof {
        assert(old(out)@ + notes@.take(0) =~= old(out)@);
    }
    while n < notes.len()
        invariant
            n <= notes@.len(),
            out@ == old(out)@ + notes@.take(n as int),
        decreases notes@.len() - n,
    {
        out.push(notes[n]);
        assert(out@ =~= old(out)@ + notes@.take(n + 1));
        n = n + 1;
    }
    assert(notes@.take(n as int) =~= notes@);
}

/// The notes that the staff shows of a song.
pub fn notes_for_staff(song: &Song, human: bool) -> (notes: Vec<MidiNote>)
    requires
        human == has_human(song.config.tracks@),
    ensures
        notes@ == staff_notes(
            song.file.tracks@,
            song.config.tracks@,
            song.file.tracks@.len() as int,
        ),
{
    let mut notes: Vec<MidiNote> = Vec::new();
    let mut n: usize = 0;
    while n < song.file.tracks.len()
        invariant
            n <= song.file.tracks@.len(),
            human == has_human(song.config.tracks@),
            notes@ == staff_notes(song.file.tracks@, song.config.tracks@, n as int),
        decreases song.file.tracks@.len() - n,
    {
        let track = &song.file.tracks[n];
        if is_on_staff(&song.config.tracks, human, track.track_id) {
            push_notes(&mut notes, &track.notes);
        }
        n = n + 1;
    }
    notes
}

pub proof fn lemma_staff_notes_end(tracks: Seq<MidiTrack>, configs: Seq<TrackConfig>, n: int)
    requires
        0 <= n <= tracks.len(),
        forall|t: int| 0 <= t < tracks.len() ==> notes_end((#[trigger] tracks[t]).notes@),
    ensures
        notes_end(staff_notes(tracks, configs, n)),
    decreases n,
{
    if n > 0 {
        lemma_staff_notes_end(tracks, configs, n - 1);
        assert(notes_end(tracks[n - 1].notes@));
        let before = staff_notes(tracks, configs, n - 1);
        let all = staff_notes(tracks, configs, n);
        assert forall|k: int| 0 <= k < all.len() implies (#[trigger] all[k]).start
            + all[k].duration <= u64::MAX by {
            if k < before.len() {
                assert(all[k] == before[k]);
            } else {
                assert(all[k] == tracks[n - 1].notes@[k - before.len()]);
            }
        }
    }
}

/// Where a key is on screen, as bit patterns: its centre, and the place and width
/// of the note bars above it.
#[derive(Debug, Clone, Copy, PartialEq, Eq, Structural)]
pub struct KeyPlace {
    pub center: u32,
    pub bar_x: u32,
    pub bar_w: u32,
}

/// The place of a note on a keyboard that begins at `range_start`.
pub open spec fn key_of(note: u8, range_start: u8) -> int {
    if note >= range_start {
        note - range_start
    } else {
        note + 256 - range_start
    }
}

fn key_index(note: u8, range_start: u8) -> (key: usize)
    ensures
        key == key_of(note, range_start),
{
    if note >= range_start {
        (note - range_start) as usize
    } else {
        note as usize + 256 - range_start as usize
    }
}

/// Whether a note bar may be the one that was struck: it crosses the hit line on
/// this key, give or take a little.
pub open spec fn strikable(note: MidiNote, id: u8, time: int) -> bool {
    &&& note.note == id
    &&& note.channel != DRUM_CHANNEL
    &&& note.start <= time + 600_000_000
    &&& note.end >= time - 150_000_000
}

/// How far from `time` a note begins.
pub open spec fn away(note: MidiNote, time: int) -> int {
    if note.start >= time {
        note.start - time
    } else {
        time - note.start
    }
}

/// Whether `found` is the note bar that was struck: the one that begins closest
/// to `time`, and the first of those.
pub open spec fn is_struck(
    notes: Seq<MidiNote>,
    id: u8,
    time: int,
    found: Option<usize>,
) -> bool {
    match found {
        Some(f) => {
            &&& f < notes.len()
            &&& strikable(notes[f as int], id, time)
            &&& forall|n: int|
                0 <= n < notes.len() && strikable(#[trigger] notes[n], id, time) ==> away(
                    notes[f as int],
                    time,
                ) <= away(notes[n], time)
            &&& forall|n: int|
                0 <= n < f && strikable(#[trigger] notes[n], id, time) ==> away(
                    notes[f as int],
                    time,
                ) < away(notes[n], time)
        },
        None => forall|n: int|
            0 <= n < notes.len() ==> !strikable(#[trigger] notes[n], id, time),
    }
}

/// Finds the note bar that was struck.
pub fn find_struck(notes: &[MidiNote], id: u8, time: i64) -> (found: Option<usize>)
    ensures
        is_struck(notes@, id, time as int, found),
{
    let now: i128 = time as i128;
    let mut found: Option<usize> = None;
    let mut best: i128 = 0;
    let mut n: usize = 0;
    while n < notes.len()
        invariant
            n <= notes@.len(),
            now == time,
            match found {
                Some(f) => {
                    &&& f < n
                    &&& strikable(notes@[f as int], id, time as int)
                    &&& best == away(notes@[f as int], time as int)
                    &&& forall|m: int|
                        0 <= m < n && strikable(#[trigger] notes@[m], id, time as int) ==> best
                            <= away(notes@[m], time as int)
                    &&& forall|m: int|
                        0 <= m < f && strikable(#[trigger] notes@[m], id, time as int) ==> best
                            < away(notes@[m], time as int)
                },
                None => forall|m: int|
                    0 <= m < n ==> !strikable(#[trigger] notes@[m], id, time as int),
            },
        decreases notes@.len() - n,
    {
        let note = notes[n];
        let start: i128 = note.start as i128;
        if note.note == id && note.channel != DRUM_CHANNEL && start <= now + 600_000_000
            && note.end as i128 >= now - 150_000_000 {
            let gap: i128 = if start >= now {
                start - now
            } else {
                now - start
            };
            if found.is_none() || gap < best {
                found = Some(n);
                best = gap;
            }
        }
        n = n + 1;
    }
    found
}

/// What there is on screen to be hit.
pub struct Stage<'a> {
    pub keys: &'a [KeyPlace],
    pub range_start: u8,
    pub hit_line_y: u32,
    pub notes: &'a [MidiNote],
    pub time: i64,
}

/// What became of a hit.
pub enum Judged {
    /// The results are up, or the key is not on screen.
    Ignored,
    /// Which key was played, what it shows, and which note bar was struck.
    Good { key: usize, show: HitShow, struck: Option<usize> },
    /// Buzzes.
    Wrong { key: usize, puff: Puff },
    /// Quiet: no buzzer, no text.
    Missed,
}

impl Judged {
    /// How many particles were thrown.
    pub open spec fn thrown(self) -> int {
        match self {
            Judged::Good { show, .. } => show.burst.total(),
            Judged::Wrong { puff, .. } => puff.count as int,
            _ => 0,
        }
    }

    /// How many draws were taken.
    pub open spec fn taken(self) -> nat {
        match self {
            Judged::Good { show, .. } => show.taken(),
            Judged::Wrong { puff, .. } => (5 * puff.count) as nat,
            _ => 0,
        }
    }

    /// Whether lightning strikes.
    pub open spec fn strikes(self) -> bool {
        self matches Judged::Good { show, .. } && show.bolt is Some
    }
}

/// Whether a hit was judged rightly: it takes the arcade layer from `before` to
/// `after`.
pub open spec fn judged_as(
    before: EffectsSystem,
    after: EffectsSystem,
    event: HitEvent,
    stage: Stage<'_>,
    scoring: bool,
    live: int,
    outcome: Judged,
) -> bool {
    let id = key_of(event.note_id, stage.range_start);
    if !scoring || id >= stage.keys@.len() {
        outcome is Ignored && after == before
    } else {
        let key = stage.keys@[id];
        match event.kind {
            HitKind::Good { delta, late } => {
                &&& outcome matches Judged::Good { key: at, show, struck }
                &&& at == id
                &&& before.lands(
                    after,
                    key.center,
                    stage.hit_line_y,
                    delta,
                    late,
                    event.chord,
                    live,
                    show,
                )
                &&& is_struck(stage.notes@, event.note_id, stage.time as int, struck)
                &&& after.note_flashes@ == (match struck {
                    Some(n) => before.note_flashes@.push(
                        flash_of(
                            event.note_id,
                            key.bar_x,
                            key.bar_w,
                            stage.notes@[n as int].start,
                            stage.notes@[n as int].duration,
                        ),
                    ),
                    None => before.note_flashes@,
                })
            },
            HitKind::Wrong => {
                &&& outcome matches Judged::Wrong { key: at, puff }
                &&& at == id
                &&& puff.count == allotted(live, 14)
                &&& puff.draws@ == drawn(before.rng, (5 * puff.count) as nat)
                &&& before.fails(after, before.tally.after_wrong(), (5 * puff.count) as nat)
            },
            HitKind::Miss => outcome is Missed && before.fails(
                after,
                before.tally.after_miss(),
                0,
            ),
        }
    }
}

/// Judges a hit.
pub fn judge_hit(
    effects: &mut EffectsSystem,
    event: &HitEvent,
    stage: &Stage<'_>,
    scoring: bool,
    live: usize,
) -> (outcome: Judged)
    requires
        old(effects).wf(),
        old(effects).tally.judged() < u32::MAX,
    ensures
        final(effects).wf(),
        final(effects).tally.judged() <= old(effects).tally.judged() + 1,
        judged_as(*old(effects), *final(effects), *event, *stage, scoring, live as int, outcome),
        live <= MAX_PARTICLES ==> live + outcome.thrown() <= MAX_PARTICLES,
        live > MAX_PARTICLES ==> outcome.thrown() == 0,
{
    let id: usize = key_index(event.note_id, stage.range_start);
    if !scoring || id >= stage.keys.len() {
        return Judged::Ignored;
    }
    let key = stage.keys[id];
    match event.kind {
        HitKind::Good { delta, late } => {
            let show = effects.good_hit(
                key.center,
                stage.hit_line_y,
                delta,
                late,
                event.chord,
                live,
            );
            let struck = find_struck(stage.notes, event.note_id, stage.time);
            if let Some(n) = struck {
                let note = stage.notes[n];
                effects.note_struck(
                    event.note_id,
                    key.bar_x,
                    key.bar_w,
                    note.start,
                    note.duration,
                );
            }
            Judged::Good { key: id, show, struck }
        },
        HitKind::Wrong => Judged::Wrong { key: id, puff: effects.wrong_hit(live) },
        HitKind::Miss => {
            effects.miss();
            Judged::Missed
        },
    }
}

/// How many particles are in flight after some hits.
pub open spec fn live_after(live: int, outcomes: Seq<Judged>) -> int
    decreases outcomes.len(),
{
    if outcomes.len() == 0 {
        live
    } else {
        live_after(live, outcomes.drop_last()) + outcomes.last().thrown()
    }
}

/// Whether a run of hits was judged rightly, one after the other: `states` are
/// the states of the arcade layer before, between and after them.
pub open spec fn judged_in_turn(
    states: Seq<EffectsSystem>,
    events: Seq<HitEvent>,
    stage: Stage<'_>,
    scoring: bool,
    live: int,
    outcomes: Seq<Judged>,
) -> bool {
    &&& states.len() == events.len() + 1
    &&& outcomes.len() == events.len()
    &&& forall|k: int|
        0 <= k < events.len() ==> judged_as(
            states[k],
            states[k + 1],
            #[trigger] events[k],
            stage,
            scoring,
            live_after(live, outcomes.take(k)),
            outcomes[k],
        )
}

/// How many draws the first `n` hits take.
pub open spec fn taken_by(outcomes: Seq<Judged>, n: int) -> nat
    decreases n,
{
    if n <= 0 {
        0
    } else {
        taken_by(outcomes, n - 1) + outcomes[n - 1].taken()
    }
}

fn thrown_by(outcome: &Judged) -> (count: usize)
    requires
        outcome.thrown() <= MAX_PARTICLES,
    ensures
        count == outcome.thrown(),
{
    match outcome {
        Judged::Good { show, .. } => burst_size(&show.burst),
        Judged::Wrong { puff, .. } => puff.count,
        _ => 0,
    }
}

fn burst_size(burst: &Burst) -> (count: usize)
    requires
        burst.total() <= MAX_PARTICLES,
    ensures
        count == burst.total(),
{
    burst.impact_ring + burst.impact_sparks + burst.beam + burst.ring + burst.sparks
        + burst.firework + burst.puff
}

/// Judges a run of hits, in order: what became of each, and how many particles
/// are in flight then. `live` is the number of particles in flight before.
pub fn judge_hits(
    effects: &mut EffectsSystem,
    events: &Vec<HitEvent>,
    stage: &Stage<'_>,
    scoring: bool,
    live: usize,
) -> (judged: (Vec<Judged>, usize))
    requires
        old(effects).wf(),
        old(effects).tally.judged() + events@.len() <= u32::MAX,
    ensures
        final(effects).wf(),
        exists|states: Seq<EffectsSystem>|
            states.first() == *old(effects) && states.last() == *final(effects)
                && #[trigger] judged_in_turn(
                states,
                events@,
                *stage,
                scoring,
                live as int,
                judged.0@,
            ),
        judged.1 == live_after(live as int, judged.0@),
{
    let mut outcomes: Vec<Judged> = Vec::new();
    let mut flying: usize = live;
    let mut n: usize = 0;
    let ghost mut states: Seq<EffectsSystem> = seq![*effects];
    proof {
        assert(outcomes@.take(0) =~= Seq::<Judged>::empty());
    }
    while n < events.len()
        invariant
            n <= events@.len(),
            effects.wf(),
            effects.tally.judged() <= old(effects).tally.judged() + n,
            old(effects).tally.judged() + events@.len() <= u32::MAX,
            outcomes@.len() == n,
            flying == live_after(live as int, outcomes@),
            states.len() == n + 1,
            states.first() == *old(effects),
            states.last() == *effects,
            judged_in_turn(
                states,
                events@.take(n as int),
                *stage,
                scoring,
                live as int,
                outcomes@,
            ),
        decreases events@.len() - n,
    {
        let ghost before = outcomes@;
        let ghost was = states;
        let outcome = judge_hit(effects, &events[n], stage, scoring, flying);
        flying = flying + thrown_by(&outcome);
        outcomes.push(outcome);
        proof {
            states = states.push(*effects);
            assert(outcomes@.drop_last() =~= before);
            let seen = events@.take(n + 1);
            assert forall|k: int| 0 <= k < seen.len() implies judged_as(
                states[k],
                states[k + 1],
                #[trigger] seen[k],
                *stage,
                scoring,
                live_after(live as int, outcomes@.take(k)),
                outcomes@[k],
            ) by {
                assert(outcomes@.take(k) =~= before.take(k));
                if k < n {
                    assert(events@.take(n as int)[k] == seen[k]);
                    assert(states[k] == was[k] && states[k + 1] == was[k + 1]);
                } else {
                    assert(before.take(k) =~= before);
                }
            }
        }
        n = n + 1;
    }
    proof {
        assert(events@.take(n as int) =~= events@);
    }
    let judged = (outcomes, flying);
    assert(judged_in_turn(states, events@, *stage, scoring, live as int, judged.0@));
    judged
}

/// Whether lightning struck while some hits were judged.
pub open spec fn thundered(outcomes: Seq<Judged>) -> bool {
    exists|k: int| 0 <= k < outcomes.len() && (#[trigger] outcomes[k]).strikes()
}

/// Whether lightning struck while some hits were judged.
pub fn has_struck(outcomes: &Vec<Judged>) -> (struck: bool)
    ensures
        struck == thundered(outcomes@),
{
    let mut n: usize = 0;
    while n < outcomes.len()
        invariant
            n <= outcomes@.len(),
            forall|k: int| 0 <= k < n ==> !(#[trigger] outcomes@[k]).strikes(),
        decreases outcomes@.len() - n,
    {
        if let Judged::Good { show, .. } = &outcomes[n] {
            if show.bolt.is_some() {
                assert(outcomes@[n as int].strikes());
                return true;
            }
        }
        n = n + 1;
    }
    false
}

/// The note bars near enough to the hit line to glow while the board surges,
/// among the first `n`, each with its key.
pub open spec fn glowing(stage: Stage<'_>, n: int) -> Seq<(usize, usize)>
    decreases n,
{
    if n <= 0 {
        Seq::empty()
    } else {
        let rest = glowing(stage, n - 1);
        let note = stage.notes@[n - 1];
        let key = key_of(note.note, stage.range_start);
        if note.channel != DRUM_CHANNEL && note.end > stage.time - 500_000_000 && note.start
            < stage.time + 20_000_000_000 && key < stage.keys@.len() {
            rest.push(((n - 1) as usize, key as usize))
        } else {
            rest
        }
    }
}

/// The note bars that glow while the board surges.
pub fn surge_bars(surging: bool, stage: &Stage<'_>) -> (bars: Vec<(usize, usize)>)
    ensures
        bars@ == (if surging {
            glowing(*stage, stage.notes@.len() as int)
        } else {
            Seq::empty()
        }),
{
    let mut bars: Vec<(usize, usize)> = Vec::new();
    if !surging {
        return bars;
    }
    let now: i128 = stage.time as i128;
    let mut n: usize = 0;
    while n < stage.notes.len()
        invariant
            n <= stage.notes@.len(),
            now == stage.time,
            bars@ == glowing(*stage, n as int),
        decreases stage.notes@.len() - n,
    {
        let note = stage.notes[n];
        let key: usize = key_index(note.note, stage.range_start);
        if note.channel != DRUM_CHANNEL && note.end as i128 > now - 500_000_000 && (note.start as i128)
            < now + 20_000_000_000 && key < stage.keys.len() {
            bars.push((n, key));
        }
        n = n + 1;
    }
    bars
}

/// The places below `n` that are marked, in order.
pub open spec fn marked(marks: Seq<bool>, n: int) -> Seq<usize>
    decreases n,
{
    if n <= 0 {
        Seq::empty()
    } else if marks[n - 1] {
        marked(marks, n - 1).push((n - 1) as usize)
    } else {
        marked(marks, n - 1)
    }
}

/// The keys that glow: those the song holds down.
pub fn glow_keys(keys: usize, pressed_by_file: &[bool]) -> (lit: Vec<usize>)
    ensures
        lit@ == marked(pressed_by_file@, if keys < pressed_by_file@.len() {
            keys as int
        } else {
            pressed_by_file@.len() as int
        }),
{
    let mut lit: Vec<usize> = Vec::new();
    let mut n: usize = 0;
    while n < keys && n < pressed_by_file.len()
        invariant
            n <= keys,
            n <= pressed_by_file@.len(),
            lit@ == marked(pressed_by_file@, n as int),
        decreases keys - n,
    {
        if pressed_by_file[n] {
            lit.push(n);
        }
        n = n + 1;
    }
    lit
}

/// The notes that the player holds down, for naming their chord.
pub fn held_notes(range_start: u8, pressed_by_user: &[bool]) -> (notes: Vec<u8>)
    requires
        range_start + pressed_by_user@.len() <= 256,
    ensures
        ({
            let held = marked(pressed_by_user@, pressed_by_user@.len() as int);
            &&& notes@.len() == held.len()
            &&& forall|k: int|
                0 <= k < notes@.len() ==> #[trigger] notes@[k] == held[k] + range_start
        }),
{
    let mut notes: Vec<u8> = Vec::new();
    let mut n: usize = 0;
    while n < pressed_by_user.len()
        invariant
            n <= pressed_by_user@.len(),
            range_start + pressed_by_user@.len() <= 256,
            notes@.len() == marked(pressed_by_user@, n as int).len(),
            forall|k: int|
                0 <= k < notes@.len() ==> #[trigger] notes@[k] == marked(
                    pressed_by_user@,
                    n as int,
                )[k] + range_start,
        decreases pressed_by_user@.len() - n,
    {
        if pressed_by_user[n] {
            notes.push(n as u8 + range_start);
        }
        n = n + 1;
    }
    notes
}

/// How far the song goes on in a frame, at a speed given in tenths: a tenth of
/// the frame, cut to whole nanoseconds, as often as the speed says.
pub fn song_step(delta: u64, tenths: u32) -> (step: u64)
    requires
        (delta / 10) * tenths <= u64::MAX,
    ensures
        step == (delta / 10) * tenths,
{
    delta / 10 * tenths as u64
}

/// The keys that mean something while a song plays.
#[derive(Debug, Clone, Copy, PartialEq, Eq, Structural)]
pub enum SceneKey {
    Escape,
    Enter,
    Backspace,
    Space,
    ArrowUp,
    ArrowDown,
    PageUp,
    PageDown,
    Character(char),
}

/// What happens to the window.
#[derive(Debug, Clone, Copy, PartialEq, Eq, Structural)]
pub enum SceneEvent {
    BackPressed,
    KeyReleased(SceneKey),
}

/// A setting that is changed by a key, and by how much.
#[derive(Debug, Clone, Copy, PartialEq, Eq, Structural)]
pub enum SettingChange {
    /// In tenths.
    Speed(i32),
    AnimationSpeed(i32),
    /// In hundredths of a second.
    AnimationOffset(i32),
}

/// A message to the player.
#[derive(Debug, Clone, Copy, PartialEq, Eq, Structural)]
pub enum SheetToast {
    On,
    Off,
    MovedToBottom,
    MovedToTop,
}

impl SheetToast {
    pub open spec fn words(self) -> Seq<char> {
        match self {
            SheetToast::On => "Sheet Music: On"@,
            SheetToast::Off => "Sheet Music: Off"@,
            SheetToast::MovedToBottom => "Sheet Music: Moved to bottom"@,
            SheetToast::MovedToTop => "Sheet Music: Moved to top"@,
        }
    }

    pub fn text(&self) -> (text: &'static str)
        ensures
            text@ == self.words(),
    {
        match self {
            SheetToast::On => "Sheet Music: On",
            SheetToast::Off => "Sheet Music: Off",
            SheetToast::MovedToBottom => "Sheet Music: Moved to bottom",
            SheetToast::MovedToTop => "Sheet Music: Moved to top",
        }
    }
}

/// What the scene asks for.
#[derive(Debug, Clone, Copy, PartialEq, Eq, Structural)]
pub enum SceneAction {
    /// Leave the song for the menu, which keeps it loaded.
    MainMenu,
    /// Play the song again from the start.
    Play,
    Player(PlayerAction),
    /// Remember whether the sheet music is shown.
    SetSheetMusic(bool),
    /// Remember where the sheet music is shown.
    SetSheetMusicBottom(bool),
    /// Remember who performs, for the next song too.
    SetPerformMode(PerformMode),
    Toast(SheetToast),
    Change(SettingChange),
}

/// By how much a key changes a setting: more with the shift key held.
pub open spec fn setting_change(key: SceneKey, shift: bool) -> Option<SettingChange> {
    match key {
        SceneKey::ArrowUp => Some(
            SettingChange::Speed(
                if shift {
                    5
                } else {
                    1
                },
            ),
        ),
        SceneKey::ArrowDown => Some(
            SettingChange::Speed(
                if shift {
                    (-5) as i32
                } else {
                    (-1) as i32
                },
            ),
        ),
        SceneKey::PageUp => Some(
            SettingChange::AnimationSpeed(
                if shift {
                    500
                } else {
                    100
                },
            ),
        ),
        SceneKey::PageDown => Some(
            SettingChange::AnimationSpeed(
                if shift {
                    (-500) as i32
                } else {
                    (-100) as i32
                },
            ),
        ),
        SceneKey::Character(c) => if c == '-' || c == '_' {
            Some(
                SettingChange::AnimationOffset(
                    if shift {
                        (-10) as i32
                    } else {
                        (-1) as i32
                    },
                ),
            )
        } else if c == '+' || c == '=' {
            Some(
                SettingChange::AnimationOffset(
                    if shift {
                        10
                    } else {
                        1
                    },
                ),
            )
        } else {
            None
        },
        _ => None,
    }
}

/// By how much a key changes a setting.
pub fn handle_settings_input(key: SceneKey, shift: bool) -> (change: Option<SettingChange>)
    ensures
        change == setting_change(key, shift),
{
    let (speed, animation, offset): (i32, i32, i32) = if shift {
        (5, 500, 10)
    } else {
        (1, 100, 1)
    };
    match key {
        SceneKey::ArrowUp => Some(SettingChange::Speed(speed)),
        SceneKey::ArrowDown => Some(SettingChange::Speed(-speed)),
        SceneKey::PageUp => Some(SettingChange::AnimationSpeed(animation)),
        SceneKey::PageDown => Some(SettingChange::AnimationSpeed(-animation)),
        SceneKey::Character(c) => if c == '-' || c == '_' {
            Some(SettingChange::AnimationOffset(-offset))
        } else if c == '+' || c == '=' {
            Some(SettingChange::AnimationOffset(offset))
        } else {
            None
        },
        _ => None,
    }
}

/// The hits of a frame draw one after the other: the `k`-th bolt comes from where
/// the bolts and the particles of all hits before it left the generator.
pub proof fn law_hits_draw_one_after_the_other(
    states: Seq<EffectsSystem>,
    events: Seq<HitEvent>,
    stage: Stage<'_>,
    scoring: bool,
    live: int,
    outcomes: Seq<Judged>,
    k: int,
)
    requires
        judged_in_turn(states, events, stage, scoring, live, outcomes),
        0 <= k <= events.len(),
    ensures
        states[k].rng == advance(states[0].rng, taken_by(outcomes, k)),
        k < events.len() ==> match outcomes[k] {
            Judged::Good { show, .. } => show.bolt matches Some(bolt) ==> bolt.drawn_from(
                advance(states[0].rng, taken_by(outcomes, k)),
            ),
            _ => true,
        },
    decreases k,
{
    if k > 0 {
        law_hits_draw_one_after_the_other(states, events, stage, scoring, live, outcomes, k - 1);
        let before = states[k - 1];
        let outcome = outcomes[k - 1];
        let before_it = live_after(live, outcomes.take(k - 1));
        assert(judged_as(before, states[k], events[k - 1], stage, scoring, before_it, outcome));
        assert(states[k].rng == advance(before.rng, outcome.taken())) by {
            if let Judged::Good { show, .. } = outcome {
                if let Some(bolt) = show.bolt {
                    lemma_advance_adds(before.rng, bolt.draws(), show.burst.draws());
                }
            }
        }
        lemma_advance_adds(states[0].rng, taken_by(outcomes, k - 1), outcome.taken());
    }
    if k < events.len() {
        let before_it = live_after(live, outcomes.take(k));
        assert(judged_as(
            states[k],
            states[k + 1],
            events[k],
            stage,
            scoring,
            before_it,
            outcomes[k],
        ));
    }
}

/// Keys are counted from the first of the keyboard; a note below it lies beyond every
/// keyboard.
pub proof fn law_keys_are_counted_from_the_first(note: u8, range_start: u8)
    ensures
        0 <= key_of(note, range_start) < 256,
        note >= range_start ==> key_of(note, range_start) + range_start == note,
        note < range_start ==> key_of(note, range_start) + range_start == note + 256,
{
}

/// The staff shows the notes of the tracks that are on it, all of them, in order, and
/// no others: those of the Human tracks where there are any, and else of all that are
/// not hidden.
pub proof fn law_the_staff_shows_its_tracks(
    tracks: Seq<MidiTrack>,
    configs: Seq<TrackConfig>,
    n: int,
    note: MidiNote,
)
    requires
        0 <= n <= tracks.len(),
    ensures
        staff_notes(tracks, configs, n).contains(note) <==> exists|t: int|
            0 <= t < n && on_staff(configs, (#[trigger] tracks[t]).track_id)
                && tracks[t].notes@.contains(note),
        n > 0 ==> staff_notes(tracks, configs, n).len() - staff_notes(tracks, configs, n - 1).len()
            == (if on_staff(configs, tracks[n - 1].track_id) {
            tracks[n - 1].notes@.len() as int
        } else {
            0
        }),
        n > 0 ==> staff_notes(tracks, configs, n - 1).is_prefix_of(staff_notes(tracks, configs, n)),
        forall|id: usize|
            has_human(configs) ==> (#[trigger] on_staff(configs, id) <==> exists|c: int|
                0 <= c < configs.len() && (#[trigger] configs[c]).player == PlayerConfig::Human
                    && configs[c].track_id == id),
        forall|id: usize|
            !has_human(configs) ==> (#[trigger] on_staff(configs, id) <==> forall|c: int|
                0 <= c < configs.len() && (#[trigger] configs[c]).track_id == id
                    ==> configs[c].visible),
    decreases n,
{
    if n > 0 {
        law_the_staff_shows_its_tracks(tracks, configs, n - 1, note);
        let before = staff_notes(tracks, configs, n - 1);
        let all = staff_notes(tracks, configs, n);
        let mine = tracks[n - 1].notes@;
        assert(before =~= all.take(before.len() as int));
        if on_staff(configs, tracks[n - 1].track_id) {
            assert(all =~= before + mine);
            if before.contains(note) {
                let k = choose|k: int| 0 <= k < before.len() && before[k] == note;
                assert(all[k] == note);
            }
            if mine.contains(note) {
                let k = choose|k: int| 0 <= k < mine.len() && mine[k] == note;
                assert(all[before.len() + k] == note);
            }
            if all.contains(note) {
                let k = choose|k: int| 0 <= k < all.len() && all[k] == note;
                if k < before.len() {
                    assert(before[k] == note);
                } else {
                    assert(mine[k - before.len()] == note);
                }
            }
        }
    }
    assert forall|id: usize| has_human(configs) implies (#[trigger] on_staff(configs, id)
        <==> exists|c: int|
        0 <= c < configs.len() && (#[trigger] configs[c]).player == PlayerConfig::Human
            && configs[c].track_id == id) by {}
}

/// The bar that a press lights up is one of its note, no drum hit, that begins at most
/// 600 ms after the press and ended at most 150 ms before it; none of those begins
/// closer to it. There is none only where no bar is like that.
pub proof fn law_the_nearest_bar_is_struck(
    notes: Seq<MidiNote>,
    id: u8,
    time: int,
    found: Option<usize>,
    n: int,
)
    requires
        is_struck(notes, id, time, found),
        0 <= n < notes.len(),
        notes[n].note == id,
        notes[n].channel != 9,
        notes[n].start - time <= 600_000_000,
        time - notes[n].end <= 150_000_000,
    ensures
        found is Some,
        ({
            let bar = notes[found->0 as int];
            let (gap, rival) = (bar.start - time, notes[n].start - time);
            &&& bar.note == id && bar.channel != 9
            &&& bar.start - time <= 600_000_000 && time - bar.end <= 150_000_000
            &&& (if gap < 0 {
                -gap
            } else {
                gap
            }) <= (if rival < 0 {
                -rival
            } else {
                rival
            })
        }),
{
    assert(strikable(notes[n], id, time));
}

/// How a hit is judged: as what it is, at its key; a right note lights its bar up and
/// nothing but a right note does. Hits off the keyboard, and all of them once nothing
/// is scored any more, are ignored.
pub proof fn law_hits_are_judged_as_what_they_are(
    before: EffectsSystem,
    after: EffectsSystem,
    event: HitEvent,
    stage: Stage<'_>,
    scoring: bool,
    live: int,
    outcome: Judged,
)
    requires
        before.wf(),
        before.tally.judged() < u32::MAX,
        judged_as(before, after, event, stage, scoring, live, outcome),
    ensures
        ({
            let on_screen = event.note_id >= stage.range_start && event.note_id - stage.range_start
                < stage.keys@.len();
            &&& outcome is Ignored ==> after == before
            &&& !scoring ==> outcome is Ignored
            &&& scoring && on_screen ==> (outcome is Good <==> event.kind is Good)
            &&& scoring && on_screen ==> (outcome is Wrong <==> event.kind is Wrong)
            &&& scoring && on_screen ==> (outcome is Missed <==> event.kind is Miss)
            &&& outcome is Good ==> after.tally.hits() == before.tally.hits() + 1
                && after.tally.score > before.tally.score
            &&& outcome is Wrong ==> after.tally.total_wrong == before.tally.total_wrong + 1
            &&& outcome is Missed ==> after.tally.total_missed == before.tally.total_missed + 1
            &&& !(outcome is Good) ==> after.tally.score == before.tally.score
                && after.note_flashes@ == before.note_flashes@
            &&& on_screen ==> match outcome {
                Judged::Good { key, struck, .. } => {
                    &&& key == event.note_id - stage.range_start
                    &&& struck is None ==> after.note_flashes@ == before.note_flashes@
                    &&& struck is Some ==> after.note_flashes@.len() == before.note_flashes@.len()
                        + 1 && after.note_flashes@.last().start
                        == stage.notes@[struck->0 as int].start && after.note_flashes@.last().note
                        == event.note_id && after.note_flashes@.last().x
                        == stage.keys@[key as int].bar_x && after.note_flashes@.last().w
                        == stage.keys@[key as int].bar_w
                },
                Judged::Wrong { key, .. } => key == event.note_id - stage.range_start,
                _ => true,
            }
        }),
{
    if let HitKind::Good { delta, late } = event.kind {
        if scoring && key_of(event.note_id, stage.range_start) < stage.keys@.len() {
            law_a_hit_never_takes_points(before.tally, delta, late, event.chord);
        }
    }
}

/// The particles that hits throw add up.
pub proof fn law_particles_add_up(live: int, outcomes: Seq<Judged>, more: Judged)
    ensures
        live_after(live, outcomes.push(more)) == live_after(live, outcomes) + more.thrown(),
        live_after(live, Seq::empty()) == live,
        match more {
            Judged::Good { show, .. } => more.thrown() == show.burst.impact_ring
                + show.burst.impact_sparks + show.burst.beam + show.burst.ring + show.burst.sparks
                + show.burst.firework + show.burst.puff,
            Judged::Wrong { puff, .. } => more.thrown() == puff.count,
            _ => more.thrown() == 0,
        },
{
    assert(outcomes.push(more).drop_last() =~= outcomes);
}

/// A bar glows while the board surges exactly when it is no drum hit, has not been over
/// for half a second, begins within twenty seconds, and its key is on screen.
pub proof fn law_bars_near_the_line_glow(stage: Stage<'_>, n: int, bar: int)
    requires
        0 <= n <= stage.notes@.len() <= usize::MAX,
        0 <= bar < n,
    ensures
        ({
            let note = stage.notes@[bar];
            let key = key_of(note.note, stage.range_start);
            glowing(stage, n).contains((bar as usize, key as usize)) <==> note.channel != 9
                && stage.time - note.end < 500_000_000 && note.start - stage.time < 20_000_000_000
                && key < stage.keys@.len()
        }),
        forall|k: int|
            0 <= k < glowing(stage, n).len() ==> (#[trigger] glowing(stage, n)[k]).0 < n,
    decreases n,
{
    let rest = glowing(stage, n - 1);
    let all = glowing(stage, n);
    let note = stage.notes@[bar];
    let key = key_of(note.note, stage.range_start);
    let it = (bar as usize, key as usize);
    if n > 1 {
        law_bars_near_the_line_glow(stage, n - 1, if bar < n - 1 {
            bar
        } else {
            0
        });
    }
    if rest.contains(it) {
        let k = choose|k: int| 0 <= k < rest.len() && rest[k] == it;
        assert(rest[k].0 < n - 1);
        assert(all[k] == it);
    }
    if all.contains(it) {
        let k = choose|k: int| 0 <= k < all.len() && all[k] == it;
        if k < rest.len() {
            assert(rest[k] == it);
        }
    }
    if bar == n - 1 && all.len() > rest.len() {
        assert(all[rest.len() as int] == it);
    }
    assert forall|k: int| 0 <= k < all.len() implies (#[trigger] all[k]).0 < n by {
        if k < rest.len() {
            assert(all[k] == rest[k]);
        }
    }
}

/// The places that are marked are listed once each, lowest first, and no others.
pub proof fn law_marked_places_are_listed(marks: Seq<bool>, n: int, place: int)
    requires
        0 <= n <= marks.len() <= usize::MAX,
        0 <= place < n,
    ensures
        marked(marks, n).contains(place as usize) <==> marks[place],
        forall|k: int| 0 <= k < marked(marks, n).len() ==> #[trigger] marked(marks, n)[k] < n,
        forall|j: int, k: int|
            0 <= j < k < marked(marks, n).len() ==> (#[trigger] marked(marks, n)[j]) < (
            #[trigger] marked(marks, n)[k]),
    decreases n,
{
    let rest = marked(marks, n - 1);
    let all = marked(marks, n);
    if n > 1 {
        law_marked_places_are_listed(marks, n - 1, if place < n - 1 {
            place
        } else {
            0
        });
    }
    if rest.contains(place as usize) {
        let k = choose|k: int| 0 <= k < rest.len() && rest[k] == place as usize;
        assert(rest[k] < n - 1);
        assert(all[k] == place as usize);
    }
    if all.contains(place as usize) {
        let k = choose|k: int| 0 <= k < all.len() && all[k] == place as usize;
        if k < rest.len() {
            assert(rest[k] == place as usize);
        }
    }
    if place == n - 1 && marks[place] {
        assert(all[rest.len() as int] == place as usize);
    }
    assert forall|k: int| 0 <= k < all.len() implies #[trigger] all[k] < n by {
        if k < rest.len() {
            assert(all[k] == rest[k]);
        }
    }
    assert forall|j: int, k: int| 0 <= j < k < all.len() implies (#[trigger] all[j]) < (
    #[trigger] all[k]) by {
        if k < rest.len() {
            assert(rest[j] < rest[k]);
        } else {
            assert(all[j] == rest[j]);
        }
    }
}

/// Keys that change a setting come in pairs that undo each other: the arrows for the
/// speed, the page keys for the falling notes, minus and plus for their offset. Held
/// with shift they change five times, five times and ten times as much.
pub proof fn law_setting_keys_come_in_pairs(shift: bool)
    ensures
        ({
            let (speed, fall, offset) = if shift {
                (5i32, 500i32, 10i32)
            } else {
                (1i32, 100i32, 1i32)
            };
            &&& setting_change(SceneKey::ArrowUp, shift) == Some(SettingChange::Speed(speed))
            &&& setting_change(SceneKey::ArrowDown, shift) == Some(
                SettingChange::Speed((-speed) as i32),
            )
            &&& setting_change(SceneKey::PageUp, shift) == Some(SettingChange::AnimationSpeed(fall))
            &&& setting_change(SceneKey::PageDown, shift) == Some(
                SettingChange::AnimationSpeed((-fall) as i32),
            )
            &&& setting_change(SceneKey::Character('+'), shift) == Some(
                SettingChange::AnimationOffset(offset),
            )
            &&& setting_change(SceneKey::Character('='), shift) == setting_change(
                SceneKey::Character('+'),
                shift,
            )
            &&& setting_change(SceneKey::Character('-'), shift) == Some(
                SettingChange::AnimationOffset((-offset) as i32),
            )
            &&& setting_change(SceneKey::Character('_'), shift) == setting_change(
                SceneKey::Character('-'),
                shift,
            )
        }),
        forall|key: SceneKey|
            #[trigger] setting_change(key, shift) is Some ==> key == SceneKey::ArrowUp || key
                == SceneKey::ArrowDown || key == SceneKey::PageUp || key == SceneKey::PageDown
                || key == SceneKey::Character('+') || key == SceneKey::Character('=') || key
                == SceneKey::Character('-') || key == SceneKey::Character('_'),
{
}

/// What the messages about the sheet music say.
pub proof fn law_toasts_have_their_words(toast: SheetToast)
    ensures
        toast.words() == "Sheet Music: On"@ <==> toast == SheetToast::On,
        toast.words() == "Sheet Music: Off"@ <==> toast == SheetToast::Off,
        toast.words() == "Sheet Music: Moved to bottom"@ <==> toast == SheetToast::MovedToBottom,
        toast.words() == "Sheet Music: Moved to top"@ <==> toast == SheetToast::MovedToTop,
{
    reveal_strlit("Sheet Music: On");
    reveal_strlit("Sheet Music: Off");
    reveal_strlit("Sheet Music: Moved to bottom");
    reveal_strlit("Sheet Music: Moved to top");
    assert("Sheet Music: On"@.len() == 15);
    assert("Sheet Music: Off"@.len() == 16);
    assert("Sheet Music: Moved to bottom"@.len() == 28);
    assert("Sheet Music: Moved to top"@.len() == 25);
}

/// Every hit of a frame is judged, in turn, on the state that the one before it left, and
/// on the particles that those before it threw.
pub proof fn law_every_hit_is_judged_in_turn(
    states: Seq<EffectsSystem>,
    events: Seq<HitEvent>,
    stage: Stage<'_>,
    scoring: bool,
    live: int,
    outcomes: Seq<Judged>,
    k: int,
)
    requires
        judged_in_turn(states, events, stage, scoring, live, outcomes),
        0 <= k < events.len(),
    ensures
        states.len() == events.len() + 1,
        outcomes.len() == events.len(),
        judged_as(
            states[k],
            states[k + 1],
            events[k],
            stage,
            scoring,
            live_after(live, outcomes.take(k)),
            outcomes[k],
        ),
{
}

/// Lightning struck while some hits were judged when it struck for one of them.
pub proof fn law_one_strike_is_enough(before: Seq<Judged>, outcome: Judged, after: Seq<Judged>)
    ensures
        thundered(before + seq![outcome] + after) <==> thundered(before) || outcome.strikes()
            || thundered(after),
        !thundered(Seq::<Judged>::empty()),
{
    let all = before + seq![outcome] + after;
    let n = before.len() as int;
    if thundered(before) {
        let k = choose|k: int| 0 <= k < before.len() && (#[trigger] before[k]).strikes();
        assert(all[k] == before[k]);
    }
    if outcome.strikes() {
        assert(all[n] == outcome);
    }
    if thundered(after) {
        let k = choose|k: int| 0 <= k < after.len() && (#[trigger] after[k]).strikes();
        assert(all[n + 1 + k] == after[k]);
    }
    if thundered(all) {
        let k = choose|k: int| 0 <= k < all.len() && (#[trigger] all[k]).strikes();
        if k < n {
            assert(before[k] == all[k]);
        } else if k > n {
            assert(after[k - n - 1] == all[k]);
        }
    }
}

} // verus!
