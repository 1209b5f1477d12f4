//! Judging a player's keys against the notes a song asks for.
use std::collections::HashMap;

use vstd::prelude::*;

use crate::keyboard::KeyboardRange;
use crate::midi_file::MidiMessage;
use crate::results::Fraction;

verus! {

/// How long an early key press, or a note nobody plays, is kept: half a second.
pub const LEEWAY: u64 = 500_000_000;

/// Presses up to 160 ms late are forgiven as touching the bottom.
pub const LATE_GRACE: u64 = 160_000_000;

#[derive(Debug, Clone, Copy, PartialEq, Eq, Structural)]
pub enum MidiEventSource {
    File,
    User,
}

/// Result of a play-along key press.
#[derive(Debug, Clone, Copy, PartialEq, Eq, Structural)]
pub enum HitKind {
    /// A required note was played correctly. `delta` is the gap between the file
    /// note and the press; `late` means that the press came after the file note,
    /// so that a waiting song was stalled for `delta`.
    Good { delta: u64, late: bool },
    /// A note was played that the song did not ask for.
    Wrong,
    /// The song asked for a note and nobody played it.
    Miss,
}

#[derive(Debug, Clone, Copy, PartialEq, Eq, Structural)]
pub struct HitEvent {
    pub note_id: u8,
    pub kind: HitKind,
    /// When the song asked for this note, which is what makes it a chord: every
    /// note of a chord shares this instant no matter how raggedly it was rolled.
    /// `None` for a note that the song never asked for.
    pub chord: Option<u64>,
}

/// How long after `then` it is `now`.
pub open spec fn since(now: u64, then: u64) -> int {
    if now >= then {
        now - then
    } else {
        0
    }
}

/// Whether something that happened at `then` is out of date.
pub open spec fn stale(now: u64, then: u64) -> bool {
    since(now, then) > LEEWAY
}

/// A time for each of some notes.
pub struct NoteTable {
    times: HashMap<u8, u64>,
}

impl View for NoteTable {
    type V = Map<u8, u64>;

    closed spec fn view(&self) -> Map<u8, u64> {
        self.times@
    }
}

/// The notes from `note` on that are out of date, lowest first.
pub open spec fn stale_from(table: Map<u8, u64>, now: u64, note: int) -> Seq<u8>
    decreases 256 - note,
{
    if note >= 256 {
        Seq::empty()
    } else if table.contains_key(note as u8) && stale(now, table[note as u8]) {
        seq![note as u8] + stale_from(table, now, note + 1)
    } else {
        stale_from(table, now, note + 1)
    }
}

/// All notes of a table that are out of date, lowest first.
pub open spec fn stale_notes(table: Map<u8, u64>, now: u64) -> Seq<u8> {
    stale_from(table, now, 0)
}

/// A table without what is out of date.
pub open spec fn fresh_part(table: Map<u8, u64>, now: u64) -> Map<u8, u64> {
    Map::new(
        |note: u8| table.contains_key(note) && !stale(now, table[note]),
        |note: u8| table[note],
    )
}

impl NoteTable {
    fn new() -> (table: Self)
        ensures
            table@ == Map::<u8, u64>::empty(),
    {
        NoteTable { times: HashMap::new() }
    }

    fn get(&self, note: u8) -> (time: Option<u64>)
        ensures
            match time {
                Some(t) => self@.contains_key(note) && self@[note] == t,
                None => !self@.contains_key(note),
            },
    {
        broadcast use vstd::std_specs::hash::group_hash_axioms;

        match self.times.get(&note) {
            Some(time) => Some(*time),
            None => None,
        }
    }

    fn insert(&mut self, note: u8, time: u64)
        ensures
            final(self)@ == old(self)@.insert(note, time),
    {
        broadcast use vstd::std_specs::hash::group_hash_axioms;

        let _before = self.times.insert(note, time);
    }

    fn remove(&mut self, note: u8)
        ensures
            final(self)@ == old(self)@.remove(note),
    {
        broadcast use vstd::std_specs::hash::group_hash_axioms;

        let _before = self.times.remove(&note);
        assert(self@ =~= old(self)@.remove(note));
    }

    fn is_empty(&self) -> (empty: bool)
        ensures
            empty == (self@ == Map::<u8, u64>::empty()),
    {
        let empty = self.times.is_empty();
        assert(empty ==> self@ =~= Map::<u8, u64>::empty());
        empty
    }

    /// Drops what is out of date and says which notes those were.
    fn expire(&mut self, now: u64) -> (expired: Vec<u8>)
        ensures
            expired@ == stale_notes(old(self)@, now),
            final(self)@ == fresh_part(old(self)@, now),
            expired@.len() <= 256,
    {
        let mut expired: Vec<u8> = Vec::new();
        let mut note: usize = 0;
        while note < 256
            invariant
                note <= 256,
                expired@.len() <= note,
                expired@ + stale_from(old(self)@, now, note as int) == stale_notes(old(self)@, now),
                forall|n: u8|
                    #![trigger self@.contains_key(n)]
                    self@.contains_key(n) == (old(self)@.contains_key(n) && !(n < note && stale(
                        now,
                        old(self)@[n],
                    ))),
                forall|n: u8| #[trigger] self@.contains_key(n) ==> self@[n] == old(self)@[n],
            decreases 256 - note,
        {
            let ghost earlier = expired@;
            let n: u8 = note as u8;
            if let Some(then) = self.get(n) {
                if now >= then && now - then > LEEWAY {
                    expired.push(n);
                    self.remove(n);
                }
            }
            proof {
                assert(expired@ + stale_from(old(self)@, now, note + 1) =~= earlier + stale_from(
                    old(self)@,
                    now,
                    note as int,
                ));
            }
            note = note + 1;
        }
        proof {
            assert(expired@ + stale_from(old(self)@, now, 256) =~= expired@);
            assert(self@ =~= fresh_part(old(self)@, now));
        }
        expired
    }
}

/// What is counted of a player.
#[derive(Debug)]
pub struct PlayerStats {
    /// Notes that expired, or were simply wrong.
    pub wrong_notes: usize,
    /// Gaps of notes played early.
    pub played_early: Vec<u64>,
    /// Gaps of notes played late.
    pub played_late: Vec<u64>,
}

/// How many gaps are longer than a threshold.
pub open spec fn longer_than(gaps: Seq<u64>, threshold: u64) -> nat
    decreases gaps.len(),
{
    if gaps.len() == 0 {
        0
    } else {
        longer_than(gaps.drop_last(), threshold) + if gaps.last() > threshold {
            1nat
        } else {
            0nat
        }
    }
}

impl PlayerStats {
    /// The share of the notes that were played far off their time.
    pub fn timing_acurracy(&self) -> (share: Fraction)
        requires
            self.played_early@.len() + self.played_late@.len() <= u64::MAX,
        ensures
            share.num == longer_than(self.played_early@, LEEWAY) + longer_than(
                self.played_late@,
                LATE_GRACE,
            ),
            share.den == self.played_early@.len() + self.played_late@.len(),
    {
        let early: usize = self.count_too_early();
        let late: usize = self.count_too_late();
        Fraction {
            num: early as u64 + late as u64,
            den: self.played_early.len() as u64 + self.played_late.len() as u64,
        }
    }

    pub fn count_too_early(&self) -> (count: usize)
        ensures
            count == longer_than(self.played_early@, LEEWAY),
            count <= self.played_early@.len(),
    {
        PlayerStats::count_with_threshold(self.played_early.as_slice(), LEEWAY)
    }

    pub fn count_too_late(&self) -> (count: usize)
        ensures
            count == longer_than(self.played_late@, LATE_GRACE),
            count <= self.played_late@.len(),
    {
        PlayerStats::count_with_threshold(self.played_late.as_slice(), LATE_GRACE)
    }

    pub fn count_with_threshold(gaps: &[u64], threshold: u64) -> (count: usize)
        ensures
            count == longer_than(gaps@, threshold),
            count <= gaps@.len(),
    {
        let mut count: usize = 0;
        let mut n: usize = 0;
        proof {
            assert(gaps@.take(0) =~= Seq::<u64>::empty());
        }
        while n < gaps.len()
            invariant
                n <= gaps@.len(),
                count <= n,
                count == longer_than(gaps@.take(n as int), threshold),
            decreases gaps@.len() - n,
        {
            proof {
                assert(gaps@.take(n + 1).drop_last() =~= gaps@.take(n as int));
            }
            if gaps[n] > threshold {
                count = count + 1;
            }
            n = n + 1;
        }
        proof {
            assert(gaps@.take(n as int) =~= gaps@);
        }
        count
    }
}

/// What play-along knows, as mathematics.
pub struct Along {
    /// Notes required to progress further in the song, and since when.
    pub required: Map<u8, u64>,
    /// Key presses of the last half second that no note has matched yet.
    pub recent: Map<u8, u64>,
    /// Notes of the file that have begun and not ended.
    pub sounding: Set<u8>,
    pub hits: Seq<HitEvent>,
    pub wrong_notes: int,
    pub early: Seq<u64>,
    pub late: Seq<u64>,
}

/// One event of the same kind for each of some notes.
pub open spec fn hits_of(notes: Seq<u8>, kind: HitKind) -> Seq<HitEvent> {
    notes.map_values(|note: u8| HitEvent { note_id: note, kind, chord: None })
}

impl Along {
    /// A note is never both waited for and already played.
    pub open spec fn wf(self) -> bool {
        self.required.dom().disjoint(self.recent.dom())
    }

    /// Nothing asked, nothing played.
    pub open spec fn fresh() -> Along {
        Along {
            required: Map::empty(),
            recent: Map::empty(),
            sounding: Set::empty(),
            hits: Seq::empty(),
            wrong_notes: 0,
            early: Seq::empty(),
            late: Seq::empty(),
        }
    }

    /// After judging what is out of date: early presses that nothing matched were
    /// wrong notes. With `expire_required`, targets nobody played in time are
    /// silent misses; without it they stay, since the song is stalled on them.
    pub open spec fn after_update(self, now: u64, expire_required: bool) -> Along {
        let wrong = stale_notes(self.recent, now);
        let missed = if expire_required {
            stale_notes(self.required, now)
        } else {
            Seq::empty()
        };
        Along {
            recent: fresh_part(self.recent, now),
            required: if expire_required {
                fresh_part(self.required, now)
            } else {
                self.required
            },
            hits: self.hits + hits_of(wrong, HitKind::Wrong) + hits_of(missed, HitKind::Miss),
            wrong_notes: self.wrong_notes + wrong.len(),
            ..self
        }
    }

    /// After the player pressed a key: it answers a note the song is waiting for,
    /// or it is kept for a note that may come yet. Pressing a key again before
    /// its note came was a wrong note.
    pub open spec fn after_user_press(self, note: u8, now: u64) -> Along {
        if self.required.contains_key(note) {
            let asked = self.required[note];
            let delta = since(now, asked) as u64;
            Along {
                required: self.required.remove(note),
                late: self.late.push(delta),
                hits: self.hits.push(
                    HitEvent {
                        note_id: note,
                        kind: HitKind::Good { delta, late: true },
                        chord: Some(asked),
                    },
                ),
                ..self
            }
        } else {
            Along {
                recent: self.recent.insert(note, now),
                wrong_notes: self.wrong_notes + if self.recent.contains_key(note) {
                    1int
                } else {
                    0
                },
                ..self
            }
        }
    }

    /// After a note of the file began: a recent press matches it, or the player
    /// owes it. A note that is already sounding is not asked for again.
    pub open spec fn after_file_press(self, note: u8, now: u64) -> Along {
        if self.recent.contains_key(note) {
            let delta = since(now, self.recent[note]) as u64;
            Along {
                recent: self.recent.remove(note),
                early: self.early.push(delta),
                hits: self.hits.push(
                    HitEvent {
                        note_id: note,
                        kind: HitKind::Good { delta, late: false },
                        chord: Some(now),
                    },
                ),
                sounding: self.sounding.insert(note),
                ..self
            }
        } else if self.sounding.contains(note) {
            self
        } else {
            Along {
                required: self.required.insert(note, now),
                sounding: self.sounding.insert(note),
                ..self
            }
        }
    }

    pub open spec fn after_file_release(self, note: u8) -> Along {
        Along { sounding: self.sounding.remove(note), ..self }
    }

    /// After a message from one side. Only note messages on the player's keyboard
    /// count, and a player's release of a key does nothing.
    pub open spec fn after_message(
        self,
        range: KeyboardRange,
        source: MidiEventSource,
        message: MidiMessage,
        now: u64,
    ) -> Along {
        match (source, message) {
            (MidiEventSource::User, MidiMessage::NoteOn { key, .. }) => if range.has(key) {
                self.after_user_press(key, now)
            } else {
                self
            },
            (MidiEventSource::File, MidiMessage::NoteOn { key, .. }) => if range.has(key) {
                self.after_file_press(key, now)
            } else {
                self
            },
            (MidiEventSource::File, MidiMessage::NoteOff { key, .. }) => if range.has(key) {
                self.after_file_release(key)
            } else {
                self
            },
            _ => self,
        }
    }

    pub open spec fn cleared(self) -> Along {
        Along {
            required: Map::empty(),
            recent: Map::empty(),
            sounding: Set::empty(),
            ..self
        }
    }
}

/// Play-along judging.
pub struct PlayAlong {
    user_keyboard_range: KeyboardRange,
    required_notes: NoteTable,
    user_pressed_recently: NoteTable,
    in_progress_file_notes: NoteTable,
    hit_events: Vec<HitEvent>,
    stats: PlayerStats,
}

impl View for PlayAlong {
    type V = Along;

    closed spec fn view(&self) -> Along {
        Along {
            required: self.required_notes@,
            recent: self.user_pressed_recently@,
            sounding: self.in_progress_file_notes@.dom(),
            hits: self.hit_events@,
            wrong_notes: self.stats.wrong_notes as int,
            early: self.stats.played_early@,
            late: self.stats.played_late@,
        }
    }
}

impl PlayAlong {
    pub closed spec fn range(self) -> KeyboardRange {
        self.user_keyboard_range
    }

    /// What holds at all times, and that the count of wrong notes can still grow
    /// by a whole keyboard.
    pub open spec fn wf(self) -> bool {
        self@.wf() && self@.wrong_notes + 256 <= usize::MAX
    }

    pub fn new(user_keyboard_range: KeyboardRange) -> (along: Self)
        ensures
            along.range() == user_keyboard_range,
            along.wf(),
            along@ == Along::fresh(),
    {
        let along = PlayAlong {
            user_keyboard_range,
            required_notes: NoteTable::new(),
            user_pressed_recently: NoteTable::new(),
            in_progress_file_notes: NoteTable::new(),
            hit_events: Vec::new(),
            stats: PlayerStats {
                wrong_notes: 0,
                played_early: Vec::new(),
                played_late: Vec::new(),
            },
        };
        assert(along@.sounding =~= Set::<u8>::empty());
        along
    }

    pub fn stats(&self) -> (stats: &PlayerStats)
        ensures
            stats.wrong_notes == self@.wrong_notes,
            stats.played_early@ == self@.early,
            stats.played_late@ == self@.late,
    {
        &self.stats
    }

    /// The hit events collected since they were last drained.
    pub fn hit_events(&self) -> (events: &Vec<HitEvent>)
        ensures
            events@ == self@.hits,
    {
        &self.hit_events
    }

    /// Drains the hit events collected since the last call.
    pub fn take_hit_events(&mut self) -> (events: Vec<HitEvent>)
        ensures
            events@ == old(self)@.hits,
            final(self)@ == (Along { hits: Seq::empty(), ..old(self)@ }),
            final(self).range() == old(self).range(),
    {
        let mut events: Vec<HitEvent> = Vec::new();
        std::mem::swap(&mut events, &mut self.hit_events);
        events
    }

    /// Is this note on the user's keyboard, so that it can be a target?
    pub fn covers(&self, note_id: u8) -> (covered: bool)
        ensures
            covered == self.range().has(note_id),
    {
        self.user_keyboard_range.contains(note_id)
    }

    fn push_hits(&mut self, notes: &Vec<u8>, kind: HitKind)
        ensures
            final(self)@ == (Along { hits: old(self)@.hits + hits_of(notes@, kind), ..old(self)@ }),
            final(self).range() == old(self).range(),
    {
        let mut n: usize = 0;
        while n < notes.len()
            invariant
                n <= notes@.len(),
                self@ == (Along {
                    hits: old(self)@.hits + hits_of(notes@.take(n as int), kind),
                    ..old(self)@
                }),
                self.range() == old(self).range(),
            decreases notes@.len() - n,
        {
            self.hit_events.push(HitEvent { note_id: notes[n], kind, chord: None });
            proof {
                assert(hits_of(notes@.take(n + 1), kind) =~= hits_of(
                    notes@.take(n as int),
                    kind,
                ).push(HitEvent { note_id: notes@[n as int], kind, chord: None }));
                assert(self@.hits =~= old(self)@.hits + hits_of(notes@.take(n + 1), kind));
            }
            n = n + 1;
        }
        proof {
            assert(notes@.take(n as int) =~= notes@);
        }
    }

    /// Judges what is out of date at time `now`.
    pub fn update(&mut self, now: u64, expire_required: bool)
        requires
            old(self).wf(),
        ensures
            final(self)@ == old(self)@.after_update(now, expire_required),
            final(self)@.wf(),
            final(self)@.wrong_notes <= old(self)@.wrong_notes + 256,
            final(self).range() == old(self).range(),
    {
        let expired = self.user_pressed_recently.expire(now);
        self.stats.wrong_notes = self.stats.wrong_notes + expired.len();
        self.push_hits(&expired, HitKind::Wrong);
        if expire_required {
            let missed = self.required_notes.expire(now);
            self.push_hits(&missed, HitKind::Miss);
        } else {
            assert(hits_of(Seq::empty(), HitKind::Miss) =~= Seq::<HitEvent>::empty());
            assert(old(self)@.after_update(now, false).hits =~= self@.hits);
        }
        assert(self@.wf()) by {
            assert forall|n: u8| !(self@.required.dom().contains(n) && self@.recent.dom().contains(
                n,
            )) by {
                assert(old(self)@.required.dom().disjoint(old(self)@.recent.dom()));
                assert(!(old(self)@.required.dom().contains(n) && old(self)@.recent.dom().contains(
                    n,
                )));
            }
        }
    }

    /// The player pressed (or released) a key.
    pub fn user_press_key(&mut self, note_id: u8, active: bool, now: u64)
        requires
            old(self).wf(),
        ensures
            final(self)@ == (if active {
                old(self)@.after_user_press(note_id, now)
            } else {
                old(self)@
            }),
            final(self)@.wf(),
            final(self).range() == old(self).range(),
    {
        if !active {
            return ;
        }
        if let Some(asked) = self.required_notes.get(note_id) {
            self.required_notes.remove(note_id);
            let delta: u64 = now.saturating_sub(asked);
            self.stats.played_late.push(delta);
            self.hit_events.push(
                HitEvent { note_id, kind: HitKind::Good { delta, late: true }, chord: Some(asked) },
            );
        } else {
            if self.user_pressed_recently.get(note_id).is_some() {
                self.stats.wrong_notes = self.stats.wrong_notes + 1;
            }
            self.user_pressed_recently.insert(note_id, now);
        }
    }

    /// A note of the file began (or ended).
    pub fn file_press_key(&mut self, note_id: u8, active: bool, now: u64)
        requires
            old(self)@.wf(),
        ensures
            final(self)@ == (if active {
                old(self)@.after_file_press(note_id, now)
            } else {
                old(self)@.after_file_release(note_id)
            }),
            final(self)@.wf(),
            final(self).range() == old(self).range(),
    {
        if active {
            if let Some(pressed) = self.user_pressed_recently.get(note_id) {
                self.user_pressed_recently.remove(note_id);
                let delta: u64 = now.saturating_sub(pressed);
                self.stats.played_early.push(delta);
                self.hit_events.push(
                    HitEvent {
                        note_id,
                        kind: HitKind::Good { delta, late: false },
                        chord: Some(now),
                    },
                );
            } else {
                if self.in_progress_file_notes.get(note_id).is_some() {
                    return ;
                }
                self.required_notes.insert(note_id, now);
            }
            self.in_progress_file_notes.insert(note_id, now);
            assert(self@.sounding =~= old(self)@.sounding.insert(note_id));
        } else {
            self.in_progress_file_notes.remove(note_id);
            assert(self@.sounding =~= old(self)@.sounding.remove(note_id));
        }
    }

    pub fn press_key(&mut self, source: MidiEventSource, note_id: u8, active: bool, now: u64)
        requires
            old(self).wf(),
        ensures
            final(self)@ == (match (source, active) {
                (_, _) if !old(self).range().has(note_id) => old(self)@,
                (MidiEventSource::User, true) => old(self)@.after_user_press(note_id, now),
                (MidiEventSource::User, false) => old(self)@,
                (MidiEventSource::File, true) => old(self)@.after_file_press(note_id, now),
                (MidiEventSource::File, false) => old(self)@.after_file_release(note_id),
            }),
            final(self)@.wf(),
            final(self).range() == old(self).range(),
    {
        if !self.user_keyboard_range.contains(note_id) {
            return ;
        }
        match source {
            MidiEventSource::User => self.user_press_key(note_id, active, now),
            MidiEventSource::File => self.file_press_key(note_id, active, now),
        }
    }

    pub fn midi_event(&mut self, source: MidiEventSource, message: &MidiMessage, now: u64)
        requires
            old(self).wf(),
        ensures
            final(self)@ == old(self)@.after_message(old(self).range(), source, *message, now),
            final(self)@.wf(),
            final(self).range() == old(self).range(),
    {
        match message {
            MidiMessage::NoteOn { key, .. } => self.press_key(source, *key, true, now),
            MidiMessage::NoteOff { key, .. } => self.press_key(source, *key, false, now),
            _ => {},
        }
    }

    pub fn clear(&mut self)
        ensures
            final(self)@ == old(self)@.cleared(),
            final(self)@.wf(),
            final(self).range() == old(self).range(),
    {
        self.required_notes = NoteTable::new();
        self.user_pressed_recently = NoteTable::new();
        self.in_progress_file_notes = NoteTable::new();
        assert(self@.sounding =~= Set::<u8>::empty());
    }

    /// Whether nothing is owed, so that a waiting song may go on.
    pub fn are_required_keys_pressed(&self) -> (pressed: bool)
        ensures
            pressed == (self@.required == Map::<u8, u64>::empty()),
    {
        self.required_notes.is_empty()
    }
}

/// The notes that are found out of date are exactly those that are, each once,
/// lowest first.
pub proof fn lemma_stale_from(table: Map<u8, u64>, now: u64, note: int)
    requires
        0 <= note <= 256,
    ensures
        forall|m: int|
            0 <= m < stale_from(table, now, note).len() ==> note <= #[trigger] stale_from(
                table,
                now,
                note,
            )[m],
        forall|m: int, n: int|
            0 <= m < n < stale_from(table, now, note).len() ==> (#[trigger] stale_from(
                table,
                now,
                note,
            )[m]) < (#[trigger] stale_from(table, now, note)[n]),
        forall|n: u8|
            #[trigger] stale_from(table, now, note).contains(n) <==> note <= n
                && table.contains_key(n) && stale(now, table[n]),
    decreases 256 - note,
{
    let all = stale_from(table, now, note);
    if note < 256 {
        lemma_stale_from(table, now, note + 1);
        let rest = stale_from(table, now, note + 1);
        let first = table.contains_key(note as u8) && stale(now, table[note as u8]);
        if first {
            assert(all[0] == note as u8);
            assert forall|m: int| 0 < m < all.len() implies #[trigger] all[m] == rest[m - 1] by {}
        }
        assert forall|n: u8| #[trigger]
            all.contains(n) <==> note <= n && table.contains_key(n) && stale(now, table[n]) by {
            if all.contains(n) {
                let m = choose|m: int| 0 <= m < all.len() && all[m] == n;
                if first && m > 0 {
                    assert(rest[m - 1] == n);
                    assert(rest.contains(n));
                } else if !first {
                    assert(rest.contains(n));
                }
            }
            if note <= n && table.contains_key(n) && stale(now, table[n]) {
                if n == note {
                    assert(all[0] == n);
                } else {
                    assert(rest.contains(n));
                    let m = choose|m: int| 0 <= m < rest.len() && rest[m] == n;
                    if first {
                        assert(all[m + 1] == n);
                    }
                }
            }
        }
    } else {
        assert forall|n: u8| !(#[trigger] all.contains(n)) by {}
    }
}

/// While the song waits, nothing it asked for is forgotten.
pub proof fn law_waiting_keeps_the_targets(a: Along, now: u64)
    ensures
        a.after_update(now, false).required == a.required,
{
}

/// In the jam modes a target that is left alone for more than half a second is
/// dropped and counted as one miss; one that is not is kept.
pub proof fn law_jam_targets_expire_as_misses(a: Along, now: u64, note: u8)
    requires
        a.required.contains_key(note),
    ensures
        ({
            let b = a.after_update(now, true);
            let miss = HitEvent { note_id: note, kind: HitKind::Miss, chord: None };
            &&& b.required.contains_key(note) <==> since(now, a.required[note]) <= LEEWAY
            &&& since(now, a.required[note]) > LEEWAY ==> b.hits.contains(miss)
        }),
{
    lemma_stale_from(a.required, now, 0);
    let missed = stale_notes(a.required, now);
    let wrong = hits_of(stale_notes(a.recent, now), HitKind::Wrong);
    let misses = hits_of(missed, HitKind::Miss);
    let b = a.after_update(now, true);
    if stale(now, a.required[note]) {
        assert(missed.contains(note));
        let m = choose|m: int| 0 <= m < missed.len() && missed[m] == note;
        assert(misses[m] == (HitEvent { note_id: note, kind: HitKind::Miss, chord: None }));
        assert(b.hits[a.hits.len() + wrong.len() + m] == misses[m]);
    }
}

/// A note that the song asks for and the player then plays is one late hit, as
/// late as the press was, and is owed no longer.
pub proof fn law_target_is_answered_late(a: Along, note: u8, asked: u64, played: u64)
    requires
        asked <= played,
        !a.recent.contains_key(note),
        !a.sounding.contains(note),
    ensures
        ({
            let b = a.after_file_press(note, asked).after_user_press(note, played);
            &&& !b.required.contains_key(note)
            &&& b.hits == a.hits.push(
                HitEvent {
                    note_id: note,
                    kind: HitKind::Good { delta: (played - asked) as u64, late: true },
                    chord: Some(asked),
                },
            )
        }),
{
}

/// A key that is pressed shortly before the song asks for it is one early hit,
/// and the song does not wait for it.
pub proof fn law_early_press_answers(a: Along, note: u8, played: u64, asked: u64)
    requires
        played <= asked,
        !a.required.contains_key(note),
    ensures
        ({
            let b = a.after_user_press(note, played).after_file_press(note, asked);
            &&& b.required == a.required
            &&& !b.recent.contains_key(note)
            &&& b.hits == a.hits.push(
                HitEvent {
                    note_id: note,
                    kind: HitKind::Good { delta: (asked - played) as u64, late: false },
                    chord: Some(asked),
                },
            )
        }),
{
}

/// Notes off the player's keyboard are never owed.
pub proof fn law_only_reachable_keys_are_owed(
    a: Along,
    range: KeyboardRange,
    source: MidiEventSource,
    message: MidiMessage,
    now: u64,
    note: u8,
)
    requires
        a.required.contains_key(note) ==> range.has(note),
    ensures
        a.after_message(range, source, message, now).required.contains_key(note) ==> range.has(
            note,
        ),
{
}

/// Answering one target leaves every other target as it was, since the same time,
/// and a key that answers none leaves all of them; what is remembered of other keys
/// stays, and so do the notes that sound and the hits there were.
pub proof fn law_a_press_leaves_the_other_targets(a: Along, note: u8, now: u64, other: u8)
    requires
        other != note,
    ensures
        ({
            let b = a.after_user_press(note, now);
            &&& b.required.contains_key(other) <==> a.required.contains_key(other)
            &&& a.required.contains_key(other) ==> b.required[other] == a.required[other]
            &&& b.recent.contains_key(other) <==> a.recent.contains_key(other)
            &&& a.recent.contains_key(other) ==> b.recent[other] == a.recent[other]
            &&& !a.required.contains_key(note) ==> b.required == a.required
            &&& a.required.contains_key(note) ==> b.recent == a.recent
            &&& b.sounding == a.sounding
            &&& b.early == a.early
            &&& a.hits.is_prefix_of(b.hits)
        }),
{
    let b = a.after_user_press(note, now);
    assert(a.hits =~= b.hits.take(a.hits.len() as int));
}

/// What is known after the player pressed some keys, one after the other.
pub open spec fn after_presses(a: Along, keys: Seq<(u8, u64)>) -> Along
    decreases keys.len(),
{
    if keys.len() == 0 {
        a
    } else {
        after_presses(a, keys.drop_last()).after_user_press(keys.last().0, keys.last().1)
    }
}

/// A chord is answered only once all of its keys were pressed: after any run of
/// presses exactly those targets are still owed whose key is not among them, and
/// they are owed since when they were asked for.
pub proof fn law_a_chord_needs_all_its_keys(a: Along, keys: Seq<(u8, u64)>, target: u8)
    requires
        a.required.contains_key(target),
    ensures
        after_presses(a, keys).required.contains_key(target) <==> forall|k: int|
            0 <= k < keys.len() ==> (#[trigger] keys[k]).0 != target,
        after_presses(a, keys).required.contains_key(target) ==> after_presses(
            a,
            keys,
        ).required[target] == a.required[target],
        after_presses(a, keys).required == Map::<u8, u64>::empty() ==> exists|k: int|
            0 <= k < keys.len() && (#[trigger] keys[k]).0 == target,
    decreases keys.len(),
{
    lemma_presses(a, keys, target);
}

proof fn lemma_presses(a: Along, keys: Seq<(u8, u64)>, target: u8)
    ensures
        after_presses(a, keys).required.contains_key(target) <==> a.required.contains_key(target)
            && forall|k: int| 0 <= k < keys.len() ==> (#[trigger] keys[k]).0 != target,
        after_presses(a, keys).required.contains_key(target) ==> after_presses(
            a,
            keys,
        ).required[target] == a.required[target],
    decreases keys.len(),
{
    if keys.len() > 0 {
        let shorter = keys.drop_last();
        lemma_presses(a, shorter, target);
        let b = after_presses(a, shorter);
        let (note, now) = keys.last();
        if note != target {
            law_a_press_leaves_the_other_targets(b, note, now, target);
            assert forall|k: int| 0 <= k < keys.len() && (forall|m: int|
                0 <= m < shorter.len() ==> (#[trigger] shorter[m]).0 != target) implies (
            #[trigger] keys[k]).0 != target by {
                if k < shorter.len() {
                    assert(shorter[k] == keys[k]);
                }
            }
            assert forall|m: int| 0 <= m < shorter.len() && (forall|k: int|
                0 <= k < keys.len() ==> (#[trigger] keys[k]).0 != target) implies (
            #[trigger] shorter[m]).0 != target by {
                assert(shorter[m] == keys[m]);
            }
        } else {
            assert(keys[keys.len() - 1].0 == target);
        }
    }
}

/// What a press does to the counts: answering a target is one hit and no mistake;
/// pressing a key whose note has not come yet is neither, unless it was pressed
/// already and is still remembered, which is one wrong note.
pub proof fn law_a_press_is_counted_once(a: Along, note: u8, now: u64)
    ensures
        ({
            let b = a.after_user_press(note, now);
            if a.required.contains_key(note) {
                let asked = a.required[note];
                &&& b.wrong_notes == a.wrong_notes
                &&& b.hits.len() == a.hits.len() + 1
                &&& b.late.len() == a.late.len() + 1
                &&& b.hits.last().note_id == note
                &&& b.hits.last().chord == Some(asked)
                &&& now >= asked ==> b.hits.last().kind == (HitKind::Good {
                    delta: (now - asked) as u64,
                    late: true,
                }) && b.late.last() == now - asked
                &&& now < asked ==> b.hits.last().kind == (HitKind::Good { delta: 0, late: true })
                    && b.late.last() == 0
            } else {
                &&& b.hits == a.hits
                &&& b.late == a.late
                &&& b.recent.contains_key(note) && b.recent[note] == now
                &&& b.wrong_notes - a.wrong_notes == (if a.recent.contains_key(note) {
                    1int
                } else {
                    0
                })
            }
        }),
{
}

/// The song asking for one note changes nothing about any other note, and never
/// makes a mistake; a note that it asks for while no press is remembered is owed
/// from then on, unless it sounds already.
pub proof fn law_asking_leaves_the_other_targets(a: Along, note: u8, now: u64, other: u8)
    requires
        other != note,
    ensures
        ({
            let b = a.after_file_press(note, now);
            let c = a.after_file_release(note);
            &&& b.required.contains_key(other) <==> a.required.contains_key(other)
            &&& a.required.contains_key(other) ==> b.required[other] == a.required[other]
            &&& b.recent.contains_key(other) <==> a.recent.contains_key(other)
            &&& a.recent.contains_key(other) ==> b.recent[other] == a.recent[other]
            &&& b.sounding.contains(other) <==> a.sounding.contains(other)
            &&& b.wrong_notes == a.wrong_notes
            &&& b.late == a.late
            &&& b.sounding.contains(note)
            &&& !a.recent.contains_key(note) && !a.sounding.contains(note)
                ==> b.required.contains_key(note) && b.required[note] == now && b.hits == a.hits
            &&& !a.recent.contains_key(note) && a.sounding.contains(note) ==> b.required
                == a.required && b.hits == a.hits
            &&& !c.sounding.contains(note) && (c.sounding.contains(other) <==> a.sounding.contains(
                other,
            ))
            &&& c.required == a.required && c.recent == a.recent && c.hits == a.hits
            &&& c.wrong_notes == a.wrong_notes
        }),
{
}

/// Time alone makes mistakes of exactly what is more than half a second old: a
/// press that nothing matched is one wrong note, and in the jam modes a target that
/// nobody played is one miss. Nothing else is added, and nothing younger is dropped.
pub proof fn law_only_what_is_old_is_judged(a: Along, now: u64, jam: bool, note: u8)
    ensures
        ({
            let b = a.after_update(now, jam);
            let wrong = HitEvent { note_id: note, kind: HitKind::Wrong, chord: None };
            let miss = HitEvent { note_id: note, kind: HitKind::Miss, chord: None };
            let new = b.hits.skip(a.hits.len() as int);
            let pressed_long_ago = a.recent.contains_key(note) && now > a.recent[note] + 500_000_000;
            let asked_long_ago = a.required.contains_key(note) && now > a.required[note]
                + 500_000_000;
            &&& a.hits.is_prefix_of(b.hits)
            &&& b.recent.contains_key(note) <==> a.recent.contains_key(note) && !pressed_long_ago
            &&& b.recent.contains_key(note) ==> b.recent[note] == a.recent[note]
            &&& b.required.contains_key(note) <==> a.required.contains_key(note) && !(jam
                && asked_long_ago)
            &&& b.required.contains_key(note) ==> b.required[note] == a.required[note]
            &&& new.contains(wrong) <==> pressed_long_ago
            &&& new.contains(miss) <==> jam && asked_long_ago
            &&& new.no_duplicates()
            &&& forall|k: int|
                0 <= k < new.len() ==> (#[trigger] new[k]).chord is None && (new[k].kind is Wrong
                    || new[k].kind is Miss)
            &&& b.sounding == a.sounding && b.early == a.early && b.late == a.late
        }),
{
    lemma_stale_from(a.recent, now, 0);
    lemma_stale_from(a.required, now, 0);
    let b = a.after_update(now, jam);
    let old_presses = stale_notes(a.recent, now);
    let old_targets = if jam {
        stale_notes(a.required, now)
    } else {
        Seq::empty()
    };
    let wrongs = hits_of(old_presses, HitKind::Wrong);
    let misses = hits_of(old_targets, HitKind::Miss);
    let new = b.hits.skip(a.hits.len() as int);
    assert(new =~= wrongs + misses);
    assert(a.hits =~= b.hits.take(a.hits.len() as int));
    let wrong = HitEvent { note_id: note, kind: HitKind::Wrong, chord: None };
    let miss = HitEvent { note_id: note, kind: HitKind::Miss, chord: None };
    if old_presses.contains(note) {
        let m = choose|m: int| 0 <= m < old_presses.len() && old_presses[m] == note;
        assert(new[m] == wrong);
    }
    if old_targets.contains(note) {
        let m = choose|m: int| 0 <= m < old_targets.len() && old_targets[m] == note;
        assert(new[wrongs.len() + m] == miss);
    }
    if new.contains(wrong) {
        let m = choose|m: int| 0 <= m < new.len() && new[m] == wrong;
        assert(m < wrongs.len());
        assert(old_presses[m] == note);
    }
    if new.contains(miss) {
        let m = choose|m: int| 0 <= m < new.len() && new[m] == miss;
        assert(m >= wrongs.len());
        assert(old_targets[m - wrongs.len()] == note);
    }
    assert forall|m: int, n: int| 0 <= m < new.len() && 0 <= n < new.len() && m != n implies new[m]
        != new[n] by {
        if m < wrongs.len() && n < wrongs.len() {
            assert(old_presses[m] != old_presses[n]);
        } else if m >= wrongs.len() && n >= wrongs.len() {
            assert(old_targets[m - wrongs.len()] != old_targets[n - wrongs.len()]);
        }
    }
}

/// Each old press that time makes a wrong note of is counted as one.
pub proof fn law_expired_presses_are_counted(a: Along, now: u64, jam: bool)
    ensures
        ({
            let b = a.after_update(now, jam);
            let new = b.hits.skip(a.hits.len() as int);
            b.wrong_notes - a.wrong_notes == new.filter(|hit: HitEvent| hit.kind is Wrong).len()
        }),
{
    let b = a.after_update(now, jam);
    let wrongs = hits_of(stale_notes(a.recent, now), HitKind::Wrong);
    let misses = hits_of(
        if jam {
            stale_notes(a.required, now)
        } else {
            Seq::empty()
        },
        HitKind::Miss,
    );
    let new = b.hits.skip(a.hits.len() as int);
    let is_wrong = |hit: HitEvent| hit.kind is Wrong;
    assert(new =~= wrongs + misses);
    Seq::filter_distributes_over_add(wrongs, misses, is_wrong);
    lemma_filter_all(wrongs, is_wrong);
    lemma_filter_none(misses, is_wrong);
}

proof fn lemma_filter_all(s: Seq<HitEvent>, keep: spec_fn(HitEvent) -> bool)
    requires
        forall|k: int| 0 <= k < s.len() ==> keep(#[trigger] s[k]),
    ensures
        s.filter(keep).len() == s.len(),
    decreases s.len(),
{
    reveal(Seq::filter);
    if s.len() > 0 {
        lemma_filter_all(s.drop_last(), keep);
        assert(keep(s[s.len() - 1]));
    }
}

proof fn lemma_filter_none(s: Seq<HitEvent>, keep: spec_fn(HitEvent) -> bool)
    requires
        forall|k: int| 0 <= k < s.len() ==> !keep(#[trigger] s[k]),
    ensures
        s.filter(keep).len() == 0,
    decreases s.len(),
{
    reveal(Seq::filter);
    if s.len() > 0 {
        lemma_filter_none(s.drop_last(), keep);
        assert(!keep(s[s.len() - 1]));
    }
}

/// Starting over forgets what is owed, pressed and sounding, and nothing else.
pub proof fn law_clearing_keeps_the_counts(a: Along)
    ensures
        a.cleared().required == Map::<u8, u64>::empty(),
        a.cleared().recent == Map::<u8, u64>::empty(),
        a.cleared().sounding == Set::<u8>::empty(),
        a.cleared().hits == a.hits,
        a.cleared().wrong_notes == a.wrong_notes,
        a.cleared().early == a.early,
        a.cleared().late == a.late,
{
}

/// A message counts only where its key is on the keyboard, and then as what it is:
/// the player's note-on as a press, the song's as a demand and its note-off as the
/// end of one. Every other message does nothing.
pub proof fn law_messages_count_as_what_they_are(
    a: Along,
    range: KeyboardRange,
    message: MidiMessage,
    key: u8,
    vel: u8,
    now: u64,
)
    ensures
        ({
            let on = MidiMessage::NoteOn { key, vel };
            let off = MidiMessage::NoteOff { key, vel };
            let (user, file) = (MidiEventSource::User, MidiEventSource::File);
            &&& range.has(key) ==> a.after_message(range, user, on, now) == a.after_user_press(
                key,
                now,
            ) && a.after_message(range, file, on, now) == a.after_file_press(key, now)
                && a.after_message(range, file, off, now) == a.after_file_release(key)
            &&& !range.has(key) ==> a.after_message(range, user, on, now) == a && a.after_message(
                range,
                file,
                on,
                now,
            ) == a && a.after_message(range, file, off, now) == a
            &&& a.after_message(range, user, off, now) == a
            &&& !(message is NoteOn) && !(message is NoteOff) ==> a.after_message(
                range,
                user,
                message,
                now,
            ) == a && a.after_message(range, file, message, now) == a
        }),
{
}

/// Gaps are counted one by one: adding one to a list adds one to the count exactly
/// when it is longer than the threshold, wherever it is added.
pub proof fn law_gaps_are_counted_one_by_one(before: Seq<u64>, gap: u64, after: Seq<u64>, limit: u64)
    ensures
        longer_than(before + seq![gap] + after, limit) - longer_than(before + after, limit) == (
        if gap > limit {
            1int
        } else {
            0
        }),
        longer_than(Seq::empty(), limit) == 0,
        LEEWAY == 500_000_000,
        LATE_GRACE == 160_000_000,
    decreases after.len(),
{
    let (more, fewer) = (before + seq![gap] + after, before + after);
    if after.len() == 0 {
        assert(more.drop_last() =~= fewer);
    } else {
        law_gaps_are_counted_one_by_one(before, gap, after.drop_last(), limit);
        assert(more.drop_last() =~= before + seq![gap] + after.drop_last());
        assert(fewer.drop_last() =~= before + after.drop_last());
    }
}

/// At the start nothing is asked, nothing was played and nothing was judged.
pub proof fn law_a_song_starts_unjudged()
    ensures
        Along::fresh().required.dom() == Set::<u8>::empty(),
        Along::fresh().recent.dom() == Set::<u8>::empty(),
        Along::fresh().sounding == Set::<u8>::empty(),
        Along::fresh().hits.len() == 0,
        Along::fresh().wrong_notes == 0,
        Along::fresh().early.len() == 0,
        Along::fresh().late.len() == 0,
{
}

} // verus!
