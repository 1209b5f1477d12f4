//! Playing a song: what sounds, what is judged, who performs.
//!
//! The clock of the song and the synthesizer are outside. This module is handed
//! the events that the clock gives out and a snapshot of where it stands, and
//! hands back what is to be done.
use vstd::prelude::*;

use crate::keyboard::KeyboardRange;
use crate::midi_file::{MidiEvent, MidiMessage};
use crate::play_along::{Along, HitEvent, MidiEventSource, PlayAlong};
use crate::results::Fraction;
use crate::song::{
    find_first_melodic, first_melodic, has_human, lemma_first_melodic, PerformMode, PlayerConfig,
    Song, TrackConfig,
};

verus! {

/// The time that a song waits before its first note: three seconds.
pub const LEAD_IN: u64 = 3_000_000_000;

/// The percussion channel.
pub const DRUM_CHANNEL: u8 = 9;

/// Where the clock of a song stands.
#[derive(Debug, Clone, Copy, PartialEq, Eq, Structural)]
pub struct PlaybackState {
    pub time: u64,
    pub leed_in: u64,
    pub length: u64,
    pub paused: bool,
    pub finished: bool,
}

/// Something to be done outside, in order.
#[derive(Debug, Clone, Copy, PartialEq, Eq, Structural)]
pub enum PlayerAction {
    /// Start the clock over the song's tracks.
    Start { lead_in: u64 },
    /// Advance the clock and hand back its events.
    Advance { delta: u64 },
    /// Move the clock.
    Seek { time: u64 },
    /// Throw away the events up to where the clock stands.
    Discard,
    Pause,
    Resume,
    /// Send the instruments that are in force at a time.
    SendPrograms { time: u64 },
    /// Send a message to the synthesizer, on one of its sixteen channels.
    Output { channel: u8, message: MidiMessage },
    /// Silence every ringing note.
    StopAll,
}

pub struct MidiPlayer {
    pub playback: PlaybackState,
    pub song: Song,
    pub play_along: PlayAlong,
    pub separate_channels: bool,
    /// Only meaningful while no track is Human.
    pub hero: bool,
}

/// Whether a message of a Human track still sounds: its notes are targets for
/// the player, everything else keeps the track sounding as intended.
pub open spec fn forwarded(message: MidiMessage) -> bool {
    message.key() is None
}

pub fn should_forward_human_event(message: &MidiMessage) -> (forward: bool)
    ensures
        forward == forwarded(*message),
{
    message.note_key().is_none()
}

/// The low four bits of a channel number.
pub open spec fn channel_bits(channel: int) -> u8 {
    (channel % 16) as u8
}

/// The channel an event sounds on: its own, or one for each track colour.
pub open spec fn output_channel(event: MidiEvent, separate_channels: bool) -> u8 {
    if separate_channels {
        channel_bits(event.track_color_id as int)
    } else {
        channel_bits(event.channel as int)
    }
}

/// Whether an event is a target for a player who jams: a note on the keyboard
/// that is not a drum hit.
pub open spec fn is_target(event: MidiEvent, range: KeyboardRange) -> bool {
    match event.message.key() {
        Some(key) => event.channel != DRUM_CHANNEL && range.has(key),
        None => false,
    }
}

/// How a player's performance is set up.
pub struct Setup {
    pub range: KeyboardRange,
    pub separate_channels: bool,
    pub hero: bool,
    /// No track is Human, so the song never stalls.
    pub jam: bool,
}

/// What an event of the song makes sound. In HERO the target notes stay silent:
/// that part is the player's to perform. A Human track sounds all but its notes,
/// a muted one nothing.
pub open spec fn sounds(event: MidiEvent, player: PlayerConfig, setup: Setup) -> Seq<PlayerAction> {
    let out = PlayerAction::Output {
        channel: output_channel(event, setup.separate_channels),
        message: event.message,
    };
    let heard = match player {
        PlayerConfig::Auto => !(setup.hero && setup.jam && is_target(event, setup.range)),
        PlayerConfig::Human => forwarded(event.message),
        PlayerConfig::Mute => false,
    };
    if heard {
        seq![out]
    } else {
        Seq::empty()
    }
}

/// What play-along makes of an event of the song.
pub open spec fn judged(
    along: Along,
    event: MidiEvent,
    player: PlayerConfig,
    setup: Setup,
    now: u64,
) -> Along {
    let asked = match player {
        PlayerConfig::Auto => setup.jam && is_target(event, setup.range),
        PlayerConfig::Human => true,
        PlayerConfig::Mute => false,
    };
    if asked {
        along.after_message(setup.range, MidiEventSource::File, event.message, now)
    } else {
        along
    }
}

/// What a run of events makes sound.
pub open spec fn all_sounds(
    events: Seq<MidiEvent>,
    tracks: Seq<TrackConfig>,
    setup: Setup,
) -> Seq<PlayerAction>
    decreases events.len(),
{
    if events.len() == 0 {
        Seq::empty()
    } else {
        all_sounds(events.drop_last(), tracks, setup) + sounds(
            events.last(),
            tracks[events.last().track_id as int].player,
            setup,
        )
    }
}

/// What play-along makes of a run of events.
pub open spec fn all_judged(
    along: Along,
    events: Seq<MidiEvent>,
    tracks: Seq<TrackConfig>,
    setup: Setup,
    now: u64,
) -> Along
    decreases events.len(),
{
    if events.len() == 0 {
        along
    } else {
        judged(
            all_judged(along, events.drop_last(), tracks, setup, now),
            events.last(),
            tracks[events.last().track_id as int].player,
            setup,
            now,
        )
    }
}

/// The tracks after a switch to `mode`: HUMAN hands the first melodic track to
/// the player, the jam modes take back every track they had.
pub open spec fn reassigned(song: Song, mode: PerformMode) -> Seq<TrackConfig> {
    Seq::new(
        song.config.tracks@.len(),
        |i: int|
            TrackConfig {
                player: if mode == PerformMode::Human {
                    if first_melodic(song.file.tracks@, 0) == Some(i) {
                        PlayerConfig::Human
                    } else {
                        song.config.tracks@[i].player
                    }
                } else if song.config.tracks@[i].player == PlayerConfig::Human {
                    PlayerConfig::Auto
                } else {
                    song.config.tracks@[i].player
                },
                ..song.config.tracks@[i]
            },
    )
}

/// The mode that a set-up amounts to.
pub open spec fn mode_of(tracks: Seq<TrackConfig>, hero: bool) -> PerformMode {
    if has_human(tracks) {
        PerformMode::Human
    } else if hero {
        PerformMode::Hero
    } else {
        PerformMode::Auto
    }
}

impl MidiPlayer {
    /// What holds at all times.
    pub open spec fn wf(self) -> bool {
        self.song.wf() && self.play_along.wf()
    }

    pub open spec fn tracks(self) -> Seq<TrackConfig> {
        self.song.config.tracks@
    }

    pub open spec fn setup(self) -> Setup {
        Setup {
            range: self.play_along.range(),
            separate_channels: self.separate_channels,
            hero: self.hero,
            jam: !has_human(self.tracks()),
        }
    }

    /// A player for a song, with three seconds of lead-in, and what is to be done
    /// first: start the clock, clean up the instruments of the previous song, and
    /// let the events of the first instant through.
    pub fn new(
        song: Song,
        user_keyboard_range: KeyboardRange,
        separate_channels: bool,
    ) -> (made: (Self, Vec<PlayerAction>))
        requires
            song.wf(),
        ensures
            made.0.wf(),
            made.0.song == song,
            made.0.setup() == (Setup {
                range: user_keyboard_range,
                separate_channels,
                hero: false,
                jam: !has_human(song.config.tracks@),
            }),
            made.0.playback == (PlaybackState {
                time: 0,
                leed_in: LEAD_IN,
                length: 0,
                paused: false,
                finished: false,
            }),
            made.0.play_along@ == Along::fresh(),
            made.1@ == seq![
                PlayerAction::Start { lead_in: LEAD_IN },
                PlayerAction::SendPrograms { time: 0 },
                PlayerAction::Advance { delta: 0 },
            ],
    {
        MidiPlayer::new_with_lead_in(song, user_keyboard_range, separate_channels, LEAD_IN)
    }

    /// A player for a song, and what is to be done first.
    pub fn new_with_lead_in(
        song: Song,
        user_keyboard_range: KeyboardRange,
        separate_channels: bool,
        lead_in: u64,
    ) -> (made: (Self, Vec<PlayerAction>))
        requires
            song.wf(),
        ensures
            made.0.wf(),
            made.0.song == song,
            made.0.setup() == (Setup {
                range: user_keyboard_range,
                separate_channels,
                hero: false,
                jam: !has_human(song.config.tracks@),
            }),
            made.0.playback == (PlaybackState {
                time: 0,
                leed_in: lead_in,
                length: 0,
                paused: false,
                finished: false,
            }),
            made.0.play_along@ == Along::fresh(),
            made.1@ == seq![
                PlayerAction::Start { lead_in },
                PlayerAction::SendPrograms { time: 0 },
                PlayerAction::Advance { delta: 0 },
            ],
    {
        let player = MidiPlayer {
            playback: PlaybackState {
                time: 0,
                leed_in: lead_in,
                length: 0,
                paused: false,
                finished: false,
            },
            song,
            play_along: PlayAlong::new(user_keyboard_range),
            separate_channels,
            hero: false,
        };
        let mut actions: Vec<PlayerAction> = Vec::new();
        actions.push(PlayerAction::Start { lead_in });
        actions.push(PlayerAction::SendPrograms { time: 0 });
        actions.push(PlayerAction::Advance { delta: 0 });
        assert(actions@ =~= seq![
            PlayerAction::Start { lead_in },
            PlayerAction::SendPrograms { time: 0 },
            PlayerAction::Advance { delta: 0 },
        ]);
        (player, actions)
    }

    pub fn song(&self) -> (song: &Song)
        ensures
            *song == self.song,
    {
        &self.song
    }

    /// Takes note of where the clock of the song stands.
    pub fn observe(&mut self, playback: PlaybackState)
        ensures
            final(self).playback == playback,
            final(self).song == old(self).song,
            final(self).play_along == old(self).play_along,
            final(self).separate_channels == old(self).separate_channels,
            final(self).hero == old(self).hero,
    {
        self.playback = playback;
    }

    /// The song has gone on to time `now` and given out some events: judges what
    /// is out of date, and says what is to be heard.
    ///
    /// Without a Human track the song never stalls, so targets nobody played must
    /// expire as silent misses rather than pile up. With one they persist: the
    /// song is waiting on them.
    pub fn update(&mut self, events: &[MidiEvent], now: u64) -> (actions: Vec<PlayerAction>)
        requires
            old(self).wf(),
            forall|n: int|
                0 <= n < events@.len() ==> (#[trigger] events@[n]).track_id < old(self).tracks().len(),
        ensures
            actions@ == all_sounds(events@, old(self).tracks(), old(self).setup()),
            final(self).play_along@ == all_judged(
                old(self).play_along@.after_update(now, old(self).setup().jam),
                events@,
                old(self).tracks(),
                old(self).setup(),
                now,
            ),
            final(self).play_along@.wf(),
            final(self).play_along@.wrong_notes <= old(self).play_along@.wrong_notes + 256,
            final(self).setup() == old(self).setup(),
            final(self).song == old(self).song,
            final(self).playback == old(self).playback,
    {
        let jam = !self.has_human_track();
        self.play_along.update(now, jam);
        let ghost along = self.play_along@;
        let mut actions: Vec<PlayerAction> = Vec::new();
        let mut n: usize = 0;
        proof {
            assert(events@.take(0) =~= Seq::<MidiEvent>::empty());
        }
        while n < events.len()
            invariant
                n <= events@.len(),
                jam == old(self).setup().jam,
                forall|m: int|
                    0 <= m < events@.len() ==> (#[trigger] events@[m]).track_id < old(self).tracks().len(),
                self.song == old(self).song,
                self.playback == old(self).playback,
                self.setup() == old(self).setup(),
                self.separate_channels == old(self).separate_channels,
                self.hero == old(self).hero,
                self.play_along@.wf(),
                self.play_along@.wrong_notes <= old(self).play_along@.wrong_notes + 256,
                self.play_along.range() == old(self).setup().range,
                actions@ == all_sounds(
                    events@.take(n as int),
                    old(self).tracks(),
                    old(self).setup(),
                ),
                self.play_along@ == all_judged(
                    along,
                    events@.take(n as int),
                    old(self).tracks(),
                    old(self).setup(),
                    now,
                ),
            decreases events@.len() - n,
        {
            proof {
                assert(events@.take(n + 1).drop_last() =~= events@.take(n as int));
                assert(events@[n as int].track_id < old(self).tracks().len());
            }
            let event = events[n];
            let player = self.song.config.tracks[event.track_id].player;
            let channel: u8 = if self.separate_channels {
                (event.track_color_id % 16) as u8
            } else {
                event.channel % 16
            };
            let out = PlayerAction::Output { channel, message: event.message };
            let ghost setup = old(self).setup();
            let ghost heard_before = actions@;
            match player {
                PlayerConfig::Auto => {
                    let on_keyboard = match event.message.note_key() {
                        Some(key) => self.play_along.covers(key),
                        None => false,
                    };
                    let target = jam && event.channel != DRUM_CHANNEL && on_keyboard;
                    if !(self.hero && target) {
                        actions.push(out);
                    }
                    if target {
                        self.ask(&event.message, now);
                    }
                },
                PlayerConfig::Human => {
                    self.ask(&event.message, now);
                    if should_forward_human_event(&event.message) {
                        actions.push(out);
                    }
                },
                PlayerConfig::Mute => {},
            }
            proof {
                assert(actions@ =~= heard_before + sounds(event, player, setup));
            }
            n = n + 1;
        }
        proof {
            assert(events@.take(n as int) =~= events@);
        }
        actions
    }

    /// Hands a message of the song to play-along.
    fn ask(&mut self, message: &MidiMessage, now: u64)
        requires
            old(self).play_along@.wf(),
        ensures
            final(self).play_along@ == old(self).play_along@.after_message(
                old(self).play_along.range(),
                MidiEventSource::File,
                *message,
                now,
            ),
            final(self).play_along@.wf(),
            final(self).play_along.range() == old(self).play_along.range(),
            final(self).song == old(self).song,
            final(self).playback == old(self).playback,
            final(self).separate_channels == old(self).separate_channels,
            final(self).hero == old(self).hero,
    {
        if let Some(key) = message.note_key() {
            if self.play_along.covers(key) {
                let active = matches!(message, MidiMessage::NoteOn { .. });
                self.play_along.file_press_key(key, active, now);
            }
        }
    }

    /// What silences the song; also to be done when the player is dropped.
    pub fn clear(&self) -> (action: PlayerAction)
        ensures
            action == PlayerAction::StopAll,
    {
        PlayerAction::StopAll
    }

    pub fn pause_resume(&mut self) -> (actions: Vec<PlayerAction>)
        requires
            old(self).wf(),
        ensures
            actions@ == (if old(self).playback.paused {
                seq![PlayerAction::Resume]
            } else {
                seq![PlayerAction::StopAll, PlayerAction::Pause]
            }),
            final(self).play_along@ == (if old(self).playback.paused {
                old(self).play_along@.cleared()
            } else {
                old(self).play_along@
            }),
            final(self).wf(),
            final(self).setup() == old(self).setup(),
            final(self).song == old(self).song,
            final(self).playback == old(self).playback,
    {
        if self.playback.paused {
            self.resume()
        } else {
            self.pause()
        }
    }

    pub fn pause(&mut self) -> (actions: Vec<PlayerAction>)
        ensures
            actions@ == seq![PlayerAction::StopAll, PlayerAction::Pause],
            *final(self) == *old(self),
    {
        let mut actions: Vec<PlayerAction> = Vec::new();
        actions.push(self.clear());
        actions.push(PlayerAction::Pause);
        assert(actions@ =~= seq![PlayerAction::StopAll, PlayerAction::Pause]);
        actions
    }

    /// Starts the clock again, with a clean slate of keys.
    pub fn resume(&mut self) -> (actions: Vec<PlayerAction>)
        requires
            old(self).wf(),
        ensures
            actions@ == seq![PlayerAction::Resume],
            final(self).play_along@ == old(self).play_along@.cleared(),
            final(self).wf(),
            final(self).setup() == old(self).setup(),
            final(self).song == old(self).song,
            final(self).playback == old(self).playback,
    {
        self.play_along.clear();
        let mut actions: Vec<PlayerAction> = Vec::new();
        actions.push(PlayerAction::Resume);
        assert(actions@ =~= seq![PlayerAction::Resume]);
        actions
    }

    /// The messages that set each channel's instrument, given channel and
    /// program; both are cut to the range that MIDI has for them.
    pub fn program_messages(programs: &[(u8, u8)]) -> (actions: Vec<PlayerAction>)
        ensures
            actions@ == programs@.map_values(
                |p: (u8, u8)|
                    PlayerAction::Output {
                        channel: channel_bits(p.0 as int),
                        message: MidiMessage::ProgramChange { program: (p.1 % 128) as u8 },
                    },
            ),
    {
        let mut actions: Vec<PlayerAction> = Vec::new();
        let mut n: usize = 0;
        while n < programs.len()
            invariant
                n <= programs@.len(),
                actions@.len() == n,
                forall|m: int|
                    0 <= m < n ==> #[trigger] actions@[m] == (PlayerAction::Output {
                        channel: channel_bits(programs@[m].0 as int),
                        message: MidiMessage::ProgramChange { program: (programs@[m].1 % 128) as u8 },
                    }),
            decreases programs@.len() - n,
        {
            let (channel, program): (u8, u8) = programs[n];
            actions.push(
                PlayerAction::Output {
                    channel: channel % 16,
                    message: MidiMessage::ProgramChange { program: program % 128 },
                },
            );
            n = n + 1;
        }
        assert(actions@ =~= programs@.map_values(
            |p: (u8, u8)|
                PlayerAction::Output {
                    channel: channel_bits(p.0 as int),
                    message: MidiMessage::ProgramChange { program: (p.1 % 128) as u8 },
                },
        ));
        actions
    }

    /// Moves the song to `time`: the events up to there are thrown away, ringing
    /// notes are silenced and the instruments set to what they are there.
    pub fn set_time(&mut self, time: u64) -> (actions: Vec<PlayerAction>)
        ensures
            actions@ == seq![
                PlayerAction::Seek { time },
                PlayerAction::Discard,
                PlayerAction::StopAll,
                PlayerAction::SendPrograms { time },
            ],
            *final(self) == *old(self),
    {
        let mut actions: Vec<PlayerAction> = Vec::new();
        actions.push(PlayerAction::Seek { time });
        actions.push(PlayerAction::Discard);
        actions.push(self.clear());
        actions.push(PlayerAction::SendPrograms { time });
        assert(actions@ =~= seq![
            PlayerAction::Seek { time },
            PlayerAction::Discard,
            PlayerAction::StopAll,
            PlayerAction::SendPrograms { time },
        ]);
        actions
    }

    /// Moves the song by `delta` milliseconds, but not before its start.
    pub fn rewind(&mut self, delta: i64) -> (actions: Vec<PlayerAction>)
        ensures
            ({
                let to = old(self).playback.time + delta * 1_000_000;
                let time = if to < 0 {
                    0
                } else if to > u64::MAX {
                    u64::MAX
                } else {
                    to as u64
                };
                actions@ == seq![
                    PlayerAction::Seek { time },
                    PlayerAction::Discard,
                    PlayerAction::StopAll,
                    PlayerAction::SendPrograms { time },
                ]
            }),
            *final(self) == *old(self),
    {
        let to: i128 = self.playback.time as i128 + delta as i128 * 1_000_000;
        let time: u64 = if to < 0 {
            0
        } else if to > u64::MAX as i128 {
            u64::MAX
        } else {
            to as u64
        };
        self.set_time(time)
    }

    /// The time that is a given share of the way through, cut to whole nanoseconds
    /// and to what a time can hold.
    pub fn percentage_to_time(&self, share: Fraction) -> (time: u64)
        requires
            0 < share.den,
        ensures
            time == self.time_at(share),
    {
        let (n, d, len): (u128, u128, u128) = (
            share.num as u128,
            share.den as u128,
            self.playback.length as u128,
        );
        assert(0 <= len * n <= 0xffff_ffff_ffff_ffff * 0xffff_ffff_ffff_ffff) by (nonlinear_arith)
            requires
                0 <= len <= 0xffff_ffff_ffff_ffff,
                0 <= n <= 0xffff_ffff_ffff_ffff,
        ;
        let at: u128 = len * n / d;
        if at <= u64::MAX as u128 {
            at as u64
        } else {
            u64::MAX
        }
    }

    /// The time that is a given share of the way through.
    pub open spec fn time_at(self, share: Fraction) -> u64 {
        let at = self.playback.length * share.num / (share.den as int);
        if at <= u64::MAX {
            at as u64
        } else {
            u64::MAX
        }
    }

    /// How far through the song a time is.
    pub fn time_to_percentage(&self, time: u64) -> (share: Fraction)
        ensures
            share == (Fraction { num: time, den: self.playback.length }),
    {
        Fraction { num: time, den: self.playback.length }
    }

    /// Moves the song to a given share of the way through.
    pub fn set_percentage_time(&mut self, share: Fraction) -> (actions: Vec<PlayerAction>)
        requires
            0 < share.den,
        ensures
            *final(self) == *old(self),
            ({
                let time = old(self).time_at(share);
                actions@ == seq![
                    PlayerAction::Seek { time },
                    PlayerAction::Discard,
                    PlayerAction::StopAll,
                    PlayerAction::SendPrograms { time },
                ]
            }),
    {
        let time: u64 = self.percentage_to_time(share);
        self.set_time(time)
    }

    pub fn leed_in(&self) -> (time: u64)
        ensures
            time == self.playback.leed_in,
    {
        self.playback.leed_in
    }

    pub fn length(&self) -> (time: u64)
        ensures
            time == self.playback.length,
    {
        self.playback.length
    }

    pub fn is_finished(&self) -> (finished: bool)
        ensures
            finished == self.playback.finished,
    {
        self.playback.finished
    }

    pub fn time(&self) -> (time: u64)
        ensures
            time == self.playback.time,
    {
        self.playback.time
    }

    /// Time since the first bar; negative during the lead-in.
    pub fn time_without_lead_in(&self) -> (time: i128)
        ensures
            time == self.playback.time - self.playback.leed_in,
    {
        self.playback.time as i128 - self.playback.leed_in as i128
    }

    pub fn is_paused(&self) -> (paused: bool)
        ensures
            paused == self.playback.paused,
    {
        self.playback.paused
    }

    pub fn play_along(&self) -> (along: &PlayAlong)
        ensures
            *along == self.play_along,
    {
        &self.play_along
    }

    /// Drains the hit events since the last frame.
    pub fn take_hit_events(&mut self) -> (events: Vec<HitEvent>)
        ensures
            events@ == old(self).play_along@.hits,
            final(self).play_along@ == (Along { hits: Seq::empty(), ..old(self).play_along@ }),
            final(self).setup() == old(self).setup(),
            final(self).song == old(self).song,
            final(self).playback == old(self).playback,
    {
        self.play_along.take_hit_events()
    }

    /// Runs play-along housekeeping without advancing playback. While a waiting
    /// song is stalled, mashed wrong keys must still be judged promptly.
    pub fn tick_play_along(&mut self, now: u64)
        requires
            old(self).wf(),
        ensures
            final(self).play_along@ == old(self).play_along@.after_update(now, false),
            final(self).play_along@.wf(),
            final(self).play_along@.wrong_notes <= old(self).play_along@.wrong_notes + 256,
            final(self).setup() == old(self).setup(),
            final(self).song == old(self).song,
            final(self).playback == old(self).playback,
    {
        self.play_along.update(now, false);
    }

    pub fn mode(&self) -> (mode: PerformMode)
        ensures
            mode == mode_of(self.tracks(), self.hero),
    {
        if self.has_human_track() {
            PerformMode::Human
        } else if self.hero {
            PerformMode::Hero
        } else {
            PerformMode::Auto
        }
    }

    /// Whether `next` is this player once it was asked for `mode`: as it was where
    /// the mode is on already, else with the tracks handed out anew and no pending
    /// targets.
    pub open spec fn switches(self, next: MidiPlayer, mode: PerformMode) -> bool {
        &&& next.song.file == self.song.file
        &&& next.playback == self.playback
        &&& next.separate_channels == self.separate_channels
        &&& next.play_along.range() == self.play_along.range()
        &&& if mode == mode_of(self.tracks(), self.hero) {
            &&& next.tracks() == self.tracks()
            &&& next.hero == self.hero
            &&& next.play_along@ == self.play_along@
        } else {
            &&& next.tracks() == reassigned(self.song, mode)
            &&& next.hero == (mode == PerformMode::Hero)
            &&& next.play_along@ == self.play_along@.cleared()
        }
    }

    /// Switches who performs, mid-song.
    ///
    /// Ringing notes are silenced and pending targets dropped, so that a stalled
    /// song resumes on the spot instead of waiting for keys that are no longer
    /// anyone's job. Asking for the mode that is already on does nothing.
    pub fn set_mode(&mut self, mode: PerformMode) -> (actions: Vec<PlayerAction>)
        requires
            old(self).wf(),
        ensures
            final(self).wf(),
            old(self).switches(*final(self), mode),
            actions@ == (if mode == mode_of(old(self).tracks(), old(self).hero) {
                Seq::empty()
            } else {
                seq![PlayerAction::StopAll]
            }),
    {
        let mut actions: Vec<PlayerAction> = Vec::new();
        if mode == self.mode() {
            return actions;
        }
        actions.push(self.clear());
        self.play_along.clear();
        self.hero = mode == PerformMode::Hero;
        if mode == PerformMode::Human {
            let found: Option<usize> = find_first_melodic(self.song.file.tracks.as_slice());
            if let Some(i) = found {
                let config = self.song.config.tracks[i];
                self.song.config.tracks[i] = TrackConfig { player: PlayerConfig::Human, ..config };
            }
            assert(self.tracks() =~= reassigned(old(self).song, mode));
        } else {
            let mut i: usize = 0;
            while i < self.song.config.tracks.len()
                invariant
                    mode != PerformMode::Human,
                    i <= self.tracks().len(),
                    self.tracks().len() == old(self).tracks().len(),
                    self.song.file == old(self).song.file,
                    self.playback == old(self).playback,
                    self.separate_channels == old(self).separate_channels,
                    self.hero == (mode == PerformMode::Hero),
                    self.play_along@ == old(self).play_along@.cleared(),
                    self.play_along.wf(),
                    self.play_along.range() == old(self).play_along.range(),
                    forall|j: int|
                        0 <= j < i ==> #[trigger] self.tracks()[j] == reassigned(
                            old(self).song,
                            mode,
                        )[j],
                    forall|j: int|
                        i <= j < self.tracks().len() ==> #[trigger] self.tracks()[j]
                            == old(self).tracks()[j],
                decreases self.tracks().len() - i,
            {
                let config = self.song.config.tracks[i];
                if matches!(config.player, PlayerConfig::Human) {
                    self.song.config.tracks[i] = TrackConfig { player: PlayerConfig::Auto, ..config };
                }
                i = i + 1;
            }
            assert(self.tracks() =~= reassigned(old(self).song, mode));
        }
        assert(actions@ =~= seq![PlayerAction::StopAll]);
        actions
    }

    /// True when at least one track is set to Human.
    pub fn has_human_track(&self) -> (human: bool)
        ensures
            human == has_human(self.tracks()),
    {
        let mut i: usize = 0;
        while i < self.song.config.tracks.len()
            invariant
                i <= self.tracks().len(),
                forall|j: int|
                    0 <= j < i ==> (#[trigger] self.tracks()[j]).player != PlayerConfig::Human,
            decreases self.tracks().len() - i,
        {
            if matches!(self.song.config.tracks[i].player, PlayerConfig::Human) {
                assert(self.tracks()[i as int].player == PlayerConfig::Human);
                return true;
            }
            i = i + 1;
        }
        false
    }

    /// A message from the player's keyboard: it sounds, and it is judged in every
    /// mode, so a wrong key buzzes and a matching one scores.
    pub fn user_midi_event(&mut self, channel: u8, message: &MidiMessage, now: u64) -> (action:
        PlayerAction)
        requires
            old(self).wf(),
        ensures
            action == (PlayerAction::Output {
                channel: channel_bits(channel as int),
                message: *message,
            }),
            final(self).play_along@ == old(self).play_along@.after_message(
                old(self).play_along.range(),
                MidiEventSource::User,
                *message,
                now,
            ),
            final(self).play_along@.wf(),
            final(self).play_along@.wrong_notes <= old(self).play_along@.wrong_notes + 1,
            final(self).setup() == old(self).setup(),
            final(self).song == old(self).song,
            final(self).playback == old(self).playback,
    {
        self.play_along.midi_event(MidiEventSource::User, message, now);
        PlayerAction::Output { channel: channel % 16, message: *message }
    }
}

/// HERO silences exactly the notes that the player is meant to perform; without
/// it the same song is heard in full.
pub proof fn law_hero_silences_exactly_the_targets(
    event: MidiEvent,
    range: KeyboardRange,
    separate_channels: bool,
)
    ensures
        ({
            let hero = Setup { range, separate_channels, hero: true, jam: true };
            sounds(event, PlayerConfig::Auto, hero).len() == 0 <==> is_target(event, range)
        }),
        ({
            let auto = Setup { range, separate_channels, hero: false, jam: true };
            sounds(event, PlayerConfig::Auto, auto).len() == 1
        }),
{
}

/// HERO and AUTO judge the player alike.
pub proof fn law_hero_is_graded_like_auto(
    along: Along,
    events: Seq<MidiEvent>,
    tracks: Seq<TrackConfig>,
    range: KeyboardRange,
    separate_channels: bool,
    now: u64,
)
    ensures
        all_judged(
            along,
            events,
            tracks,
            Setup { range, separate_channels, hero: true, jam: true },
            now,
        ) == all_judged(
            along,
            events,
            tracks,
            Setup { range, separate_channels, hero: false, jam: true },
            now,
        ),
    decreases events.len(),
{
    if events.len() > 0 {
        law_hero_is_graded_like_auto(
            along,
            events.drop_last(),
            tracks,
            range,
            separate_channels,
            now,
        );
    }
}

/// Switching to a jam mode leaves no Human track and is in force at once; so is
/// switching to HUMAN, in a song that has a melodic track.
pub proof fn law_switching_takes_effect(song: Song, mode: PerformMode)
    requires
        song.wf(),
        mode == PerformMode::Human ==> first_melodic(song.file.tracks@, 0) is Some,
    ensures
        mode_of(reassigned(song, mode), mode == PerformMode::Hero) == mode,
{
    lemma_first_melodic(song.file.tracks@, 0);
    let after = reassigned(song, mode);
    if mode == PerformMode::Human {
        let f = first_melodic(song.file.tracks@, 0)->0;
        assert(after[f].player == PlayerConfig::Human);
    } else {
        assert forall|i: int| 0 <= i < after.len() implies (#[trigger] after[i]).player
            != PlayerConfig::Human by {}
    }
}

/// Switching away from HUMAN and back restores the set-up of a song that was
/// loaded for HUMAN.
pub proof fn law_switching_back_restores_the_tracks(song: Song, jammed: Song, mode: PerformMode)
    requires
        song.wf(),
        song.config.tracks@ == crate::song::assignment(song.file.tracks@, true),
        jammed.file == song.file,
        jammed.config.tracks@ == reassigned(song, mode),
        mode != PerformMode::Human,
    ensures
        reassigned(jammed, PerformMode::Human) == song.config.tracks@,
{
    assert(reassigned(jammed, PerformMode::Human) =~= song.config.tracks@);
}

/// What is heard of a track: all of an accompanying one, except that in HERO, while no
/// track is Human, the notes on the keyboard that are not drum hits stay silent; of a
/// Human one everything but its notes; of a muted one nothing. What is heard is heard
/// once, unchanged, on the channel of the event, or on one for each track colour.
pub proof fn law_what_is_heard_of_a_track(event: MidiEvent, setup: Setup)
    ensures
        ({
            let auto = sounds(event, PlayerConfig::Auto, setup);
            let human = sounds(event, PlayerConfig::Human, setup);
            let is_note = event.message is NoteOn || event.message is NoteOff;
            let key = match event.message {
                MidiMessage::NoteOn { key, .. } => key,
                MidiMessage::NoteOff { key, .. } => key,
                _ => 0,
            };
            let channel = if setup.separate_channels {
                event.track_color_id % 16
            } else {
                event.channel as usize % 16
            };
            &&& sounds(event, PlayerConfig::Mute, setup).len() == 0
            &&& human.len() == 1 <==> !is_note
            &&& human.len() <= 1 && auto.len() <= 1
            &&& auto.len() == 0 <==> setup.hero && setup.jam && is_note && event.channel != 9
                && setup.range.has(key)
            &&& auto.len() == 1 ==> auto[0] == (PlayerAction::Output {
                channel: channel as u8,
                message: event.message,
            })
            &&& human.len() == 1 ==> human[0] == (PlayerAction::Output {
                channel: channel as u8,
                message: event.message,
            })
            &&& 0 <= channel < 16
        }),
{
}

/// What the player is judged against: every event of a Human track, nothing of a muted
/// one, and of an accompanying one, while no track is Human, the notes on the keyboard
/// that are not drum hits.
pub proof fn law_what_a_player_is_judged_against(
    along: Along,
    event: MidiEvent,
    setup: Setup,
    now: u64,
)
    ensures
        ({
            let asked = along.after_message(
                setup.range,
                MidiEventSource::File,
                event.message,
                now,
            );
            let is_note = event.message is NoteOn || event.message is NoteOff;
            &&& judged(along, event, PlayerConfig::Mute, setup, now) == along
            &&& judged(along, event, PlayerConfig::Human, setup, now) == asked
            &&& !setup.jam ==> judged(along, event, PlayerConfig::Auto, setup, now) == along
            &&& setup.jam && is_note && event.channel != 9 ==> judged(
                along,
                event,
                PlayerConfig::Auto,
                setup,
                now,
            ) == asked
            &&& !is_note || event.channel == 9 ==> judged(
                along,
                event,
                PlayerConfig::Auto,
                setup,
                now,
            ) == along
        }),
{
}

/// A run of events is taken in order: cutting it in two changes neither what is heard
/// nor what is judged, and a single event is heard and judged by the track it is of.
pub proof fn law_events_are_taken_in_order(
    along: Along,
    first: Seq<MidiEvent>,
    rest: Seq<MidiEvent>,
    event: MidiEvent,
    tracks: Seq<TrackConfig>,
    setup: Setup,
    now: u64,
)
    ensures
        all_sounds(first + rest, tracks, setup) == all_sounds(first, tracks, setup) + all_sounds(
            rest,
            tracks,
            setup,
        ),
        all_judged(along, first + rest, tracks, setup, now) == all_judged(
            all_judged(along, first, tracks, setup, now),
            rest,
            tracks,
            setup,
            now,
        ),
        all_sounds(seq![event], tracks, setup) == sounds(
            event,
            tracks[event.track_id as int].player,
            setup,
        ),
        all_judged(along, seq![event], tracks, setup, now) == judged(
            along,
            event,
            tracks[event.track_id as int].player,
            setup,
            now,
        ),
        all_sounds(Seq::empty(), tracks, setup).len() == 0,
        all_judged(along, Seq::empty(), tracks, setup, now) == along,
    decreases rest.len(),
{
    let one = seq![event];
    assert(one.drop_last() =~= Seq::<MidiEvent>::empty());
    reveal_with_fuel(all_sounds, 2);
    reveal_with_fuel(all_judged, 2);
    assert(all_sounds(one, tracks, setup) =~= sounds(
        event,
        tracks[event.track_id as int].player,
        setup,
    ));
    let all = first + rest;
    if rest.len() == 0 {
        assert(all =~= first);
        assert(all_sounds(rest, tracks, setup) =~= Seq::<PlayerAction>::empty());
    } else {
        law_events_are_taken_in_order(along, first, rest.drop_last(), event, tracks, setup, now);
        assert(all.drop_last() =~= first + rest.drop_last());
        assert(all_sounds(all, tracks, setup) =~= all_sounds(first, tracks, setup) + all_sounds(
            rest,
            tracks,
            setup,
        ));
    }
}

/// A switch of performers hands out tracks and nothing else: HUMAN gives the player
/// the first melodic track and leaves the others, the jam modes give every Human track
/// back to the song and leave the others. Which tracks are shown does not change.
pub proof fn law_a_switch_only_hands_out_tracks(song: Song, mode: PerformMode, i: int)
    requires
        song.wf(),
        0 <= i < song.config.tracks@.len(),
    ensures
        reassigned(song, mode).len() == song.config.tracks@.len(),
        ({
            let (was, is) = (song.config.tracks@[i], reassigned(song, mode)[i]);
            let melodic = song.file.tracks@[i].notes@.len() > 0 && (!song.file.tracks@[i].has_drums
                || song.file.tracks@[i].has_other_than_drums);
            let first = melodic && forall|j: int|
                0 <= j < i ==> (#[trigger] song.file.tracks@[j]).notes@.len() == 0 || (
                song.file.tracks@[j].has_drums && !song.file.tracks@[j].has_other_than_drums);
            &&& is.track_id == was.track_id
            &&& is.visible == was.visible
            &&& mode == PerformMode::Human && first ==> is.player == PlayerConfig::Human
            &&& mode == PerformMode::Human && !first ==> is.player == was.player
            &&& mode != PerformMode::Human && was.player == PlayerConfig::Human ==> is.player
                == PlayerConfig::Auto
            &&& mode != PerformMode::Human && was.player != PlayerConfig::Human ==> is.player
                == was.player
        }),
{
    let tracks = song.file.tracks@;
    lemma_first_melodic(tracks, 0);
    if let Some(f) = first_melodic(tracks, 0) {
        assert(tracks[f].melodic());
        if f < i {
            assert(tracks[f].notes@.len() > 0);
        } else if i < f {
            assert(!tracks[i].melodic());
        } else {
            assert forall|j: int| 0 <= j < i implies (#[trigger] tracks[j]).notes@.len() == 0 || (
            tracks[j].has_drums && !tracks[j].has_other_than_drums) by {
                assert(!tracks[j].melodic());
            }
        }
    } else {
        assert(!tracks[i].melodic());
    }
}

/// Who performs: the player as soon as a track is Human; and else HERO or AUTO, as was
/// chosen. After a switch the song is the same, at the same place; what was asked for
/// before it is forgotten, and what was counted is kept. Asking for the mode that is on
/// changes nothing.
pub proof fn law_a_switch_keeps_the_performance(
    player: MidiPlayer,
    next: MidiPlayer,
    mode: PerformMode,
)
    requires
        player.wf(),
        player.switches(next, mode),
    ensures
        ({
            let on = if has_human(player.tracks()) {
                PerformMode::Human
            } else if player.hero {
                PerformMode::Hero
            } else {
                PerformMode::Auto
            };
            let (was, is) = (player.play_along@, next.play_along@);
            &&& next.song.file == player.song.file
            &&& next.playback == player.playback
            &&& next.setup().range == player.setup().range
            &&& is.wrong_notes == was.wrong_notes && is.hits == was.hits && is.early == was.early
                && is.late == was.late
            &&& mode == on ==> next.tracks() == player.tracks() && next.hero == player.hero && is
                == was
            &&& mode != on ==> is.required == Map::<u8, u64>::empty() && is.recent == Map::<
                u8,
                u64,
            >::empty() && is.sounding == Set::<u8>::empty()
            &&& mode != on ==> (next.hero <==> mode == PerformMode::Hero)
            &&& mode != on && mode != PerformMode::Human ==> next.setup().jam
        }),
{
    if mode != mode_of(player.tracks(), player.hero) && mode != PerformMode::Human {
        let after = next.tracks();
        assert forall|i: int| 0 <= i < after.len() implies (#[trigger] after[i]).player
            != PlayerConfig::Human by {}
    }
}

/// The time that is a share of the way through is that share of the song's length, cut
/// to whole nanoseconds; a song begins after three seconds.
pub proof fn law_a_share_of_the_song(player: MidiPlayer, share: Fraction)
    requires
        0 < share.den,
    ensures
        share.num <= share.den ==> player.time_at(share) * share.den <= player.playback.length
            * share.num < (player.time_at(share) + 1) * share.den,
        share.num <= share.den ==> player.time_at(share) <= player.playback.length,
        LEAD_IN == 3_000_000_000,
{
    let (len, n, d) = (player.playback.length as int, share.num as int, share.den as int);
    let at = len * n / d;
    assert(at * d <= len * n < (at + 1) * d) by (nonlinear_arith)
        requires
            at == len * n / d,
            d > 0,
    ;
    if n <= d {
        assert(at <= len) by (nonlinear_arith)
            requires
                at * d <= len * n,
                0 <= n <= d,
                0 < d,
                0 <= len,
        ;
        assert(0 <= at) by (nonlinear_arith)
            requires
                at == len * n / d,
                0 <= len,
                0 <= n,
                0 < d,
        ;
    }
}

} // verus!
