//! The scene in which a song is played: what it keeps from frame to frame, and
//! what it decides in each.
//!
//! The clock of the song, the synthesizer and the screen are outside; the scene
//! is told what happened there and says what is to be done.
use vstd::prelude::*;
use vstd::string::*;

use crate::effects::{EffectsSystem, Firework, FrameShow};
use crate::hud::{
    combo_view, results_overlay_ui, rising_views, streak_view, ComboView, Marquee, ResultsView,
    RisingView, StreakView, TitleView, TITLE_STEP_MAX,
};
use crate::keyboard::KeyboardRange;
use crate::midi_file::MidiMessage;
use crate::midi_player::{
    channel_bits, mode_of, reassigned, MidiPlayer, PlaybackState, PlayerAction, Setup, LEAD_IN,
};
use crate::names::{song_title, title_of};
use crate::play_along::{Along, HitEvent, MidiEventSource};
use crate::playing::{
    handle_settings_input, has_struck, judge_hits, judged_in_turn, lemma_staff_notes_end,
    live_after, notes_end, notes_for_staff, setting_change, song_step, staff_notes, thundered,
    Judged, SceneAction, SceneEvent, SceneKey, SheetToast, Stage,
};
use crate::results::rung_name;
use crate::score::melody;
use crate::sheet::{sheet_music, SheetMusic};
use crate::song::{has_human, PerformMode, PlayerConfig, Song, TrackConfig};

verus! {

/// Gap kept between the sheet strip and the keyboard when the strip is dropped
/// down, in half pixels.
pub const SHEET_REPOSITION_GAP: i32 = 20;

/// How a song is to be shown and performed.
#[derive(Debug, Clone, Copy, PartialEq, Eq, Structural)]
pub struct SceneOptions {
    pub range: KeyboardRange,
    pub separate_channels: bool,
    /// The mode that the player last chose.
    pub mode: PerformMode,
    pub show_sheet: bool,
    pub sheet_at_bottom: bool,
    /// Width of the title in its font, and of the band it has.
    pub title_width: u64,
    pub band_width: u64,
}

pub struct PlayingScene {
    pub player: MidiPlayer,
    pub effects: EffectsSystem,
    /// Scrolling staff notation. `None` only when the song has nothing to engrave
    /// (a drum-only file, say).
    pub sheet: Option<SheetMusic>,
    pub show_sheet: bool,
    /// Dropped down over the keyboard instead of hugging the top bar.
    pub sheet_at_bottom: bool,
    pub title: String,
    pub marquee: Marquee,
    /// The song has ended: the results are shown until the player restarts or
    /// leaves.
    pub finished: bool,
}

/// What is to be done to the clock of the song in a frame.
#[derive(Debug)]
pub struct ClockStep {
    pub actions: Vec<PlayerAction>,
    /// The song jumped back, so the keys that it held down are to be let go.
    pub jumped: bool,
    /// The song waits for the player.
    pub stalled: bool,
}

/// What the pointer does over the sheet strip.
#[derive(Debug, Clone, Copy, PartialEq, Eq, Structural)]
pub struct SheetPointer {
    pub hovered: bool,
    pub pressed: bool,
    pub clicked: bool,
}

/// The arrow that shows where a click sends the sheet strip.
#[derive(Debug, Clone, Copy, PartialEq, Eq, Structural)]
pub enum Caret {
    Up,
    Down,
}

/// Where the sheet strip is drawn, in half pixels from the top of the window, how
/// much it is enlarged, in per cent, and the arrow on it.
#[derive(Debug)]
pub struct SheetFrame {
    pub y_offset: i32,
    pub zoom: u32,
    pub caret: Option<Caret>,
    pub actions: Vec<SceneAction>,
}

/// What became of the hits since the last frame, whether it thundered, and what
/// the frame shows.
pub struct EffectsFrame {
    pub outcomes: Vec<Judged>,
    pub thunder: bool,
    pub show: FrameShow,
}

/// What was clicked: a performer, or a button of the results screen.
#[derive(Debug, Clone, Copy, PartialEq, Eq, Structural)]
pub struct HudClicks {
    pub mode: Option<PerformMode>,
    pub play_again: bool,
    pub menu: bool,
}

/// How a frame ends.
#[derive(Debug)]
pub enum FrameEnd {
    GoesOn,
    /// The song is over: its results are shown, with the crowd voicing its
    /// verdict on the grade.
    Results { grade: &'static str, actions: Vec<PlayerAction> },
    /// The song is over and nothing was played: back to the menu.
    MainMenu,
}

/// What is written on screen.
#[derive(Debug)]
pub enum Hud {
    Results(ResultsView),
    Playing {
        title: TitleView,
        streak: Option<StreakView>,
        rising: Vec<RisingView>,
        combo: Option<ComboView>,
    },
}

impl PlayingScene {
    /// What holds at all times.
    pub open spec fn wf(self) -> bool {
        &&& self.player.wf()
        &&& self.effects.wf()
        &&& self.marquee.wf()
        &&& self.sheet is Some ==> self.sheet->0.wf() && self.sheet->0.score.notes@.len() > 0
    }

    /// Whether hits still count: until the results are up.
    pub open spec fn scoring(self) -> bool {
        !self.finished
    }

    /// Whether two scenes differ in their player and their arcade layer at most.
    pub open spec fn same_view(self, other: PlayingScene) -> bool {
        &&& self.sheet == other.sheet
        &&& self.show_sheet == other.show_sheet
        &&& self.sheet_at_bottom == other.sheet_at_bottom
        &&& self.title == other.title
        &&& self.marquee == other.marquee
        &&& self.finished == other.finished
    }

    /// The scene for a song, and what is to be done first.
    pub fn new(song: Song, options: SceneOptions) -> (made: (Self, Vec<PlayerAction>))
        requires
            song.wf(),
            TITLE_STEP_MAX <= options.band_width,
            forall|t: int|
                0 <= t < song.file.tracks@.len() ==> notes_end(
                    (#[trigger] song.file.tracks@[t]).notes@,
                ),
        ensures
            made.0.wf(),
            made.0.player.song == song,
            made.0.player.setup() == (Setup {
                range: options.range,
                separate_channels: options.separate_channels,
                hero: options.mode == PerformMode::Hero,
                jam: !has_human(song.config.tracks@),
            }),
            made.0.player.play_along@ == Along::fresh(),
            made.0.player.playback == (PlaybackState {
                time: 0,
                leed_in: LEAD_IN,
                length: 0,
                paused: false,
                finished: false,
            }),
            made.0.effects.is_new(),
            ({
                let notes = staff_notes(
                    song.file.tracks@,
                    song.config.tracks@,
                    song.file.tracks@.len() as int,
                );
                &&& made.0.sheet is Some <==> melody(notes).len() > 0
                &&& made.0.sheet is Some ==> made.0.sheet->0.score.engraves(
                    notes,
                    song.file.measures@,
                    song.file.time_signature.bar(),
                )
            }),
            made.0.show_sheet == options.show_sheet,
            made.0.sheet_at_bottom == options.sheet_at_bottom,
            made.0.title@ == title_of(song.file.name@),
            made.0.marquee == (Marquee {
                title_width: options.title_width,
                band_width: options.band_width,
                scroll: 0,
            }),
            !made.0.finished,
            made.1@ == seq![
                PlayerAction::Start { lead_in: LEAD_IN },
                PlayerAction::SendPrograms { time: 0 },
                PlayerAction::Advance { delta: 0 },
            ],
    {
        let title = song_title(song.file.name.as_str());
        let ghost tracks = song.file.tracks@;
        let ghost configs = song.config.tracks@;
        let ghost measures = song.file.measures@;
        let quarters = song.file.time_signature.quarters_per_bar();
        let (mut player, actions) = MidiPlayer::new(
            song,
            options.range,
            options.separate_channels,
        );
        player.hero = options.mode == PerformMode::Hero;
        let human = player.has_human_track();
        let notes = notes_for_staff(player.song(), human);
        proof {
            lemma_staff_notes_end(tracks, configs, tracks.len() as int);
        }
        let engraved = sheet_music(
            notes.as_slice(),
            player.song.file.measures.as_slice(),
            quarters,
        );
        let sheet = if engraved.is_empty() {
            None
        } else {
            Some(engraved)
        };
        let scene = PlayingScene {
            player,
            effects: EffectsSystem::new(),
            sheet,
            show_sheet: options.show_sheet,
            sheet_at_bottom: options.sheet_at_bottom,
            title,
            marquee: Marquee::new(options.title_width, options.band_width),
            finished: false,
        };
        (scene, actions)
    }

    /// Whether the song waits for the player. Only a Human track stalls it; the
    /// jam modes must keep rolling, or they would deadlock on the first note
    /// nobody played.
    pub open spec fn waits(self) -> bool {
        waits_for(self.player.tracks(), self.player.play_along@)
    }

    /// Whether the song has passed the end of the loop that is played.
    pub open spec fn past_loop(self, looper: Option<(u64, u64)>) -> bool {
        looper matches Some(ends) && self.player.playback.time > ends.1
    }

    /// Moves the song on by a frame, at a speed in tenths: back to the start of
    /// the loop when it has passed its end, and further unless it waits for the
    /// player. While it waits, wrong presses are still judged.
    pub fn update_midi_player(
        &mut self,
        looper: Option<(u64, u64)>,
        delta: u64,
        tenths: u32,
        now: u64,
    ) -> (step: ClockStep)
        requires
            old(self).wf(),
            (delta / 10) * tenths <= u64::MAX,
        ensures
            step.jumped == old(self).past_loop(looper),
            step.stalled == old(self).waits(),
            step.actions@ == (if step.jumped {
                let start = (looper->0).0;
                seq![
                    PlayerAction::Seek { time: start },
                    PlayerAction::Discard,
                    PlayerAction::StopAll,
                    PlayerAction::SendPrograms { time: start },
                ]
            } else {
                Seq::empty()
            }) + (if step.stalled {
                Seq::empty()
            } else {
                seq![PlayerAction::Advance { delta: ((delta / 10) * tenths) as u64 }]
            }),
            final(self).same_view(*old(self)),
            final(self).effects == old(self).effects,
            final(self).player.song == old(self).player.song,
            final(self).player.setup() == old(self).player.setup(),
            final(self).player.playback == old(self).player.playback,
            final(self).player.play_along@.wf(),
            final(self).player.play_along@.wrong_notes <= old(self).player.play_along@.wrong_notes
                + 256,
            final(self).player.play_along@ == (if step.stalled {
                old(self).player.play_along@.after_update(now, false)
            } else {
                old(self).player.play_along@
            }),
    {
        let mut actions: Vec<PlayerAction> = Vec::new();
        let mut jumped = false;
        if let Some((start, end)) = looper {
            if self.player.time() > end {
                actions = self.player.set_time(start);
                jumped = true;
            }
        }
        let stalled = self.player.has_human_track()
            && !self.player.play_along().are_required_keys_pressed();
        if stalled {
            self.player.tick_play_along(now);
        } else {
            actions.push(PlayerAction::Advance { delta: song_step(delta, tenths) });
        }
        ClockStep { actions, jumped, stalled }
    }

    /// The time that the falling notes are drawn at; the offset is in hundredths
    /// of a second.
    pub fn waterfall_time(&self, offset: i32) -> (time: i128)
        ensures
            time == self.player.playback.time - self.player.playback.leed_in + 10_000_000 * offset,
    {
        self.player.time_without_lead_in() + 10_000_000 * offset as i128
    }

    /// Half pixels from the top of the window to the sheet strip. Dropped down it
    /// sits just above the keyboard; otherwise it rides down with the top bar.
    pub open spec fn sheet_y(self, keyboard_y: int, bar_offset: int) -> int {
        let free = keyboard_y - SHEET_REPOSITION_GAP - self.sheet->0.height;
        if !self.sheet_at_bottom {
            bar_offset
        } else if free > 0 {
            free
        } else {
            0
        }
    }

    /// Whether the sheet strip is on screen.
    pub open spec fn sheet_shows(self) -> bool {
        self.show_sheet && self.sheet is Some
    }

    /// Places the sheet strip for a frame. A click anywhere on it sends it to the
    /// other end of the screen; nothing marks it as clickable until the pointer
    /// finds it, then an arrow says which way a click sends it.
    pub fn update_sheet(
        &mut self,
        keyboard_y: i32,
        bar_offset: i32,
        pointer: SheetPointer,
    ) -> (frame: Option<SheetFrame>)
        requires
            old(self).wf(),
            -1_000_000_000 <= keyboard_y <= 1_000_000_000,
        ensures
            final(self).wf(),
            final(self).player == old(self).player,
            final(self).effects == old(self).effects,
            final(self).sheet == old(self).sheet,
            final(self).show_sheet == old(self).show_sheet,
            final(self).title == old(self).title,
            final(self).marquee == old(self).marquee,
            final(self).finished == old(self).finished,
            final(self).sheet_at_bottom == (old(self).sheet_at_bottom != (old(self).sheet_shows()
                && pointer.clicked)),
            frame is Some <==> old(self).sheet_shows(),
            frame matches Some(frame) ==> {
                let bottom = final(self).sheet_at_bottom;
                &&& frame.y_offset == old(self).sheet_y(keyboard_y as int, bar_offset as int)
                &&& frame.zoom == (if old(self).sheet_at_bottom {
                    135u32
                } else {
                    100u32
                })
                &&& frame.caret == (if !pointer.hovered && !pointer.pressed {
                    None
                } else if bottom {
                    Some(Caret::Up)
                } else {
                    Some(Caret::Down)
                })
                &&& frame.actions@ == (if pointer.clicked {
                    seq![
                        SceneAction::SetSheetMusicBottom(bottom),
                        SceneAction::Toast(
                            if bottom {
                                SheetToast::MovedToBottom
                            } else {
                                SheetToast::MovedToTop
                            },
                        ),
                    ]
                } else {
                    Seq::empty()
                })
            },
    {
        if !self.show_sheet {
            return None;
        }
        let height: i32 = match &self.sheet {
            Some(sheet) => sheet.height(),
            None => {
                return None;
            },
        };
        let mut y_offset: i32 = bar_offset;
        let mut zoom: u32 = 100;
        if self.sheet_at_bottom {
            let free: i32 = keyboard_y - SHEET_REPOSITION_GAP - height;
            y_offset = if free > 0 {
                free
            } else {
                0
            };
            zoom = 135;
        }
        let mut actions: Vec<SceneAction> = Vec::new();
        if pointer.clicked {
            self.sheet_at_bottom = !self.sheet_at_bottom;
            actions.push(SceneAction::SetSheetMusicBottom(self.sheet_at_bottom));
            actions.push(
                SceneAction::Toast(
                    if self.sheet_at_bottom {
                        SheetToast::MovedToBottom
                    } else {
                        SheetToast::MovedToTop
                    },
                ),
            );
        }
        let caret = if !pointer.hovered && !pointer.pressed {
            None
        } else if self.sheet_at_bottom {
            Some(Caret::Up)
        } else {
            Some(Caret::Down)
        };
        Some(SheetFrame { y_offset, zoom, caret, actions })
    }

    /// Judges the hits since the last frame and moves the arcade layer on by `dt`
    /// nanoseconds; no hit counts any more once the results are up. `live` is the
    /// number of particles in flight.
    pub fn update_effects(&mut self, stage: &Stage<'_>, dt: u64, live: usize) -> (frame:
        EffectsFrame)
        requires
            old(self).wf(),
            old(self).effects.tally.judged() + old(self).player.play_along@.hits.len() <= u32::MAX,
        ensures
            final(self).wf(),
            final(self).same_view(*old(self)),
            final(self).player.play_along@ == (Along {
                hits: Seq::empty(),
                ..old(self).player.play_along@
            }),
            final(self).player.setup() == old(self).player.setup(),
            final(self).player.song == old(self).player.song,
            final(self).player.playback == old(self).player.playback,
            exists|states: Seq<EffectsSystem>|
                states.first() == old(self).effects && #[trigger] judged_in_turn(
                    states,
                    old(self).player.play_along@.hits,
                    *stage,
                    old(self).scoring(),
                    live as int,
                    frame.outcomes@,
                ) && states.last().advances(
                    final(self).effects,
                    dt,
                    live_after(live as int, frame.outcomes@),
                    frame.show,
                ),
            frame.thunder == thundered(frame.outcomes@),
    {
        let events = self.player.take_hit_events();
        let scoring = !self.finished;
        assert(scoring == old(self).scoring());
        let (outcomes, flying) = judge_hits(&mut self.effects, &events, stage, scoring, live);
        let ghost between = self.effects;
        let ghost states = choose|states: Seq<EffectsSystem>|
            states.first() == old(self).effects && states.last() == between
                && #[trigger] judged_in_turn(
                states,
                events@,
                *stage,
                scoring,
                live as int,
                outcomes@,
            );
        let show = self.effects.update(dt, flying);
        let thunder = has_struck(&outcomes);
        let frame = EffectsFrame { outcomes, thunder, show };
        assert(judged_in_turn(
            states,
            old(self).player.play_along@.hits,
            *stage,
            old(self).scoring(),
            live as int,
            frame.outcomes@,
        ));
        frame
    }

    /// Fireworks over the results of a fine performance.
    pub fn celebrate(&mut self, dt: u64, live: usize) -> (firework: Option<Firework>)
        requires
            old(self).wf(),
        ensures
            final(self).wf(),
            final(self).same_view(*old(self)),
            final(self).player == old(self).player,
            if old(self).finished && old(self).effects.tally.as_results().rung() <= 3 {
                old(self).effects.celebrated(final(self).effects, dt, live as int, firework)
            } else {
                firework is None && final(self).effects == old(self).effects
            },
    {
        if self.finished && self.effects.results().celebratory() {
            self.effects.celebrate(dt, live)
        } else {
            None
        }
    }

    /// What is written on screen in this frame, and what the clicks ask for. A
    /// click on a performer switches to them; the buttons of the results screen
    /// play the song again or go back to the menu.
    pub fn update_hud(&mut self, clicks: HudClicks, band_on_screen: bool, dt: u64) -> (hud: (
        Hud,
        Vec<SceneAction>,
    ))
        requires
            old(self).wf(),
        ensures
            final(self).wf(),
            final(self).effects == old(self).effects,
            final(self).sheet == old(self).sheet,
            final(self).show_sheet == old(self).show_sheet,
            final(self).sheet_at_bottom == old(self).sheet_at_bottom,
            final(self).title == old(self).title,
            final(self).finished == old(self).finished,
            old(self).finished ==> final(self).player == old(self).player && final(self).marquee
                == old(self).marquee && ({
                let results = old(self).effects.tally.as_results();
                &&& hud.0 matches Hud::Results(view)
                &&& view.of(results)
                &&& hud.1@ == asked(clicks.play_again, SceneAction::Play) + asked(
                    clicks.menu,
                    SceneAction::MainMenu,
                )
            }),
            !old(self).finished ==> ({
                let fx = old(self).effects;
                let marquee = old(self).marquee;
                &&& hud.0 matches Hud::Playing { title, streak, rising, combo }
                &&& (if clicks.mode is Some {
                    Marquee { scroll: 0, ..marquee }
                } else {
                    marquee
                }).shows(
                    final(self).marquee,
                    old(self).title@.len() > 0,
                    band_on_screen,
                    dt,
                    title,
                )
                &&& streak is Some <==> fx.tally.hits() + fx.tally.total_wrong > 0
                &&& streak is Some ==> streak->0.of(fx)
                &&& rising@.len() == fx.rising@.len()
                &&& forall|n: int|
                    0 <= n < rising@.len() ==> (#[trigger] rising@[n]).of(fx.rising@[n])
                &&& combo is Some <==> fx.tally.combo >= 2
                &&& combo is Some ==> combo->0.of(fx)
            }),
            !old(self).finished ==> (match clicks.mode {
                Some(mode) => {
                    &&& old(self).player.switches(final(self).player, mode)
                    &&& hud.1@ == asked(
                        mode != mode_of(old(self).player.tracks(), old(self).player.hero),
                        SceneAction::Player(PlayerAction::StopAll),
                    ).push(SceneAction::SetPerformMode(mode))
                },
                None => final(self).player == old(self).player && hud.1@.len() == 0,
            }),
    {
        let mut actions: Vec<SceneAction> = Vec::new();
        if self.finished {
            if clicks.play_again {
                actions.push(SceneAction::Play);
            }
            if clicks.menu {
                actions.push(SceneAction::MainMenu);
            }
            assert(actions@ =~= asked(clicks.play_again, SceneAction::Play) + asked(
                clicks.menu,
                SceneAction::MainMenu,
            ));
            let results = self.effects.results();
            return (Hud::Results(results_overlay_ui(&results)), actions);
        }
        if let Some(mode) = clicks.mode {
            let todo = self.select_mode(mode);
            if todo.len() > 0 {
                actions.push(SceneAction::Player(todo[0]));
            }
            actions.push(SceneAction::SetPerformMode(mode));
            assert(actions@ =~= asked(
                mode != mode_of(old(self).player.tracks(), old(self).player.hero),
                SceneAction::Player(PlayerAction::StopAll),
            ).push(SceneAction::SetPerformMode(mode)));
        }
        let has_text = self.title.as_str().unicode_len() > 0;
        let title = self.marquee.show(has_text, band_on_screen, dt);
        let hud = Hud::Playing {
            title,
            streak: streak_view(&self.effects),
            rising: rising_views(self.effects.rising_texts()),
            combo: combo_view(&self.effects),
        };
        (hud, actions)
    }

    /// Switches who performs. Ringing notes stop, pending targets are dropped,
    /// and the title snaps back to its start: a switch you can see even when the
    /// music does not change much.
    pub fn select_mode(&mut self, mode: PerformMode) -> (actions: Vec<PlayerAction>)
        requires
            old(self).wf(),
        ensures
            final(self).wf(),
            final(self).effects == old(self).effects,
            final(self).sheet == old(self).sheet,
            final(self).show_sheet == old(self).show_sheet,
            final(self).sheet_at_bottom == old(self).sheet_at_bottom,
            final(self).title == old(self).title,
            final(self).finished == old(self).finished,
            final(self).marquee == (Marquee { scroll: 0, ..old(self).marquee }),
            old(self).player.switches(final(self).player, mode),
            actions@ == (if mode == mode_of(old(self).player.tracks(), old(self).player.hero) {
                Seq::empty()
            } else {
                seq![PlayerAction::StopAll]
            }),
    {
        self.marquee.reset();
        self.player.set_mode(mode)
    }

    /// Ends a frame. When the song is over, anything scored freezes here and gets
    /// the results screen; a song that nobody played along to goes back to the
    /// menu.
    pub fn end_frame(&mut self) -> (end: FrameEnd)
        ensures
            final(self).player == old(self).player,
            final(self).effects == old(self).effects,
            final(self).sheet == old(self).sheet,
            final(self).show_sheet == old(self).show_sheet,
            final(self).sheet_at_bottom == old(self).sheet_at_bottom,
            final(self).title == old(self).title,
            final(self).marquee == old(self).marquee,
            ({
                let tally = old(self).effects.tally;
                let over = old(self).player.playback.finished && !old(self).player.playback.paused
                    && !old(self).finished;
                if !over {
                    end is GoesOn && final(self).finished == old(self).finished
                } else if tally.hits() + tally.total_wrong > 0 {
                    &&& final(self).finished
                    &&& end matches FrameEnd::Results { grade, actions }
                    &&& grade@ == rung_name(tally.as_results().rung())
                    &&& actions@ == seq![PlayerAction::StopAll, PlayerAction::Pause]
                } else {
                    end is MainMenu && !final(self).finished
                }
            }),
    {
        if !self.player.is_finished() || self.player.is_paused() || self.finished {
            return FrameEnd::GoesOn;
        }
        if self.effects.has_activity() {
            self.finished = true;
            let actions = self.player.pause();
            let (grade, _color) = self.effects.results().grade();
            FrameEnd::Results { grade, actions }
        } else {
            FrameEnd::MainMenu
        }
    }

    /// What an event of the window asks for.
    pub open spec fn reaction(self, event: SceneEvent, shift: bool) -> Seq<SceneAction> {
        match event {
            SceneEvent::BackPressed => seq![SceneAction::MainMenu],
            SceneEvent::KeyReleased(key) => match key {
                SceneKey::Escape => seq![SceneAction::MainMenu],
                SceneKey::Enter => if self.finished {
                    seq![SceneAction::Play]
                } else {
                    Seq::empty()
                },
                SceneKey::Backspace => if self.finished {
                    seq![SceneAction::MainMenu]
                } else {
                    Seq::empty()
                },
                SceneKey::Space => if self.finished {
                    Seq::empty()
                } else if self.player.playback.paused {
                    seq![SceneAction::Player(PlayerAction::Resume)]
                } else {
                    seq![
                        SceneAction::Player(PlayerAction::StopAll),
                        SceneAction::Player(PlayerAction::Pause),
                    ]
                },
                _ => if toggles_sheet(key) {
                    seq![
                        SceneAction::SetSheetMusic(!self.show_sheet),
                        SceneAction::Toast(
                            if self.show_sheet {
                                SheetToast::Off
                            } else {
                                SheetToast::On
                            },
                        ),
                    ]
                } else {
                    match setting_change(key, shift) {
                        Some(change) => seq![SceneAction::Change(change)],
                        None => Seq::empty(),
                    }
                },
            },
        }
    }

    /// Handles an event of the window.
    pub fn window_event(&mut self, event: SceneEvent, shift: bool) -> (actions: Vec<SceneAction>)
        requires
            old(self).wf(),
        ensures
            final(self).wf(),
            actions@ == old(self).reaction(event, shift),
            final(self).effects == old(self).effects,
            final(self).sheet == old(self).sheet,
            final(self).sheet_at_bottom == old(self).sheet_at_bottom,
            final(self).title == old(self).title,
            final(self).marquee == old(self).marquee,
            final(self).finished == old(self).finished,
            final(self).show_sheet == (match event {
                SceneEvent::KeyReleased(key) => old(self).show_sheet != toggles_sheet(key),
                SceneEvent::BackPressed => old(self).show_sheet,
            }),
            final(self).player.playback == old(self).player.playback,
            final(self).player.song == old(self).player.song,
            final(self).player.setup() == old(self).player.setup(),
            final(self).player.play_along@ == (if event == SceneEvent::KeyReleased(SceneKey::Space)
                && !old(self).finished && old(self).player.playback.paused {
                old(self).player.play_along@.cleared()
            } else {
                old(self).player.play_along@
            }),
    {
        let mut actions: Vec<SceneAction> = Vec::new();
        match event {
            SceneEvent::BackPressed => {
                actions.push(SceneAction::MainMenu);
            },
            SceneEvent::KeyReleased(key) => match key {
                SceneKey::Escape => {
                    actions.push(SceneAction::MainMenu);
                },
                SceneKey::Enter => {
                    if self.finished {
                        actions.push(SceneAction::Play);
                    }
                },
                SceneKey::Backspace => {
                    if self.finished {
                        actions.push(SceneAction::MainMenu);
                    }
                },
                SceneKey::Space => {
                    if !self.finished {
                        let todo = self.player.pause_resume();
                        let mut n: usize = 0;
                        while n < todo.len()
                            invariant
                                n <= todo@.len(),
                                actions@.len() == n,
                                forall|k: int|
                                    0 <= k < n ==> #[trigger] actions@[k] == SceneAction::Player(
                                        todo@[k],
                                    ),
                            decreases todo@.len() - n,
                        {
                            actions.push(SceneAction::Player(todo[n]));
                            n = n + 1;
                        }
                    }
                },
                _ => {
                    if is_sheet_key(key) {
                        self.show_sheet = !self.show_sheet;
                        actions.push(SceneAction::SetSheetMusic(self.show_sheet));
                        actions.push(
                            SceneAction::Toast(
                                if self.show_sheet {
                                    SheetToast::On
                                } else {
                                    SheetToast::Off
                                },
                            ),
                        );
                    } else if let Some(change) = handle_settings_input(key, shift) {
                        actions.push(SceneAction::Change(change));
                    }
                },
            },
        }
        assert(actions@ =~= old(self).reaction(event, shift));
        actions
    }

    /// A message from the player's keyboard sounds and is judged.
    pub fn midi_event(&mut self, channel: u8, message: &MidiMessage, now: u64) -> (action:
        PlayerAction)
        requires
            old(self).wf(),
        ensures
            final(self).same_view(*old(self)),
            final(self).effects == old(self).effects,
            action == (PlayerAction::Output {
                channel: channel_bits(channel as int),
                message: *message,
            }),
            final(self).player.play_along@ == old(self).player.play_along@.after_message(
                old(self).player.play_along.range(),
                MidiEventSource::User,
                *message,
                now,
            ),
            final(self).player.play_along@.wf(),
            final(self).player.play_along@.wrong_notes <= old(self).player.play_along@.wrong_notes
                + 1,
            final(self).player.setup() == old(self).player.setup(),
            final(self).player.song == old(self).player.song,
            final(self).player.playback == old(self).player.playback,
    {
        self.player.user_midi_event(channel, message, now)
    }
}

/// What is asked for, if it is.
pub open spec fn asked(clicked: bool, action: SceneAction) -> Seq<SceneAction> {
    if clicked {
        seq![action]
    } else {
        Seq::empty()
    }
}

/// Whether a song waits for the player: it has a Human track, and something that
/// it asked for has not been played.
pub open spec fn waits_for(tracks: Seq<TrackConfig>, along: Along) -> bool {
    has_human(tracks) && along.required != Map::<u8, u64>::empty()
}

/// Whether a key shows and hides the sheet music.
pub open spec fn toggles_sheet(key: SceneKey) -> bool {
    key == SceneKey::Character('m') || key == SceneKey::Character('M')
}

fn is_sheet_key(key: SceneKey) -> (toggles: bool)
    ensures
        toggles == toggles_sheet(key),
{
    match key {
        SceneKey::Character(c) => c == 'm' || c == 'M',
        _ => false,
    }
}

/// Whatever the player does, a song without a Human track never stalls.
pub proof fn law_jam_never_stalls(scene: PlayingScene)
    requires
        !has_human(scene.player.tracks()),
    ensures
        !scene.waits(),
{
}

/// With a Human track the song waits at every note on the keyboard that was not
/// just played.
pub proof fn law_human_waits_at_every_note(
    tracks: Seq<TrackConfig>,
    along: Along,
    range: KeyboardRange,
    key: u8,
    vel: u8,
    now: u64,
)
    requires
        has_human(tracks),
        range.has(key),
        !along.recent.contains_key(key),
        !along.sounding.contains(key),
    ensures
        waits_for(
            tracks,
            along.after_message(
                range,
                MidiEventSource::File,
                MidiMessage::NoteOn { key, vel },
                now,
            ),
        ),
{
    let after = along.after_message(
        range,
        MidiEventSource::File,
        MidiMessage::NoteOn { key, vel },
        now,
    );
    assert(after.required.contains_key(key));
}

/// Playing the last note that a song waits for sets it going again.
pub proof fn law_last_answer_releases_the_song(
    tracks: Seq<TrackConfig>,
    along: Along,
    range: KeyboardRange,
    key: u8,
    vel: u8,
    now: u64,
)
    requires
        range.has(key),
        along.required.dom() == set![key],
    ensures
        !waits_for(
            tracks,
            along.after_message(
                range,
                MidiEventSource::User,
                MidiMessage::NoteOn { key, vel },
                now,
            ),
        ),
{
    assert(along.required.contains_key(key));
    assert(along.required.remove(key) =~= Map::<u8, u64>::empty());
}

/// Switching away from HUMAN sets a stalled song going again on the spot.
pub proof fn law_leaving_human_releases_the_song(
    was: MidiPlayer,
    next: PlayingScene,
    mode: PerformMode,
)
    requires
        mode != PerformMode::Human,
        next.player.tracks() == reassigned(was.song, mode),
    ensures
        !next.waits(),
{
    let tracks = next.player.tracks();
    assert forall|i: int| 0 <= i < tracks.len() implies (#[trigger] tracks[i]).player
        != PlayerConfig::Human by {}
}

/// Once the results are up the tallies are frozen: nothing that is hit counts.
pub proof fn law_results_are_frozen(
    states: Seq<EffectsSystem>,
    events: Seq<HitEvent>,
    stage: Stage<'_>,
    live: int,
    outcomes: Seq<Judged>,
    k: int,
)
    requires
        judged_in_turn(states, events, stage, false, live, outcomes),
        0 <= k <= events.len(),
    ensures
        states[k] == states[0],
    decreases k,
{
    if k > 0 {
        law_results_are_frozen(states, events, stage, live, outcomes, k - 1);
        let event = events[k - 1];
        assert(states[k - 1 + 1] == states[k]);
    }
}

/// A HUMAN song waits exactly while some note that it asked for has not been played.
pub proof fn law_a_song_waits_while_a_note_is_owed(tracks: Seq<TrackConfig>, along: Along, note: u8)
    requires
        has_human(tracks),
    ensures
        along.required.contains_key(note) ==> waits_for(tracks, along),
        waits_for(tracks, along) ==> exists|owed: u8| #[trigger] along.required.contains_key(owed),
{
    if waits_for(tracks, along) && forall|owed: u8| !(#[trigger] along.required.contains_key(owed)) {
        assert(along.required =~= Map::<u8, u64>::empty());
    }
}

/// What the keys do: Escape and the back button leave for the menu; on the results
/// screen Enter plays again and Backspace leaves; Space pauses, silencing what rings,
/// and resumes, but not once the results are up; M shows and hides the sheet music; any
/// other key changes a setting or nothing.
pub proof fn law_what_the_keys_do(scene: PlayingScene, shift: bool)
    ensures
        ({
            let of = |key: SceneKey| scene.reaction(SceneEvent::KeyReleased(key), shift);
            &&& scene.reaction(SceneEvent::BackPressed, shift) == seq![SceneAction::MainMenu]
            &&& of(SceneKey::Escape) == seq![SceneAction::MainMenu]
            &&& scene.finished ==> of(SceneKey::Enter) == seq![SceneAction::Play] && of(
                SceneKey::Backspace,
            ) == seq![SceneAction::MainMenu] && of(SceneKey::Space).len() == 0
            &&& !scene.finished ==> of(SceneKey::Enter).len() == 0 && of(SceneKey::Backspace).len()
                == 0
            &&& !scene.finished && scene.player.playback.paused ==> of(SceneKey::Space) == seq![
                SceneAction::Player(PlayerAction::Resume),
            ]
            &&& !scene.finished && !scene.player.playback.paused ==> of(SceneKey::Space) == seq![
                SceneAction::Player(PlayerAction::StopAll),
                SceneAction::Player(PlayerAction::Pause),
            ]
            &&& of(SceneKey::Character('m')) == seq![
                SceneAction::SetSheetMusic(!scene.show_sheet),
                SceneAction::Toast(
                    if scene.show_sheet {
                        SheetToast::Off
                    } else {
                        SheetToast::On
                    },
                ),
            ]
            &&& of(SceneKey::Character('M')) == of(SceneKey::Character('m'))
        }),
        forall|c: char|
            #[trigger] toggles_sheet(SceneKey::Character(c)) <==> c == 'm' || c == 'M',
        forall|c: char|
            c != 'm' && c != 'M' ==> (#[trigger] scene.reaction(
                SceneEvent::KeyReleased(SceneKey::Character(c)),
                shift,
            )).len() <= 1,
{
}

/// Where the sheet strip is: at the top it rides with the bar; at the bottom it ends ten
/// pixels above the keyboard, unless that would put it above the window.
pub proof fn law_where_the_sheet_strip_is(scene: PlayingScene, keyboard_y: int, bar_offset: int)
    requires
        scene.sheet is Some,
    ensures
        ({
            let y = scene.sheet_y(keyboard_y, bar_offset);
            let height = scene.sheet->0.height;
            &&& !scene.sheet_at_bottom ==> y == bar_offset
            &&& scene.sheet_at_bottom ==> y >= 0 && y + height + 20 >= keyboard_y
            &&& scene.sheet_at_bottom && keyboard_y >= height + 20 ==> y + height + 20 == keyboard_y
            &&& scene.sheet_at_bottom && keyboard_y < height + 20 ==> y == 0
        }),
        scene.sheet_shows() <==> scene.show_sheet,
{
}

/// The song jumps back as soon as it has passed the end of the loop, and only then.
pub proof fn law_a_loop_ends_at_its_end(scene: PlayingScene, start: u64, end: u64)
    ensures
        scene.past_loop(Some((start, end))) <==> scene.player.playback.time > end,
        !scene.past_loop(None),
        scene.scoring() <==> !scene.finished,
{
}

/// What is asked for is asked for once, and only when it was clicked.
pub proof fn law_a_click_asks_once(clicked: bool, action: SceneAction)
    ensures
        asked(clicked, action).len() == (if clicked {
            1nat
        } else {
            0nat
        }),
        clicked ==> asked(clicked, action)[0] == action,
{
}

/// Playing on leaves what is on screen around the notes as it was: the sheet and where it
/// stands, the title and how far it has crawled, and whether the results are up.
pub proof fn law_playing_leaves_the_view(before: PlayingScene, after: PlayingScene)
    requires
        after.same_view(before),
    ensures
        after.sheet == before.sheet,
        after.show_sheet == before.show_sheet,
        after.sheet_at_bottom == before.sheet_at_bottom,
        after.title@ == before.title@,
        after.marquee == before.marquee,
        after.finished == before.finished,
        after.scoring() == before.scoring(),
        before.scoring() <==> !before.finished,
{
}

} // verus!
