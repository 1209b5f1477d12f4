use keyboard_hero::effects::EffectsSystem;
use keyboard_hero::hud::{
    combo_view, percent, results_overlay_ui, rising_view, streak_view, Marquee, TitleView,
};
use keyboard_hero::keyboard::{
    letter_color, plan_labels, plan_quads, rainbow_color, rainbow_letter, sharp_name, KeyInfo,
    KeyboardQuad, KeyboardRange, KeyboardRenderer,
};
use keyboard_hero::midi_file::{MidiEvent, MidiFile, MidiMessage, MidiNote, MidiTrack, TimeSignature};
use keyboard_hero::midi_player::{PlaybackState, PlayerAction};
use keyboard_hero::playing::{
    find_struck, glow_keys, handle_settings_input, held_notes, song_step, surge_bars, Judged,
    KeyPlace, SceneAction, SceneEvent, SceneKey, SettingChange, SheetToast, Stage,
};
use keyboard_hero::results::{Fraction, Results};
use keyboard_hero::scene::{
    Caret, FrameEnd, Hud, HudClicks, PlayingScene, SceneOptions, SheetPointer,
};
use keyboard_hero::song::{PerformMode, Song};

const MS: u64 = 1_000_000;
const PX: u64 = 1_000_000_000;

fn note(midi: u8, start_ms: u64, dur_ms: u64, track_id: usize) -> MidiNote {
    MidiNote {
        start: start_ms * MS,
        end: (start_ms + dur_ms) * MS,
        duration: dur_ms * MS,
        note: midi,
        velocity: 100,
        channel: 0,
        track_id,
        track_color_id: track_id,
    }
}

fn track(id: usize, notes: Vec<MidiNote>, drums: bool) -> MidiTrack {
    MidiTrack {
        notes,
        events: vec![],
        track_id: id,
        track_color_id: id,
        programs: vec![],
        has_drums: drums,
        has_other_than_drums: !drums,
    }
}

fn song(mode: PerformMode) -> Song {
    let file = MidiFile {
        name: "Ode_to_Joy.mid".to_string(),
        tracks: vec![
            track(0, vec![note(64, 0, 450, 0)], false),
            track(1, vec![note(48, 0, 450, 1), note(50, 500, 450, 1)], false),
        ],
        measures: vec![0, 2_000 * MS, 4_000 * MS],
        time_signature: TimeSignature::default(),
    };
    Song::new(file, mode)
}

fn options(mode: PerformMode) -> SceneOptions {
    SceneOptions {
        range: KeyboardRange::standard_88_keys(),
        separate_channels: false,
        mode,
        show_sheet: true,
        sheet_at_bottom: false,
        title_width: 400 * PX,
        band_width: 300 * PX,
    }
}

fn scene(mode: PerformMode) -> PlayingScene {
    PlayingScene::new(song(mode), options(mode)).0
}

fn playback(finished: bool, paused: bool) -> PlaybackState {
    PlaybackState {
        time: 9_000 * MS,
        leed_in: 3_000 * MS,
        length: 8_000 * MS,
        paused,
        finished,
    }
}

fn keys() -> Vec<KeyPlace> {
    (0..88)
        .map(|k| KeyPlace {
            center: k,
            bar_x: k,
            bar_w: 1,
        })
        .collect()
}

#[test]
fn the_staff_shows_the_part_of_the_player() {
    let human = scene(PerformMode::Human);
    assert_eq!(human.sheet.as_ref().unwrap().score.notes.len(), 1);
    let hero = scene(PerformMode::Hero);
    assert_eq!(hero.sheet.as_ref().unwrap().score.notes.len(), 3);
    assert_eq!(hero.title, "Ode to Joy");
    assert_eq!(hero.player.mode(), PerformMode::Hero);
    assert_eq!(human.player.mode(), PerformMode::Human);
}

#[test]
fn a_song_of_drums_has_no_staff() {
    let mut hit = note(38, 0, 100, 0);
    hit.channel = 9;
    let file = MidiFile {
        name: "drums.mid".to_string(),
        tracks: vec![track(0, vec![hit], true)],
        measures: vec![0],
        time_signature: TimeSignature::default(),
    };
    let song = Song::new(file, PerformMode::Auto);
    let (scene, _) = PlayingScene::new(song, options(PerformMode::Auto));
    assert!(scene.sheet.is_none());
}

#[test]
fn only_a_human_track_stalls_the_song() {
    let event = MidiEvent {
        channel: 0,
        track_id: 0,
        track_color_id: 0,
        message: MidiMessage::NoteOn { key: 64, vel: 90 },
    };
    let mut human = scene(PerformMode::Human);
    let step = human.update_midi_player(None, 16 * MS, 10, 0);
    assert!(!step.stalled && !step.jumped);
    assert_eq!(
        step.actions,
        vec![PlayerAction::Advance { delta: 16 * MS }]
    );
    human.player.update(&[event], 0);
    let step = human.update_midi_player(None, 16 * MS, 10, 0);
    assert!(step.stalled && step.actions.is_empty());
    human.select_mode(PerformMode::Hero);
    let step = human.update_midi_player(None, 16 * MS, 5, 0);
    assert_eq!(step.actions, vec![PlayerAction::Advance { delta: 8 * MS }]);

    let mut hero = scene(PerformMode::Hero);
    hero.player.update(&[event], 0);
    assert!(!hero.update_midi_player(None, 16 * MS, 10, 0).stalled);
}

#[test]
fn a_stalled_song_still_judges_wrong_keys() {
    let on = |key| MidiMessage::NoteOn { key, vel: 90 };
    let event = MidiEvent {
        channel: 0,
        track_id: 0,
        track_color_id: 0,
        message: on(64),
    };
    let mut human = scene(PerformMode::Human);
    human.player.update(&[event], 0);
    human.midi_event(0, &on(30), 0);
    assert!(human.update_midi_player(None, 16 * MS, 10, 600 * MS).stalled);
    assert_eq!(human.player.take_hit_events().len(), 1);
}

#[test]
fn the_waterfall_runs_after_the_lead_in() {
    let mut scene = scene(PerformMode::Auto);
    scene.player.observe(playback(false, false));
    assert_eq!(scene.waterfall_time(0), 6_000 * MS as i128);
    assert_eq!(scene.waterfall_time(-5), 5_950 * MS as i128);
}

#[test]
fn the_song_goes_on_in_tenths() {
    assert_eq!(song_step(16_666_667, 10), 16_666_660);
    assert_eq!(song_step(16_666_667, 15), 24_999_990);
}

#[test]
fn the_looper_jumps_back() {
    let mut scene = scene(PerformMode::Auto);
    scene.player.observe(playback(false, false));
    assert!(!scene.update_midi_player(None, 0, 10, 0).jumped);
    assert!(
        !scene
            .update_midi_player(Some((0, 9_000 * MS)), 0, 10, 0)
            .jumped
    );
    let step = scene.update_midi_player(Some((1_000 * MS, 8_999 * MS)), 20, 10, 0);
    assert!(step.jumped);
    assert_eq!(
        step.actions,
        vec![
            PlayerAction::Seek { time: 1_000 * MS },
            PlayerAction::Discard,
            PlayerAction::StopAll,
            PlayerAction::SendPrograms { time: 1_000 * MS },
            PlayerAction::Advance { delta: 20 },
        ]
    );
}

#[test]
fn hits_are_judged_on_their_keys() {
    let mut scene = scene(PerformMode::Auto);
    let keys = keys();
    let notes = [note(64, 0, 450, 0), note(64, 400, 450, 0)];
    let stage = Stage {
        keys: &keys,
        range_start: 21,
        hit_line_y: 7,
        notes: &notes,
        time: 350_000_000,
    };
    let on = |key| MidiMessage::NoteOn { key, vel: 90 };
    let event = MidiEvent {
        channel: 0,
        track_id: 0,
        track_color_id: 0,
        message: on(64),
    };
    scene.player.update(&[event], 0);
    assert_eq!(
        scene.midi_event(17, &on(64), 50 * MS),
        PlayerAction::Output {
            channel: 1,
            message: on(64)
        }
    );
    scene.midi_event(0, &on(30), 60 * MS);
    scene.player.update(&[], 600 * MS);
    let frame = scene.update_effects(&stage, 0, 0);
    let outcomes = frame.outcomes;
    assert!(!frame.thunder);
    assert_eq!(outcomes.len(), 2);
    match &outcomes[0] {
        Judged::Good { key, show, struck } => {
            assert_eq!(*key, 43);
            assert_eq!(*struck, Some(1), "the bar that begins closest");
            assert_eq!(show.burst.beam, 1);
        }
        _ => panic!("the first was right"),
    }
    assert!(matches!(&outcomes[1], Judged::Wrong { key: 9, puff } if puff.count == 14));
    let results = scene.effects.results();
    assert_eq!((results.perfect, results.wrong), (1, 1));
    assert_eq!(scene.effects.note_flashes[0].start, 400 * MS);
    let frame = scene.update_effects(&stage, 100 * MS, 0);
    assert!(frame.outcomes.is_empty());
    assert_eq!(scene.effects.rising_texts()[0].age, 100 * MS);
}

#[test]
fn nothing_counts_once_the_results_are_up() {
    let mut scene = scene(PerformMode::Auto);
    let keys = keys();
    let stage = Stage {
        keys: &keys,
        range_start: 21,
        hit_line_y: 0,
        notes: &[],
        time: 0,
    };
    scene.finished = true;
    scene.midi_event(0, &MidiMessage::NoteOn { key: 30, vel: 90 }, 0);
    scene.player.update(&[], 600 * MS);
    let outcomes = scene.update_effects(&stage, 0, 0).outcomes;
    assert!(matches!(outcomes[0], Judged::Ignored));
    assert_eq!(scene.effects.results().wrong, 0);
}

#[test]
fn keys_off_the_screen_are_ignored() {
    let mut scene = scene(PerformMode::Auto);
    let keys = keys();
    let stage = Stage {
        keys: &keys[..5],
        range_start: 60,
        hit_line_y: 0,
        notes: &[],
        time: 0,
    };
    scene.midi_event(0, &MidiMessage::NoteOn { key: 59, vel: 90 }, 0);
    scene.player.update(&[], 600 * MS);
    assert!(matches!(
        scene.update_effects(&stage, 0, 0).outcomes[0],
        Judged::Ignored
    ));
}

#[test]
fn a_finished_song_shows_its_results() {
    let mut scene = scene(PerformMode::Auto);
    assert!(matches!(scene.end_frame(), FrameEnd::GoesOn));
    scene.player.observe(playback(true, false));
    assert!(matches!(scene.end_frame(), FrameEnd::MainMenu));
    assert!(!scene.finished);

    scene.effects.good_hit(0, 0, 0, false, Some(0), 0);
    match scene.end_frame() {
        FrameEnd::Results { grade, actions } => {
            assert_eq!(grade, "A++");
            assert_eq!(actions, vec![PlayerAction::StopAll, PlayerAction::Pause]);
        }
        _ => panic!("the song is over"),
    }
    assert!(scene.finished);
    assert!(matches!(scene.end_frame(), FrameEnd::GoesOn));
    assert!(scene.celebrate(550 * MS, 0).is_some());
}

#[test]
fn a_poor_show_gets_no_fireworks() {
    let mut scene = scene(PerformMode::Auto);
    scene.effects.wrong_hit(0);
    scene.finished = true;
    assert!(scene.celebrate(10_000 * MS, 0).is_none());
}

#[test]
fn keys_of_the_scene_do_what_they_say() {
    let mut scene = scene(PerformMode::Auto);
    let mut press = |scene: &mut PlayingScene, key| {
        scene.window_event(SceneEvent::KeyReleased(key), false)
    };
    assert_eq!(
        press(&mut scene, SceneKey::Escape),
        vec![SceneAction::MainMenu]
    );
    assert!(press(&mut scene, SceneKey::Enter).is_empty());
    assert!(press(&mut scene, SceneKey::Backspace).is_empty());
    assert_eq!(
        press(&mut scene, SceneKey::Space),
        vec![
            SceneAction::Player(PlayerAction::StopAll),
            SceneAction::Player(PlayerAction::Pause)
        ]
    );
    scene.player.observe(playback(false, true));
    assert_eq!(
        press(&mut scene, SceneKey::Space),
        vec![SceneAction::Player(PlayerAction::Resume)]
    );
    assert_eq!(
        press(&mut scene, SceneKey::Character('M')),
        vec![
            SceneAction::SetSheetMusic(false),
            SceneAction::Toast(SheetToast::Off)
        ]
    );
    assert!(!scene.show_sheet);
    assert_eq!(SheetToast::Off.text(), "Sheet Music: Off");
    assert_eq!(
        press(&mut scene, SceneKey::ArrowUp),
        vec![SceneAction::Change(SettingChange::Speed(1))]
    );
    scene.finished = true;
    assert!(press(&mut scene, SceneKey::Space).is_empty());
    assert_eq!(press(&mut scene, SceneKey::Enter), vec![SceneAction::Play]);
    assert_eq!(
        press(&mut scene, SceneKey::Backspace),
        vec![SceneAction::MainMenu]
    );
    assert_eq!(
        scene.window_event(SceneEvent::BackPressed, false),
        vec![SceneAction::MainMenu]
    );
}

#[test]
fn shift_makes_bigger_steps() {
    let change = handle_settings_input;
    assert_eq!(
        change(SceneKey::ArrowDown, true),
        Some(SettingChange::Speed(-5))
    );
    assert_eq!(
        change(SceneKey::PageUp, true),
        Some(SettingChange::AnimationSpeed(500))
    );
    assert_eq!(
        change(SceneKey::PageDown, false),
        Some(SettingChange::AnimationSpeed(-100))
    );
    assert_eq!(
        change(SceneKey::Character('_'), true),
        Some(SettingChange::AnimationOffset(-10))
    );
    assert_eq!(
        change(SceneKey::Character('='), false),
        Some(SettingChange::AnimationOffset(1))
    );
    assert_eq!(change(SceneKey::Character('q'), false), None);
}

#[test]
fn the_sheet_moves_to_the_other_end() {
    let mut scene = scene(PerformMode::Auto);
    let away = SheetPointer {
        hovered: false,
        pressed: false,
        clicked: false,
    };
    let over = SheetPointer {
        hovered: true,
        ..away
    };
    let click = SheetPointer {
        clicked: true,
        ..over
    };
    let height = scene.sheet.as_ref().unwrap().height();
    let frame = scene.update_sheet(1_000, 150, away).unwrap();
    assert_eq!((frame.y_offset, frame.zoom, frame.caret), (150, 100, None));
    assert!(frame.actions.is_empty());
    let frame = scene.update_sheet(1_000, 0, over).unwrap();
    assert_eq!(frame.caret, Some(Caret::Down));
    let frame = scene.update_sheet(1_000, 0, click).unwrap();
    assert_eq!((frame.y_offset, frame.zoom), (0, 100));
    assert_eq!(frame.caret, Some(Caret::Up));
    assert_eq!(
        frame.actions,
        vec![
            SceneAction::SetSheetMusicBottom(true),
            SceneAction::Toast(SheetToast::MovedToBottom)
        ]
    );
    let frame = scene.update_sheet(1_000, 150, away).unwrap();
    assert_eq!((frame.y_offset, frame.zoom), (1_000 - 20 - height, 135));
    assert_eq!(scene.update_sheet(30, 150, away).unwrap().y_offset, 0);
    let frame = scene.update_sheet(1_000, 150, click).unwrap();
    assert_eq!(
        frame.actions[1],
        SceneAction::Toast(SheetToast::MovedToTop)
    );
    scene.show_sheet = false;
    assert!(scene.update_sheet(1_000, 150, click).is_none());
    assert!(!scene.sheet_at_bottom);
}

#[test]
fn lightning_thunders() {
    let mut scene = scene(PerformMode::Auto);
    let keys = keys();
    let stage = Stage {
        keys: &keys,
        range_start: 21,
        hit_line_y: 7,
        notes: &[],
        time: 0,
    };
    let on = |key| MidiMessage::NoteOn { key, vel: 90 };
    let event = |key| MidiEvent {
        channel: 0,
        track_id: 0,
        track_color_id: 0,
        message: on(key),
    };
    for (beat, key) in [60u8, 62].iter().enumerate() {
        let now = beat as u64 * 1_000 * MS;
        scene.player.update(&[event(*key)], now);
        scene.midi_event(0, &on(*key), now);
        let frame = scene.update_effects(&stage, 10 * MS, 0);
        assert_eq!(frame.thunder, beat == 1);
        // Lit for 10 ms, the board owes 0.95 of an arc.
        assert_eq!(frame.show.arcs, 0);
    }
    assert_eq!(scene.update_effects(&stage, 10 * MS, 0).show.arcs, 1);
}

#[test]
fn a_title_that_fits_sits_still() {
    let mut marquee = Marquee::new(200 * PX, 300 * PX);
    assert_eq!(marquee.show(true, true, 16 * MS), TitleView::Still);
    assert_eq!(marquee.show(true, false, 16 * MS), TitleView::Still);
    assert_eq!(marquee.show(false, true, 16 * MS), TitleView::Hidden);
}

#[test]
fn a_long_title_crawls_and_comes_back_from_the_right() {
    let mut marquee = Marquee::new(400 * PX, 300 * PX);
    assert_eq!(marquee.show(true, false, 16 * MS), TitleView::Hidden);
    // A hundredth of a second at 45 pixels a second.
    assert_eq!(
        marquee.show(true, true, 10 * MS),
        TitleView::Crawling { x: -450_000_000 }
    );
    // A stall is held back to a thirtieth of a second.
    assert_eq!(
        marquee.show(true, true, 60_000 * MS),
        TitleView::Crawling { x: -1_950_000_000 }
    );
    marquee.scroll = 400 * PX as u128 - 1;
    assert_eq!(
        marquee.show(true, true, 0),
        TitleView::Crawling {
            x: 1 - 400 * PX as i128
        }
    );
    marquee.scroll = 400 * PX as u128;
    assert_eq!(
        marquee.show(true, true, 0),
        TitleView::Crawling { x: 300 * PX as i128 }
    );
    // At the end of a lap the next one begins.
    marquee.scroll = 1100 * PX as u128 - 450_000_000;
    assert_eq!(
        marquee.show(true, true, 10 * MS),
        TitleView::Crawling { x: 300 * PX as i128 }
    );
    marquee.reset();
    assert_eq!(marquee.scroll, 0);
}

#[test]
fn the_hud_counts_the_streak() {
    let mut fx = EffectsSystem::new();
    assert!(streak_view(&fx).is_none());
    assert!(combo_view(&fx).is_none());
    fx.good_hit(0, 0, 0, false, Some(0), 0);
    let view = streak_view(&fx).unwrap();
    assert_eq!(view.streak, "1");
    assert_eq!(view.best, "BEST 1");
    assert_eq!(view.score, "SCORE 100");
    assert_eq!(view.score_color, (255, 222, 84));
    assert_eq!(view.charge, Some("PERFECT CHAIN 1/2".to_string()));
    assert_eq!(view.mood, None);
    fx.good_hit(0, 0, 0, false, Some(1_000 * MS), 0);
    let view = streak_view(&fx).unwrap();
    assert_eq!(view.score_color, (105, 195, 255));
    assert_eq!(view.charge, None);
    let combo = combo_view(&fx).unwrap();
    assert_eq!(combo.text, "x1   2 COMBO");
    assert!(combo.on_fire.is_none());
    assert_eq!(combo.color, (255, 255, 255));
    // Freshly popped: 40 + 22 + 14 * 2 / 50.
    assert_eq!(combo.size.num * 100 / combo.size.den, 6_256);
    for i in 2..15 {
        fx.good_hit(0, 0, 200 * MS, false, Some(i * 1_000 * MS), 0);
    }
    let combo = combo_view(&fx).unwrap();
    assert_eq!(combo.text, "x2   15 COMBO");
    assert_eq!(combo.size.num * 10 / combo.size.den, 662);
    let fire = combo.on_fire.unwrap();
    assert_eq!(fire.num / fire.den, 28);
    assert_eq!(combo.color, (255, 120, 35));
    let rising = rising_view(&fx.rising_texts()[0]);
    assert_eq!(rising.text, "PERFECT!");
    assert!(rising.bold);
    assert_eq!(rising.color, (255, 222, 84));
}

#[test]
fn the_results_screen_sums_up() {
    let results = Results {
        perfect: 2,
        good: 1,
        ok: 0,
        wrong: 0,
        missed: 0,
        best_combo: 3,
        score: 1260,
    };
    let view = results_overlay_ui(&results);
    assert_eq!(view.grade, "A+");
    assert_eq!(view.summary, "93% performance  ·  100% accuracy");
    assert_eq!(
        view.tallies,
        "PERFECT 2    GOOD 1    OK 0    MISS 0    WRONG 0"
    );
    assert_eq!(view.score, "SCORE 1,260    ·    Best streak: 3");
    assert_eq!(percent(Fraction { num: 1, den: 200 }), 1);
    assert_eq!(percent(Fraction { num: 0, den: 1 }), 0);
    assert_eq!(percent(Fraction { num: 1, den: 3 }), 33);
}

#[test]
fn the_hud_switches_to_the_results() {
    let mut scene = scene(PerformMode::Auto);
    let idle = HudClicks {
        mode: None,
        play_again: false,
        menu: false,
    };
    let (hud, actions) = scene.update_hud(idle, true, 10 * MS);
    assert!(actions.is_empty());
    match hud {
        Hud::Playing {
            title,
            streak,
            rising,
            combo,
        } => {
            assert_eq!(title, TitleView::Crawling { x: -450_000_000 });
            assert!(streak.is_none() && rising.is_empty() && combo.is_none());
        }
        Hud::Results(_) => panic!("the song is still on"),
    }
    let human = HudClicks {
        mode: Some(PerformMode::Human),
        ..idle
    };
    let (hud, actions) = scene.update_hud(human, true, 10 * MS);
    assert!(matches!(
        hud,
        Hud::Playing {
            title: TitleView::Crawling { x: -450_000_000 },
            ..
        }
    ));
    assert_eq!(
        actions,
        vec![
            SceneAction::Player(PlayerAction::StopAll),
            SceneAction::SetPerformMode(PerformMode::Human)
        ]
    );
    assert_eq!(
        scene.update_hud(human, true, 0).1,
        vec![SceneAction::SetPerformMode(PerformMode::Human)]
    );
    scene.select_mode(PerformMode::Auto);
    assert_eq!(scene.marquee.scroll, 0);
    scene.finished = true;
    let done = HudClicks {
        mode: Some(PerformMode::Human),
        play_again: true,
        menu: true,
    };
    let (hud, actions) = scene.update_hud(done, true, 10 * MS);
    match hud {
        Hud::Results(view) => assert_eq!(view.grade, "F"),
        Hud::Playing { .. } => panic!("the song is over"),
    }
    assert_eq!(actions, vec![SceneAction::Play, SceneAction::MainMenu]);
    assert_eq!(scene.player.mode(), PerformMode::Auto);
}

#[test]
fn the_bar_that_is_struck_is_the_closest() {
    let notes = [
        note(60, 0, 100, 0),
        note(60, 1_000, 100, 0),
        note(60, 1_000, 100, 0),
        note(61, 900, 100, 0),
    ];
    assert_eq!(find_struck(&notes, 60, 900_000_000), Some(1));
    assert_eq!(find_struck(&notes, 60, 250_000_000), Some(0));
    assert_eq!(find_struck(&notes, 60, 251_000_000), None);
    assert_eq!(find_struck(&notes, 60, 400_000_000), Some(1));
    assert_eq!(find_struck(&notes, 62, 0), None);
}

#[test]
fn bars_near_the_line_glow_in_a_surge() {
    let keys = keys();
    let mut drum = note(64, 0, 450, 0);
    drum.channel = 9;
    let notes = [
        note(64, 0, 450, 0),
        drum,
        note(20, 0, 450, 0),
        note(65, 19_999, 1, 0),
        note(66, 20_000, 1, 0),
    ];
    let stage = Stage {
        keys: &keys,
        range_start: 21,
        hit_line_y: 0,
        notes: &notes,
        time: 0,
    };
    assert_eq!(surge_bars(true, &stage), vec![(0, 43), (3, 44)]);
    assert!(surge_bars(false, &stage).is_empty());
    let later = Stage {
        time: 950_000_000,
        ..stage
    };
    assert_eq!(surge_bars(true, &later), vec![(3, 44), (4, 45)]);
}

#[test]
fn pressed_keys_are_listed() {
    assert_eq!(glow_keys(3, &[true, false, true, true]), vec![0, 2]);
    assert_eq!(held_notes(21, &[false, true, true]), vec![22, 23]);
}

fn octave() -> Vec<KeyInfo> {
    (0..12)
        .map(|note_id| KeyInfo {
            note_id,
            sharp: [1, 3, 6, 8, 10].contains(&note_id),
        })
        .collect()
}

#[test]
fn keys_have_colours_and_names() {
    assert_eq!(rainbow_color(0), Some((230, 30, 30)));
    assert_eq!(rainbow_color(1), None);
    assert_eq!(sharp_name(6), Some("F#"));
    assert_eq!(sharp_name(7), None);
    assert_eq!(rainbow_letter(11), Some("B"));
    assert_eq!(letter_color(4), (20, 20, 20, 255));
    assert_eq!(letter_color(5), (255, 255, 255, 255));
    for note_id in 0..12 {
        assert_ne!(
            rainbow_letter(note_id).is_some(),
            sharp_name(note_id).is_some()
        );
    }
}

#[test]
fn black_keys_lie_over_white_ones() {
    let quads = plan_quads(&octave());
    assert_eq!(quads.len(), 2 + 7 + 7 + 5);
    assert_eq!(quads[0], KeyboardQuad::Rule);
    assert_eq!(quads[2], KeyboardQuad::Key(0));
    assert_eq!(quads[9], KeyboardQuad::Square(0));
    assert_eq!(quads[16], KeyboardQuad::Key(1));
    let labels = plan_labels(&octave());
    let texts: Vec<&str> = labels.iter().map(|label| label.text).collect();
    assert_eq!(texts.concat(), "C#D#F#G#A#CDEFGAB");
    assert_eq!(labels[0].color, (255, 255, 255, 225));
}

#[test]
fn the_keyboard_is_redrawn_when_it_changes() {
    let mut keyboard = KeyboardRenderer::new(octave());
    assert_eq!(keyboard.update().0.len(), 21);
    keyboard.set_layout(octave()[..5].to_vec());
    let (quads, labels) = keyboard.update();
    assert_eq!((quads.len(), labels.len()), (2 + 3 + 3 + 2, 5));
    keyboard.pressed_by_file[3] = true;
    keyboard.reset_notes();
    assert!(keyboard.pressed_by_file.iter().all(|pressed| !pressed));
    keyboard.set_pos((1, 2));
    assert_eq!(keyboard.pos(), (1, 2));
    assert_eq!(keyboard.layout().len(), 5);
}
