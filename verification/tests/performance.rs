use keyboard_hero::keyboard::KeyboardRange;
use keyboard_hero::midi_file::{MidiEvent, MidiFile, MidiMessage, MidiNote, MidiTrack, TimeSignature};
use keyboard_hero::midi_player::{
    should_forward_human_event, MidiPlayer, PlaybackState, PlayerAction, LEAD_IN,
};
use keyboard_hero::play_along::{HitKind, MidiEventSource, PlayAlong, PlayerStats};
use keyboard_hero::preview::{hidden_tracks, toggle_preview_playback, Preview};
use keyboard_hero::results::Fraction;
use keyboard_hero::song::{PerformMode, PlayerConfig, Song, SongConfig};

const MS: u64 = 1_000_000;

fn note_on(key: u8) -> MidiMessage {
    MidiMessage::NoteOn { key, vel: 90 }
}

fn note_off(key: u8) -> MidiMessage {
    MidiMessage::NoteOff { key, vel: 0 }
}

/// Jam mode: a target the user matches while it is still live is a Good hit with
/// a real timing delta; the machine no longer self-reports.
#[test]
fn jam_target_matched_by_user_scores_a_hit() {
    let mut pa = PlayAlong::new(KeyboardRange::standard_88_keys());

    pa.midi_event(MidiEventSource::File, &note_on(60), 1_000);
    pa.midi_event(MidiEventSource::User, &note_on(60), 1_500);

    let events = pa.take_hit_events();
    assert_eq!(events.len(), 1);
    assert!(matches!(events[0].kind, HitKind::Good { late: true, .. }));
    assert!(events[0].chord.is_some());
}

/// Jam mode: a target nobody plays expires as a silent miss, but only when
/// expiry is on (in wait mode the song is stalled on it instead).
#[test]
fn jam_target_left_alone_expires_as_miss() {
    let mut pa = PlayAlong::new(KeyboardRange::standard_88_keys());

    pa.midi_event(MidiEventSource::File, &note_on(60), 0);

    pa.update(0, false);
    let now = 550 * MS;
    pa.update(now, false); // wait mode: target must survive
    assert!(pa.take_hit_events().is_empty());
    assert!(!pa.are_required_keys_pressed());

    pa.update(now, true); // jam mode: now it expires
    let events = pa.take_hit_events();
    assert_eq!(events.len(), 1);
    assert_eq!(events[0].note_id, 60);
    assert!(matches!(events[0].kind, HitKind::Miss));
    assert!(pa.are_required_keys_pressed());
}

#[test]
fn an_early_press_answers_the_note_to_come() {
    let mut pa = PlayAlong::new(KeyboardRange::standard_88_keys());
    pa.midi_event(MidiEventSource::User, &note_on(60), 0);
    pa.midi_event(MidiEventSource::File, &note_on(60), 200 * MS);
    let events = pa.take_hit_events();
    assert_eq!(events.len(), 1);
    assert_eq!(
        events[0].kind,
        HitKind::Good {
            delta: 200 * MS,
            late: false
        }
    );
    assert!(pa.are_required_keys_pressed());
    assert_eq!(pa.stats().count_too_early(), 0);
}

#[test]
fn a_press_nobody_asked_for_is_wrong() {
    let mut pa = PlayAlong::new(KeyboardRange::standard_88_keys());
    pa.midi_event(MidiEventSource::User, &note_on(60), 0);
    pa.update(500 * MS, false);
    assert!(pa.take_hit_events().is_empty());
    pa.update(501 * MS, false);
    let events = pa.take_hit_events();
    assert_eq!(events.len(), 1);
    assert_eq!(events[0].kind, HitKind::Wrong);
    assert_eq!(events[0].chord, None);
}

#[test]
fn keys_off_the_keyboard_are_not_owed() {
    let range = KeyboardRange { start: 60, end: 72 };
    let mut pa = PlayAlong::new(range);
    pa.midi_event(MidiEventSource::File, &note_on(59), 0);
    pa.midi_event(MidiEventSource::File, &note_on(72), 0);
    assert!(pa.are_required_keys_pressed());
    pa.midi_event(MidiEventSource::File, &note_on(71), 0);
    assert!(!pa.are_required_keys_pressed());
    pa.clear();
    assert!(pa.are_required_keys_pressed());
    assert!(pa.covers(60) && !pa.covers(72));
}

#[test]
fn stats_count_what_is_past_the_threshold() {
    assert_eq!(
        PlayerStats::count_with_threshold(&[100 * MS, 500 * MS, 600 * MS], 500 * MS),
        1
    );
}

/// A melodic track with `id`, or a drums-only one.
fn track(id: usize, drums: bool) -> MidiTrack {
    let note = MidiNote {
        start: 0,
        end: 1_000 * MS,
        duration: 1_000 * MS,
        note: 60,
        velocity: 100,
        channel: if drums { 9 } else { 0 },
        track_id: id,
        track_color_id: id,
    };

    MidiTrack {
        notes: vec![note],
        events: vec![],
        track_id: id,
        track_color_id: id,
        programs: vec![],
        has_drums: drums,
        has_other_than_drums: !drums,
    }
}

fn file(tracks: Vec<MidiTrack>) -> MidiFile {
    MidiFile {
        name: "song.mid".to_string(),
        tracks,
        measures: vec![0, 2_000 * MS],
        time_signature: TimeSignature::default(),
    }
}

fn humans(config: &SongConfig) -> Vec<usize> {
    config
        .tracks
        .iter()
        .filter(|t| matches!(t.player, PlayerConfig::Human))
        .map(|t| t.track_id)
        .collect()
}

/// Play-along needs a Human track: the first melodic one, so a drums-only track
/// at the top of the file is not handed to the player.
#[test]
fn a_song_loaded_for_human_gets_one_human_track() {
    let tracks = [track(0, true), track(1, false), track(2, false)];
    let config = SongConfig::for_mode(&tracks, PerformMode::Human);

    assert_eq!(humans(&config), vec![1]);
}

/// The jam modes have nobody waiting on the player, and it is the absence of a
/// Human track that says so. Getting this wrong is what used to strand a HERO
/// player in a song that stalled, or reported the wrong mode.
#[test]
fn a_song_loaded_for_a_jam_mode_has_no_human_track() {
    let tracks = [track(0, false), track(1, false)];

    for mode in [PerformMode::Hero, PerformMode::Auto] {
        let config = SongConfig::for_mode(&tracks, mode);
        assert!(humans(&config).is_empty(), "{mode:?} wants no Human track");
    }
}

#[test]
fn drums_are_not_drawn() {
    let song = Song::new_all_auto(file(vec![track(0, true), track(1, false)]));
    assert_eq!(hidden_tracks(&song.config), vec![0]);
}

fn event(track_id: usize, channel: u8, message: MidiMessage) -> MidiEvent {
    MidiEvent {
        channel,
        track_id,
        track_color_id: 7,
        message,
    }
}

fn player(mode: PerformMode) -> MidiPlayer {
    let song = Song::new(file(vec![track(0, false), track(1, true)]), mode);
    MidiPlayer::new(song, KeyboardRange::standard_88_keys(), false).0
}

#[test]
fn a_player_starts_its_clock_first() {
    let song = Song::new(file(vec![track(0, false)]), PerformMode::Auto);
    let (player, actions) = MidiPlayer::new(song, KeyboardRange::standard_88_keys(), false);
    assert_eq!(
        actions,
        vec![
            PlayerAction::Start { lead_in: LEAD_IN },
            PlayerAction::SendPrograms { time: 0 },
            PlayerAction::Advance { delta: 0 },
        ]
    );
    assert_eq!(player.leed_in(), 3_000 * MS);
    assert_eq!(player.time_without_lead_in(), -3_000_000_000);
}

#[test]
fn hero_silences_exactly_the_targets() {
    let events = [
        event(0, 0, note_on(60)),
        event(1, 9, note_on(38)),
        event(0, 0, MidiMessage::Controller { controller: 64, value: 127 }),
    ];
    let mut auto = player(PerformMode::Auto);
    assert_eq!(auto.update(&events, 0).len(), 3);

    let mut hero = player(PerformMode::Auto);
    hero.set_mode(PerformMode::Hero);
    let heard = hero.update(&events, 0);
    assert_eq!(heard.len(), 2);
    assert_eq!(
        heard[0],
        PlayerAction::Output {
            channel: 9,
            message: note_on(38)
        }
    );
    // Both are asked for the same note.
    assert!(!auto.play_along().are_required_keys_pressed());
    assert!(!hero.play_along().are_required_keys_pressed());
}

#[test]
fn a_human_track_leaves_its_notes_to_the_player() {
    let mut player = player(PerformMode::Human);
    assert_eq!(player.mode(), PerformMode::Human);
    let heard = player.update(
        &[
            event(0, 0, note_on(60)),
            event(0, 0, MidiMessage::ProgramChange { program: 3 }),
        ],
        0,
    );
    assert_eq!(heard.len(), 1);
    assert!(should_forward_human_event(&MidiMessage::ProgramChange { program: 3 }));
    assert!(!should_forward_human_event(&note_off(60)));
    player.tick_play_along(600 * MS);
    assert!(!player.play_along().are_required_keys_pressed());
    // The player answers late, and the song may go on.
    player.user_midi_event(0, &note_on(60), 700 * MS);
    assert!(player.play_along().are_required_keys_pressed());
    assert_eq!(
        player.take_hit_events()[0].kind,
        HitKind::Good {
            delta: 700 * MS,
            late: true
        }
    );
}

#[test]
fn tracks_can_have_channels_of_their_own() {
    let song = Song::new(file(vec![track(0, false)]), PerformMode::Auto);
    let (mut player, _) = MidiPlayer::new(song, KeyboardRange::standard_88_keys(), true);
    assert_eq!(
        player.update(&[event(0, 3, note_on(60))], 0),
        vec![PlayerAction::Output {
            channel: 7,
            message: note_on(60)
        }]
    );
}

#[test]
fn switching_modes_takes_effect_at_once() {
    let mut player = player(PerformMode::Human);
    player.update(&[event(0, 0, note_on(60))], 0);
    assert!(!player.play_along().are_required_keys_pressed());
    assert_eq!(
        player.set_mode(PerformMode::Hero),
        vec![PlayerAction::StopAll]
    );
    assert_eq!(player.mode(), PerformMode::Hero);
    assert!(!player.has_human_track());
    assert!(player.play_along().are_required_keys_pressed());
    assert!(player.set_mode(PerformMode::Hero).is_empty());
    player.set_mode(PerformMode::Human);
    assert_eq!(humans(&player.song().config), vec![0]);
}

#[test]
fn rewinding_stops_at_the_start() {
    let mut player = player(PerformMode::Auto);
    player.observe(PlaybackState {
        time: 5_000 * MS,
        leed_in: 3_000 * MS,
        length: 10_000 * MS,
        paused: false,
        finished: false,
    });
    assert_eq!(player.length(), 10_000 * MS);
    let third = Fraction { num: 1, den: 3 };
    assert_eq!(player.percentage_to_time(third), 3_333_333_333);
    let twice = Fraction { num: 2, den: 1 };
    assert_eq!(player.percentage_to_time(twice), 20_000 * MS);
    let huge = Fraction {
        num: u64::MAX,
        den: 1,
    };
    assert_eq!(player.percentage_to_time(huge), u64::MAX);
    assert_eq!(
        player.set_percentage_time(third)[0],
        PlayerAction::Seek {
            time: 3_333_333_333
        }
    );
    assert_eq!(
        player.time_to_percentage(2_500 * MS),
        Fraction {
            num: 2_500 * MS,
            den: 10_000 * MS
        }
    );
    assert_eq!(
        player.rewind(-1_000)[0],
        PlayerAction::Seek { time: 4_000 * MS }
    );
    assert_eq!(
        player.rewind(-6_000),
        vec![
            PlayerAction::Seek { time: 0 },
            PlayerAction::Discard,
            PlayerAction::StopAll,
            PlayerAction::SendPrograms { time: 0 },
        ]
    );
    assert_eq!(
        player.pause_resume(),
        vec![PlayerAction::StopAll, PlayerAction::Pause]
    );
}

#[test]
fn programs_are_sent_channel_by_channel() {
    assert_eq!(
        MidiPlayer::program_messages(&[(0, 4), (17, 130)]),
        vec![
            PlayerAction::Output {
                channel: 0,
                message: MidiMessage::ProgramChange { program: 4 }
            },
            PlayerAction::Output {
                channel: 1,
                message: MidiMessage::ProgramChange { program: 2 }
            },
        ]
    );
}

#[test]
fn there_is_no_preview_to_toggle_without_one() {
    let mut preview: Option<Preview> = None;
    toggle_preview_playback(&mut preview);
    assert!(preview.is_none());
}

#[test]
fn notes_far_off_their_time_are_counted() {
    let stats = PlayerStats {
        wrong_notes: 0,
        played_early: vec![500 * MS, 500 * MS + 1],
        played_late: vec![160 * MS, 161 * MS, 0],
    };
    assert_eq!(stats.count_too_early(), 1);
    assert_eq!(stats.count_too_late(), 1);
    assert_eq!(stats.timing_acurracy(), Fraction { num: 2, den: 5 });
}
