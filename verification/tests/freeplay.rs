use keyboard_hero::freeplay::{Freeplay, PreviewStep, RecordClick};
use keyboard_hero::keyboard::KeyboardRange;
use keyboard_hero::microphone::{DeviceAction, MicPassthrough};
use keyboard_hero::midi_file::{MidiFile, MidiMessage, TimeSignature};
use keyboard_hero::midi_player::{PlaybackState, PlayerAction};
use keyboard_hero::recorder::{PreviewClicks, SavePlan};
use keyboard_hero::song::PerformMode;

const MS: u64 = 1_000_000;

const NONE: PreviewClicks = PreviewClicks {
    back: false,
    play: false,
    save: false,
    record: false,
    progress: false,
};

fn file() -> MidiFile {
    MidiFile {
        name: "freeplay-recording.mid".to_string(),
        tracks: vec![],
        measures: vec![],
        time_signature: TimeSignature::default(),
    }
}

fn range() -> KeyboardRange {
    KeyboardRange { start: 21, end: 109 }
}

fn click(play: &mut Freeplay, mic: &mut MicPassthrough, clicks: PreviewClicks) -> PreviewStep {
    play.update_preview_ui(clicks, 25, 100, mic, 0.4f32.to_bits(), 2_000 * MS)
        .1
}

const RECORD: PreviewClicks = PreviewClicks {
    record: true,
    ..NONE
};

/// A take of one note and `samples` samples of sound, stopped after two seconds.
fn take(play: &mut Freeplay, mic: &mut MicPassthrough, samples: usize) -> bool {
    assert!(matches!(
        click(play, mic, RECORD),
        PreviewStep::Record(RecordClick::Starting { .. })
    ));
    mic.opened(48_000, Ok(()));
    play.start(mic, 0);
    assert!(play.recorder.has_microphone());
    play.recorder
        .push_event(0, MidiMessage::NoteOn { key: 60, vel: 100 }, 0);
    for n in 0..samples {
        mic.sinks.push(n as u32);
    }
    match click(play, mic, RECORD) {
        PreviewStep::Record(RecordClick::Stopped { action, preview }) => {
            assert_eq!(action, DeviceAction::Close);
            mic.closed();
            preview
        }
        _ => panic!("the take did not stop"),
    }
}

#[test]
fn a_take_is_recorded_and_played_back() {
    let (mut play, mut mic) = (Freeplay::new(), MicPassthrough::new());
    assert!(take(&mut play, &mut mic, 400));
    let step = play.stop_recording(Ok(file()), range(), false, 2_000 * MS);
    assert_eq!(step.actions.len(), 5);
    assert!(step.lets_go);
    assert_eq!(play.status.text(), "Recorded 2.0s · piano and voice");
    let preview = play.preview.as_ref().unwrap();
    assert_eq!(preview.player.mode(), PerformMode::Auto);
    assert!(!preview.is_audible(), "the sound is on the recording");

    let save = PreviewClicks { save: true, ..NONE };
    assert!(matches!(
        click(&mut play, &mut mic, save),
        PreviewStep::Save(SavePlan::Notes { audio: true })
    ));
    let toggle = PreviewClicks { play: true, ..NONE };
    assert!(matches!(
        click(&mut play, &mut mic, toggle),
        PreviewStep::Player(step) if step.actions.len() == 2 && !step.lets_go
    ));
    let progress = PreviewClicks {
        progress: true,
        ..NONE
    };
    match click(&mut play, &mut mic, progress) {
        PreviewStep::Player(step) => {
            assert_eq!(step.actions[0], PlayerAction::Seek { time: 0 });
            assert!(step.lets_go);
        }
        _ => panic!("the song did not move"),
    }
    let sound = play.preview.as_ref().unwrap().audio.unwrap();
    assert_eq!(sound.cursor, 100, "a quarter of the way");
    let back = PreviewClicks { back: true, ..NONE };
    assert!(matches!(
        click(&mut play, &mut mic, back),
        PreviewStep::Leave
    ));
    assert!(matches!(
        click(&mut play, &mut mic, NONE),
        PreviewStep::Nothing
    ));
}

#[test]
fn the_sound_follows_the_preview() {
    let (mut play, mut mic) = (Freeplay::new(), MicPassthrough::new());
    assert!(play.update(&[], &mut mic, 0).is_empty());
    take(&mut play, &mut mic, 400);
    play.stop_recording(Ok(file()), range(), false, 2_000 * MS);
    let clock = |paused| PlaybackState {
        time: 0,
        leed_in: 0,
        length: 1_000 * MS,
        paused,
        finished: false,
    };
    play.preview.as_mut().unwrap().player.observe(clock(true));
    play.update(&[], &mut mic, 0);
    assert_eq!(mic.sinks.monitor.preview.ring.len(), 0);
    play.preview.as_mut().unwrap().player.observe(clock(false));
    play.update(&[], &mut mic, 0);
    assert_eq!(mic.sinks.monitor.preview.ring.len(), 400);
    play.preview.as_mut().unwrap().player.observe(clock(true));
    play.update(&[], &mut mic, 0);
    assert_eq!(mic.sinks.monitor.preview.ring.len(), 0);
    assert_eq!(play.preview.as_ref().unwrap().audio.unwrap().cursor, 0);
}

#[test]
fn the_pointer_is_kept_on_the_bar() {
    let (mut play, mut mic) = (Freeplay::new(), MicPassthrough::new());
    let step = play.seek_preview_to_cursor(5, 10, &mut mic);
    assert!(step.actions.is_empty() && !step.lets_go);
    take(&mut play, &mut mic, 400);
    play.stop_recording(Ok(file()), range(), false, 2_000 * MS);
    let mut cursor = |x, width| {
        play.seek_preview_to_cursor(x, width, &mut mic);
        play.preview.as_ref().unwrap().audio.unwrap().cursor
    };
    assert_eq!(cursor(-3, 100), 0);
    assert_eq!(cursor(300, 100), 400);
    assert_eq!(cursor(1, 0), 400);
    assert_eq!(cursor(33, 100), 132);
}

#[test]
fn a_new_take_puts_the_last_one_away() {
    let (mut play, mut mic) = (Freeplay::new(), MicPassthrough::new());
    take(&mut play, &mut mic, 400);
    play.stop_recording(Ok(file()), range(), false, 2_000 * MS);
    mic.sinks.monitor.preview.ring.push(7);
    assert!(matches!(
        click(&mut play, &mut mic, RECORD),
        PreviewStep::Record(RecordClick::Starting {
            action: DeviceAction::Open,
            lets_go: true
        })
    ));
    assert!(play.preview.is_none());
    assert_eq!(mic.sinks.monitor.preview.ring.len(), 0);
    assert_eq!(play.status.text(), "");
    // The device could not be opened.
    mic.no_devices("no input".to_string());
    play.start(&mut mic, 0);
    assert!(!play.recorder.has_microphone());
}

#[test]
fn a_take_without_notes_has_no_preview() {
    let (mut play, mut mic) = (Freeplay::new(), MicPassthrough::new());
    click(&mut play, &mut mic, RECORD);
    play.start(&mut mic, 0);
    assert!(matches!(
        click(&mut play, &mut mic, RECORD),
        PreviewStep::Record(RecordClick::Stopped { preview: false, .. })
    ));
    assert_eq!(play.status.text(), "No note events recorded");
    assert!(play.preview.is_none());
}

#[test]
fn notes_that_make_no_song_are_reported() {
    let (mut play, mut mic) = (Freeplay::new(), MicPassthrough::new());
    play.stop_recording(Ok(file()), range(), false, 0);
    assert_eq!(play.status.text(), "Nothing recorded");
    take(&mut play, &mut mic, 0);
    let step = play.stop_recording(Err("no tracks".to_string()), range(), false, 0);
    assert!(step.actions.is_empty() && !step.lets_go && play.preview.is_none());
    assert_eq!(play.status.text(), "no tracks");
}
