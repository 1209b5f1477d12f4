use keyboard_hero::microphone::MicPassthrough;
use keyboard_hero::midi_file::{MidiFile, MidiMessage};
use keyboard_hero::recorder::{
    duration_to_ticks, measure_color, meter_color, saved_status, to_smf, FreeplayRecorder,
    PreviewClicks, PreviewMessage, RecordedMidiEvent, RecorderError, RecorderState, RecorderStatus,
    SavePlan, TakeOutcome, Written,
};
use keyboard_hero::smf::SmfKind;

const RATE: u32 = 48_000;
const MS: u64 = 1_000_000;

/// A microphone peak that counts as somebody having sung.
fn mic_heard() -> u32 {
    0.4f32.to_bits()
}

/// One that does not: an open input in a quiet room, which is never exactly zero
/// and must not be reported as a voice.
fn mic_silent() -> u32 {
    0.001f32.to_bits()
}

/// A recorder mid-take, with the microphone said to be open but nothing captured
/// yet.
fn recording(microphone: bool) -> FreeplayRecorder {
    let mut recorder = FreeplayRecorder::new();
    recorder.begin(microphone, 0);
    recorder
}

fn note_on(recorder: &mut FreeplayRecorder) {
    recorder.push_event(0, MidiMessage::NoteOn { key: 60, vel: 100 }, 0);
}

/// Stand in for what the frame loop sweeps out of the synth's output.
fn play(recorder: &mut FreeplayRecorder, samples: &[f32]) {
    let RecorderState::Recording(in_progress) = &mut recorder.state else {
        panic!("not recording");
    };
    in_progress
        .audio
        .extend(samples.iter().map(|sample| sample.to_bits()));
}

#[test]
fn restarting_recording_discards_previous_take_and_resets_event_count() {
    let mut recorder = recording(false);
    note_on(&mut recorder);

    assert!(recorder.finish(RATE, false, mic_heard(), 0).is_ok());

    recorder.begin(false, 0);

    assert!(recorder.is_recording());

    let error = recorder
        .finish(RATE, false, mic_heard(), 0)
        .expect_err("Empty");
    assert!(matches!(error, RecorderError::NoNotesFound));
}

#[test]
fn pedal_only_recording_is_rejected_for_preview_song() {
    let mut recorder = recording(false);

    recorder.push_event(
        0,
        MidiMessage::Controller {
            controller: 64,
            value: 127,
        },
        0,
    );
    recorder.push_event(
        0,
        MidiMessage::Controller {
            controller: 64,
            value: 0,
        },
        0,
    );

    let error = recorder
        .finish(RATE, false, mic_heard(), 0)
        .expect_err("pedal-only recordings should not create preview songs");
    assert!(matches!(error, RecorderError::NoNotesFound));
}

#[test]
fn note_off_only_recording_is_rejected_for_preview_song() {
    let mut recorder = recording(false);

    recorder.push_event(0, MidiMessage::NoteOff { key: 60, vel: 0 }, 0);

    let error = recorder
        .finish(RATE, false, mic_heard(), 0)
        .expect_err("note-off-only recordings should not create preview songs");
    assert!(matches!(error, RecorderError::NoNotesFound));
}

#[test]
fn singing_over_no_notes_is_still_a_take_worth_keeping() {
    // No preview, because a preview is built around a song and there is no song
    // here. But the recording happened and must survive to be saved: throwing
    // it away for want of a keypress is how you lose a take.
    let mut recorder = recording(true);
    play(&mut recorder, &[0.4; 1000]);

    assert!(matches!(
        recorder
            .finish(RATE, false, mic_heard(), 0)
            .expect_err("no notes"),
        RecorderError::NoNotesFound
    ));

    let take = recorder.recorded().expect("the take was thrown away");
    assert!(take.smf.is_none());
    assert!(take.audio.is_some());
    assert_eq!(take.outcome, TakeOutcome::PianoAndVoice);
    assert!(recorder.has_something_to_save());
}

#[test]
fn playing_with_no_microphone_still_records_the_piano() {
    // The take is the synth's own output, so it has the playing on it whether
    // or not anything was sung over the top.
    let mut recorder = recording(false);
    note_on(&mut recorder);
    play(&mut recorder, &[0.4; 1000]);

    assert!(recorder.finish(RATE, false, 0.0f32.to_bits(), 0).is_ok());

    let take = recorder.recorded().expect("the take was thrown away");
    assert!(take.smf.is_some());
    assert!(take.audio.is_some(), "the playing was not recorded");
    assert_eq!(take.outcome, TakeOutcome::NoMicrophone);
    assert!(recorder.has_something_to_save());
}

#[test]
fn an_open_microphone_that_heard_nothing_says_so() {
    // Distinct from having no microphone at all, and the distinction is the
    // useful one: this is a dial turned all the way down, which the player can
    // fix, rather than a device that would not open. Neither can be read off
    // the take itself: both leave a recording of piano.
    let mut recorder = recording(true);
    note_on(&mut recorder);
    play(&mut recorder, &[0.4; 1000]);

    assert!(recorder.finish(RATE, false, mic_silent(), 0).is_ok());
    assert_eq!(
        recorder.recorded().unwrap().outcome,
        TakeOutcome::SilentMicrophone,
        "a room's worth of noise was reported as singing"
    );
}

#[test]
fn a_take_with_a_hole_in_it_is_not_passed_off_as_a_clean_one() {
    let mut recorder = recording(true);
    note_on(&mut recorder);
    play(&mut recorder, &[0.4; 1000]);

    assert!(recorder.finish(RATE, true, mic_heard(), 0).is_ok());
    assert_eq!(recorder.recorded().unwrap().outcome, TakeOutcome::Gapped);
}

#[test]
fn notes_going_somewhere_other_than_the_synth_leave_no_audio() {
    // A MIDI device sounds the notes itself, so there is no mix here to tap and
    // nothing to write to a WAV. The MIDI is still worth keeping.
    let mut recorder = recording(false);
    note_on(&mut recorder);

    assert!(recorder.finish(RATE, false, 0.0f32.to_bits(), 0).is_ok());

    let take = recorder.recorded().unwrap();
    assert!(take.audio.is_none());
    assert_eq!(take.outcome, TakeOutcome::NoAudio);
    assert!(recorder.has_something_to_save());
}

#[test]
fn nothing_at_all_leaves_nothing_to_save() {
    let mut recorder = recording(true);

    assert!(recorder.finish(RATE, false, 0.0f32.to_bits(), 0).is_err());
    assert!(!recorder.has_something_to_save());
}

#[test]
fn a_take_carries_the_rate_it_was_captured_at() {
    // The WAV header is written from this. Wrong here is a file that plays back
    // at the wrong pitch, which is the sort of thing nobody notices until they
    // open it somewhere else.
    let mut recorder = recording(true);
    play(&mut recorder, &[0.5; 44_100]);
    let _ = recorder.finish(44_100, false, mic_heard(), 0);

    let voice = recorder.recorded().unwrap().audio.as_ref().unwrap();
    let wav = voice.wav_bytes();
    assert_eq!(u32::from_le_bytes(wav[24..28].try_into().unwrap()), 44_100);
}

#[test]
fn stopping_without_a_take_is_an_error() {
    let mut recorder = FreeplayRecorder::new();
    let mut mic = MicPassthrough::new();
    let (result, _) = recorder.stop(&mut mic, 0, 0);
    assert!(matches!(result, Err(RecorderError::NothingRecorded)));
    assert!(matches!(
        recorder.plan_save(),
        Err(RecorderError::NothingRecorded)
    ));
}

#[test]
fn stopping_again_keeps_the_take() {
    let mut recorder = recording(false);
    note_on(&mut recorder);
    let mut mic = MicPassthrough::new();
    assert!(recorder.stop(&mut mic, 0, 2_000 * MS).0.is_ok());
    let (result, _) = recorder.stop(&mut mic, 0, 3_000 * MS);
    assert!(matches!(result, Err(RecorderError::NothingRecorded)));
    assert!(recorder.has_something_to_save());
    assert_eq!(recorder.recorded().unwrap().duration, 2_000 * MS);
    assert!(recorder.finish(RATE, false, 0, 0).is_err());
    assert!(recorder.recorded().is_some());
}

#[test]
fn keys_still_down_are_let_go_of() {
    let mut recorder = recording(false);
    recorder.push_event(2, MidiMessage::NoteOn { key: 60, vel: 100 }, 0);
    recorder.push_event(1, MidiMessage::NoteOn { key: 64, vel: 100 }, 100 * MS);
    recorder.push_event(1, MidiMessage::NoteOff { key: 64, vel: 0 }, 200 * MS);
    recorder.finish(RATE, false, 0, 500 * MS).unwrap();
    let take = recorder.recorded().unwrap();
    assert_eq!(take.duration, 500 * MS);
    let track = take.smf.as_ref().unwrap();
    let midi: Vec<(u8, u8, u8)> = track
        .iter()
        .filter_map(|event| match event.kind {
            SmfKind::Midi(status, a, b) => Some((status, a, b)),
            _ => None,
        })
        .collect();
    assert_eq!(
        midi,
        vec![
            (0x92, 60, 100),
            (0x91, 64, 100),
            (0x81, 64, 0),
            (0x82, 60, 0)
        ]
    );
}

#[test]
fn half_a_second_is_a_beat() {
    assert_eq!(duration_to_ticks(0), 0);
    assert_eq!(duration_to_ticks(500 * MS), 480);
    assert_eq!(duration_to_ticks(1_000 * MS), 960);
}

#[test]
fn ticks_add_up_to_the_time_played() {
    let events: Vec<RecordedMidiEvent> = [0u64, 333, 334, 1000]
        .iter()
        .map(|ms| RecordedMidiEvent {
            timestamp: ms * MS,
            channel: 0,
            message: MidiMessage::NoteOn { key: 60, vel: 1 },
        })
        .collect();
    let track = to_smf(&events).unwrap();
    let total: u64 = track.iter().map(|event| event.delta as u64).sum();
    // The end of the track comes one tick after the last event.
    assert_eq!(total, 961);
}

#[test]
fn a_written_recording_reads_back_in_four_four() {
    let mut recorder = recording(false);
    note_on(&mut recorder);
    recorder.finish(RATE, false, 0, 1_000 * MS).unwrap();
    let bytes = recorder.recorded().unwrap().midi_bytes().unwrap().unwrap();
    assert_eq!(&bytes[0..4], b"MThd");
    let smf = midly::Smf::parse(&bytes).unwrap();
    assert_eq!(smf.tracks.len(), 1);
    let notes = smf.tracks[0]
        .iter()
        .filter(|event| {
            matches!(
                event.kind,
                midly::TrackEventKind::Midi {
                    message: midly::MidiMessage::NoteOn { .. },
                    ..
                }
            )
        })
        .count();
    assert_eq!(notes, 1);
    let metre = MidiFile::read_metre(&bytes).unwrap();
    assert_eq!(metre.pulses_per_quarter, 480);
    assert_eq!(metre.time_signature.numerator, 4);
    assert_eq!(metre.time_signature.denominator, 4);
    assert_eq!(metre.pulses_per_bar(), 1920);
}

#[test]
fn a_save_offers_the_half_there_is() {
    let mut recorder = recording(false);
    note_on(&mut recorder);
    play(&mut recorder, &[0.4; 10]);
    recorder.finish(RATE, false, 0, 0).unwrap();
    let plan = recorder.plan_save().unwrap();
    assert_eq!(plan, SavePlan::Notes { audio: true });
    assert_eq!(plan.file_name(), "freeplay-recording.mid");

    let mut recorder = recording(true);
    play(&mut recorder, &[0.4; 10]);
    let _ = recorder.finish(RATE, false, 0, 0);
    let plan = recorder.plan_save().unwrap();
    assert_eq!(plan, SavePlan::Sound);
    assert_eq!(plan.file_name(), "freeplay-recording.wav");

    let mut recorder = recording(true);
    let _ = recorder.finish(RATE, false, 0, 0);
    assert_eq!(recorder.plan_save().unwrap(), SavePlan::Empty);
}

#[test]
fn a_save_says_what_it_wrote() {
    let both = saved_status(
        Written::Named("a.mid".to_string()),
        Written::Named("a.wav".to_string()),
        "/home/me",
    );
    assert_eq!(both.text(), "Saved a.mid and a.wav to /home/me");
    let failed = saved_status(Written::Failed, Written::Absent, "/home/me");
    assert_eq!(failed.text(), "Failed to write MIDI file");
    let failed = saved_status(
        Written::Named("a.mid".to_string()),
        Written::Failed,
        "/home/me",
    );
    assert_eq!(failed.text(), "Failed to write WAV file");
}

#[test]
fn the_status_reads_in_tenths() {
    let status = RecorderStatus::RecordingFinished(12_340 * MS, TakeOutcome::PianoAndVoice);
    assert_eq!(status.text(), "Recorded 12.3s · piano and voice");
    assert_eq!(RecorderStatus::default().text(), "");
    let status = RecorderStatus::Error(RecorderError::MidiFileParse("bad".to_string()));
    assert_eq!(status.text(), "bad");
    assert_eq!(
        RecorderStatus::Error(RecorderError::NothingRecorded).text(),
        "Nothing recorded"
    );
    assert_eq!(RecorderError::NoNotesFound.text(), "No note events recorded");
}

#[test]
fn a_stopped_take_is_announced() {
    let mut recorder = recording(false);
    note_on(&mut recorder);
    let stopped = recorder.finish(RATE, false, 0, 2_000 * MS);
    let status = recorder.stopped_status(stopped, Ok(()), 9_000 * MS);
    assert_eq!(
        status.text(),
        "Recorded 2.0s · MIDI only, no audio to record"
    );
    let status = recorder.stopped_status(Ok(()), Err("no tracks".to_string()), 0);
    assert_eq!(status.text(), "no tracks");
}

#[test]
fn the_bar_shows_what_the_recorder_is_doing() {
    let idle = FreeplayRecorder::new();
    let bar = idle.preview_bar(&RecorderStatus::Idle, None, 0);
    assert_eq!(bar.status, "");
    assert!(bar.shows_play && !bar.shows_stop && !bar.meter);

    let recorder = recording(false);
    let bar = recorder.preview_bar(&RecorderStatus::Idle, Some(false), 1_500 * MS);
    assert_eq!(bar.status, "Recording 1.5s · no microphone");
    assert!(!bar.shows_play && bar.shows_stop && bar.meter);
}

#[test]
fn later_buttons_of_the_bar_win() {
    let recorder = FreeplayRecorder::new();
    let all = PreviewClicks {
        back: true,
        play: true,
        save: true,
        record: true,
        progress: true,
    };
    assert_eq!(recorder.preview_message(all, true), PreviewMessage::Seek);
    assert_eq!(recorder.preview_message(all, false), PreviewMessage::Record);
    let quiet = PreviewClicks {
        record: false,
        progress: false,
        ..all
    };
    assert_eq!(
        recorder.preview_message(quiet, true),
        PreviewMessage::TogglePlay
    );
    assert_eq!(
        recorder.preview_message(quiet, false),
        PreviewMessage::GoBack
    );
}

#[test]
fn passed_bar_lines_are_bright_and_clipping_is_red() {
    assert_eq!(measure_color(1, 2), (255, 255, 255, 127));
    assert_eq!(measure_color(2, 2), (102, 102, 102, 255));
    assert_eq!(meter_color(0.98f32.to_bits()), (80, 200, 120));
    assert_eq!(meter_color(0.99f32.to_bits()), (220, 110, 90));
}

#[test]
fn a_take_is_swept_and_stopped_with_its_microphone() {
    let mut mic = MicPassthrough::new();
    mic.start_recording();
    mic.opened(44_100, Ok(()));
    let mut recorder = FreeplayRecorder::new();
    recorder.begin(mic.confirm_recording(), 0);
    mic.sinks.push(0.5f32.to_bits());
    recorder.collect_audio(&mut mic);
    mic.sinks.push(0.25f32.to_bits());
    note_on(&mut recorder);
    let (result, _) = recorder.stop(&mut mic, mic_heard(), 1_000 * MS);
    assert!(result.is_ok());
    let audio = recorder.recorded().unwrap().audio.as_ref().unwrap();
    assert_eq!(audio.samples.len(), 2);
    assert_eq!(audio.rate, 44_100);
    assert!(!mic.is_recording());
}

#[test]
fn an_abandoned_take_is_gone() {
    let mut mic = MicPassthrough::new();
    let mut recorder = recording(false);
    note_on(&mut recorder);
    recorder.abandon(&mut mic);
    assert!(!recorder.is_recording());
    assert!(recorder.recorded().is_none());
}
