use keyboard_hero::microphone::{
    buffer_frames, DeviceAction, MicPassthrough, Monitor, Sinks, Tape, MAX_FILL, PREFILL,
    PREVIEW_FILL, RING_CAPACITY, TAPE_CAPACITY,
};
use keyboard_hero::ring::Ring;
use keyboard_hero::sample::pcm16;
use keyboard_hero::take::{VoicePlayback, VoiceTake};

/// What the synth hears: both halves of the monitor, summed.
fn heard(monitor: &mut Monitor) -> f32 {
    let (live, preview) = monitor.next();
    f32::from_bits(live) + f32::from_bits(preview)
}

fn bits(samples: &[f32]) -> Vec<u32> {
    samples.iter().map(|sample| sample.to_bits()).collect()
}

fn ramp(count: usize) -> Vec<u32> {
    (0..count).map(|n| (n as f32).to_bits()).collect()
}

fn live(monitor: &mut Monitor, sample: f32) {
    monitor.push_live(sample.to_bits());
}

/// A monitor with its live half switched on, which is what passthrough being on
/// amounts to.
fn monitoring() -> Monitor {
    let mut monitor = Monitor::new();
    monitor.set_monitoring(true);
    monitor
}

#[test]
fn the_monitor_is_silent_until_it_has_a_head_start() {
    let mut monitor = monitoring();

    // Nothing captured yet: the synth must get exact zeros, or switching
    // passthrough on would tick.
    assert_eq!(heard(&mut monitor), 0.0);

    // Still short of the head start, so still silent.
    for _ in 0..PREFILL - 1 {
        live(&mut monitor, 0.5);
    }
    assert_eq!(heard(&mut monitor), 0.0);

    // One more and it starts, from the oldest sample.
    live(&mut monitor, 0.5);
    assert_eq!(heard(&mut monitor), 0.5);
}

#[test]
fn the_monitor_goes_quiet_again_when_it_runs_dry() {
    let mut monitor = monitoring();
    for _ in 0..PREFILL {
        live(&mut monitor, 0.25);
    }

    for _ in 0..PREFILL {
        assert_eq!(heard(&mut monitor), 0.25);
    }

    // Drained. Silence rather than anything stale, and it waits for a fresh
    // head start rather than chasing the microphone sample by sample.
    assert_eq!(heard(&mut monitor), 0.0);
    live(&mut monitor, 0.25);
    assert_eq!(
        heard(&mut monitor),
        0.0,
        "should not restart on a single sample"
    );
}

#[test]
fn switching_off_drops_what_was_still_queued() {
    let mut monitor = monitoring();
    for _ in 0..PREFILL {
        live(&mut monitor, 0.75);
    }
    assert_eq!(heard(&mut monitor), 0.75);

    monitor.set_monitoring(false);

    // Nothing trickles out after the microphone is released.
    assert_eq!(heard(&mut monitor), 0.0);
    assert_eq!(monitor.live.ring.len(), 0);
}

#[test]
fn a_microphone_open_only_to_record_is_not_heard() {
    // Recording with passthrough off is the useful combination on speakers. The
    // samples must be kept and not played, so nothing goes into the live queue
    // to be heard a moment later or left there to go stale.
    let mut monitor = Monitor::new();
    for _ in 0..PREFILL * 2 {
        live(&mut monitor, 0.9);
    }

    assert_eq!(heard(&mut monitor), 0.0);
    assert_eq!(monitor.live.ring.len(), 0);
}

#[test]
fn the_tape_keeps_what_the_monitor_is_not_playing() {
    let mut sinks = Sinks {
        monitor: Monitor::new(),
        tape: Tape::new(),
    };

    // Disarmed, the tape ignores everything: an open microphone must not
    // quietly fill a buffer nobody is going to read.
    sinks.push(0.5f32.to_bits());
    let mut out = Vec::new();
    sinks.tape.collect(&mut out);
    assert!(out.is_empty());

    sinks.tape.arm();
    for n in 0..1000 {
        sinks.push((n as f32).to_bits());
    }

    sinks.tape.collect(&mut out);
    assert_eq!(out.len(), 1000);
    assert_eq!(f32::from_bits(out[0]), 0.0);
    assert_eq!(f32::from_bits(out[999]), 999.0);
    assert!(!sinks.tape.dropped);

    // Collecting is draining: the next sweep only sees what arrived since.
    out.clear();
    sinks.tape.collect(&mut out);
    assert!(out.is_empty());
}

#[test]
fn arming_the_tape_discards_the_last_take() {
    let mut tape = Tape::new();
    tape.arm();
    tape.push(1.0f32.to_bits());

    tape.disarm();
    tape.arm();

    let mut out = Vec::new();
    tape.collect(&mut out);
    assert!(out.is_empty(), "a fresh take started with stale samples");
}

#[test]
fn a_tape_left_uncollected_says_so_rather_than_hiding_the_gap() {
    let mut tape = Tape::new();
    tape.arm();
    for n in 0..TAPE_CAPACITY + 10 {
        tape.push((n as f32).to_bits());
    }

    assert!(tape.dropped);

    // What it kept is the start of the take, not the end: the recording is
    // short, rather than missing its beginning.
    let mut out = Vec::new();
    tape.collect(&mut out);
    assert_eq!(out.len(), TAPE_CAPACITY);
    assert_eq!(f32::from_bits(out[0]), 0.0);
}

#[test]
fn a_take_plays_back_at_the_rate_the_synth_drains_it() {
    let mut monitor = Monitor::new();
    let take = VoiceTake::new(ramp(5000), 48_000);
    let mut playback = VoicePlayback::new();

    // Paused, nothing is queued and nothing is heard.
    playback.update(&take, &mut monitor, false);
    assert_eq!(heard(&mut monitor), 0.0);

    // Playing, the queue fills to its mark and no further: the frame loop
    // cannot run ahead of the synth however often it is called.
    playback.update(&take, &mut monitor, true);
    playback.update(&take, &mut monitor, true);
    assert_eq!(monitor.preview.ring.len(), PREVIEW_FILL);

    for expected in 0..100 {
        assert_eq!(heard(&mut monitor), expected as f32);
    }

    // Draining leaves room, and the next frame tops it back up.
    playback.update(&take, &mut monitor, true);
    assert_eq!(monitor.preview.ring.len(), PREVIEW_FILL);
}

#[test]
fn pausing_a_take_gives_back_what_was_queued_but_never_heard() {
    let mut monitor = Monitor::new();
    let take = VoiceTake::new(ramp(5000), 48_000);
    let mut playback = VoicePlayback::new();

    playback.update(&take, &mut monitor, true);
    for _ in 0..100 {
        heard(&mut monitor);
    }

    playback.update(&take, &mut monitor, false);
    assert_eq!(
        monitor.preview.ring.len(),
        0,
        "sound carried on after pause"
    );

    // Resuming continues from the hundred that were actually heard, not from
    // the couple of thousand that had been handed over.
    playback.update(&take, &mut monitor, true);
    assert_eq!(heard(&mut monitor), 100.0);
}

#[test]
fn a_take_ends_rather_than_looping_or_repeating_its_tail() {
    let mut monitor = Monitor::new();
    let take = VoiceTake::new(bits(&vec![0.5; PREFILL + 10]), 48_000);
    let mut playback = VoicePlayback::new();

    playback.update(&take, &mut monitor, true);
    for _ in 0..PREFILL + 10 {
        assert_eq!(heard(&mut monitor), 0.5);
    }

    playback.update(&take, &mut monitor, true);
    assert_eq!(heard(&mut monitor), 0.0);
    assert_eq!(heard(&mut monitor), 0.0);
}

#[test]
fn dropping_a_preview_does_not_leave_a_voice_queued() {
    let mut monitor = Monitor::new();
    let take = VoiceTake::new(bits(&vec![0.5; 5000]), 48_000);

    let mut playback = VoicePlayback::new();
    playback.update(&take, &mut monitor, true);
    assert!(monitor.preview.ring.len() > 0);

    playback.stop(&mut monitor);

    assert_eq!(monitor.preview.ring.len(), 0);
    assert_eq!(heard(&mut monitor), 0.0);
}

#[test]
fn a_take_finds_its_loudest_moment() {
    let peak = |samples: &[f32]| f32::from_bits(VoiceTake::new(bits(samples), 48_000).peak());
    assert_eq!(peak(&[0.1, -0.8, 0.3]), 0.8);
    // Silence has to read as exactly zero: it is what tells a player their
    // microphone was open and heard nothing at all.
    assert_eq!(peak(&[0.0; 100]), 0.0);
    assert_eq!(peak(&[]), 0.0);
}

#[test]
fn a_take_writes_a_wav_a_player_will_open() {
    let take = VoiceTake::new(bits(&[0.0, 1.0, -1.0, 0.5]), 44_100);
    let wav = take.wav_bytes();

    assert_eq!(&wav[0..4], b"RIFF");
    assert_eq!(&wav[8..12], b"WAVE");
    assert_eq!(&wav[12..16], b"fmt ");
    assert_eq!(&wav[36..40], b"data");

    // Every length field has to agree with the file that arrived, or a player
    // reads past the end or stops short of it.
    assert_eq!(wav.len(), 44 + 4 * 2);
    assert_eq!(u32::from_le_bytes(wav[4..8].try_into().unwrap()), 36 + 8);
    assert_eq!(u32::from_le_bytes(wav[40..44].try_into().unwrap()), 8);

    // Mono, 16-bit, at the rate the take was captured at: a wrong rate here is
    // a file that plays back at the wrong pitch.
    assert_eq!(u16::from_le_bytes(wav[22..24].try_into().unwrap()), 1);
    assert_eq!(u32::from_le_bytes(wav[24..28].try_into().unwrap()), 44_100);
    assert_eq!(u16::from_le_bytes(wav[34..36].try_into().unwrap()), 16);

    let samples: Vec<i16> = wav[44..]
        .chunks_exact(2)
        .map(|pair| i16::from_le_bytes(pair.try_into().unwrap()))
        .collect();
    assert_eq!(samples, vec![0, i16::MAX, -i16::MAX, 16384]);
}

#[test]
fn a_sample_past_full_scale_clips_rather_than_wrapping() {
    // The limiter should mean this never happens. If it does, the sound to make
    // is a loud one, not the crack of a waveform folding over.
    let wav = VoiceTake::new(bits(&[2.0, -2.0]), 48_000).wav_bytes();
    let samples: Vec<i16> = wav[44..]
        .chunks_exact(2)
        .map(|pair| i16::from_le_bytes(pair.try_into().unwrap()))
        .collect();
    assert_eq!(samples, vec![i16::MAX, -i16::MAX]);
}

#[test]
fn ring_hands_samples_over_in_order() {
    let mut ring = Ring::new(RING_CAPACITY, MAX_FILL);
    assert_eq!(ring.pop(), None);

    for n in 0..100 {
        assert!(ring.push((n as f32).to_bits()));
    }
    assert_eq!(ring.len(), 100);

    for n in 0..100 {
        assert_eq!(ring.pop(), Some((n as f32).to_bits()));
    }
    assert_eq!(ring.pop(), None);
    assert_eq!(ring.len(), 0);
}

#[test]
fn ring_drops_samples_rather_than_letting_the_delay_grow() {
    let mut ring = Ring::new(RING_CAPACITY, MAX_FILL);
    for n in 0..RING_CAPACITY * 2 {
        ring.push((n as f32).to_bits());
    }

    assert_eq!(ring.len(), MAX_FILL);
    // What it kept is the oldest: playback is behind, and what it has yet to
    // play is what should come out next.
    assert_eq!(ring.pop(), Some(0.0f32.to_bits()));
}

#[test]
fn ring_says_when_it_had_to_drop_one() {
    let mut ring = Ring::new(8, 4);
    for _ in 0..4 {
        assert!(ring.push(1.0f32.to_bits()));
    }
    assert!(
        !ring.push(1.0f32.to_bits()),
        "a full ring claimed to have taken a sample"
    );
}

#[test]
fn ring_keeps_its_place_across_a_wrap() {
    let mut ring = Ring::new(RING_CAPACITY, MAX_FILL);
    // Well past the point where the counters fold back around the slots.
    for n in 0..RING_CAPACITY * 3 {
        ring.push((n as f32).to_bits());
        assert_eq!(ring.pop(), Some((n as f32).to_bits()));
    }
    assert_eq!(ring.len(), 0);
}

#[test]
fn clearing_a_ring_says_how_much_it_threw_away() {
    let mut ring = Ring::new(RING_CAPACITY, MAX_FILL);
    for n in 0..50 {
        ring.push((n as f32).to_bits());
    }
    ring.pop();

    assert_eq!(ring.clear(), 49);
    assert_eq!(ring.len(), 0);
    assert_eq!(ring.clear(), 0);
}

#[test]
fn samples_round_as_floats_do() {
    for n in -2000..=2000 {
        let sample = n as f32 * 0.000_731;
        let scaled = (sample.clamp(-1.0, 1.0) * i16::MAX as f32).round() as i16;
        assert_eq!(pcm16(sample.to_bits()), scaled, "{sample}");
    }
    assert_eq!(pcm16(f32::NAN.to_bits()), 0);
    assert_eq!(pcm16(f32::INFINITY.to_bits()), i16::MAX);
    assert_eq!(pcm16(f32::NEG_INFINITY.to_bits()), -i16::MAX);
    assert_eq!(pcm16(f32::MIN_POSITIVE.to_bits()), 0);
}

#[test]
fn the_device_follows_whoever_wants_it() {
    let mut mic = MicPassthrough::new();
    assert_eq!(mic.sync_device(), DeviceAction::Nothing);
    assert_eq!(mic.toggle(), DeviceAction::Open);
    mic.opened(44_100, Ok(()));
    assert!(mic.is_on());
    assert_eq!(mic.rate, 44_100);

    // Recording shares the open device, and switching passthrough off leaves it
    // open for the recording.
    assert_eq!(mic.start_recording(), DeviceAction::Nothing);
    assert!(mic.confirm_recording());
    assert!(mic.is_recording());
    assert_eq!(mic.toggle(), DeviceAction::Nothing);
    assert_eq!(mic.stop_recording(), DeviceAction::Close);
    mic.closed();
    assert!(!mic.is_recording());
    assert_eq!(mic.level(), 0);
}

#[test]
fn a_microphone_that_will_not_open_says_why() {
    let mut mic = MicPassthrough::new();
    assert_eq!(mic.start_recording(), DeviceAction::Open);
    mic.opened(48_000, Err("busy".to_string()));
    assert!(!mic.confirm_recording());
    assert_eq!(mic.error(), Some("busy"));
    assert!(!mic.is_recording());
    mic.no_devices("nothing there".to_string());
    assert_eq!(mic.error(), Some("nothing there"));
}

#[test]
fn a_recording_is_swept_off_the_tape() {
    let mut mic = MicPassthrough::new();
    mic.start_recording();
    mic.opened(48_000, Ok(()));
    mic.sinks.push(1.0f32.to_bits());
    mic.sinks.push(2.0f32.to_bits());
    let mut out = bits(&[0.5]);
    mic.collect_recording(&mut out);
    assert_eq!(out, bits(&[0.5, 1.0, 2.0]));
    mic.collect_recording(&mut out);
    assert_eq!(out.len(), 3);
    assert!(!mic.recording_dropped_samples());
}

#[test]
fn devices_get_the_nearest_buffer_they_accept() {
    assert_eq!(buffer_frames(16, 4096), 128);
    assert_eq!(buffer_frames(256, 4096), 256);
    assert_eq!(buffer_frames(16, 64), 64);
}

#[test]
fn seeking_a_take_moves_its_place() {
    let mut monitor = Monitor::new();
    let take = VoiceTake::new(ramp(5000), 48_000);
    let mut playback = VoicePlayback::new();
    playback.update(&take, &mut monitor, true);
    playback.seek(&take, &mut monitor, 1, 2);
    assert_eq!(monitor.preview.ring.len(), 0);
    playback.update(&take, &mut monitor, true);
    assert_eq!(heard(&mut monitor), 2500.0);
    playback.seek(&take, &mut monitor, 3, 2);
    playback.update(&take, &mut monitor, true);
    assert_eq!(heard(&mut monitor), 0.0);
}
