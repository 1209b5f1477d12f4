use keyboard_hero::spectrum::{bit_reversal, shuffle, SpectrumTap, TapReader, CAPACITY, WINDOW};

#[test]
fn nothing_is_drawn_before_a_whole_window_has_played() {
    let mut tap = SpectrumTap::new();
    tap.set_sample_rate(48_000);
    for _ in 0..WINDOW - 1 {
        tap.push(1.0f32.to_bits());
    }

    assert!(tap.read_latest(WINDOW).is_none());

    tap.push(1.0f32.to_bits());
    assert!(tap.read_latest(WINDOW).is_some());
}

#[test]
fn a_rate_nobody_has_declared_reads_as_nothing() {
    // A tap that has been written to but never told its rate cannot be turned
    // into frequencies, and guessing one would draw the wrong picture rather
    // than none.
    let mut tap = SpectrumTap::new();
    for _ in 0..WINDOW {
        tap.push(0.5f32.to_bits());
    }

    assert!(tap.read_latest(WINDOW).is_none());
}

#[test]
fn the_tap_hands_back_the_newest_samples_in_order() {
    let mut tap = SpectrumTap::new();
    tap.set_sample_rate(48_000);

    // Several laps of the ring, so the wrap is exercised rather than assumed.
    let total = CAPACITY * 3 + 17;
    for n in 0..total {
        tap.push((n as f32).to_bits());
    }

    let reading = tap.read_latest(WINDOW).expect("a full window is in");
    let buffer: Vec<f32> = reading.samples.iter().map(|s| f32::from_bits(*s)).collect();

    let oldest = (total - WINDOW) as f32;
    assert_eq!(buffer[0], oldest);
    assert_eq!(buffer[WINDOW - 1], (total - 1) as f32);
    assert!(
        buffer.windows(2).all(|pair| pair[1] - pair[0] == 1.0),
        "the window came back out of order"
    );
}

#[test]
fn a_stopped_stream_reads_as_nothing_new() {
    let mut tap = SpectrumTap::new();
    tap.set_sample_rate(48_000);
    for _ in 0..WINDOW {
        tap.push(1);
    }
    let mut reader = TapReader { last_written: 0 };
    assert!(reader.sample(&tap).is_some());
    assert!(reader.sample(&tap).is_none());
    tap.push(2);
    let reading = reader.sample(&tap).unwrap();
    assert_eq!(reading.samples[WINDOW - 1], 2);
    assert_eq!(reading.sample_rate, 48_000);
}

#[test]
fn reversing_twice_restores() {
    let table = bit_reversal(11);
    assert_eq!(table.len(), 2048);
    assert_eq!(table[1], 1024);
    assert_eq!(table[3], 1536);
    for (i, j) in table.iter().enumerate() {
        assert_eq!(table[*j as usize] as usize, i);
    }
}

#[test]
fn shuffling_twice_restores() {
    let table = bit_reversal(3);
    let mut samples: Vec<u32> = (0..8).collect();
    shuffle(&table, &mut samples);
    assert_eq!(samples, vec![0, 4, 2, 6, 1, 5, 3, 7]);
    shuffle(&table, &mut samples);
    assert_eq!(samples, (0..8).collect::<Vec<u32>>());
}
