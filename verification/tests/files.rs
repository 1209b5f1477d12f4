use keyboard_hero::arith::product_le;
use keyboard_hero::midi_file::{
    assemble, color_ids, find_time_signature, last_note_end, MeasureGrid, Metre, MidiEvent,
    MidiFile, MidiMessage, MidiNote, MidiTrack, TimeSignature,
};
use keyboard_hero::names::{is_midi_extension, song_title, sort_names};
use keyboard_hero::order::sort_positions;
use keyboard_hero::smf::{OutlineEvent, SmfOutline};

/// A file with one track of `events`, each a delta and the bytes of a meta event.
fn midi(division: [u8; 2], events: &[(u8, &[u8])]) -> Vec<u8> {
    let mut track = Vec::new();
    for (delta, bytes) in events {
        track.push(*delta);
        track.extend_from_slice(bytes);
    }
    track.extend_from_slice(&[0, 0xff, 0x2f, 0]);
    let mut file = b"MThd".to_vec();
    file.extend_from_slice(&[0, 0, 0, 6, 0, 0, 0, 1]);
    file.extend_from_slice(&division);
    file.extend_from_slice(b"MTrk");
    file.extend_from_slice(&(track.len() as u32).to_be_bytes());
    file.extend_from_slice(&track);
    file
}

#[test]
fn a_waltz_is_read_in_three() {
    let bytes = midi([0x01, 0xe0], &[(0, &[0xff, 0x58, 4, 3, 2, 24, 8])]);
    let metre = MidiFile::read_metre(&bytes).unwrap();
    assert_eq!(metre.pulses_per_quarter, 480);
    assert_eq!(
        metre.time_signature,
        TimeSignature {
            numerator: 3,
            denominator: 4
        }
    );
    assert_eq!(metre.pulses_per_bar(), 1440);
    let bar = metre.time_signature.quarters_per_bar();
    assert_eq!((bar.num, bar.den), (12, 4));
}

#[test]
fn six_eight_is_three_quarters_long() {
    let bytes = midi([0x00, 0x60], &[(0, &[0xff, 0x58, 4, 6, 3, 24, 8])]);
    let metre = MidiFile::read_metre(&bytes).unwrap();
    assert_eq!(metre.time_signature.denominator, 8);
    assert_eq!(metre.pulses_per_bar(), 288);
}

#[test]
fn a_file_that_says_nothing_is_in_four_four() {
    let bytes = midi([0x01, 0xe0], &[]);
    let metre = MidiFile::read_metre(&bytes).unwrap();
    assert_eq!(metre.time_signature, TimeSignature::default());
}

#[test]
fn the_earliest_signature_counts() {
    let bytes = midi(
        [0x01, 0xe0],
        &[
            (0x10, &[0xff, 0x58, 4, 5, 2, 24, 8]),
            (0x10, &[0xff, 0x58, 4, 7, 2, 24, 8]),
        ],
    );
    let metre = MidiFile::read_metre(&bytes).unwrap();
    assert_eq!(metre.time_signature.numerator, 5);
}

#[test]
fn what_is_no_midi_file_is_an_error() {
    assert_eq!(
        MidiFile::read_metre(b"not a song").unwrap_err(),
        "Midi Parsing Error (midly lib)"
    );
}

/// A file wrapped in RIFF, behind a chunk of another kind and of odd length.
fn wrapped(file: &[u8]) -> Vec<u8> {
    let mut body = b"RMIDnote".to_vec();
    body.extend_from_slice(&[3, 0, 0, 0, 1, 2, 3, 0]);
    body.extend_from_slice(b"data");
    body.extend_from_slice(&(file.len() as u32).to_le_bytes());
    body.extend_from_slice(file);
    let mut riff = b"RIFF".to_vec();
    riff.extend_from_slice(&(body.len() as u32).to_le_bytes());
    riff.extend_from_slice(&body);
    riff
}

fn header(division: [u8; 2]) -> Vec<u8> {
    let mut bytes = b"MThd".to_vec();
    bytes.extend_from_slice(&[0, 0, 0, 6, 0, 0, 0, 1]);
    bytes.extend_from_slice(&division);
    bytes
}

#[test]
fn a_frame_rate_that_cannot_be_negated_is_an_error() {
    let unreadable = |bytes: &[u8]| {
        assert_eq!(
            MidiFile::read_metre(bytes).unwrap_err(),
            "Midi Parsing Error (midly lib)"
        );
    };
    unreadable(&header([0x80, 0x00]));
    unreadable(&wrapped(&midi([0x80, 0x28], &[])));
    let mut later = midi([0x01, 0xe0], &[]);
    later.extend_from_slice(&header([0x80, 0x00]));
    unreadable(&later);
}

#[test]
fn other_headers_are_read_or_passed_over() {
    let readable = |bytes: &[u8]| MidiFile::read_metre(bytes).unwrap().pulses_per_quarter;
    assert_eq!(readable(&wrapped(&midi([0x01, 0xe0], &[]))), 480);
    // Reading ends at a rate that there is not, so what follows does not matter.
    let mut ended = midi([0x01, 0xe0], &[]);
    ended.extend_from_slice(&header([0x90, 0x00]));
    ended.extend_from_slice(&header([0x80, 0x00]));
    assert_eq!(readable(&ended), 480);
    // A chunk of another kind is passed over, whatever it holds.
    let mut other = midi([0x01, 0xe0], &[]);
    other.extend_from_slice(b"XFIH");
    other.extend_from_slice(&[0, 0, 0, 6, 0, 0, 0, 1, 0x80, 0]);
    assert_eq!(readable(&other), 480);
}

#[test]
fn timecode_is_not_supported() {
    let bytes = midi([0xe7, 0x28], &[]);
    assert_eq!(
        MidiFile::read_metre(&bytes).unwrap_err(),
        "Midi With Timecode Timing, Not Supported!"
    );
}

#[test]
fn a_file_without_tracks_is_an_error() {
    let outline = SmfOutline {
        pulses_per_quarter: Some(480),
        tracks: vec![],
    };
    assert_eq!(
        MidiFile::from_outline(&outline).unwrap_err(),
        "Midi File Has No Tracks"
    );
}

#[test]
fn signatures_are_looked_for_in_every_track() {
    let quiet = |delta: u32| -> OutlineEvent { (delta, None) };
    let three: OutlineEvent = (5, Some((3, 2)));
    let sig = find_time_signature(&vec![vec![quiet(0), quiet(9)], vec![quiet(1), three]]);
    assert_eq!(sig.numerator, 3);
}

#[test]
fn colours_are_handed_out_to_tracks_with_notes() {
    assert_eq!(
        color_ids(&[false, true, true, false, true]),
        vec![0, 0, 1, 2, 2]
    );
}

#[test]
fn the_grid_ends_with_the_bar_after_the_last_note() {
    let metre = Metre {
        pulses_per_quarter: 480,
        time_signature: TimeSignature::default(),
    };
    let mut grid = MeasureGrid::new(&metre, 3_000);
    let mut asked = Vec::new();
    while let Some(pulse) = grid.next_pulse() {
        asked.push(pulse);
        grid.push(pulse);
    }
    assert_eq!(asked, vec![0, 1920, 3840]);
    assert_eq!(grid.measures, vec![0, 1920, 3840]);
}

#[test]
fn the_last_note_of_any_track_ends_the_song() {
    let note = |start: u64, duration: u64| MidiNote {
        start,
        end: start + duration,
        duration,
        note: 60,
        velocity: 1,
        channel: 0,
        track_id: 0,
        track_color_id: 0,
    };
    let track = |notes| MidiTrack {
        notes,
        events: vec![],
        track_id: 0,
        track_color_id: 0,
        programs: vec![],
        has_drums: false,
        has_other_than_drums: true,
    };
    let tracks = vec![
        track(vec![note(0, 10), note(20, 5)]),
        track(vec![]),
        track(vec![note(3, 7)]),
    ];
    assert_eq!(last_note_end(&tracks), 25);
}

#[test]
fn a_file_is_put_together_in_colour() {
    let note = MidiNote {
        start: 1_000,
        end: 1_500,
        duration: 500,
        note: 60,
        velocity: 90,
        channel: 2,
        track_id: 5,
        track_color_id: 77,
    };
    let event = MidiEvent {
        channel: 2,
        track_id: 5,
        track_color_id: 77,
        message: MidiMessage::NoteOn { key: 60, vel: 90 },
    };
    let track = |track_id: usize, notes: Vec<MidiNote>| MidiTrack {
        notes,
        events: vec![event],
        track_id,
        track_color_id: 77,
        programs: vec![3],
        has_drums: false,
        has_other_than_drums: true,
    };
    let tracks = vec![
        track(0, vec![]),
        track(1, vec![note, note]),
        track(2, vec![]),
        track(3, vec![note]),
    ];
    let metre = Metre {
        pulses_per_quarter: 480,
        time_signature: TimeSignature {
            numerator: 3,
            denominator: 4,
        },
    };
    let mut grid = MeasureGrid::new(&metre, last_note_end(&tracks));
    while let Some(pulse) = grid.next_pulse() {
        grid.push(pulse);
    }
    let file = assemble(String::from("waltz.mid"), &metre, tracks, grid);
    assert_eq!(file.name, "waltz.mid");
    assert_eq!(file.time_signature, metre.time_signature);
    assert_eq!(file.measures, vec![0, 1440, 2880]);
    let colors: Vec<usize> = file.tracks.iter().map(|track| track.track_color_id).collect();
    assert_eq!(colors, vec![0, 0, 1, 1]);
    for track in &file.tracks {
        let color = track.track_color_id;
        assert_eq!(track.programs, vec![3]);
        assert_eq!(
            track.events,
            vec![MidiEvent {
                track_color_id: color,
                ..event
            }]
        );
        for painted in &track.notes {
            assert_eq!(
                *painted,
                MidiNote {
                    track_color_id: color,
                    ..note
                }
            );
        }
    }
    assert_eq!(file.tracks[1].notes.len(), 2);
    assert_eq!(file.tracks[3].track_id, 3);
}

#[test]
fn titles_are_worth_reading() {
    assert_eq!(song_title("Moonlight_Sonata.mid"), "Moonlight Sonata");
    assert_eq!(song_title("a.b.MIDI"), "a.b");
    assert_eq!(song_title("__lead.MiD"), "lead");
    assert_eq!(song_title("notes.txt"), "notes.txt");
    assert_eq!(song_title(".mid"), ".mid");
    assert_eq!(song_title("no extension"), "no extension");
    assert_eq!(song_title("\u{3000}\t_Für_Elise _.mid"), "Für Elise");
    assert_eq!(song_title(""), "");
}

#[test]
fn midi_extensions_come_in_any_case() {
    for yes in ["mid", "MID", "Midi", "mIdI"] {
        assert!(is_midi_extension(yes), "{yes}");
    }
    for no in ["", "mi", "midx", "midii", "wav"] {
        assert!(!is_midi_extension(no), "{no}");
    }
}

#[test]
fn names_sort_by_code_points_and_stay_put_when_equal() {
    let names: Vec<String> = ["b", "a", "", "ab", "b", "é"]
        .iter()
        .map(|s| s.to_string())
        .collect();
    assert_eq!(sort_names(&names), vec![2, 1, 3, 0, 4, 5]);
    let mut expected: Vec<String> = names.clone();
    expected.sort();
    let got: Vec<String> = sort_names(&names)
        .into_iter()
        .map(|i| names[i].clone())
        .collect();
    assert_eq!(got, expected);
}

#[test]
fn positions_sort_by_key_and_stay_put_when_equal() {
    assert_eq!(
        sort_positions(&vec![3, 1, 3, -2], &vec![0, 1, 2, 3]),
        vec![3, 1, 0, 2]
    );
}

#[test]
fn products_are_compared_exactly() {
    assert!(product_le(u128::MAX, u128::MAX, u128::MAX, u128::MAX));
    assert!(!product_le(u128::MAX, u128::MAX, u128::MAX, u128::MAX - 1));
    assert!(product_le(3, 4, 2, 6));
    assert!(!product_le(3, 5, 2, 7));
}
