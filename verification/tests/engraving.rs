use keyboard_hero::engrave::{
    detect_fifths, key_alterations, spell, step_of, Accidental, Head, Staff, Staves,
};
use keyboard_hero::midi_file::{MidiNote, Quarters};
use keyboard_hero::score::{engrave, Score};
use keyboard_hero::sheet::{
    accidental_glyph, ledger_steps, plan_stem, sheet_music, Glyph, SheetMusic,
};

const MS: u64 = 1_000_000;

fn note(midi: u8, start_ms: u64, dur_ms: u64) -> MidiNote {
    MidiNote {
        start: start_ms * MS,
        end: (start_ms + dur_ms) * MS,
        duration: dur_ms * MS,
        note: midi,
        velocity: 100,
        channel: 0,
        track_id: 0,
        track_color_id: 0,
    }
}

/// 120bpm 4/4: a bar every two seconds.
fn measures(n: usize) -> Vec<u64> {
    (0..n).map(|i| i as u64 * 2000 * MS).collect()
}

const FOUR: Quarters = Quarters { num: 4, den: 1 };

#[test]
fn middle_c_is_step_zero() {
    let alter = key_alterations(0);
    assert_eq!(spell(60, &alter), (0, None));
    // C5 is an octave up: seven staff positions.
    assert_eq!(spell(72, &alter).0, 7);
    // C3 is an octave down.
    assert_eq!(spell(48, &alter).0, -7);
}

#[test]
fn treble_and_bass_lines_land_where_they_should() {
    let alter = key_alterations(0);
    // E4, the bottom line of the treble staff.
    assert_eq!(spell(64, &alter).0, 2);
    // F5, the top line.
    assert_eq!(spell(77, &alter).0, 10);
    // G2, the bottom line of the bass staff.
    assert_eq!(spell(43, &alter).0, -10);
    // A3, the top line.
    assert_eq!(spell(57, &alter).0, -2);
}

#[test]
fn c_major_prints_sharps_for_black_keys() {
    let alter = key_alterations(0);
    let (step, acc) = spell(61, &alter); // C#4
    assert_eq!(step, 0);
    assert_eq!(acc, Some(Accidental::Sharp));
}

#[test]
fn key_signature_absorbs_its_own_accidentals() {
    // G major: one sharp, on F.
    let alter = key_alterations(1);
    let (step, acc) = spell(66, &alter); // F#4
    assert_eq!(step, 3, "F#4 sits on the F line, not somewhere else");
    assert_eq!(acc, None, "the key signature already says F is sharp");

    // ...and an F natural in G major has to be spelled out.
    let (step, acc) = spell(65, &alter); // F natural
    assert_eq!(step, 3);
    assert_eq!(acc, Some(Accidental::Natural));
}

#[test]
fn flat_keys_spell_with_flats() {
    // Eb major: three flats.
    let alter = key_alterations(-3);
    let (step, acc) = spell(63, &alter); // Eb4
    assert_eq!(step, 2, "Eb sits on the E line");
    assert_eq!(acc, None);

    // A note outside the key leans flat, not sharp.
    let (_, acc) = spell(66, &alter); // Gb4 / F#4
    assert_eq!(acc, Some(Accidental::Flat));
}

#[test]
fn octave_survives_b_sharp() {
    // B#3 (midi 60 spelled as B#) must stay in octave 3, not jump to 4.
    // Seven sharps puts B# in the key.
    let alter = key_alterations(7);
    let (step, acc) = spell(60, &alter);
    assert_eq!(acc, None);
    assert_eq!(step, -1, "B#3 is one position below middle C, not on it");
}

#[test]
fn detects_g_major() {
    // A G major scale.
    let notes: Vec<MidiNote> = [67, 69, 71, 72, 74, 76, 78, 79]
        .iter()
        .enumerate()
        .map(|(i, m)| note(*m, i as u64 * 500, 450))
        .collect();
    let pitches: Vec<u8> = notes.iter().map(|n| n.note).collect();
    assert_eq!(detect_fifths(&pitches), 1);
}

#[test]
fn detects_c_major_over_a_flashier_neighbour() {
    let notes: Vec<MidiNote> = [60, 62, 64, 65, 67, 69, 71, 72]
        .iter()
        .enumerate()
        .map(|(i, m)| note(*m, i as u64 * 500, 450))
        .collect();
    let pitches: Vec<u8> = notes.iter().map(|n| n.note).collect();
    assert_eq!(detect_fifths(&pitches), 0);
}

#[test]
fn durations_become_the_right_noteheads() {
    let m = measures(8);
    // At 120bpm a crotchet is 500ms; MIDI usually holds it for ~450ms.
    let notes = vec![
        note(60, 0, 450),     // crotchet
        note(62, 500, 220),   // quaver
        note(64, 1000, 900),  // minim
        note(65, 2000, 1900), // semibreve
    ];
    let score = engrave(&notes, &m, FOUR);
    assert_eq!(score.notes[0].head, Head::Black);
    assert!(!score.notes[0].dotted);
    assert_eq!(score.notes[1].head, Head::Black);
    assert_eq!(score.notes[2].head, Head::Half);
    assert_eq!(score.notes[3].head, Head::Whole);
}

#[test]
fn quavers_get_a_flag_and_semibreves_get_no_stem() {
    let m = measures(8);
    let score = engrave(&[note(72, 0, 220)], &m, FOUR);
    assert_eq!(score.stems.len(), 1);
    assert_eq!(score.stems[0].flags, 1);

    let score = engrave(&[note(72, 0, 1900)], &m, FOUR);
    assert!(score.stems.is_empty(), "semibreves are stemless");
}

#[test]
fn a_chord_shares_one_stem_and_offsets_its_seconds() {
    let m = measures(8);
    // C-D-E struck together: C/D are a second apart, D/E are too, but
    // only one of the pair may move.
    let score = engrave(
        &[note(60, 0, 450), note(62, 0, 450), note(64, 0, 450)],
        &m,
        FOUR,
    );
    assert_eq!(score.stems.len(), 1, "one stem for the whole chord");

    let shifted: Vec<bool> = score.notes.iter().map(|n| n.head_shift).collect();
    assert_eq!(shifted, vec![false, true, false]);
}

#[test]
fn hands_split_across_the_grand_staff() {
    let m = measures(8);
    let notes = vec![
        note(40, 0, 450),
        note(45, 0, 450),
        note(72, 0, 450),
        note(76, 0, 450),
    ];
    let score = engrave(&notes, &m, FOUR);
    assert_eq!(score.staves, Staves::Grand);
    assert_eq!(score.stems.len(), 2, "one stem per hand");
}

#[test]
fn a_right_hand_melody_gets_a_treble_staff_only() {
    let m = measures(8);
    let notes: Vec<MidiNote> = (0..16)
        .map(|i| note(72 + (i % 5) as u8, i as u64 * 250, 220))
        .collect();
    assert_eq!(engrave(&notes, &m, FOUR).staves, Staves::Treble);
}

#[test]
fn key_signature_is_written_in_the_usual_order() {
    let score = Score {
        fifths: 2,
        ..Default::default()
    };
    let sig = score.key_signature(Staff::Treble);
    // F# then C#, at their conventional heights.
    assert_eq!(sig[0], (10, Accidental::Sharp));
    assert_eq!(sig[1], (7, Accidental::Sharp));

    // The bass staff writes the same accidentals two octaves lower.
    let bass = score.key_signature(Staff::Bass);
    assert_eq!(bass[0].0, 10 - 14);
}

#[test]
fn drums_are_left_out() {
    let m = measures(8);
    let mut drum = note(38, 0, 100);
    drum.channel = 9;
    let score = engrave(&[drum, note(60, 0, 450)], &m, FOUR);
    assert_eq!(score.notes.len(), 1);
    assert_eq!(score.notes[0].step, 0, "the surviving note is middle C");
}

#[test]
fn follows_a_tempo_change() {
    // Bars of 2s then 1s: 120bpm, then twice that. The same 220ms of sound is
    // a quaver in the slow bar and a crotchet in the fast one, which is the
    // whole reason the beat length is read off the measure grid rather than
    // assumed.
    let m = vec![0, 2000 * MS, 3000 * MS, 4000 * MS];
    let score = engrave(&[note(60, 0, 220), note(62, 2000, 220)], &m, FOUR);
    assert_eq!(score.stems[0].flags, 1, "quaver in the slow bar");
    assert_eq!(score.stems[1].flags, 0, "crotchet in the fast bar");
}

#[test]
fn a_song_of_drums_is_blank() {
    let mut drum = note(38, 0, 100);
    drum.channel = 9;
    let score = engrave(&[drum], &measures(4), FOUR);
    assert!(score.notes.is_empty());
    assert!(score.stems.is_empty());
    assert!(score.barlines.is_empty());
    assert_eq!(score.fifths, 0);
    assert_eq!(score.staves, Staves::Grand);
}

#[test]
fn spelling_sounds_the_pitch_in_every_key() {
    let letters = [0, 2, 4, 5, 7, 9, 11];
    for fifths in -7..=7 {
        let alter = key_alterations(fifths);
        for midi in 21..=108u8 {
            let (step, acc) = spell(midi, &alter);
            let letter = step.rem_euclid(7) as usize;
            let bend = match acc {
                None => alter[letter],
                Some(Accidental::Flat) => -1,
                Some(Accidental::Natural) => 0,
                Some(Accidental::Sharp) => 1,
            };
            let pitch = 60 + 12 * step.div_euclid(7) + letters[letter] + bend;
            assert_eq!(pitch, midi as i32, "key {fifths}");
        }
    }
}

#[test]
fn a_step_counts_letters_from_middle_c() {
    assert_eq!(step_of(61, 1, 0), 0);
    assert_eq!(step_of(60, 1, 6), -1);
    assert_eq!(step_of(71, -1, 0), 7);
}

#[test]
fn flats_are_written_in_the_usual_order() {
    let score = Score {
        fifths: -3,
        ..Default::default()
    };
    let sig = score.key_signature(Staff::Treble);
    assert_eq!(
        sig,
        vec![
            (6, Accidental::Flat),
            (9, Accidental::Flat),
            (5, Accidental::Flat)
        ]
    );
}

#[test]
fn a_treble_strip_is_shallower_than_a_grand_one() {
    let m = measures(8);
    let treble = sheet_music(&[note(72, 0, 450)], &m, FOUR);
    let grand = sheet_music(&[note(40, 0, 450), note(72, 0, 450)], &m, FOUR);
    assert!(treble.height() < grand.height());
    assert!(!treble.is_empty());
    assert!(treble.y_of(10) < treble.y_of(2), "higher is higher");
    // Every line of the staff lies within the strip.
    for step in Staff::Treble.line_steps() {
        let y = treble.y_of(step);
        assert!(0 <= y && y <= treble.height());
    }
}

#[test]
fn staves_are_listed_from_the_top() {
    let grand = SheetMusic::for_score(Score::default());
    assert_eq!(grand.staves(), vec![Staff::Treble, Staff::Bass]);
    assert!(grand.is_empty());
    assert_eq!(SheetMusic::clef(Staff::Treble), (Glyph::ClefG, 4));
    assert_eq!(SheetMusic::clef(Staff::Bass), (Glyph::ClefF, -4));
}

#[test]
fn middle_c_hangs_on_a_ledger_line() {
    assert_eq!(ledger_steps(Staff::Treble, 0), vec![0]);
    assert_eq!(ledger_steps(Staff::Treble, 2), Vec::<i32>::new());
    assert_eq!(ledger_steps(Staff::Treble, 14), vec![12, 14]);
    assert_eq!(ledger_steps(Staff::Bass, 0), vec![0]);
}

#[test]
fn only_what_is_near_the_playhead_is_drawn() {
    let m = measures(200);
    let notes: Vec<MidiNote> = (0..200).map(|i| note(72, i * 1000, 450)).collect();
    let sheet = sheet_music(&notes, &m, FOUR);
    let plans = sheet.plan_notes(100_000_000_000);
    assert!(plans.len() > 1);
    assert!(plans.len() < 200);
    let stems = sheet.plan_stems(100_000_000_000);
    assert_eq!(stems.len(), plans.len());
    assert!(!plan_stem(&sheet.score.stems[150], 100_000_000_000).past);
    assert!(plan_stem(&sheet.score.stems[50], 100_000_000_000).past);
}

#[test]
fn accidentals_have_their_glyphs() {
    assert_eq!(accidental_glyph(Accidental::Sharp).codepoint(), 0xE262);
    assert_eq!(accidental_glyph(Accidental::Natural).codepoint(), 0xE261);
    assert_eq!(accidental_glyph(Accidental::Flat).codepoint(), 0xE260);
}
