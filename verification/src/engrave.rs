//! Turns a MIDI note list into something that can be drawn as notation.
//!
//! This is deliberately not a full engraver. The sheet bar lays notes out
//! proportionally in time, so measure widths, beaming, collision avoidance and
//! system breaks do not arise. What is left is the part that teaches sheet
//! reading:
//!
//! * which line or space a pitch sits on (diatonic spelling, aware of the key
//!   signature, so a G major song shows F# rather than "F, but sharp"),
//! * which notehead and flag a duration gets,
//! * treble against bass and the ledger lines in between.
use vstd::prelude::*;

verus! {

#[derive(Debug, Clone, Copy, PartialEq, Eq, Structural)]
pub enum Accidental {
    Flat,
    Natural,
    Sharp,
}

#[derive(Debug, Clone, Copy, PartialEq, Eq, Structural)]
pub enum Head {
    Whole,
    Half,
    Black,
}

#[derive(Debug, Clone, Copy, PartialEq, Eq, Structural)]
pub enum Staff {
    Treble,
    Bass,
}

/// Which staves the bar draws for a song.
#[derive(Debug, Clone, Copy, PartialEq, Eq, Structural)]
pub enum Staves {
    Treble,
    Bass,
    Grand,
}

impl Staff {
    pub open spec fn middle_line(self) -> int {
        match self {
            Staff::Treble => 6,
            Staff::Bass => -6,
        }
    }

    /// Staff position of the middle line, the one that flips stem direction:
    /// B4 on the treble staff, D3 on the bass staff.
    pub fn middle_line_step(self) -> (step: i32)
        ensures
            step == self.middle_line(),
    {
        match self {
            Staff::Treble => 6,
            Staff::Bass => -6,
        }
    }

    /// Positions of the five printed lines, low to high: two apart, around the
    /// middle line.
    pub fn line_steps(self) -> (steps: [i32; 5])
        ensures
            forall|n: int| 0 <= n < 5 ==> #[trigger] steps@[n] == self.middle_line() + 2 * (n - 2),
    {
        match self {
            Staff::Treble => [2, 4, 6, 8, 10],
            Staff::Bass => [-10, -8, -6, -4, -2],
        }
    }
}

impl Default for Staves {
    fn default() -> (staves: Self)
        ensures
            staves == Staves::Grand,
    {
        Staves::Grand
    }
}

impl Staves {
    pub open spec fn has(self, staff: Staff) -> bool {
        match self {
            Staves::Treble => staff == Staff::Treble,
            Staves::Bass => staff == Staff::Bass,
            Staves::Grand => true,
        }
    }

    pub fn contains(self, staff: Staff) -> (contained: bool)
        ensures
            contained == self.has(staff),
    {
        matches!(
            (self, staff),
            (Staves::Grand, _) | (Staves::Treble, Staff::Treble) | (Staves::Bass, Staff::Bass)
        )
    }

    /// Highest and lowest printed staff line, as staff positions.
    pub open spec fn lines(self) -> (int, int) {
        (
            if self == Staves::Bass {
                Staff::Bass.middle_line() + 4
            } else {
                Staff::Treble.middle_line() + 4
            },
            if self == Staves::Treble {
                Staff::Treble.middle_line() - 4
            } else {
                Staff::Bass.middle_line() - 4
            },
        )
    }

    /// Highest and lowest printed staff line, as staff positions.
    pub fn extent(self) -> (extent: (i32, i32))
        ensures
            extent.0 == self.lines().0,
            extent.1 == self.lines().1,
    {
        match self {
            Staves::Treble => (10, 2),
            Staves::Bass => (-2, -10),
            Staves::Grand => (10, -10),
        }
    }

    pub open spec fn min_padding(self) -> (int, int) {
        match self {
            Staves::Treble => (6, 2),
            Staves::Bass => (2, 6),
            Staves::Grand => (6, 6),
        }
    }

    /// Least room that must be left clear above and below the printed lines,
    /// whatever the song does. A G clef curls almost three staff spaces above
    /// the top line, so the treble staff can never have less than six positions
    /// of headroom.
    pub fn min_padding_steps(self) -> (padding: (i32, i32))
        ensures
            padding.0 == self.min_padding().0,
            padding.1 == self.min_padding().1,
    {
        match self {
            Staves::Treble => (6, 2),
            Staves::Bass => (2, 6),
            Staves::Grand => (6, 6),
        }
    }
}

/// Semitones above C of the natural note letters, C being letter 0.
pub open spec fn semitone(letter: int) -> int {
    if letter == 0 {
        0
    } else if letter == 1 {
        2
    } else if letter == 2 {
        4
    } else if letter == 3 {
        5
    } else if letter == 4 {
        7
    } else if letter == 5 {
        9
    } else {
        11
    }
}

fn semitone_of(letter: usize) -> (above: i32)
    requires
        letter < 7,
    ensures
        above == semitone(letter as int),
        0 <= above <= 11,
{
    match letter {
        0 => 0,
        1 => 2,
        2 => 4,
        3 => 5,
        4 => 7,
        5 => 9,
        _ => 11,
    }
}

/// When a letter picks up its sharp: key signatures add them in the order
/// F C G D A E B, and flats in the opposite order.
pub open spec fn sharp_rank(letter: int) -> int {
    if letter == 3 {
        0
    } else if letter == 0 {
        1
    } else if letter == 4 {
        2
    } else if letter == 1 {
        3
    } else if letter == 5 {
        4
    } else if letter == 2 {
        5
    } else {
        6
    }
}

/// Alteration a letter carries under a key signature of `fifths` sharps, or of
/// `-fifths` flats.
pub open spec fn alteration(fifths: int, letter: int) -> int {
    if sharp_rank(letter) < fifths {
        1
    } else if 6 - sharp_rank(letter) < -fifths {
        -1
    } else {
        0
    }
}

fn alteration_of(fifths: i32, rank: i32) -> (a: i32)
    requires
        0 <= rank <= 6,
    ensures
        a == (if rank < fifths {
            1
        } else if 6 - rank < -fifths {
            -1int
        } else {
            0
        }),
{
    if rank < fifths {
        1
    } else if fifths < rank - 6 {
        -1
    } else {
        0
    }
}

/// Alteration each letter carries under a key signature of `fifths`.
pub fn key_alterations(fifths: i32) -> (alter: [i32; 7])
    ensures
        forall|letter: int|
            0 <= letter < 7 ==> #[trigger] alter@[letter] == alteration(fifths as int, letter),
{
    [
        alteration_of(fifths, 1),
        alteration_of(fifths, 3),
        alteration_of(fifths, 5),
        alteration_of(fifths, 0),
        alteration_of(fifths, 2),
        alteration_of(fifths, 4),
        alteration_of(fifths, 6),
    ]
}

/// Whether `letter` altered by `a` is a note of pitch class `class`.
pub open spec fn sounds_as(class: int, letter: int, a: int) -> bool {
    (semitone(letter) + a) % 12 == class
}

/// The first letter from `letter` on that the key signature itself tunes to
/// pitch class `class`.
pub open spec fn letter_in_key(class: int, alter: Seq<i32>, letter: int) -> Option<int>
    decreases 7 - letter,
{
    if letter < 0 || letter >= 7 {
        None
    } else if sounds_as(class, letter, alter[letter] as int) {
        Some(letter)
    } else {
        letter_in_key(class, alter, letter + 1)
    }
}

/// The first letter from `letter` on that is a note of pitch class `class` when
/// its own alteration is replaced by `a`.
pub open spec fn letter_altered(class: int, alter: Seq<i32>, a: int, letter: int) -> Option<int>
    decreases 7 - letter,
{
    if letter < 0 || letter >= 7 {
        None
    } else if alter[letter] != a && sounds_as(class, letter, a) {
        Some(letter)
    } else {
        letter_altered(class, alter, a, letter + 1)
    }
}

/// The direction in which a key signature leans: up unless it has more flats
/// than sharps.
pub open spec fn lean(alter: Seq<i32>) -> int {
    if alter[0] + alter[1] + alter[2] + alter[3] + alter[4] + alter[5] + alter[6] >= 0 {
        1
    } else {
        -1
    }
}

/// Staff position of `midi` when spelled as `letter` altered by `a`, middle C
/// being 0.
pub open spec fn step_at(midi: int, a: int, letter: int) -> int {
    ((midi - a) / 12 - 1 - 4) * 7 + letter
}

/// The printed sign for an alteration.
pub open spec fn printed_sign(a: int) -> Accidental {
    if a == 1 {
        Accidental::Sharp
    } else if a == -1 {
        Accidental::Flat
    } else {
        Accidental::Natural
    }
}

/// Staff position and printed accidental of one pitch under a key signature.
///
/// A pitch that the key signature covers is printed without an accidental.
/// Outside the key, cancelling the signature comes first (an F natural in
/// G major is an F with a natural sign, never an E sharp), then the alteration
/// that the key leans towards, then the other one.
pub open spec fn spelling(midi: int, alter: Seq<i32>) -> (int, Option<Accidental>) {
    let class = midi % 12;
    match letter_in_key(class, alter, 0) {
        Some(letter) => (step_at(midi, alter[letter] as int, letter), None),
        None => match letter_altered(class, alter, 0, 0) {
            Some(letter) => (step_at(midi, 0, letter), Some(Accidental::Natural)),
            None => match letter_altered(class, alter, lean(alter), 0) {
                Some(letter) => (
                    step_at(midi, lean(alter), letter),
                    Some(printed_sign(lean(alter))),
                ),
                None => match letter_altered(class, alter, -lean(alter), 0) {
                    Some(letter) => (
                        step_at(midi, -lean(alter), letter),
                        Some(printed_sign(-lean(alter))),
                    ),
                    None => (step_at(midi, 0, 0), None),
                },
            },
        },
    }
}

/// A pitch class as a number from 0 to 11.
fn pitch_class(semitones: i32) -> (class: i32)
    ensures
        class == semitones % 12,
        0 <= class < 12,
{
    match semitones.checked_rem_euclid(12) {
        Some(class) => class,
        None => 0,
    }
}

/// Staff position of `midi` when spelled as `letter` altered by `a`.
///
/// Backing the alteration out first is what keeps B#3 and Cb4 on the right side
/// of the octave line.
pub fn step_of(midi: u8, a: i32, letter: usize) -> (step: i32)
    requires
        letter < 7,
        midi - a <= i32::MAX,
    ensures
        step == step_at(midi as int, a as int, letter as int),
{
    let natural: i32 = midi as i32 - a;
    let octave: i32 = match natural.checked_div_euclid(12) {
        Some(octaves) => octaves - 1,
        None => 0,
    };
    (octave - 4) * 7 + letter as i32
}

/// Looks for a letter that the replacement alteration `a` tunes to `class`.
fn find_altered(class: i32, alter: &[i32; 7], a: i32) -> (found: Option<usize>)
    requires
        -1 <= a <= 1,
    ensures
        match found {
            Some(letter) => letter < 7 && letter_altered(class as int, alter@, a as int, 0) == Some(
                letter as int,
            ),
            None => letter_altered(class as int, alter@, a as int, 0) is None,
        },
{
    let mut letter: usize = 0;
    while letter < 7
        invariant
            letter <= 7,
            -1 <= a <= 1,
            letter_altered(class as int, alter@, a as int, 0) == letter_altered(
                class as int,
                alter@,
                a as int,
                letter as int,
            ),
        decreases 7 - letter,
    {
        if alter[letter] != a && pitch_class(semitone_of(letter) + a) == class {
            return Some(letter);
        }
        letter = letter + 1;
    }
    None
}

/// Spells one MIDI pitch under a key signature.
///
/// Returns the staff position (0 is middle C) and the accidental that has to be
/// printed, which is `None` whenever the key signature already says it.
pub fn spell(midi: u8, alter: &[i32; 7]) -> (spelled: (i32, Option<Accidental>))
    requires
        forall|letter: int|
            0 <= letter < 7 ==> i32::MIN + 255 < #[trigger] alter@[letter] <= i32::MAX - 11,
    ensures
        spelled.0 == spelling(midi as int, alter@).0,
        spelled.1 == spelling(midi as int, alter@).1,
{
    let class: i32 = pitch_class(midi as i32);
    let mut letter: usize = 0;
    while letter < 7
        invariant
            letter <= 7,
            class == midi % 12,
            forall|l: int|
                0 <= l < 7 ==> i32::MIN + 255 < #[trigger] alter@[l] <= i32::MAX - 11,
            letter_in_key(class as int, alter@, 0) == letter_in_key(
                class as int,
                alter@,
                letter as int,
            ),
        decreases 7 - letter,
    {
        assert(i32::MIN + 255 < alter@[letter as int] <= i32::MAX - 11);
        if pitch_class(semitone_of(letter) + alter[letter]) == class {
            return (step_of(midi, alter[letter], letter), None);
        }
        letter = letter + 1;
    }

    if let Some(natural) = find_altered(class, alter, 0) {
        return (step_of(midi, 0, natural), Some(Accidental::Natural));
    }
    let total: i64 = alter[0] as i64 + alter[1] as i64 + alter[2] as i64 + alter[3] as i64
        + alter[4] as i64 + alter[5] as i64 + alter[6] as i64;
    let towards: i32 = if total >= 0 {
        1
    } else {
        -1
    };
    if let Some(leaning) = find_altered(class, alter, towards) {
        let sign = if towards == 1 {
            Accidental::Sharp
        } else {
            Accidental::Flat
        };
        return (step_of(midi, towards, leaning), Some(sign));
    }
    if let Some(other) = find_altered(class, alter, -towards) {
        let sign = if towards == 1 {
            Accidental::Flat
        } else {
            Accidental::Sharp
        };
        return (step_of(midi, -towards, other), Some(sign));
    }
    (step_of(midi, 0, 0), None)
}

/// The pitch that a staff position sounds when its letter is altered by `a`.
pub open spec fn pitch_at(step: int, a: int) -> int {
    (step / 7 + 5) * 12 + semitone(step % 7) + a
}

/// The alteration in force on a notehead: the printed one, or else that of the
/// key signature.
pub open spec fn sounded_alteration(
    step: int,
    accidental: Option<Accidental>,
    alter: Seq<i32>,
) -> int {
    match accidental {
        Some(Accidental::Sharp) => 1,
        Some(Accidental::Flat) => -1,
        Some(Accidental::Natural) => 0,
        None => alter[step % 7] as int,
    }
}

/// What a search of the key signature finds sounds the class, and it finds a
/// letter wherever there is one.
proof fn lemma_letter_in_key(class: int, alter: Seq<i32>, letter: int)
    requires
        0 <= letter <= 7,
    ensures
        match letter_in_key(class, alter, letter) {
            Some(l) => letter <= l < 7 && sounds_as(class, l, alter[l] as int),
            None => forall|l: int|
                letter <= l < 7 ==> !(#[trigger] sounds_as(class, l, alter[l] as int)),
        },
    decreases 7 - letter,
{
    if letter < 7 {
        lemma_letter_in_key(class, alter, letter + 1);
    }
}

/// What a search by replaced alteration finds sounds the class, and it finds a
/// letter wherever there is one.
proof fn lemma_letter_altered(class: int, alter: Seq<i32>, a: int, letter: int)
    requires
        0 <= letter <= 7,
    ensures
        match letter_altered(class, alter, a, letter) {
            Some(l) => letter <= l < 7 && alter[l] != a && sounds_as(class, l, a),
            None => forall|l: int|
                letter <= l < 7 ==> alter[l] == a || !(#[trigger] sounds_as(class, l, a)),
        },
    decreases 7 - letter,
{
    if letter < 7 {
        lemma_letter_altered(class, alter, a, letter + 1);
    }
}

/// The staff position of a spelling names its letter, and sounds the pitch.
proof fn lemma_step_at(midi: int, a: int, letter: int)
    requires
        0 <= letter < 7,
        sounds_as(midi % 12, letter, a),
    ensures
        step_at(midi, a, letter) % 7 == letter,
        pitch_at(step_at(midi, a, letter), a) == midi,
{
    let above = semitone(letter);
    let octaves = midi / 12 - (above + a) / 12;
    assert(0 <= above < 12);
    assert(midi == 12 * (midi / 12) + midi % 12);
    assert(above + a == 12 * ((above + a) / 12) + midi % 12);
    assert(midi - a == 12 * octaves + above);
    assert((midi - a) / 12 == octaves);
    let step = step_at(midi, a, letter);
    assert(step == 7 * (octaves - 5) + letter);
    assert(step / 7 == octaves - 5 && step % 7 == letter);
}

/// Whatever the key signature, one of the three alterations reaches every pitch
/// class that the signature itself leaves out.
proof fn lemma_every_class_is_reached(class: int, alter: Seq<i32>)
    requires
        0 <= class < 12,
        letter_in_key(class, alter, 0) is None,
        letter_altered(class, alter, 0, 0) is None,
    ensures
        letter_altered(class, alter, lean(alter), 0) is Some,
{
    lemma_letter_in_key(class, alter, 0);
    lemma_letter_altered(class, alter, 0, 0);
    lemma_letter_altered(class, alter, lean(alter), 0);
    assert forall|l: int| 0 <= l < 7 implies !(#[trigger] sounds_as(class, l, 0)) by {
        assert(!sounds_as(class, l, alter[l] as int));
    }
    assert(semitone(0) != class && semitone(1) != class && semitone(2) != class && semitone(3)
        != class && semitone(4) != class && semitone(5) != class && semitone(6) != class) by {
        assert(!sounds_as(class, 0, 0) && !sounds_as(class, 1, 0) && !sounds_as(class, 2, 0)
            && !sounds_as(class, 3, 0) && !sounds_as(class, 4, 0) && !sounds_as(class, 5, 0)
            && !sounds_as(class, 6, 0));
    }
    assert(class == 1 || class == 3 || class == 6 || class == 8 || class == 10);
    let up = if class == 1 {
        0int
    } else if class == 3 {
        1
    } else if class == 6 {
        3
    } else if class == 8 {
        4
    } else {
        5
    };
    let letter = if lean(alter) == 1 {
        up
    } else {
        up + 1
    };
    assert(sounds_as(class, letter, lean(alter)));
    assert(!sounds_as(class, letter, alter[letter] as int));
}

/// A spelled note sounds the pitch that was spelled, whatever the key
/// signature.
pub proof fn law_spelling_sounds_the_pitch(midi: u8, alter: Seq<i32>)
    requires
        alter.len() == 7,
    ensures
        ({
            let (step, accidental) = spelling(midi as int, alter);
            pitch_at(step, sounded_alteration(step, accidental, alter)) == midi
        }),
{
    lemma_spelling(midi, alter);
}

/// An accidental is printed exactly when no letter of the key signature sounds
/// the pitch, and then it differs from what the signature says of that letter.
pub proof fn law_accidental_only_outside_key(midi: u8, alter: Seq<i32>)
    requires
        alter.len() == 7,
    ensures
        ({
            let (step, accidental) = spelling(midi as int, alter);
            &&& accidental is None <==> exists|letter: int|
                0 <= letter < 7 && #[trigger] sounds_as(
                    midi as int % 12,
                    letter,
                    alter[letter] as int,
                )
            &&& accidental is Some ==> sounded_alteration(step, accidental, alter) != alter[step
                % 7]
        }),
{
    lemma_spelling(midi, alter);
    lemma_letter_in_key(midi as int % 12, alter, 0);
}

/// The letter, alteration and sign behind a spelling.
proof fn lemma_spelling(midi: u8, alter: Seq<i32>)
    requires
        alter.len() == 7,
    ensures
        ({
            let (step, accidental) = spelling(midi as int, alter);
            let a = sounded_alteration(step, accidental, alter);
            &&& pitch_at(step, a) == midi
            &&& accidental is None <==> letter_in_key(midi as int % 12, alter, 0) is Some
            &&& accidental is Some ==> a != alter[step % 7]
            &&& accidental is Some ==> -1 <= a <= 1
        }),
{
    let class = midi as int % 12;
    lemma_letter_in_key(class, alter, 0);
    if let Some(letter) = letter_in_key(class, alter, 0) {
        lemma_step_at(midi as int, alter[letter] as int, letter);
    } else {
        lemma_letter_altered(class, alter, 0, 0);
        if let Some(letter) = letter_altered(class, alter, 0, 0) {
            lemma_step_at(midi as int, 0, letter);
        } else {
            lemma_every_class_is_reached(class, alter);
            lemma_letter_altered(class, alter, lean(alter), 0);
            lemma_step_at(
                midi as int,
                lean(alter),
                letter_altered(class, alter, lean(alter), 0)->0,
            );
        }
    }
}

/// Whether the scale of a key signature holds pitch class `class`.
pub open spec fn in_scale(fifths: int, class: int) -> bool {
    exists|letter: int|
        0 <= letter < 7 && #[trigger] sounds_as(class, letter, alteration(fifths, letter))
}

/// How many of the pitches the scale of a key signature covers.
pub open spec fn covered(pitches: Seq<u8>, fifths: int) -> nat
    decreases pitches.len(),
{
    if pitches.len() == 0 {
        0
    } else {
        covered(pitches.drop_last(), fifths) + if in_scale(fifths, pitches.last() as int % 12) {
            1nat
        } else {
            0nat
        }
    }
}

/// How many accidentals a key signature has.
pub open spec fn signs(fifths: int) -> int {
    if fifths < 0 {
        -fifths
    } else {
        fifths
    }
}

/// How well a key signature fits: coverage first, then plainness.
pub open spec fn fit(pitches: Seq<u8>, fifths: int) -> int {
    covered(pitches, fifths) * 100 - signs(fifths)
}

/// Whether `fifths` is the signature with the best fit, the flattest of those
/// that fit equally well.
pub open spec fn is_best_fit(pitches: Seq<u8>, fifths: int) -> bool {
    &&& -7 <= fifths <= 7
    &&& forall|other: int| -7 <= other <= 7 ==> #[trigger] fit(pitches, other) <= fit(pitches, fifths)
    &&& forall|other: int| -7 <= other < fifths ==> #[trigger] fit(pitches, other) < fit(pitches, fifths)
}

/// Whether the letters altered by `alter` include pitch class `class`.
fn scale_has(alter: &[i32; 7], class: i32) -> (has: bool)
    requires
        forall|l: int| 0 <= l < 7 ==> -1 <= #[trigger] alter@[l] <= 1,
    ensures
        has == exists|letter: int|
            0 <= letter < 7 && #[trigger] sounds_as(class as int, letter, alter@[letter] as int),
{
    let mut letter: usize = 0;
    while letter < 7
        invariant
            letter <= 7,
            forall|l: int| 0 <= l < 7 ==> -1 <= #[trigger] alter@[l] <= 1,
            forall|l: int|
                0 <= l < letter ==> !(#[trigger] sounds_as(class as int, l, alter@[l] as int)),
        decreases 7 - letter,
    {
        assert(-1 <= alter@[letter as int] <= 1);
        if pitch_class(semitone_of(letter) + alter[letter]) == class {
            assert(sounds_as(class as int, letter as int, alter@[letter as int] as int));
            return true;
        }
        letter = letter + 1;
    }
    false
}

/// Counts the pitches that the scale of a key signature covers.
fn count_covered(pitches: &[u8], fifths: i32) -> (count: u64)
    ensures
        count == covered(pitches@, fifths as int),
        count <= pitches@.len(),
{
    let alter = key_alterations(fifths);
    let mut table: Vec<bool> = Vec::new();
    let mut class: i32 = 0;
    while class < 12
        invariant
            0 <= class <= 12,
            table.len() == class,
            forall|l: int| 0 <= l < 7 ==> #[trigger] alter@[l] == alteration(fifths as int, l),
            forall|c: int| 0 <= c < class ==> #[trigger] table@[c] == in_scale(fifths as int, c),
        decreases 12 - class,
    {
        let has = scale_has(&alter, class);
        proof {
            if has {
                let letter = choose|letter: int|
                    0 <= letter < 7 && #[trigger] sounds_as(
                        class as int,
                        letter,
                        alter@[letter] as int,
                    );
                assert(sounds_as(class as int, letter, alteration(fifths as int, letter)));
            } else {
                assert forall|letter: int| 0 <= letter < 7 implies !(#[trigger] sounds_as(
                    class as int,
                    letter,
                    alteration(fifths as int, letter),
                )) by {
                    assert(!sounds_as(class as int, letter, alter@[letter] as int));
                }
            }
        }
        table.push(has);
        class = class + 1;
    }
    let mut count: u64 = 0;
    let mut n: usize = 0;
    proof {
        assert(pitches@.take(0) =~= Seq::<u8>::empty());
    }
    while n < pitches.len()
        invariant
            n <= pitches@.len(),
            table.len() == 12,
            forall|c: int| 0 <= c < 12 ==> #[trigger] table@[c] == in_scale(fifths as int, c),
            count == covered(pitches@.take(n as int), fifths as int),
            count <= n,
        decreases pitches@.len() - n,
    {
        proof {
            assert(pitches@.take(n + 1).drop_last() =~= pitches@.take(n as int));
        }
        if table[(pitches[n] % 12) as usize] {
            count = count + 1;
        }
        n = n + 1;
    }
    proof {
        assert(pitches@.take(n as int) =~= pitches@);
    }
    count
}

/// Picks the key signature that spells the song with the fewest accidentals.
///
/// The winner is the signature whose scale covers the most notes actually
/// played, and ties go to the simpler signature, so a run of chromatic passing
/// notes cannot drag a C major tune off to five sharps.
pub fn detect_fifths(pitches: &[u8]) -> (fifths: i32)
    ensures
        is_best_fit(pitches@, fifths as int),
{
    let mut best: i32 = -7;
    let mut best_fit: i128 = count_covered(pitches, -7) as i128 * 100 - 7;
    let mut fifths: i32 = -6;
    while fifths <= 7
        invariant
            -6 <= fifths <= 8,
            -7 <= best < fifths,
            best_fit == fit(pitches@, best as int),
            forall|other: int|
                -7 <= other < fifths ==> #[trigger] fit(pitches@, other) <= fit(
                    pitches@,
                    best as int,
                ),
            forall|other: int|
                -7 <= other < best ==> #[trigger] fit(pitches@, other) < fit(pitches@, best as int),
        decreases 8 - fifths,
    {
        let plain: i128 = if fifths < 0 {
            -(fifths as i128)
        } else {
            fifths as i128
        };
        let this_fit: i128 = count_covered(pitches, fifths) as i128 * 100 - plain;
        assert(this_fit == fit(pitches@, fifths as int));
        if this_fit > best_fit {
            best_fit = this_fit;
            best = fifths;
        }
        fifths = fifths + 1;
    }
    best
}

/// No signature covers more notes than the chosen one.
pub proof fn law_best_fit_covers_most(pitches: Seq<u8>, fifths: int, other: int)
    requires
        is_best_fit(pitches, fifths),
        -7 <= other <= 7,
    ensures
        covered(pitches, other) <= covered(pitches, fifths),
{
    assert(fit(pitches, other) <= fit(pitches, fifths));
}

/// Among signatures that cover equally many notes the plainest is chosen.
pub proof fn law_best_fit_is_plainest(pitches: Seq<u8>, fifths: int, other: int)
    requires
        is_best_fit(pitches, fifths),
        -7 <= other <= 7,
        covered(pitches, other) == covered(pitches, fifths),
    ensures
        signs(fifths) <= signs(other),
{
    assert(fit(pitches, other) <= fit(pitches, fifths));
}

/// What the positions of the staff sound: middle C is 0, and the seven letters from
/// there on are C, D, E, F, G, A and B; seven positions are an octave, and an
/// alteration is a semitone.
pub proof fn law_positions_sound_their_letters(step: int, a: int)
    ensures
        pitch_at(0, 0) == 60,
        pitch_at(1, 0) == 62,
        pitch_at(2, 0) == 64,
        pitch_at(3, 0) == 65,
        pitch_at(4, 0) == 67,
        pitch_at(5, 0) == 69,
        pitch_at(6, 0) == 71,
        pitch_at(step + 7, a) == pitch_at(step, a) + 12,
        pitch_at(step, a) == pitch_at(step, 0) + a,
        pitch_at(step, 0) < pitch_at(step + 1, 0),
{
    assert((step + 7) / 7 == step / 7 + 1 && (step + 7) % 7 == step % 7);
    if step % 7 == 6 {
        assert((step + 1) / 7 == step / 7 + 1 && (step + 1) % 7 == 0);
    } else {
        assert((step + 1) / 7 == step / 7 && (step + 1) % 7 == step % 7 + 1);
    }
}

/// A key signature sharpens F, C, G, D, A, E and B in that order, one more letter for
/// each sharp, and flattens them in the opposite order; it never does both. C is
/// letter 0.
pub proof fn law_signatures_alter_letters_in_order(fifths: int)
    ensures
        alteration(fifths, 3) == 1 <==> fifths >= 1,
        alteration(fifths, 0) == 1 <==> fifths >= 2,
        alteration(fifths, 4) == 1 <==> fifths >= 3,
        alteration(fifths, 1) == 1 <==> fifths >= 4,
        alteration(fifths, 5) == 1 <==> fifths >= 5,
        alteration(fifths, 2) == 1 <==> fifths >= 6,
        alteration(fifths, 6) == 1 <==> fifths >= 7,
        alteration(fifths, 6) == -1 <==> fifths <= -1,
        alteration(fifths, 2) == -1 <==> fifths <= -2,
        alteration(fifths, 5) == -1 <==> fifths <= -3,
        alteration(fifths, 1) == -1 <==> fifths <= -4,
        alteration(fifths, 4) == -1 <==> fifths <= -5,
        alteration(fifths, 0) == -1 <==> fifths <= -6,
        alteration(fifths, 3) == -1 <==> fifths <= -7,
        forall|letter: int| 0 <= letter < 7 ==> -1 <= #[trigger] alteration(fifths, letter) <= 1,
{
}

/// Without signs the scale is that of the white keys, and each further sharp moves it
/// up by a fifth.
pub proof fn law_scales_go_by_fifths(fifths: int, class: int)
    requires
        -7 <= fifths < 7,
        0 <= class < 12,
    ensures
        in_scale(0, class) <==> class == 0 || class == 2 || class == 4 || class == 5 || class == 7
            || class == 9 || class == 11,
        in_scale(fifths, class) <==> in_scale(fifths + 1, (class + 7) % 12),
{
    lemma_in_scale(0, class);
    lemma_in_scale(fifths, class);
    lemma_in_scale(fifths + 1, (class + 7) % 12);
}

/// The scale of a signature, letter by letter.
proof fn lemma_in_scale(fifths: int, class: int)
    ensures
        in_scale(fifths, class) <==> sounds_as(class, 0, alteration(fifths, 0)) || sounds_as(
            class,
            1,
            alteration(fifths, 1),
        ) || sounds_as(class, 2, alteration(fifths, 2)) || sounds_as(
            class,
            3,
            alteration(fifths, 3),
        ) || sounds_as(class, 4, alteration(fifths, 4)) || sounds_as(
            class,
            5,
            alteration(fifths, 5),
        ) || sounds_as(class, 6, alteration(fifths, 6)),
{
}

/// The sign in front of a note: none for a pitch of the key; outside the key a
/// natural wherever the pitch is that of a letter without alteration; and else a
/// sharp where the signature has sharps or nothing, a flat where it has flats.
pub proof fn law_which_sign_is_printed(midi: u8, fifths: int)
    requires
        -7 <= fifths <= 7,
    ensures
        ({
            let alter = Seq::new(7, |letter: int| alteration(fifths, letter) as i32);
            let class = midi as int % 12;
            let white = class == 0 || class == 2 || class == 4 || class == 5 || class == 7 || class
                == 9 || class == 11;
            let sign = spelling(midi as int, alter).1;
            &&& in_scale(fifths, class) <==> sign is None
            &&& !in_scale(fifths, class) && white ==> sign == Some(Accidental::Natural)
            &&& !in_scale(fifths, class) && !white && fifths >= 0 ==> sign == Some(
                Accidental::Sharp,
            )
            &&& !in_scale(fifths, class) && !white && fifths < 0 ==> sign == Some(Accidental::Flat)
        }),
{
    let alter = Seq::new(7, |letter: int| alteration(fifths, letter) as i32);
    let class = midi as int % 12;
    lemma_in_scale(fifths, class);
    lemma_letter_in_key(class, alter, 0);
    lemma_letter_altered(class, alter, 0, 0);
    lemma_letter_altered(class, alter, lean(alter), 0);
    assert forall|l: int| 0 <= l < 7 implies #[trigger] alter[l] == alteration(fifths, l) by {}
    assert(alter[0] == alteration(fifths, 0) && alter[1] == alteration(fifths, 1) && alter[2]
        == alteration(fifths, 2) && alter[3] == alteration(fifths, 3) && alter[4] == alteration(
        fifths,
        4,
    ) && alter[5] == alteration(fifths, 5) && alter[6] == alteration(fifths, 6));
    assert(sounds_as(class, 0, alter[0] as int) || !sounds_as(class, 0, alter[0] as int));
    assert(lean(alter) == 1 <==> fifths >= 0);
    if letter_in_key(class, alter, 0) is None {
        assert(!sounds_as(class, 0, alter[0] as int) && !sounds_as(class, 1, alter[1] as int)
            && !sounds_as(class, 2, alter[2] as int) && !sounds_as(class, 3, alter[3] as int)
            && !sounds_as(class, 4, alter[4] as int) && !sounds_as(class, 5, alter[5] as int)
            && !sounds_as(class, 6, alter[6] as int));
        if letter_altered(class, alter, 0, 0) is None {
            assert forall|l: int| 0 <= l < 7 implies !(#[trigger] sounds_as(class, l, 0)) by {
                assert(!sounds_as(class, l, alter[l] as int));
            }
            assert(!sounds_as(class, 0, 0) && !sounds_as(class, 1, 0) && !sounds_as(class, 2, 0)
                && !sounds_as(class, 3, 0) && !sounds_as(class, 4, 0) && !sounds_as(class, 5, 0)
                && !sounds_as(class, 6, 0));
            lemma_every_class_is_reached(class, alter);
        }
    } else {
        let letter = letter_in_key(class, alter, 0)->0;
        assert(sounds_as(class, letter, alteration(fifths, letter)));
    }
}

/// The notes that a signature covers are counted one by one.
pub proof fn law_covered_notes_are_counted(before: Seq<u8>, pitch: u8, after: Seq<u8>, fifths: int)
    ensures
        covered(before + seq![pitch] + after, fifths) - covered(before + after, fifths) == (
        if in_scale(fifths, pitch as int % 12) {
            1int
        } else {
            0
        }),
        covered(Seq::empty(), fifths) == 0,
    decreases after.len(),
{
    let (more, fewer) = (before + seq![pitch] + after, before + after);
    if after.len() == 0 {
        assert(more.drop_last() =~= fewer);
    } else {
        law_covered_notes_are_counted(before, pitch, after.drop_last(), fifths);
        assert(more.drop_last() =~= before + seq![pitch] + after.drop_last());
        assert(fewer.drop_last() =~= before + after.drop_last());
    }
}

/// A chosen signature has at most seven signs; of two that cover equally many notes
/// with equally many signs it is the one with flats.
pub proof fn law_best_fit_breaks_ties_by_flats(pitches: Seq<u8>, fifths: int, other: int)
    requires
        is_best_fit(pitches, fifths),
        -7 <= other <= 7,
        covered(pitches, other) == covered(pitches, fifths),
        other == fifths || other == -fifths,
    ensures
        -7 <= fifths <= 7,
        fifths <= other,
        signs(fifths) == (if fifths < 0 {
            -fifths
        } else {
            fifths
        }),
{
    if other < fifths {
        assert(fit(pitches, other) < fit(pitches, fifths));
    }
}

/// The printed lines: the middle one of the treble staff is the B above middle C and
/// that of the bass staff the D below it, with two lines on either side, so that
/// middle C lies just between the two staves. A staff is printed where it is asked
/// for, and the clefs get their room.
pub proof fn law_where_the_staves_lie()
    ensures
        pitch_at(Staff::Treble.middle_line(), 0) == 71,
        pitch_at(Staff::Bass.middle_line(), 0) == 50,
        Staves::Treble.lines() == (10int, 2int),
        Staves::Bass.lines() == (-2int, -10int),
        Staves::Grand.lines() == (10int, -10int),
        Staves::Treble.min_padding() == (6int, 2int),
        Staves::Bass.min_padding() == (2int, 6int),
        Staves::Grand.min_padding() == (6int, 6int),
        Staves::Treble.has(Staff::Treble) && !Staves::Treble.has(Staff::Bass),
        Staves::Bass.has(Staff::Bass) && !Staves::Bass.has(Staff::Treble),
        Staves::Grand.has(Staff::Treble) && Staves::Grand.has(Staff::Bass),
{
}

/// No signature of up to seven signs fits better than the best, one that covers more notes
/// fits better whatever it looks like, and one that covers as many fits better with fewer
/// signs.
pub proof fn law_how_signatures_are_compared(pitches: Seq<u8>, a: int, b: int)
    requires
        -7 <= a <= 7,
        -7 <= b <= 7,
    ensures
        covered(pitches, a) > covered(pitches, b) ==> fit(pitches, a) > fit(pitches, b),
        covered(pitches, a) == covered(pitches, b) ==> (fit(pitches, a) > fit(pitches, b)
            <==> signs(a) < signs(b)),
        is_best_fit(pitches, a) ==> fit(pitches, b) <= fit(pitches, a),
        is_best_fit(pitches, a) && is_best_fit(pitches, b) ==> a == b,
{
    if is_best_fit(pitches, a) && is_best_fit(pitches, b) {
        if a < b {
            assert(fit(pitches, a) < fit(pitches, b));
        } else if b < a {
            assert(fit(pitches, b) < fit(pitches, a));
        }
    }
}

/// A signature has at most seven signs.
pub proof fn law_the_best_fit_is_a_signature(pitches: Seq<u8>, fifths: int)
    requires
        is_best_fit(pitches, fifths),
    ensures
        -7 <= fifths <= 7,
{
}

} // verus!
