//! The crowd on the results screen: which reaction plays for which grade.
//!
//! Reactions are matched to grade bands by filename suffix: a file whose stem
//! ends in `_A` plays for any A grade, `_B` for B grades, and so on through `_C`,
//! `_D` and `_F`. Where several files answer one band, the first in alphabetical
//! order wins; where none does, the crowd stays silent.
use vstd::prelude::*;
use vstd::string::*;

verus! {

/// The letters of the grade bands.
pub open spec fn bands() -> Seq<char> {
    seq!['A', 'B', 'C', 'D', 'F']
}

/// Whether a file stem ends in an underscore and the letter of a band.
pub open spec fn answers(stem: Seq<char>, band: char) -> bool {
    stem.len() >= 2 && stem[stem.len() - 2] == '_' && stem.last() == band
}

/// Whether file `i` answers a band; a stem that is no text answers none.
pub open spec fn file_answers(stems: Seq<Option<String>>, i: int, band: char) -> bool {
    match stems[i] {
        Some(stem) => answers(stem@, band),
        None => false,
    }
}

/// Whether `winner` is the first file that answers a band, or there is none.
pub open spec fn wins(stems: Seq<Option<String>>, band: char, winner: Option<usize>) -> bool {
    match winner {
        Some(w) => {
            &&& w < stems.len()
            &&& file_answers(stems, w as int, band)
            &&& forall|i: int| 0 <= i < w ==> !file_answers(stems, i, band)
        },
        None => forall|i: int| 0 <= i < stems.len() ==> !file_answers(stems, i, band),
    }
}

/// One reaction for each band, by its place in the list of files.
#[derive(Debug)]
pub struct CrowdTracks {
    pub winners: [Option<usize>; 5],
}

/// What the crowd does.
#[derive(Debug, Clone, Copy, PartialEq, Eq, Structural)]
pub enum CrowdCue {
    /// There is no grade to react to.
    Silent,
    /// No file answers the band.
    NoTrack(char),
    Play(usize),
}

/// Looks for the first file that answers a band.
fn first_answer(stems: &[Option<String>], band: char) -> (winner: Option<usize>)
    ensures
        wins(stems@, band, winner),
{
    let mut i: usize = 0;
    while i < stems.len()
        invariant
            i <= stems@.len(),
            forall|j: int| 0 <= j < i ==> !file_answers(stems@, j, band),
        decreases stems@.len() - i,
    {
        if let Some(stem) = &stems[i] {
            let n: usize = stem.as_str().unicode_len();
            if n >= 2 && stem.as_str().get_char(n - 2) == '_' && stem.as_str().get_char(n - 1)
                == band {
                return Some(i);
            }
        }
        i = i + 1;
    }
    None
}

/// The place of a band among the bands.
fn band_index(band: char) -> (index: Option<usize>)
    ensures
        match index {
            Some(b) => b < 5 && bands()[b as int] == band,
            None => !bands().contains(band),
        },
{
    if band == 'A' {
        Some(0)
    } else if band == 'B' {
        Some(1)
    } else if band == 'C' {
        Some(2)
    } else if band == 'D' {
        Some(3)
    } else if band == 'F' {
        Some(4)
    } else {
        None
    }
}

impl CrowdTracks {
    /// Whether these are the reactions among the files with these stems.
    pub open spec fn chosen_from(self, stems: Seq<Option<String>>) -> bool {
        forall|b: int|
            0 <= b < 5 ==> wins(stems, #[trigger] bands()[b], self.winners@[b])
    }

    /// Picks the reactions out of a folder, given the stems of its files in
    /// alphabetical order.
    pub fn scan(stems: &[Option<String>]) -> (tracks: Self)
        ensures
            tracks.chosen_from(stems@),
    {
        let winners: [Option<usize>; 5] = [
            first_answer(stems, 'A'),
            first_answer(stems, 'B'),
            first_answer(stems, 'C'),
            first_answer(stems, 'D'),
            first_answer(stems, 'F'),
        ];
        CrowdTracks { winners }
    }

    /// The crowd reacts to a grade ("A++", "C-", "F", ...): its first letter is
    /// the band.
    pub fn crowd(&self, grade: &str) -> (cue: CrowdCue)
        ensures
            grade@.len() == 0 <==> cue == CrowdCue::Silent,
            grade@.len() > 0 && !bands().contains(grade@[0]) ==> cue == CrowdCue::NoTrack(
                grade@[0],
            ),
            forall|b: int|
                0 <= b < 5 && grade@.len() > 0 && grade@[0] == #[trigger] bands()[b] ==> cue == (
                match self.winners@[b] {
                    Some(w) => CrowdCue::Play(w),
                    None => CrowdCue::NoTrack(grade@[0]),
                }),
    {
        if grade.unicode_len() == 0 {
            return CrowdCue::Silent;
        }
        let band: char = grade.get_char(0);
        match band_index(band) {
            Some(b) => match self.winners[b] {
                Some(w) => CrowdCue::Play(w),
                None => CrowdCue::NoTrack(band),
            },
            None => {
                assert forall|b: int| 0 <= b < 5 implies band != #[trigger] bands()[b] by {
                    assert(bands().contains(bands()[b]));
                }
                CrowdCue::NoTrack(band)
            },
        }
    }
}

/// No file answers two bands.
pub proof fn law_a_file_answers_one_band(stem: Seq<char>, a: char, b: char)
    requires
        answers(stem, a),
        answers(stem, b),
    ensures
        a == b,
{
}

/// There is a band for each letter of the grades, A, B, C, D and F; a file answers a band
/// by an underscore and the letter at the very end of its name, and by nothing else.
pub proof fn law_files_answer_by_their_end(stem: Seq<char>, band: char, other: char)
    ensures
        bands() == seq!['A', 'B', 'C', 'D', 'F'],
        answers(stem.push('_').push(band), band),
        other != band ==> !answers(stem.push('_').push(band), other),
        stem.len() > 0 && stem.last() != '_' ==> !answers(stem.push(band), other),
        !answers(seq![band], other),
{
}

/// The first file in the list that answers a band plays for it.
pub proof fn law_the_first_answer_plays(tracks: CrowdTracks, stems: Seq<Option<String>>, b: int, i: int)
    requires
        tracks.chosen_from(stems),
        0 <= b < 5,
        0 <= i < stems.len(),
        file_answers(stems, i, bands()[b]),
    ensures
        tracks.winners@[b] is Some,
        tracks.winners@[b]->0 <= i,
        file_answers(stems, tracks.winners@[b]->0 as int, bands()[b]),
{
    assert(wins(stems, bands()[b], tracks.winners@[b]));
}

} // verus!
