//! A song and who performs each of its tracks.
use vstd::prelude::*;

use crate::midi_file::{MidiFile, MidiTrack};

verus! {

#[derive(Debug, Clone, Copy, PartialEq, Eq, Structural)]
pub enum PlayerConfig {
    Mute,
    Auto,
    Human,
}

/// Who performs the song, as chosen by the in-game toggle.
///
/// This is the high-level statement of intent; [`PlayerConfig`] is its per-track
/// consequence. HUMAN is expressed entirely in the track assignments, so it
/// travels with a song. HERO differs from AUTO only in muting the target notes.
#[derive(Debug, Clone, Copy, PartialEq, Eq, Structural)]
pub enum PerformMode {
    /// The song rolls but its target notes stay silent: the player supplies
    /// them. Graded like AUTO.
    Hero,
    /// The song plays itself audibly; the player may jam over the top and is
    /// graded on whatever they play. Never stalls.
    Auto,
    /// Classic play-along: the song stalls and waits for the player.
    Human,
}

#[derive(Debug, Clone, Copy, PartialEq, Eq, Structural)]
pub struct TrackConfig {
    pub track_id: usize,
    pub player: PlayerConfig,
    pub visible: bool,
}

#[derive(Debug)]
pub struct SongConfig {
    pub tracks: Vec<TrackConfig>,
}

/// The first melodic track from track `i` on.
pub open spec fn first_melodic(tracks: Seq<MidiTrack>, i: int) -> Option<int>
    decreases tracks.len() - i,
{
    if i < 0 || i >= tracks.len() {
        None
    } else if tracks[i].melodic() {
        Some(i)
    } else {
        first_melodic(tracks, i + 1)
    }
}

/// How track `i` is set up: with `human`, the first melodic track is the
/// player's; everything else accompanies, and drums are not shown.
pub open spec fn assigned(tracks: Seq<MidiTrack>, human: bool, i: int) -> TrackConfig {
    TrackConfig {
        track_id: tracks[i].track_id,
        player: if human && first_melodic(tracks, 0) == Some(i) {
            PlayerConfig::Human
        } else {
            PlayerConfig::Auto
        },
        visible: !tracks[i].only_drums(),
    }
}

/// The set-up of all tracks.
pub open spec fn assignment(tracks: Seq<MidiTrack>, human: bool) -> Seq<TrackConfig> {
    Seq::new(tracks.len(), |i: int| assigned(tracks, human, i))
}

/// Whether some track is the player's.
pub open spec fn has_human(tracks: Seq<TrackConfig>) -> bool {
    exists|i: int| 0 <= i < tracks.len() && (#[trigger] tracks[i]).player == PlayerConfig::Human
}

impl Default for SongConfig {
    fn default() -> (config: Self)
        ensures
            config.tracks@.len() == 0,
    {
        SongConfig { tracks: Vec::new() }
    }
}

/// Looks for the first melodic track.
pub fn find_first_melodic(tracks: &[MidiTrack]) -> (found: Option<usize>)
    ensures
        match found {
            Some(i) => i < tracks@.len() && first_melodic(tracks@, 0) == Some(i as int),
            None => first_melodic(tracks@, 0) is None,
        },
{
    let mut i: usize = 0;
    while i < tracks.len()
        invariant
            i <= tracks@.len(),
            first_melodic(tracks@, 0) == first_melodic(tracks@, i as int),
        decreases tracks@.len() - i,
    {
        if tracks[i].is_melodic() {
            return Some(i);
        }
        i = i + 1;
    }
    None
}

impl SongConfig {
    /// Track assignments for a song about to be performed in `mode`. Only HUMAN
    /// wants a Human track; the jam modes leave everything on Auto.
    pub fn for_mode(tracks: &[MidiTrack], mode: PerformMode) -> (config: Self)
        ensures
            config.tracks@ == assignment(tracks@, mode == PerformMode::Human),
    {
        SongConfig::new(tracks, mode == PerformMode::Human)
    }

    /// With `default_human`, the first melodic track defaults to Human so that
    /// play-along scoring works out of the box; everything else accompanies.
    pub fn new(tracks: &[MidiTrack], default_human: bool) -> (config: Self)
        ensures
            config.tracks@ == assignment(tracks@, default_human),
    {
        let human: Option<usize> = if default_human {
            find_first_melodic(tracks)
        } else {
            None
        };
        let mut configs: Vec<TrackConfig> = Vec::new();
        let mut i: usize = 0;
        while i < tracks.len()
            invariant
                i <= tracks@.len(),
                match human {
                    Some(h) => default_human && first_melodic(tracks@, 0) == Some(h as int),
                    None => !default_human || first_melodic(tracks@, 0) is None,
                },
                configs@.len() == i,
                forall|j: int|
                    0 <= j < i ==> #[trigger] configs@[j] == assigned(tracks@, default_human, j),
            decreases tracks@.len() - i,
        {
            let mine = match human {
                Some(h) => h == i,
                None => false,
            };
            let player = if mine {
                PlayerConfig::Human
            } else {
                PlayerConfig::Auto
            };
            let track = &tracks[i];
            configs.push(
                TrackConfig { track_id: track.track_id, player, visible: !track.is_drums() },
            );
            i = i + 1;
        }
        assert(configs@ =~= assignment(tracks@, default_human));
        SongConfig { tracks: configs }
    }
}

#[derive(Debug)]
pub struct Song {
    pub file: MidiFile,
    pub config: SongConfig,
}

impl Song {
    /// Every track of the file has its set-up.
    pub open spec fn wf(self) -> bool {
        self.config.tracks@.len() == self.file.tracks@.len()
    }

    /// Loads a song to be performed in `mode`, the mode the player last chose, so
    /// that picking a new song does not silently put them back in another one.
    pub fn new(file: MidiFile, mode: PerformMode) -> (song: Self)
        ensures
            song.file == file,
            song.config.tracks@ == assignment(file.tracks@, mode == PerformMode::Human),
            song.wf(),
    {
        let config = SongConfig::for_mode(file.tracks.as_slice(), mode);
        Song { file, config }
    }

    /// All tracks on Auto, for playback that must not wait on user input.
    pub fn new_all_auto(file: MidiFile) -> (song: Self)
        ensures
            song.file == file,
            song.config.tracks@ == assignment(file.tracks@, false),
            song.wf(),
    {
        let config = SongConfig::new(file.tracks.as_slice(), false);
        Song { file, config }
    }
}

/// What the search for a melodic track finds is the first one there is.
pub proof fn lemma_first_melodic(tracks: Seq<MidiTrack>, i: int)
    requires
        0 <= i <= tracks.len(),
    ensures
        match first_melodic(tracks, i) {
            Some(f) => i <= f < tracks.len() && tracks[f].melodic() && forall|j: int|
                i <= j < f ==> !(#[trigger] tracks[j]).melodic(),
            None => forall|j: int| i <= j < tracks.len() ==> !(#[trigger] tracks[j]).melodic(),
        },
    decreases tracks.len() - i,
{
    if i < tracks.len() {
        lemma_first_melodic(tracks, i + 1);
    }
}

/// A song loaded for HUMAN has a Human track exactly when it has a melodic one,
/// and then only one: a drums-only track at the top is not handed to the player.
pub proof fn law_human_gets_one_melodic_track(tracks: Seq<MidiTrack>)
    ensures
        has_human(assignment(tracks, true)) <==> exists|j: int|
            0 <= j < tracks.len() && (#[trigger] tracks[j]).melodic(),
        forall|i: int, j: int|
            0 <= i < tracks.len() && 0 <= j < tracks.len() && (#[trigger] assignment(
                tracks,
                true,
            )[i]).player == PlayerConfig::Human && (#[trigger] assignment(tracks, true)[j]).player
                == PlayerConfig::Human ==> i == j,
        forall|i: int|
            0 <= i < tracks.len() && (#[trigger] assignment(tracks, true)[i]).player
                == PlayerConfig::Human ==> tracks[i].melodic(),
{
    lemma_first_melodic(tracks, 0);
    if let Some(f) = first_melodic(tracks, 0) {
        assert(assignment(tracks, true)[f].player == PlayerConfig::Human);
    }
}

/// A song loaded for a jam mode has no Human track.
pub proof fn law_jam_modes_have_no_human_track(tracks: Seq<MidiTrack>)
    ensures
        !has_human(assignment(tracks, false)),
{
}

} // verus!
