//! Playing a finished recording back on screen.
use vstd::prelude::*;

use crate::keyboard::KeyboardRange;
use crate::microphone::Monitor;
use crate::midi_file::MidiEvent;
use crate::midi_player::{
    all_judged, all_sounds, MidiPlayer, PlaybackState, PlayerAction, Setup,
};
use crate::play_along::Along;
use crate::results::Fraction;
use crate::song::{has_human, Song, SongConfig, TrackConfig};
use crate::take::{less, top_up, VoicePlayback, VoiceTake};

verus! {

/// The ids of the tracks that are not shown.
pub open spec fn hidden(tracks: Seq<TrackConfig>) -> Seq<usize>
    decreases tracks.len(),
{
    if tracks.len() == 0 {
        Seq::empty()
    } else if tracks.last().visible {
        hidden(tracks.drop_last())
    } else {
        hidden(tracks.drop_last()).push(tracks.last().track_id)
    }
}

/// The ids of the tracks that are not shown.
pub fn hidden_tracks(config: &SongConfig) -> (ids: Vec<usize>)
    ensures
        ids@ == hidden(config.tracks@),
{
    let mut ids: Vec<usize> = Vec::new();
    let mut n: usize = 0;
    proof {
        assert(config.tracks@.take(0) =~= Seq::<TrackConfig>::empty());
    }
    while n < config.tracks.len()
        invariant
            n <= config.tracks@.len(),
            ids@ == hidden(config.tracks@.take(n as int)),
        decreases config.tracks@.len() - n,
    {
        proof {
            assert(config.tracks@.take(n + 1).drop_last() =~= config.tracks@.take(n as int));
        }
        if !config.tracks[n].visible {
            ids.push(config.tracks[n].track_id);
        }
        n = n + 1;
    }
    proof {
        assert(config.tracks@.take(n as int) =~= config.tracks@);
    }
    ids
}

/// A recording being played back.
pub struct Preview {
    pub player: MidiPlayer,
    /// The sound of the recording, played back through the synth's own stream.
    /// When this is present it is the only thing making a sound: the piano is
    /// already on it, and sounding the notes as well would lay a second
    /// performance over the first.
    pub audio: Option<VoicePlayback>,
}

impl Preview {
    pub open spec fn wf(self) -> bool {
        self.player.wf()
    }

    /// Whether what the player puts out is to be heard.
    pub open spec fn sounds_notes(self) -> bool {
        self.audio is None
    }

    /// Whether what the player puts out is to be heard.
    pub fn is_audible(&self) -> (audible: bool)
        ensures
            audible == self.sounds_notes(),
    {
        self.audio.is_none()
    }

    /// A preview of a song, without lead-in, paused at the start; with the sound
    /// of the recording if there is any.
    pub fn new(
        song: Song,
        range: KeyboardRange,
        separate_channels: bool,
        has_audio: bool,
    ) -> (made: (Self, Vec<PlayerAction>))
        requires
            song.wf(),
        ensures
            made.0.wf(),
            made.0.player.song == song,
            made.0.player.setup() == (Setup {
                range,
                separate_channels,
                hero: false,
                jam: !has_human(song.config.tracks@),
            }),
            made.0.player.play_along@ == Along::fresh(),
            made.0.player.playback == (PlaybackState {
                time: 0,
                leed_in: 0,
                length: 0,
                paused: false,
                finished: false,
            }),
            made.0.audio == (if has_audio {
                Some(VoicePlayback { cursor: 0, playing: false })
            } else {
                None
            }),
            made.1@ == seq![
                PlayerAction::Start { lead_in: 0 },
                PlayerAction::SendPrograms { time: 0 },
                PlayerAction::Advance { delta: 0 },
                PlayerAction::StopAll,
                PlayerAction::Pause,
            ],
    {
        let (mut player, mut actions) = MidiPlayer::new_with_lead_in(
            song,
            range,
            separate_channels,
            0,
        );
        let mut pause = player.pause();
        actions.append(&mut pause);
        assert(actions@ =~= seq![
            PlayerAction::Start { lead_in: 0 },
            PlayerAction::SendPrograms { time: 0 },
            PlayerAction::Advance { delta: 0 },
            PlayerAction::StopAll,
            PlayerAction::Pause,
        ]);
        let audio = if has_audio {
            Some(VoicePlayback::new())
        } else {
            None
        };
        (Preview { player, audio }, actions)
    }

    /// Whether `after` is the preview after the clock has given out some events, and
    /// `actions` what is to be done.
    pub open spec fn advances(
        self,
        after: Preview,
        events: Seq<MidiEvent>,
        sound: Seq<u32>,
        monitor: Monitor,
        monitor_after: Monitor,
        now: u64,
        actions: Seq<PlayerAction>,
    ) -> bool {
        let player = self.player;
        let ending = player.playback.finished && !player.playback.paused;
        let playing = !player.playback.finished && !player.playback.paused;
        &&& actions == all_sounds(events, player.tracks(), player.setup()) + (if ending {
            seq![PlayerAction::StopAll, PlayerAction::Pause]
        } else {
            Seq::empty()
        })
        &&& after.player.play_along@ == all_judged(
            player.play_along@.after_update(now, player.setup().jam),
            events,
            player.tracks(),
            player.setup(),
            now,
        )
        &&& after.player.setup() == player.setup()
        &&& after.player.song == player.song
        &&& after.player.playback == player.playback
        &&& after.audio is Some <==> self.audio is Some
        &&& self.audio is None ==> monitor_after == monitor
        &&& self.audio is Some ==> {
            let was = self.audio->0;
            let next = after.audio->0;
            let queued = monitor.preview.ring@;
            let n = top_up(queued.len() as int, sound.len() - was.cursor);
            &&& next.playing == playing
            &&& playing ==> next.cursor == was.cursor + n && monitor_after.preview.ring@ == queued
                + sound.subrange(was.cursor as int, was.cursor + n)
                && monitor_after.preview.primed == monitor.preview.primed
            &&& !playing && was.playing ==> next.cursor == less(
                was.cursor as int,
                queued.len() as int,
            ) && monitor_after.preview.ring@.len() == 0 && !monitor_after.preview.primed
            &&& !playing && !was.playing ==> next.cursor == was.cursor && monitor_after.preview
                == monitor.preview
        }
    }

    /// The preview after the clock has gone on and given out some events. At the
    /// end of the song the player is paused. The sound follows the notes rather
    /// than driving them: it starts and stops with whatever the player is doing.
    pub fn update(
        &mut self,
        events: &[MidiEvent],
        take: &VoiceTake,
        monitor: &mut Monitor,
        now: u64,
    ) -> (actions: Vec<PlayerAction>)
        requires
            old(self).wf(),
            old(monitor).wf(),
            old(self).audio is Some ==> (old(self).audio->0).cursor <= take.samples@.len(),
            forall|n: int|
                0 <= n < events@.len() ==> (#[trigger] events@[n]).track_id < old(self).player.tracks().len(),
        ensures
            final(monitor).wf(),
            final(monitor).live == old(monitor).live,
            final(monitor).monitoring == old(monitor).monitoring,
            old(self).advances(
                *final(self),
                events@,
                take.samples@,
                *old(monitor),
                *final(monitor),
                now,
                actions@,
            ),
            final(self).player.play_along@.wf(),
            final(self).player.play_along@.wrong_notes <= old(self).player.play_along@.wrong_notes
                + 256,
            final(self).audio is Some ==> (final(self).audio->0).cursor <= take.samples@.len(),
    {
        let mut actions = self.player.update(events, now);
        let ending = self.player.is_finished() && !self.player.is_paused();
        if ending {
            let mut pause = self.player.pause();
            actions.append(&mut pause);
        }
        let playing = !self.player.is_finished() && !self.player.is_paused();
        if let Some(audio) = self.audio {
            let mut audio = audio;
            audio.update(take, monitor, playing);
            self.audio = Some(audio);
        }
        assert(actions@ =~= all_sounds(events@, old(self).player.tracks(), old(self).player.setup())
            + (if ending {
            seq![PlayerAction::StopAll, PlayerAction::Pause]
        } else {
            Seq::empty()
        }));
        actions
    }

    /// Jumps to `num / den` of the way through. The sound is sent the same
    /// fraction rather than the same time: the take runs from the first key to
    /// the last and the sound from the start of recording to its end, so the two
    /// are the same length only by coincidence.
    pub fn seek(
        &mut self,
        num: u32,
        den: u32,
        take: &VoiceTake,
        monitor: &mut Monitor,
    ) -> (actions: Vec<PlayerAction>)
        requires
            old(monitor).wf(),
            num <= den,
            den > 0,
        ensures
            final(monitor).wf(),
            final(monitor).live == old(monitor).live,
            final(monitor).monitoring == old(monitor).monitoring,
            final(self).player == old(self).player,
            final(self).audio is Some <==> old(self).audio is Some,
            final(self).audio is Some ==> (final(self).audio->0).cursor == take.samples@.len() * num
                / (den as int) && (final(self).audio->0).playing == (old(self).audio->0).playing
                && final(monitor).preview.ring@.len() == 0 && !final(monitor).preview.primed,
            final(self).audio is None ==> *final(monitor) == *old(monitor),
            ({
                let time = (old(self).player.playback.length * num / (den as int)) as u64;
                actions@ == seq![
                    PlayerAction::Seek { time },
                    PlayerAction::Discard,
                    PlayerAction::StopAll,
                    PlayerAction::SendPrograms { time },
                ]
            }),
    {
        let actions = self.player.set_percentage_time(Fraction { num: num as u64, den: den as u64 });
        proof {
            let length = self.player.playback.length as int;
            assert(length * num / (den as int) <= length) by (nonlinear_arith)
                requires
                    0 <= num <= den,
                    den > 0,
                    length >= 0,
            ;
        }
        if let Some(audio) = self.audio {
            let mut audio = audio;
            audio.seek(take, monitor, num, den);
            proof {
                if num == den {
                    let total = take.samples@.len() as int;
                    assert(total * num / (den as int) == total) by (nonlinear_arith)
                        requires
                            num == den,
                            den > 0,
                    ;
                }
            }
            self.audio = Some(audio);
        }
        actions
    }
}

/// Whether `after` and `actions` are what starting or stopping a preview leaves.
pub open spec fn toggled(
    before: Option<Preview>,
    after: Option<Preview>,
    actions: Seq<PlayerAction>,
) -> bool {
    match (before, after) {
        (None, None) => actions.len() == 0,
        (Some(was), Some(next)) => {
            &&& next.wf()
            &&& next.audio == was.audio
            &&& next.player.song == was.player.song
            &&& next.player.setup() == was.player.setup()
            &&& next.player.playback == was.player.playback
            &&& next.player.play_along@ == (if was.player.playback.paused {
                was.player.play_along@.cleared()
            } else {
                was.player.play_along@
            })
            &&& actions == (if was.player.playback.paused {
                seq![PlayerAction::Resume]
            } else {
                seq![PlayerAction::StopAll, PlayerAction::Pause]
            })
        },
        _ => false,
    }
}

/// Starts or stops the preview, if there is one.
pub fn toggle_preview_playback(preview: &mut Option<Preview>) -> (actions: Vec<PlayerAction>)
    requires
        *old(preview) is Some ==> ((*old(preview))->0).wf(),
    ensures
        toggled(*old(preview), *final(preview), actions@),
{
    match preview {
        Some(preview) => preview.player.pause_resume(),
        None => Vec::new(),
    }
}

/// The ids are those of the tracks that are not shown, one by one.
pub proof fn law_hidden_tracks_are_listed_one_by_one(
    before: Seq<TrackConfig>,
    track: TrackConfig,
    after: Seq<TrackConfig>,
)
    ensures
        hidden(before + seq![track] + after) == hidden(before) + (if track.visible {
            Seq::<usize>::empty()
        } else {
            seq![track.track_id]
        }) + hidden(after),
    decreases after.len(),
{
    let all = before + seq![track] + after;
    if after.len() == 0 {
        assert(all.drop_last() =~= before);
        assert(hidden(all) =~= hidden(before) + (if track.visible {
            Seq::<usize>::empty()
        } else {
            seq![track.track_id]
        }) + hidden(after));
    } else {
        law_hidden_tracks_are_listed_one_by_one(before, track, after.drop_last());
        assert(all.drop_last() =~= before + seq![track] + after.drop_last());
        assert(hidden(all) =~= hidden(before) + (if track.visible {
            Seq::<usize>::empty()
        } else {
            seq![track.track_id]
        }) + hidden(after));
    }
}

/// A preview that stands still goes on, and one that plays is stopped and silenced; where
/// there is none, nothing happens. What is played and where it stands stays the same.
pub proof fn law_what_the_play_button_does(
    before: Option<Preview>,
    after: Option<Preview>,
    actions: Seq<PlayerAction>,
)
    requires
        toggled(before, after, actions),
    ensures
        before is None <==> after is None,
        before is None ==> actions.len() == 0,
        before is Some ==> {
            let (was, next) = (before->0, after->0);
            &&& was.player.playback.paused ==> actions == seq![PlayerAction::Resume]
            &&& !was.player.playback.paused ==> actions == seq![
                PlayerAction::StopAll,
                PlayerAction::Pause,
            ]
            &&& next.audio == was.audio
            &&& next.player.song == was.player.song
            &&& next.player.playback == was.player.playback
            &&& next.player.play_along@.wrong_notes == was.player.play_along@.wrong_notes
        },
{
}

/// The notes of a take are heard from the piano only where its sound is not played. The
/// player stops itself at the end of the song, and nowhere else; the sound plays while the
/// song does, and what was queued of it and not heard is played again later.
pub proof fn law_the_sound_follows_the_song(
    preview: Preview,
    after: Preview,
    events: Seq<MidiEvent>,
    sound: Seq<u32>,
    monitor: Monitor,
    monitor_after: Monitor,
    now: u64,
    actions: Seq<PlayerAction>,
)
    requires
        preview.advances(after, events, sound, monitor, monitor_after, now, actions),
        preview.audio is Some ==> (preview.audio->0).cursor <= sound.len(),
    ensures
        preview.sounds_notes() <==> preview.audio is None,
        ({
            let notes = all_sounds(events, preview.player.tracks(), preview.player.setup());
            let playback = preview.player.playback;
            &&& actions.take(notes.len() as int) == notes
            &&& playback.finished && !playback.paused ==> actions.skip(notes.len() as int) == seq![
                PlayerAction::StopAll,
                PlayerAction::Pause,
            ]
            &&& !playback.finished || playback.paused ==> actions == notes
        }),
        after.audio is Some <==> preview.audio is Some,
        preview.audio is Some ==> {
            let (was, next) = (preview.audio->0, after.audio->0);
            let playback = preview.player.playback;
            let queued = monitor.preview.ring@;
            &&& next.playing <==> !playback.finished && !playback.paused
            &&& next.playing ==> next.cursor >= was.cursor && monitor_after.preview.ring@.len()
                - queued.len() == next.cursor - was.cursor
            &&& was.playing && !next.playing && was.cursor >= queued.len() ==> next.cursor
                + queued.len() == was.cursor && monitor_after.preview.ring@.len() == 0
            &&& !was.playing && !next.playing ==> next.cursor == was.cursor
        },
{
    let notes = all_sounds(events, preview.player.tracks(), preview.player.setup());
    let ends = seq![PlayerAction::StopAll, PlayerAction::Pause];
    if preview.player.playback.finished && !preview.player.playback.paused {
        assert(actions =~= notes + ends);
        assert((notes + ends).take(notes.len() as int) =~= notes);
        assert((notes + ends).skip(notes.len() as int) =~= ends);
    } else {
        assert(notes + Seq::<PlayerAction>::empty() =~= notes);
        assert(actions.take(notes.len() as int) =~= notes);
    }
}

} // verus!
