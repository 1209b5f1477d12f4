//! Free play: the bar over the keyboard that records, plays back and saves.
use vstd::prelude::*;

use crate::keyboard::KeyboardRange;
use crate::microphone::{DeviceAction, MicPassthrough};
use crate::midi_file::{MidiEvent, MidiFile};
use crate::midi_player::{sounds, PlaybackState, PlayerAction, Setup};
use crate::play_along::Along;
use crate::preview::{toggle_preview_playback, toggled, Preview};
use crate::recorder::{
    FreeplayRecorder, PreviewBar, PreviewClicks, PreviewMessage, RecordedTake, RecorderError,
    RecorderState, RecorderStatus, SavePlan,
};
use crate::song::{assignment, has_human, law_jam_modes_have_no_human_track, Song};
use crate::take::{VoicePlayback, VoiceTake};

verus! {

pub struct Freeplay {
    pub recorder: FreeplayRecorder,
    /// The take being played back, if it has notes.
    pub preview: Option<Preview>,
    pub status: RecorderStatus,
}

/// What a click on record asks for.
#[derive(Debug, Clone, Copy, PartialEq, Eq, Structural)]
pub enum RecordClick {
    /// See to the device; the take begins once that was tried. The keyboard is
    /// nobody's song any more, and the keys that the last one held down are to be
    /// let go.
    Starting { action: DeviceAction, lets_go: bool },
    /// See to the device. If there is a preview to make, read the notes of the
    /// take as a song.
    Stopped { action: DeviceAction, preview: bool },
}

/// What is to be done to the clock of the preview, and whether the keys that its
/// song holds down are to be let go.
#[derive(Debug)]
pub struct PlayerStep {
    pub actions: Vec<PlayerAction>,
    pub lets_go: bool,
}

/// What a frame of the bar asks for.
pub enum PreviewStep {
    Nothing,
    /// Leave free play.
    Leave,
    /// Ask where to save the take.
    Save(SavePlan),
    Record(RecordClick),
    Player(PlayerStep),
}

/// Whether nothing of a take is left to be played into the next one.
pub open spec fn unqueued(mic: MicPassthrough) -> bool {
    mic.sinks.monitor.preview.ring@.len() == 0
}

/// Whether two microphones differ in what they hold of the sound at most.
pub open spec fn same_device(before: MicPassthrough, after: MicPassthrough) -> bool {
    &&& after.open == before.open
    &&& after.passthrough == before.passthrough
    &&& after.level == before.level
    &&& after.rate == before.rate
    &&& after.error == before.error
}

/// Whether two microphones differ in what is queued for playback at most.
pub open spec fn same_but_queue(before: MicPassthrough, after: MicPassthrough) -> bool {
    &&& after.sinks.monitor.live == before.sinks.monitor.live
    &&& after.sinks.monitor.monitoring == before.sinks.monitor.monitoring
    &&& after.sinks.tape == before.sinks.tape
    &&& same_device(before, after)
}

impl Freeplay {
    /// A preview is only there for a take that is finished, and plays the sound of
    /// that take.
    pub open spec fn wf(self) -> bool {
        &&& self.recorder.wf()
        &&& self.preview is Some ==> {
            &&& self.preview->0.wf()
            &&& self.recorder.state matches RecorderState::Recorded(take)
            &&& (self.preview->0).audio is Some ==> take.audio is Some
                && ((self.preview->0).audio->0).cursor <= (take.audio->0).samples@.len()
        }
    }

    /// The sound of the take, if there is one.
    pub open spec fn sound(self) -> Seq<u32> {
        match self.recorder.state {
            RecorderState::Recorded(take) => match take.audio {
                Some(audio) => audio.samples@,
                None => Seq::empty(),
            },
            _ => Seq::empty(),
        }
    }

    pub fn new() -> (play: Self)
        ensures
            play.wf(),
            play.recorder.state is Idle,
            play.preview is None,
            play.status is Idle,
    {
        Freeplay {
            recorder: FreeplayRecorder::new(),
            preview: None,
            status: RecorderStatus::Idle,
        }
    }

    /// Whether `after` and `click` are what a click on record leaves. A take that
    /// is under way ends: its status is shown at once where there is nothing to
    /// play back. Otherwise the last take is put away before the next one starts,
    /// so that it is not still queued to play, and not still being recorded into
    /// the new one.
    pub open spec fn record_clicked(
        self,
        after: Freeplay,
        mic: MicPassthrough,
        mic_after: MicPassthrough,
        peak: u32,
        now: u64,
        click: RecordClick,
    ) -> bool {
        if self.recorder.state is Recording {
            &&& click matches RecordClick::Stopped { action, preview }
            &&& action == mic_after.due()
            &&& !mic_after.sinks.tape.armed
            &&& mic_after.sinks.tape.ring@.len() == 0
            &&& mic_after.sinks.tape.dropped == mic.sinks.tape.dropped
            &&& mic_after.sinks.monitor == mic.sinks.monitor
            &&& same_device(mic, mic_after)
            &&& after.preview is None
            &&& exists|result: Result<(), RecorderError>|
                {
                    &&& #[trigger] self.recorder.stops(after.recorder, mic, peak, now, result)
                    &&& preview == (result is Ok)
                }
            &&& if preview {
                after.status == self.status
            } else {
                after.status == RecorderStatus::Error(RecorderError::NoNotesFound)
            }
        } else {
            &&& click == (RecordClick::Starting {
                action: if mic.open {
                    DeviceAction::Nothing
                } else {
                    DeviceAction::Open
                },
                lets_go: true,
            })
            &&& after.recorder == self.recorder
            &&& after.preview is None
            &&& after.status is Idle
            &&& mic_after.sinks.tape.armed
            &&& mic_after.sinks.tape.ring@.len() == 0
            &&& !mic_after.sinks.tape.dropped
            &&& same_device(mic, mic_after)
            &&& mic_after.sinks.monitor.live == mic.sinks.monitor.live
            &&& mic_after.sinks.monitor.monitoring == mic.sinks.monitor.monitoring
            &&& if self.preview is Some && (self.preview->0).audio is Some {
                unqueued(mic_after) && !mic_after.sinks.monitor.preview.primed
            } else {
                mic_after.sinks.monitor == mic.sinks.monitor
            }
        }
    }

    /// A click on record. `peak` is the loudest that the microphone was during the
    /// take.
    pub fn handle_record_click(&mut self, mic: &mut MicPassthrough, peak: u32, now: u64) -> (click:
        RecordClick)
        requires
            old(self).wf(),
            old(mic).wf(),
        ensures
            final(self).wf(),
            final(mic).wf(),
            old(self).record_clicked(*final(self), *old(mic), *final(mic), peak, now, click),
    {
        if self.recorder.is_recording() {
            let (result, action) = self.recorder.stop(mic, peak, now);
            let ghost stopped = result;
            assert(old(self).recorder.stops(self.recorder, *old(mic), peak, now, stopped));
            return match result {
                Ok(_) => RecordClick::Stopped { action, preview: true },
                Err(error) => {
                    self.status = RecorderStatus::Error(error);
                    RecordClick::Stopped { action, preview: false }
                },
            };
        }
        let mut last: Option<Preview> = None;
        std::mem::swap(&mut last, &mut self.preview);
        if let Some(preview) = last {
            if let Some(audio) = preview.audio {
                audio.stop(&mut mic.sinks.monitor);
            }
        }
        self.status = RecorderStatus::Idle;
        RecordClick::Starting { action: mic.start_recording(), lets_go: true }
    }

    /// The device has been seen to: the take begins, with the microphone if it is
    /// open.
    pub fn start(&mut self, mic: &mut MicPassthrough, now: u64)
        requires
            old(self).wf(),
            old(self).preview is None,
            old(mic).wf(),
        ensures
            final(self).wf(),
            final(self).preview is None,
            final(self).status == old(self).status,
            final(self).recorder.state matches RecorderState::Recording(in_progress) && {
                &&& in_progress.started_at == now
                &&& in_progress.events@.len() == 0
                &&& in_progress.active_notes@.len() == 0
                &&& in_progress.audio@.len() == 0
                &&& in_progress.microphone == old(mic).open
            },
            final(mic).wf(),
            final(mic).sinks.tape.armed == (old(mic).sinks.tape.armed && old(mic).open),
            final(mic).sinks.tape.ring == old(mic).sinks.tape.ring,
            final(mic).sinks.tape.dropped == old(mic).sinks.tape.dropped,
            final(mic).sinks.monitor == old(mic).sinks.monitor,
            same_device(*old(mic), *final(mic)),
    {
        let microphone = mic.confirm_recording();
        self.recorder.begin(microphone, now);
    }

    /// The notes of the take have been read as a song, or could not be. With a
    /// song the preview is there, ready to play itself back: it never waits on
    /// user input, and no note of it is left to the player. The keys are let go for
    /// it.
    pub fn stop_recording(
        &mut self,
        song: Result<MidiFile, String>,
        range: KeyboardRange,
        separate_channels: bool,
        now: u64,
    ) -> (step: PlayerStep)
        requires
            old(self).wf(),
            old(self).preview is None,
        ensures
            final(self).wf(),
            final(self).recorder == old(self).recorder,
            match old(self).recorder.state {
                RecorderState::Recorded(take) => match (take.smf, song) {
                    (Some(_), Ok(file)) => {
                        &&& final(self).status == RecorderStatus::RecordingFinished(
                            take.duration,
                            take.outcome,
                        )
                        &&& final(self).preview matches Some(preview)
                        &&& preview.player.song.file == file
                        &&& preview.player.tracks() == assignment(file.tracks@, false)
                        &&& preview.player.setup() == (Setup {
                            range,
                            separate_channels,
                            hero: false,
                            jam: true,
                        })
                        &&& preview.player.play_along@ == Along::fresh()
                        &&& preview.player.playback == (PlaybackState {
                            time: 0,
                            leed_in: 0,
                            length: 0,
                            paused: false,
                            finished: false,
                        })
                        &&& preview.audio == (if take.audio is Some {
                            Some(VoicePlayback { cursor: 0, playing: false })
                        } else {
                            None
                        })
                        &&& step.lets_go
                        &&& step.actions@ == seq![
                            PlayerAction::Start { lead_in: 0 },
                            PlayerAction::SendPrograms { time: 0 },
                            PlayerAction::Advance { delta: 0 },
                            PlayerAction::StopAll,
                            PlayerAction::Pause,
                        ]
                    },
                    (Some(_), Err(why)) => {
                        &&& final(self).status == RecorderStatus::Error(
                            RecorderError::MidiFileParse(why),
                        )
                        &&& final(self).preview is None
                        &&& step.actions@.len() == 0 && !step.lets_go
                    },
                    (None, _) => {
                        &&& final(self).status == RecorderStatus::Error(
                            RecorderError::NoNotesFound,
                        )
                        &&& final(self).preview is None
                        &&& step.actions@.len() == 0 && !step.lets_go
                    },
                },
                _ => {
                    &&& final(self).status == RecorderStatus::Error(
                        RecorderError::NothingRecorded,
                    )
                    &&& final(self).preview is None
                    &&& step.actions@.len() == 0 && !step.lets_go
                },
            },
    {
        let file = match song {
            Ok(file) => file,
            Err(why) => {
                self.status = self.recorder.stopped_status(Ok(()), Err(why), now);
                return PlayerStep { actions: Vec::new(), lets_go: false };
            },
        };
        self.status = self.recorder.stopped_status(Ok(()), Ok(()), now);
        let (notes, sound) = match self.recorder.recorded() {
            Some(take) => (take.smf.is_some(), take.audio.is_some()),
            None => (false, false),
        };
        if !notes {
            return PlayerStep { actions: Vec::new(), lets_go: false };
        }
        let song = Song::new_all_auto(file);
        proof {
            law_jam_modes_have_no_human_track(file.tracks@);
        }
        let (preview, actions) = Preview::new(song, range, separate_channels, sound);
        self.preview = Some(preview);
        PlayerStep { actions, lets_go: true }
    }

    /// The preview after the clock has given out some events, if there is one; its
    /// sound is that of the take.
    pub fn update(&mut self, events: &[MidiEvent], mic: &mut MicPassthrough, now: u64) -> (actions:
        Vec<PlayerAction>)
        requires
            old(self).wf(),
            old(mic).wf(),
            old(self).preview is Some ==> forall|n: int|
                0 <= n < events@.len() ==> (#[trigger] events@[n]).track_id < (
                old(self).preview->0).player.tracks().len(),
        ensures
            final(mic).wf(),
            same_but_queue(*old(mic), *final(mic)),
            final(self).recorder == old(self).recorder,
            final(self).status == old(self).status,
            final(self).preview is Some <==> old(self).preview is Some,
            match old(self).preview {
                None => actions@.len() == 0 && *final(mic) == *old(mic),
                Some(was) => {
                    let next = final(self).preview->0;
                    &&& was.advances(
                        next,
                        events@,
                        old(self).sound(),
                        old(mic).sinks.monitor,
                        final(mic).sinks.monitor,
                        now,
                        actions@,
                    )
                    &&& next.player.play_along@.wrong_notes <= was.player.play_along@.wrong_notes
                        + 256
                    &&& next.player.play_along@.wrong_notes + 256 <= usize::MAX
                        ==> final(self).wf()
                },
            },
    {
        let mut shown: Option<Preview> = None;
        std::mem::swap(&mut shown, &mut self.preview);
        let mut preview = match shown {
            Some(preview) => preview,
            None => {
                return Vec::new();
            },
        };
        let actions = match self.recorder.recorded() {
            Some(RecordedTake { audio: Some(take), .. }) => preview.update(
                events,
                take,
                &mut mic.sinks.monitor,
                now,
            ),
            _ => {
                let silence = VoiceTake::new(Vec::new(), 1);
                preview.update(events, &silence, &mut mic.sinks.monitor, now)
            },
        };
        self.preview = Some(preview);
        actions
    }

    /// One frame of the bar: how it looks, and what the clicks on it ask for. The
    /// pointer stands at `x` on a progress bar of the given width.
    pub fn update_preview_ui(
        &mut self,
        clicks: PreviewClicks,
        x: i32,
        width: u32,
        mic: &mut MicPassthrough,
        peak: u32,
        now: u64,
    ) -> (frame: (PreviewBar, PreviewStep))
        requires
            old(self).wf(),
            old(mic).wf(),
        ensures
            final(self).wf(),
            final(mic).wf(),
            frame.0.of(
                old(self).recorder,
                old(self).status,
                match old(self).preview {
                    Some(preview) => Some(preview.player.playback.paused),
                    None => None,
                },
                now,
            ),
            match old(self).recorder.asked(clicks, old(self).preview is Some) {
                PreviewMessage::Nothing => frame.1 is Nothing && *final(self) == *old(self)
                    && *final(mic) == *old(mic),
                PreviewMessage::GoBack => frame.1 is Leave && *final(self) == *old(self)
                    && *final(mic) == *old(mic),
                PreviewMessage::Save => {
                    &&& frame.1 == PreviewStep::Save(old(self).recorder.plan())
                    &&& *final(self) == *old(self)
                    &&& *final(mic) == *old(mic)
                },
                PreviewMessage::TogglePlay => {
                    &&& frame.1 matches PreviewStep::Player(step)
                    &&& !step.lets_go
                    &&& toggled(old(self).preview, final(self).preview, step.actions@)
                    &&& final(self).recorder == old(self).recorder
                    &&& final(self).status == old(self).status
                    &&& *final(mic) == *old(mic)
                },
                PreviewMessage::Seek => {
                    &&& frame.1 matches PreviewStep::Player(step)
                    &&& old(self).sought(*final(self), x, width, *old(mic), *final(mic), step)
                },
                PreviewMessage::Record => {
                    &&& frame.1 matches PreviewStep::Record(click)
                    &&& old(self).record_clicked(
                        *final(self),
                        *old(mic),
                        *final(mic),
                        peak,
                        now,
                        click,
                    )
                },
            },
    {
        let paused = match &self.preview {
            Some(preview) => Some(preview.player.is_paused()),
            None => None,
        };
        let bar = self.recorder.preview_bar(&self.status, paused, now);
        let message = self.recorder.preview_message(clicks, paused.is_some());
        let step = match message {
            PreviewMessage::Nothing => PreviewStep::Nothing,
            PreviewMessage::GoBack => PreviewStep::Leave,
            PreviewMessage::Save => match self.recorder.plan_save() {
                Ok(plan) => PreviewStep::Save(plan),
                Err(_) => PreviewStep::Nothing,
            },
            PreviewMessage::TogglePlay => PreviewStep::Player(
                PlayerStep {
                    actions: toggle_preview_playback(&mut self.preview),
                    lets_go: false,
                },
            ),
            PreviewMessage::Seek => PreviewStep::Player(
                self.seek_preview_to_cursor(x, width, mic),
            ),
            PreviewMessage::Record => PreviewStep::Record(self.handle_record_click(mic, peak, now)),
        };
        (bar, step)
    }

    /// Jumps to where the pointer stands on a progress bar of the given width, and
    /// has the keys let go.
    pub fn seek_preview_to_cursor(&mut self, x: i32, width: u32, mic: &mut MicPassthrough) -> (
        step: PlayerStep)
        requires
            old(self).wf(),
            old(mic).wf(),
        ensures
            final(self).wf(),
            final(mic).wf(),
            old(self).sought(*final(self), x, width, *old(mic), *final(mic), step),
    {
        let den: u32 = if width == 0 {
            1
        } else {
            width
        };
        let num: u32 = if x <= 0 {
            0
        } else if x as u32 >= den {
            den
        } else {
            x as u32
        };
        let mut shown: Option<Preview> = None;
        std::mem::swap(&mut shown, &mut self.preview);
        let mut preview = match shown {
            Some(preview) => preview,
            None => {
                return PlayerStep { actions: Vec::new(), lets_go: false };
            },
        };
        let actions = match self.recorder.recorded() {
            Some(RecordedTake { audio: Some(take), .. }) => preview.seek(
                num,
                den,
                take,
                &mut mic.sinks.monitor,
            ),
            _ => {
                let silence = VoiceTake::new(Vec::new(), 1);
                preview.seek(num, den, &silence, &mut mic.sinks.monitor)
            },
        };
        proof {
            assert forall|total: int| total >= 0 implies #[trigger] (total * num) / (den as int)
                <= total by {
                assert((total * num) / (den as int) <= total) by (nonlinear_arith)
                    requires
                        0 <= num <= den,
                        den > 0,
                        total >= 0,
                ;
            }
        }
        self.preview = Some(preview);
        PlayerStep { actions, lets_go: true }
    }

    /// Whether `after` is the state after a jump: the song and the sound are sent
    /// the same fraction of their length.
    pub open spec fn sought(
        self,
        after: Freeplay,
        x: i32,
        width: u32,
        mic: MicPassthrough,
        mic_after: MicPassthrough,
        step: PlayerStep,
    ) -> bool {
        let (num, den) = fraction_at(x, width);
        &&& after.recorder == self.recorder
        &&& after.status == self.status
        &&& after.preview is Some <==> self.preview is Some
        &&& same_but_queue(mic, mic_after)
        &&& match self.preview {
            None => step.actions@.len() == 0 && !step.lets_go && mic_after == mic,
            Some(was) => {
                let next = after.preview->0;
                let time = (was.player.playback.length * num / den) as u64;
                &&& next.player == was.player
                &&& next.audio is Some <==> was.audio is Some
                &&& was.audio is None ==> mic_after == mic
                &&& was.audio is Some ==> {
                    &&& unqueued(mic_after) && !mic_after.sinks.monitor.preview.primed
                    &&& (next.audio->0).playing == (was.audio->0).playing
                    &&& self.recorder.state matches RecorderState::Recorded(take)
                    &&& (next.audio->0).cursor == (take.audio->0).samples@.len() * num / den
                }
                &&& step.lets_go
                &&& step.actions@ == seq![
                    PlayerAction::Seek { time },
                    PlayerAction::Discard,
                    PlayerAction::StopAll,
                    PlayerAction::SendPrograms { time },
                ]
            },
        }
    }
}

/// How far along a progress bar the pointer stands, as a fraction between nothing
/// and all of it.
pub open spec fn fraction_at(x: i32, width: u32) -> (int, int) {
    let den = if width == 0 {
        1
    } else {
        width as int
    };
    let num = if x <= 0 {
        0
    } else if x >= den {
        den
    } else {
        x as int
    };
    (num, den)
}

/// Only the sound of a preview is ever queued, and a click on record puts the
/// preview away: a take never begins while another is still to be heard.
pub proof fn law_a_new_take_starts_in_silence(
    before: Freeplay,
    after: Freeplay,
    mic: MicPassthrough,
    mic_after: MicPassthrough,
    peak: u32,
    now: u64,
    click: RecordClick,
)
    requires
        before.record_clicked(after, mic, mic_after, peak, now, click),
        click is Starting,
        before.preview is None || (before.preview->0).audio is None ==> unqueued(mic),
    ensures
        after.preview is None,
        unqueued(mic_after),
{
}

/// Stopping a take lets go of the microphone unless passthrough still wants it: a
/// device that is open is to be closed, and otherwise stays as it is.
pub proof fn law_stopping_releases_the_microphone(
    before: Freeplay,
    after: Freeplay,
    mic: MicPassthrough,
    mic_after: MicPassthrough,
    peak: u32,
    now: u64,
    click: RecordClick,
)
    requires
        before.record_clicked(after, mic, mic_after, peak, now, click),
        before.recorder.state is Recording,
        mic.open,
    ensures
        click matches RecordClick::Stopped { action, .. } && action == (if mic.passthrough {
            DeviceAction::Nothing
        } else {
            DeviceAction::Close
        }),
{
}

/// A preview plays itself: whatever its song holds, every event of it sounds, and
/// the song never waits for the player.
pub proof fn law_a_preview_plays_itself(
    file: MidiFile,
    event: MidiEvent,
    range: KeyboardRange,
    separate_channels: bool,
)
    requires
        event.track_id < file.tracks@.len(),
    ensures
        sounds(
            event,
            assignment(file.tracks@, false)[event.track_id as int].player,
            Setup { range, separate_channels, hero: false, jam: true },
        ).len() == 1,
        !has_human(assignment(file.tracks@, false)),
{
    law_jam_modes_have_no_human_track(file.tracks@);
}

/// The pointer picks the fraction of the bar to its left: none of it in front of the bar
/// and all of it behind.
pub proof fn law_where_the_pointer_stands(x: i32, width: u32)
    requires
        width > 0,
    ensures
        fraction_at(x, width).1 == width,
        0 <= x <= width ==> fraction_at(x, width).0 == x,
        x < 0 ==> fraction_at(x, width).0 == 0,
        x > width ==> fraction_at(x, width).0 == width,
{
}

/// A jump takes the song to where the pointer stands on the bar, to the nanosecond below,
/// and its sound to the sample below; the take itself and what is judged of it stay.
pub proof fn law_where_a_jump_goes(
    play: Freeplay,
    after: Freeplay,
    x: i32,
    width: u32,
    mic: MicPassthrough,
    mic_after: MicPassthrough,
    step: PlayerStep,
    time: u64,
)
    requires
        play.sought(after, x, width, mic, mic_after, step),
        play.preview is Some,
        0 <= x <= width,
        width > 0,
        step.actions@[0] == (PlayerAction::Seek { time }),
    ensures
        after.recorder == play.recorder,
        after.preview is Some,
        (after.preview->0).player == (play.preview->0).player,
        ({
            let length = (play.preview->0).player.playback.length as int;
            0 <= length * x - time * width < width
        }),
        (play.preview->0).audio is Some ==> {
            let total = play.sound().len() as int;
            let cursor = ((after.preview->0).audio->0).cursor as int;
            play.recorder.state is Recorded && play.recorder.state->Recorded_0.audio is Some
                ==> 0 <= total * x - cursor * width < width
        },
        step.actions@.len() == 4,
        step.actions@[2] == PlayerAction::StopAll,
        step.actions@[3] == (PlayerAction::SendPrograms { time }),
        step.lets_go,
{
    let (n, d) = (x as int, width as int);
    let length = (play.preview->0).player.playback.length as int;
    lemma_share_of(length, n, d);
    let total = play.sound().len() as int;
    lemma_share_of(total, n, d);
    assert(step.actions@[0] == (PlayerAction::Seek { time: (length * n / d) as u64 }));
}

proof fn lemma_share_of(total: int, num: int, den: int)
    requires
        total >= 0,
        0 <= num <= den,
        den > 0,
    ensures
        0 <= total * num / den <= total,
        0 <= total * num - (total * num / den) * den < den,
{
    let share = total * num / den;
    assert(0 <= share <= total && 0 <= total * num - share * den < den) by (nonlinear_arith)
        requires
            share == total * num / den,
            total >= 0,
            0 <= num <= den,
            den > 0,
    ;
}

/// A click on record ends the take that is under way and begins one otherwise. Either way
/// nothing is left of the last preview, the tape is empty, and the microphone records
/// exactly when a take begins.
pub proof fn law_what_the_record_button_does(
    play: Freeplay,
    after: Freeplay,
    mic: MicPassthrough,
    mic_after: MicPassthrough,
    peak: u32,
    now: u64,
    click: RecordClick,
)
    requires
        play.record_clicked(after, mic, mic_after, peak, now, click),
    ensures
        play.recorder.state is Recording <==> click is Stopped,
        after.preview is None,
        mic_after.sinks.tape.armed <==> click is Starting,
        mic_after.sinks.tape.ring@.len() == 0,
        mic_after.open == mic.open && mic_after.level == mic.level && mic_after.passthrough
            == mic.passthrough,
        click is Starting && !mic.open ==> click->Starting_action is Open,
        click is Starting && mic.open ==> click->Starting_action is Nothing,
        click is Starting ==> click->lets_go && after.status is Idle && after.recorder
            == play.recorder,
        mic_after.sinks.monitor.live == mic.sinks.monitor.live,
{
}

/// What is said of two microphones as the same device leaves none of its settings out.
pub proof fn law_what_a_take_leaves_of_the_microphone(before: MicPassthrough, after: MicPassthrough)
    ensures
        same_device(before, after) <==> after.open == before.open && after.passthrough
            == before.passthrough && after.level == before.level && after.rate == before.rate
            && after.error == before.error,
        same_but_queue(before, after) <==> same_device(before, after) && after.sinks.tape
            == before.sinks.tape && after.sinks.monitor.live == before.sinks.monitor.live
            && after.sinks.monitor.monitoring == before.sinks.monitor.monitoring,
{
}

} // verus!
