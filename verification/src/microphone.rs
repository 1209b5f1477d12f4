//! The microphone: what it hears mixed into the piano so you can sing along, and
//! kept so that free play can record you doing it.
//!
//! Samples are the bit patterns of 32-bit floats. Bits 0 are silence.
use vstd::prelude::*;

use crate::ring::Ring;

verus! {

/// Frames per callback to ask the capture device for.
pub const TARGET_BUFFER_FRAMES: u32 = 128;

/// Samples of head start the synth waits for before it starts draining, and again
/// after any underrun.
pub const PREFILL: usize = 256;

/// How far ahead capture is allowed to get.
pub const MAX_FILL: usize = 1024;

/// Live monitoring ring capacity.
pub const RING_CAPACITY: usize = 8192;

/// How much of a take may be queued ahead for the synth to play back.
pub const PREVIEW_CAPACITY: usize = 4096;

/// How much of a recording may sit waiting to be collected by the frame loop.
pub const TAPE_CAPACITY: usize = 131072;

/// How many samples of a take to keep queued ahead of the synth.
pub const PREVIEW_FILL: usize = 2048;

/// A ring the synth reads from, with the rule that makes it listenable: stay
/// silent until enough has built up to keep going.
pub struct Source {
    pub ring: Ring,
    pub primed: bool,
}

impl Source {
    pub open spec fn wf(self) -> bool {
        self.ring.wf()
    }

    /// Whether the next read gives a sample: the source is already running, or
    /// its head start has built up, and it has not run dry.
    pub open spec fn gives(self) -> bool {
        (self.primed || self.ring@.len() >= PREFILL) && self.ring@.len() > 0
    }

    pub fn new(capacity: usize, ceiling: usize) -> (source: Self)
        ensures
            source.wf(),
            !source.primed,
            source.ring@ == Seq::<u32>::empty(),
            source.ring.limit() == (if ceiling < capacity {
                ceiling
            } else {
                capacity
            }),
    {
        Source { ring: Ring::new(capacity, ceiling), primed: false }
    }

    /// The next sample, or silence when there is nothing to give.
    pub fn next(&mut self) -> (sample: u32)
        requires
            old(self).wf(),
        ensures
            final(self).wf(),
            final(self).ring.limit() == old(self).ring.limit(),
            old(self).gives() ==> sample == old(self).ring@[0] && final(self).ring@
                == old(self).ring@.skip(1) && final(self).primed,
            !old(self).gives() ==> sample == 0 && final(self).ring@ == old(self).ring@
                && !final(self).primed,
    {
        if !self.primed {
            if self.ring.len() < PREFILL {
                return 0;
            }
            self.primed = true;
        }
        match self.ring.pop() {
            Some(sample) => sample,
            None => {
                self.primed = false;
                0
            },
        }
    }

    /// Drops anything still queued and says how much was dropped, so the sound
    /// stops at once rather than trickling out the last few milliseconds.
    pub fn reset(&mut self) -> (dropped: usize)
        requires
            old(self).wf(),
        ensures
            final(self).wf(),
            final(self).ring.limit() == old(self).ring.limit(),
            final(self).ring@ == Seq::<u32>::empty(),
            !final(self).primed,
            dropped == old(self).ring@.len(),
    {
        self.primed = false;
        self.ring.clear()
    }
}

/// What the synth reads the microphone from.
///
/// Two things can want to be heard, and they are summed rather than switched
/// between: the microphone as it is heard now, and a recorded take being played
/// back.
pub struct Monitor {
    /// Fed by the capture callback while passthrough is switched on.
    pub live: Source,
    /// Whether the live half is wanted. The microphone may be open purely to
    /// record, in which case it is captured and kept but not heard.
    pub monitoring: bool,
    /// Fed a frame at a time by [`VoicePlayback`].
    pub preview: Source,
}

impl Monitor {
    pub open spec fn wf(self) -> bool {
        &&& self.live.wf()
        &&& self.preview.wf()
        &&& self.live.ring.limit() == MAX_FILL
        &&& self.preview.ring.limit() == PREVIEW_CAPACITY
        &&& !self.monitoring ==> self.live.ring@.len() == 0
    }

    pub fn new() -> (monitor: Self)
        ensures
            monitor.wf(),
            !monitor.monitoring,
            !monitor.live.primed,
            !monitor.preview.primed,
            monitor.live.ring@ == Seq::<u32>::empty(),
            monitor.preview.ring@ == Seq::<u32>::empty(),
    {
        Monitor {
            live: Source::new(RING_CAPACITY, MAX_FILL),
            monitoring: false,
            preview: Source::new(PREVIEW_CAPACITY, PREVIEW_CAPACITY),
        }
    }

    /// The next sample of each half, to be summed onto the output; silence where
    /// a half has nothing to add.
    pub fn next(&mut self) -> (samples: (u32, u32))
        requires
            old(self).wf(),
        ensures
            final(self).wf(),
            final(self).monitoring == old(self).monitoring,
            old(self).live.gives() ==> samples.0 == old(self).live.ring@[0] && final(self).live.ring@ == old(self).live.ring@.skip(1) && final(self).live.primed,
            !old(self).live.gives() ==> samples.0 == 0 && final(self).live.ring@
                == old(self).live.ring@ && !final(self).live.primed,
            old(self).preview.gives() ==> samples.1 == old(self).preview.ring@[0] && final(self).preview.ring@ == old(self).preview.ring@.skip(1) && final(self).preview.primed,
            !old(self).preview.gives() ==> samples.1 == 0 && final(self).preview.ring@
                == old(self).preview.ring@ && !final(self).preview.primed,
    {
        (self.live.next(), self.preview.next())
    }

    /// Capture side. Does nothing unless passthrough is switched on, so recording
    /// with monitoring off puts nothing in the ring to go stale.
    pub fn push_live(&mut self, sample: u32)
        requires
            old(self).wf(),
        ensures
            final(self).wf(),
            final(self).monitoring == old(self).monitoring,
            final(self).preview == old(self).preview,
            final(self).live.primed == old(self).live.primed,
            final(self).live.ring@ == (if old(self).monitoring && old(self).live.ring@.len()
                < MAX_FILL {
                old(self).live.ring@.push(sample)
            } else {
                old(self).live.ring@
            }),
    {
        if self.monitoring {
            let _taken = self.live.ring.push(sample);
        }
    }

    /// Starts or stops feeding the live half. Switching off empties it, so the
    /// sound stops with the click rather than a buffer later.
    pub fn set_monitoring(&mut self, monitoring: bool)
        requires
            old(self).wf(),
        ensures
            final(self).wf(),
            final(self).monitoring == monitoring,
            final(self).preview == old(self).preview,
            monitoring ==> final(self).live == old(self).live,
            !monitoring ==> final(self).live.ring@.len() == 0 && !final(self).live.primed,
    {
        self.monitoring = monitoring;
        if !monitoring {
            let _dropped = self.live.reset();
        }
    }
}

/// Where a recording accumulates between the capture callback, which cannot
/// allocate, and the frame loop, which can.
pub struct Tape {
    pub ring: Ring,
    pub armed: bool,
    /// Set if the ring ever filled before the frame loop got back to it, which
    /// means that the take has a gap in it.
    pub dropped: bool,
}

impl Tape {
    pub open spec fn wf(self) -> bool {
        self.ring.wf() && self.ring.limit() == TAPE_CAPACITY
    }

    pub fn new() -> (tape: Self)
        ensures
            tape.wf(),
            !tape.armed,
            !tape.dropped,
            tape.ring@ == Seq::<u32>::empty(),
    {
        Tape { ring: Ring::new(TAPE_CAPACITY, TAPE_CAPACITY), armed: false, dropped: false }
    }

    pub fn is_armed(&self) -> (armed: bool)
        ensures
            armed == self.armed,
    {
        self.armed
    }

    /// Capture side, called for every sample whether armed or not.
    pub fn push(&mut self, sample: u32)
        requires
            old(self).wf(),
        ensures
            final(self).wf(),
            final(self).armed == old(self).armed,
            ({
                let room = old(self).ring@.len() < TAPE_CAPACITY;
                &&& final(self).ring@ == (if old(self).armed && room {
                    old(self).ring@.push(sample)
                } else {
                    old(self).ring@
                })
                &&& final(self).dropped == (old(self).dropped || (old(self).armed && !room))
            }),
    {
        if self.is_armed() {
            if !self.ring.push(sample) {
                self.dropped = true;
            }
        }
    }

    /// Starts a fresh take. Cleared before arming, so nothing left from the last
    /// one lands at the front of this one.
    pub fn arm(&mut self)
        requires
            old(self).wf(),
        ensures
            final(self).wf(),
            final(self).armed,
            !final(self).dropped,
            final(self).ring@ == Seq::<u32>::empty(),
    {
        let _dropped = self.ring.clear();
        self.dropped = false;
        self.armed = true;
    }

    pub fn disarm(&mut self)
        ensures
            !final(self).armed,
            final(self).ring == old(self).ring,
            final(self).dropped == old(self).dropped,
    {
        self.armed = false;
    }

    /// Moves everything captured since last time onto the end of `out`.
    pub fn collect(&mut self, out: &mut Vec<u32>)
        requires
            old(self).wf(),
        ensures
            final(self).wf(),
            final(self).armed == old(self).armed,
            final(self).dropped == old(self).dropped,
            final(self).ring@ == Seq::<u32>::empty(),
            final(out)@ == old(out)@ + old(self).ring@,
    {
        let mut left: usize = self.ring.len();
        while left > 0
            invariant
                self.wf(),
                self.armed == old(self).armed,
                self.dropped == old(self).dropped,
                left == self.ring@.len(),
                out@ + self.ring@ == old(out)@ + old(self).ring@,
            decreases left,
        {
            let ghost waiting = self.ring@;
            let ghost earlier = out@;
            if let Some(sample) = self.ring.pop() {
                out.push(sample);
                proof {
                    assert(earlier.push(sample) + waiting.skip(1) =~= earlier + waiting);
                }
            }
            left = left - 1;
        }
        proof {
            assert(self.ring@ =~= Seq::<u32>::empty());
            assert(out@ + self.ring@ =~= out@);
        }
    }
}

/// Everything one captured sample is handed to. Both halves take it after the
/// same processing, so a recording is exactly what was heard.
pub struct Sinks {
    pub monitor: Monitor,
    pub tape: Tape,
}

impl Sinks {
    pub open spec fn wf(self) -> bool {
        self.monitor.wf() && self.tape.wf()
    }

    pub fn push(&mut self, sample: u32)
        requires
            old(self).wf(),
        ensures
            final(self).wf(),
            final(self).monitor.monitoring == old(self).monitor.monitoring,
            final(self).monitor.preview == old(self).monitor.preview,
            final(self).monitor.live.primed == old(self).monitor.live.primed,
            final(self).monitor.live.ring@ == (if old(self).monitor.monitoring && old(self).monitor.live.ring@.len() < MAX_FILL {
                old(self).monitor.live.ring@.push(sample)
            } else {
                old(self).monitor.live.ring@
            }),
            final(self).tape.armed == old(self).tape.armed,
            final(self).tape.ring@ == (if old(self).tape.armed && old(self).tape.ring@.len()
                < TAPE_CAPACITY {
                old(self).tape.ring@.push(sample)
            } else {
                old(self).tape.ring@
            }),
            final(self).tape.dropped == (old(self).tape.dropped || (old(self).tape.armed && old(self).tape.ring@.len() >= TAPE_CAPACITY)),
    {
        self.monitor.push_live(sample);
        self.tape.push(sample);
    }
}

/// What is to be done to the capture device.
#[derive(Debug, Clone, Copy, PartialEq, Eq, Structural)]
pub enum DeviceAction {
    Nothing,
    Open,
    Close,
}

/// The microphone, and the two independent reasons to hold it open: passthrough
/// so you can hear yourself, and recording so a take keeps your voice.
///
/// Either wants the device; neither should close it out from under the other. So
/// the stream is opened when the first of them asks and closed when the last
/// stops asking, and "on" and "recording" are answered separately.
pub struct MicPassthrough {
    pub sinks: Sinks,
    /// Whether the capture stream is running.
    pub open: bool,
    /// The loudest thing the microphone has sent lately.
    pub level: u32,
    /// Whether the player has asked to hear themselves.
    pub passthrough: bool,
    /// The rate at which samples reach the tape.
    pub rate: u32,
    /// Why the last attempt to open the device failed.
    pub error: Option<String>,
}

impl MicPassthrough {
    pub open spec fn wf(self) -> bool {
        self.sinks.wf() && self.sinks.monitor.monitoring == self.passthrough
    }

    /// Whether anything wants the device.
    pub open spec fn wanted(self) -> bool {
        self.passthrough || self.sinks.tape.armed
    }

    /// What would bring the device in line with what is asked of it.
    pub open spec fn due(self) -> DeviceAction {
        if self.wanted() && !self.open {
            DeviceAction::Open
        } else if !self.wanted() && self.open {
            DeviceAction::Close
        } else {
            DeviceAction::Nothing
        }
    }

    /// Closed, with nothing asked of it, until told otherwise: a launch never
    /// starts with an open microphone the player has forgotten about.
    pub fn new() -> (mic: Self)
        ensures
            mic.wf(),
            !mic.open,
            !mic.passthrough,
            mic.sinks.monitor.live.ring@.len() == 0,
            !mic.sinks.monitor.live.primed,
            mic.sinks.monitor.preview.ring@.len() == 0,
            !mic.sinks.monitor.preview.primed,
            !mic.sinks.tape.armed,
            !mic.sinks.tape.dropped,
            mic.sinks.tape.ring@.len() == 0,
            mic.rate == 48_000,
            mic.error is None,
            mic.level == 0,
    {
        MicPassthrough {
            sinks: Sinks { monitor: Monitor::new(), tape: Tape::new() },
            open: false,
            level: 0,
            passthrough: false,
            rate: 48_000,
            error: None,
        }
    }

    /// Whether the player has switched passthrough on. Not the same as whether
    /// the device is open: a recording holds it open too.
    pub fn is_on(&self) -> (on: bool)
        ensures
            on == self.passthrough,
    {
        self.passthrough
    }

    /// The peak the microphone is sending; silence while the device is closed.
    pub fn level(&self) -> (level: u32)
        ensures
            level == (if self.open {
                self.level
            } else {
                0
            }),
    {
        if self.open {
            self.level
        } else {
            0
        }
    }

    /// Switches passthrough, and says what is to be done to the device.
    pub fn toggle(&mut self) -> (action: DeviceAction)
        requires
            old(self).wf(),
        ensures
            final(self).wf(),
            final(self).passthrough == !old(self).passthrough,
            final(self).sinks.tape == old(self).sinks.tape,
            final(self).sinks.monitor.preview == old(self).sinks.monitor.preview,
            final(self).passthrough ==> final(self).sinks.monitor.live
                == old(self).sinks.monitor.live,
            !final(self).passthrough ==> final(self).sinks.monitor.live.ring@.len() == 0
                && !final(self).sinks.monitor.live.primed,
            final(self).open == old(self).open,
            final(self).level == old(self).level,
            final(self).rate == old(self).rate,
            final(self).error == old(self).error,
            action == final(self).due(),
    {
        self.passthrough = !self.passthrough;
        self.sinks.monitor.set_monitoring(self.passthrough);
        self.sync_device()
    }

    /// Whether the microphone is open and feeding a take.
    pub fn is_recording(&self) -> (recording: bool)
        ensures
            recording == (self.sinks.tape.armed && self.open),
    {
        self.sinks.tape.is_armed() && self.open
    }

    /// Starts keeping what the microphone hears. Once the action has been tried,
    /// [`MicPassthrough::confirm_recording`] says whether it worked.
    pub fn start_recording(&mut self) -> (action: DeviceAction)
        requires
            old(self).wf(),
        ensures
            final(self).wf(),
            final(self).sinks.tape.armed,
            !final(self).sinks.tape.dropped,
            final(self).sinks.tape.ring@ == Seq::<u32>::empty(),
            final(self).sinks.monitor == old(self).sinks.monitor,
            final(self).open == old(self).open,
            final(self).passthrough == old(self).passthrough,
            final(self).level == old(self).level,
            final(self).rate == old(self).rate,
            final(self).error == old(self).error,
            action == (if old(self).open {
                DeviceAction::Nothing
            } else {
                DeviceAction::Open
            }),
    {
        self.sinks.tape.arm();
        self.sync_device()
    }

    /// False if the device could not be opened, which the caller should say out
    /// loud: a take that silently has no voice in it is worse than one that says
    /// why.
    pub fn confirm_recording(&mut self) -> (recording: bool)
        requires
            old(self).wf(),
        ensures
            final(self).wf(),
            recording == old(self).open,
            final(self).sinks.tape.armed == (old(self).sinks.tape.armed && recording),
            final(self).sinks.tape.ring == old(self).sinks.tape.ring,
            final(self).sinks.tape.dropped == old(self).sinks.tape.dropped,
            final(self).sinks.monitor == old(self).sinks.monitor,
            final(self).open == old(self).open,
            final(self).passthrough == old(self).passthrough,
            final(self).level == old(self).level,
            final(self).rate == old(self).rate,
            final(self).error == old(self).error,
    {
        if !self.open {
            self.sinks.tape.disarm();
            return false;
        }
        true
    }

    /// Stops keeping it, and releases the device unless passthrough still wants
    /// it. Anything captured but not yet collected is left in the tape.
    pub fn stop_recording(&mut self) -> (action: DeviceAction)
        requires
            old(self).wf(),
        ensures
            final(self).wf(),
            !final(self).sinks.tape.armed,
            final(self).sinks.tape.ring == old(self).sinks.tape.ring,
            final(self).sinks.tape.dropped == old(self).sinks.tape.dropped,
            final(self).sinks.monitor == old(self).sinks.monitor,
            final(self).open == old(self).open,
            final(self).passthrough == old(self).passthrough,
            final(self).level == old(self).level,
            final(self).rate == old(self).rate,
            final(self).error == old(self).error,
            action == final(self).due(),
    {
        self.sinks.tape.disarm();
        self.sync_device()
    }

    /// Moves everything captured since last time onto the end of `out`.
    pub fn collect_recording(&mut self, out: &mut Vec<u32>)
        requires
            old(self).wf(),
        ensures
            final(self).wf(),
            final(out)@ == old(out)@ + old(self).sinks.tape.ring@,
            final(self).sinks.tape.ring@ == Seq::<u32>::empty(),
            final(self).sinks.tape.armed == old(self).sinks.tape.armed,
            final(self).sinks.tape.dropped == old(self).sinks.tape.dropped,
            final(self).sinks.monitor == old(self).sinks.monitor,
            final(self).open == old(self).open,
            final(self).passthrough == old(self).passthrough,
            final(self).level == old(self).level,
            final(self).rate == old(self).rate,
            final(self).error == old(self).error,
    {
        self.sinks.tape.collect(out);
    }

    /// Why the last attempt to open the device failed.
    pub fn error(&self) -> (error: Option<&str>)
        ensures
            error is Some <==> self.error is Some,
            error is Some ==> error->0@ == self.error->0@,
    {
        match &self.error {
            Some(error) => Some(error.as_str()),
            None => None,
        }
    }

    /// Whether the frame loop ever fell so far behind that the take has a gap in
    /// it.
    pub fn recording_dropped_samples(&self) -> (dropped: bool)
        ensures
            dropped == self.sinks.tape.dropped,
    {
        self.sinks.tape.dropped
    }

    /// Says what would bring the device in line with what is asked of it. Every
    /// path that changes either reason to want it ends here, so there is one
    /// place that decides and no way for the two to disagree.
    pub fn sync_device(&self) -> (action: DeviceAction)
        ensures
            action == self.due(),
    {
        let wanted = self.passthrough || self.sinks.tape.is_armed();
        match (wanted, self.open) {
            (true, false) => DeviceAction::Open,
            (false, true) => DeviceAction::Close,
            _ => DeviceAction::Nothing,
        }
    }

    /// The capture stream was closed: nothing is writing any more, so what was
    /// still queued to be heard is dropped.
    pub fn closed(&mut self)
        requires
            old(self).wf(),
        ensures
            final(self).wf(),
            !final(self).open,
            final(self).error is None,
            final(self).sinks.monitor.live.ring@.len() == 0,
            !final(self).sinks.monitor.live.primed,
            final(self).sinks.monitor.preview == old(self).sinks.monitor.preview,
            final(self).sinks.monitor.monitoring == old(self).sinks.monitor.monitoring,
            final(self).sinks.tape == old(self).sinks.tape,
            final(self).passthrough == old(self).passthrough,
            final(self).level == old(self).level,
            final(self).rate == old(self).rate,
    {
        self.open = false;
        let _dropped = self.sinks.monitor.live.reset();
        self.error = None;
    }

    /// The devices could not be found at all.
    pub fn no_devices(&mut self, error: String)
        ensures
            final(self).error == Some(error),
            final(self).sinks == old(self).sinks,
            final(self).open == old(self).open,
            final(self).passthrough == old(self).passthrough,
            final(self).level == old(self).level,
            final(self).rate == old(self).rate,
    {
        self.error = Some(error);
    }

    /// The devices were found, the synth running at `rate`, and opening the
    /// capture stream succeeded or failed.
    pub fn opened(&mut self, rate: u32, result: Result<(), String>)
        ensures
            final(self).rate == rate,
            final(self).sinks == old(self).sinks,
            final(self).passthrough == old(self).passthrough,
            match result {
                Ok(_) => final(self).open && final(self).error is None && final(self).level == 0,
                Err(error) => final(self).open == old(self).open && final(self).error == Some(error)
                    && final(self).level == old(self).level,
            },
    {
        self.rate = rate;
        match result {
            Ok(_) => {
                self.open = true;
                self.level = 0;
                self.error = None;
            },
            Err(error) => {
                self.error = Some(error);
            },
        }
    }
}

/// The buffer to ask a device for that accepts buffers from `min` to `max`
/// frames: the one wanted, as near as the device allows.
pub fn buffer_frames(min: u32, max: u32) -> (frames: u32)
    requires
        min <= max,
    ensures
        frames == (if TARGET_BUFFER_FRAMES < min {
            min
        } else if TARGET_BUFFER_FRAMES > max {
            max
        } else {
            TARGET_BUFFER_FRAMES
        }),
{
    if TARGET_BUFFER_FRAMES < min {
        min
    } else if TARGET_BUFFER_FRAMES > max {
        max
    } else {
        TARGET_BUFFER_FRAMES
    }
}

/// Whether the device is open once `action` has been carried out.
pub open spec fn carried_out(open: bool, action: DeviceAction) -> bool {
    match action {
        DeviceAction::Open => true,
        DeviceAction::Close => false,
        DeviceAction::Nothing => open,
    }
}

/// Carrying out what is due leaves the device open exactly when something wants
/// it: it is opened when the first asks and closed when the last stops asking.
pub proof fn law_device_is_open_when_wanted(mic: MicPassthrough)
    ensures
        carried_out(mic.open, mic.due()) == mic.wanted(),
{
}

/// Neither passthrough nor a recording closes the device on the other.
pub proof fn law_device_is_not_closed_on_anyone(mic: MicPassthrough)
    requires
        mic.passthrough || mic.sinks.tape.armed,
    ensures
        mic.due() != DeviceAction::Close,
{
}

/// A microphone that is open purely to record is kept but not heard.
pub proof fn law_recording_alone_is_not_heard(mic: MicPassthrough)
    requires
        mic.wf(),
        !mic.passthrough,
    ensures
        !mic.sinks.monitor.live.gives(),
{
}

/// A source that fell silent stays silent until its head start has built up
/// again.
pub proof fn law_head_start_after_silence(source: Source)
    requires
        !source.primed,
        source.ring@.len() < PREFILL,
    ensures
        !source.gives(),
{
}

/// A source gives its samples once 256 of them have gathered, and then until it runs dry;
/// the live half never runs more than 1024 samples behind, and a recording keeps room for
/// 131072.
pub proof fn law_when_a_source_is_heard(source: Source)
    ensures
        source.gives() <==> source.ring@.len() > 0 && (source.primed || source.ring@.len() >= 256),
        MAX_FILL == 1024,
        PREVIEW_CAPACITY == 4096,
        PREVIEW_FILL == 2048,
        TAPE_CAPACITY == 131072,
        RING_CAPACITY == 8192,
        TARGET_BUFFER_FRAMES == 128,
{
}

/// What is due to the device: opening it when it is closed and something wants it, closing
/// it when it is open and nothing does, and else nothing.
pub proof fn law_what_is_due_to_the_device(mic: MicPassthrough)
    ensures
        mic.due() == DeviceAction::Open <==> !mic.open && (mic.passthrough || mic.sinks.tape.armed),
        mic.due() == DeviceAction::Close <==> mic.open && !mic.passthrough && !mic.sinks.tape.armed,
{
}

} // verus!
