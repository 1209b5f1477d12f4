//! A finished recording: the file it is written to, and playing it back.
use vstd::prelude::*;

use crate::microphone::{Monitor, PREVIEW_CAPACITY, PREVIEW_FILL};
use crate::sample::{lemma_pcm_range, loudest, pcm, pcm16, peak_of};

verus! {

/// A finished recording: mono samples at [`VoiceTake::rate`].
#[derive(Debug)]
pub struct VoiceTake {
    pub samples: Vec<u32>,
    pub rate: u32,
}

/// A number as two bytes, the low one first.
pub open spec fn le16(x: int) -> Seq<u8> {
    seq![(x % 256) as u8, (x / 256 % 256) as u8]
}

/// A number as four bytes, the low one first.
pub open spec fn le32(x: int) -> Seq<u8> {
    le16(x) + le16(x / 65536)
}

/// Samples as 16-bit audio, two bytes each, the low one first.
pub open spec fn pcm_bytes(samples: Seq<u32>) -> Seq<u8>
    decreases samples.len(),
{
    if samples.len() == 0 {
        Seq::empty()
    } else {
        pcm_bytes(samples.drop_last()) + le16(pcm(samples.last()) % 65536)
    }
}

/// The outer chunk of a WAV file: its tag, how much follows, and what it holds.
pub open spec fn wav_outer(data: int) -> Seq<u8> {
    seq![82u8, 73, 70, 70] + le32(36 + data) + seq![87u8, 65, 86, 69]
}

/// The format of a mono 16-bit WAV file: plain samples, one channel, the rate,
/// bytes a second, bytes and bits a sample.
pub open spec fn wav_format(rate: int) -> Seq<u8> {
    seq![102u8, 109, 116, 32] + le32(16) + le16(1) + le16(1) + le32(rate) + le32(2 * rate) + le16(
        2,
    ) + le16(16)
}

/// The start of the samples of a WAV file: the tag and how long they are.
pub open spec fn wav_data(data: int) -> Seq<u8> {
    seq![100u8, 97, 116, 97] + le32(data)
}

/// A mono 16-bit WAV file.
pub open spec fn wav(samples: Seq<u32>, rate: u32) -> Seq<u8> {
    let data = 2 * samples.len() as int;
    wav_outer(data) + wav_format(rate as int) + wav_data(data) + pcm_bytes(samples)
}

fn push_tag(out: &mut Vec<u8>, a: u8, b: u8, c: u8, d: u8)
    ensures
        final(out)@ == old(out)@ + seq![a, b, c, d],
{
    out.push(a);
    out.push(b);
    out.push(c);
    out.push(d);
    assert(out@ =~= old(out)@ + seq![a, b, c, d]);
}

fn push_le16(out: &mut Vec<u8>, x: u16)
    ensures
        final(out)@ == old(out)@ + le16(x as int),
{
    out.push((x % 256) as u8);
    out.push((x / 256 % 256) as u8);
    assert(out@ =~= old(out)@ + le16(x as int));
}

fn push_le32(out: &mut Vec<u8>, x: u32)
    ensures
        final(out)@ == old(out)@ + le32(x as int),
{
    push_le16(out, (x % 65536) as u16);
    push_le16(out, (x / 65536) as u16);
    proof {
        assert(x % 65536 % 256 == x % 256);
        assert(x % 65536 / 256 % 256 == x / 256 % 256);
        assert(le16((x % 65536) as int) =~= le16(x as int));
        assert(out@ =~= old(out)@ + le32(x as int));
    }
}

impl VoiceTake {
    pub fn new(samples: Vec<u32>, rate: u32) -> (take: Self)
        ensures
            take.samples == samples,
            take.rate == (if rate == 0 {
                1
            } else {
                rate
            }),
    {
        VoiceTake {
            samples,
            rate: if rate == 0 {
                1
            } else {
                rate
            },
        }
    }

    pub fn len(&self) -> (len: usize)
        ensures
            len == self.samples@.len(),
    {
        self.samples.len()
    }

    /// The loudest sample in the take. Silence means that the microphone was open
    /// and heard nothing.
    pub fn peak(&self) -> (peak: u32)
        ensures
            peak == loudest(self.samples@),
    {
        peak_of(&self.samples)
    }

    /// The take as a mono 16-bit PCM WAV file, in bytes. Its lengths have to fit
    /// the fields that the file has for them.
    pub fn wav_bytes(&self) -> (bytes: Vec<u8>)
        requires
            36 + 2 * self.samples@.len() <= u32::MAX,
            2 * self.rate <= u32::MAX,
        ensures
            bytes@ == wav(self.samples@, self.rate),
    {
        let data: u32 = (self.samples.len() * 2) as u32;
        let mut out: Vec<u8> = Vec::new();
        push_tag(&mut out, 82, 73, 70, 70);
        push_le32(&mut out, 36 + data);
        push_tag(&mut out, 87, 65, 86, 69);
        push_tag(&mut out, 102, 109, 116, 32);
        push_le32(&mut out, 16);
        push_le16(&mut out, 1);
        push_le16(&mut out, 1);
        push_le32(&mut out, self.rate);
        push_le32(&mut out, self.rate * 2);
        push_le16(&mut out, 2);
        push_le16(&mut out, 16);
        push_tag(&mut out, 100, 97, 116, 97);
        push_le32(&mut out, data);
        let ghost header = out@;
        let mut n: usize = 0;
        proof {
            assert(self.samples@.take(0) =~= Seq::<u32>::empty());
            assert(header + pcm_bytes(self.samples@.take(0)) =~= header);
            assert(header =~= wav_outer(data as int) + wav_format(self.rate as int) + wav_data(
                data as int,
            ));
        }
        while n < self.samples.len()
            invariant
                n <= self.samples@.len(),
                out@ == header + pcm_bytes(self.samples@.take(n as int)),
            decreases self.samples@.len() - n,
        {
            let value: i16 = pcm16(self.samples[n]);
            let unsigned: u16 = if value < 0 {
                (value as i32 + 65536) as u16
            } else {
                value as u16
            };
            let ghost earlier = out@;
            push_le16(&mut out, unsigned);
            proof {
                let so_far = self.samples@.take(n as int);
                let more = self.samples@.take(n + 1);
                assert(more.drop_last() =~= so_far);
                assert(unsigned == pcm(self.samples@[n as int]) % 65536);
                assert(out@ =~= header + pcm_bytes(more));
            }
            n = n + 1;
        }
        proof {
            assert(self.samples@.take(n as int) =~= self.samples@);
        }
        out
    }
}

/// Plays a finished take back through the synth, by feeding the monitor's second
/// source the way the microphone feeds its first.
///
/// There is no clock here and no need for one. The synth drains the queue at
/// exactly the rate it plays samples, so topping it up once a frame delivers them
/// at exactly the rate they should be heard, however irregular the frames are.
#[derive(Debug, Clone, Copy, PartialEq, Eq, Structural)]
pub struct VoicePlayback {
    /// The next sample to hand over. Everything before it has been queued, which
    /// is not the same as having been heard.
    pub cursor: usize,
    pub playing: bool,
}

/// How many samples a frame hands over: up to the mark, as far as the take goes.
pub open spec fn top_up(queued: int, left: int) -> int {
    let room = PREVIEW_FILL - queued;
    if room <= 0 {
        0
    } else if left < room {
        left
    } else {
        room
    }
}

/// `a - b`, or nothing.
pub open spec fn less(a: int, b: int) -> int {
    if a > b {
        a - b
    } else {
        0
    }
}

impl VoicePlayback {
    pub fn new() -> (playback: Self)
        ensures
            playback == (VoicePlayback { cursor: 0, playing: false }),
    {
        VoicePlayback { cursor: 0, playing: false }
    }

    /// Follows whatever the MIDI player is doing, then tops the queue up. Called
    /// once a frame.
    pub fn update(&mut self, take: &VoiceTake, monitor: &mut Monitor, playing: bool)
        requires
            old(self).cursor <= take.samples@.len(),
            old(monitor).wf(),
        ensures
            final(monitor).wf(),
            final(self).cursor <= take.samples@.len(),
            final(self).playing == playing,
            final(monitor).live == old(monitor).live,
            final(monitor).monitoring == old(monitor).monitoring,
            playing ==> {
                let n = top_up(
                    old(monitor).preview.ring@.len() as int,
                    take.samples@.len() - old(self).cursor,
                );
                &&& final(self).cursor == old(self).cursor + n
                &&& final(monitor).preview.ring@ == old(monitor).preview.ring@
                    + take.samples@.subrange(old(self).cursor as int, old(self).cursor + n)
                &&& final(monitor).preview.primed == old(monitor).preview.primed
            },
            !playing && old(self).playing ==> final(self).cursor == less(
                old(self).cursor as int,
                old(monitor).preview.ring@.len() as int,
            ) && final(monitor).preview.ring@.len() == 0 && !final(monitor).preview.primed,
            !playing && !old(self).playing ==> final(self).cursor == old(self).cursor
                && final(monitor).preview == old(monitor).preview,
    {
        if playing != self.playing {
            if playing {
                self.playing = true;
            } else {
                self.pause(monitor);
            }
        }
        if !self.playing {
            return ;
        }
        let ghost from = self.cursor;
        let ghost queued = monitor.preview.ring@;
        proof {
            assert(take.samples@.subrange(from as int, from as int) =~= Seq::<u32>::empty());
            assert(queued + Seq::<u32>::empty() =~= queued);
        }
        while monitor.preview.ring.len() < PREVIEW_FILL && self.cursor < take.samples.len()
            invariant
                monitor.wf(),
                from <= self.cursor <= take.samples@.len(),
                self.playing,
                self.cursor - from <= top_up(queued.len() as int, take.samples@.len() - from),
                monitor.preview.ring@ == queued + take.samples@.subrange(
                    from as int,
                    self.cursor as int,
                ),
                monitor.preview.primed == old(monitor).preview.primed,
                monitor.live == old(monitor).live,
                monitor.monitoring == old(monitor).monitoring,
            decreases take.samples@.len() - self.cursor,
        {
            let ghost earlier = monitor.preview.ring@;
            let _taken = monitor.preview.ring.push(take.samples[self.cursor]);
            proof {
                assert(earlier.len() < PREVIEW_CAPACITY);
                assert(take.samples@.subrange(from as int, self.cursor + 1)
                    =~= take.samples@.subrange(from as int, self.cursor as int).push(
                    take.samples@[self.cursor as int],
                ));
                assert(monitor.preview.ring@ =~= queued + take.samples@.subrange(
                    from as int,
                    self.cursor + 1,
                ));
            }
            self.cursor = self.cursor + 1;
        }
    }

    /// Stops, and gives back the ground that was queued but never played, so
    /// resuming picks up where the sound stopped rather than a queue's worth past
    /// it.
    fn pause(&mut self, monitor: &mut Monitor)
        requires
            old(monitor).wf(),
        ensures
            final(monitor).wf(),
            !final(self).playing,
            final(self).cursor == less(
                old(self).cursor as int,
                old(monitor).preview.ring@.len() as int,
            ),
            final(monitor).preview.ring@.len() == 0,
            !final(monitor).preview.primed,
            final(monitor).live == old(monitor).live,
            final(monitor).monitoring == old(monitor).monitoring,
    {
        self.playing = false;
        let dropped: usize = monitor.preview.reset();
        self.cursor = self.cursor.saturating_sub(dropped);
    }

    /// Jumps to `num / den` of the way through, at most to the end, discarding
    /// whatever was queued.
    pub fn seek(&mut self, take: &VoiceTake, monitor: &mut Monitor, num: u32, den: u32)
        requires
            old(monitor).wf(),
            den > 0,
        ensures
            final(monitor).wf(),
            final(self).playing == old(self).playing,
            final(self).cursor == (if num >= den {
                take.samples@.len() as int
            } else {
                take.samples@.len() * num / (den as int)
            }),
            final(self).cursor <= take.samples@.len(),
            final(monitor).preview.ring@.len() == 0,
            !final(monitor).preview.primed,
            final(monitor).live == old(monitor).live,
            final(monitor).monitoring == old(monitor).monitoring,
    {
        let _dropped = monitor.preview.reset();
        let len: u128 = take.samples.len() as u128;
        if num >= den {
            self.cursor = take.samples.len();
            return ;
        }
        let (n, d): (u128, u128) = (num as u128, den as u128);
        assert(0 <= len * n <= 0xffff_ffff_ffff_ffff * 0xffff_ffff) by (nonlinear_arith)
            requires
                0 <= len <= 0xffff_ffff_ffff_ffff,
                0 <= n <= 0xffff_ffff,
        ;
        let at: u128 = len * n / d;
        assert(0 <= at <= len) by (nonlinear_arith)
            requires
                at == (len * n) / (d as int),
                0 <= n <= d,
                d > 0,
                len >= 0,
        ;
        self.cursor = at as usize;
    }

    /// Leaving a preview must not leave a second of somebody's voice queued to
    /// play into whatever comes next.
    pub fn stop(self, monitor: &mut Monitor)
        requires
            old(monitor).wf(),
        ensures
            final(monitor).wf(),
            final(monitor).preview.ring@.len() == 0,
            !final(monitor).preview.primed,
            final(monitor).live == old(monitor).live,
            final(monitor).monitoring == old(monitor).monitoring,
    {
        let _dropped = monitor.preview.reset();
    }
}

/// How much of a take has been heard: what was handed over less what still
/// waits.
pub open spec fn heard(cursor: int, queued: int) -> int {
    cursor - queued
}

/// Neither topping the queue up nor pausing changes how much of a take has been
/// heard, so resuming continues from there.
pub proof fn law_pausing_keeps_the_place(cursor: int, queued: int, left: int)
    requires
        0 <= queued <= cursor,
        left >= 0,
    ensures
        heard(cursor + top_up(queued, left), queued + top_up(queued, left)) == heard(
            cursor,
            queued,
        ),
        heard(less(cursor, queued), 0) == heard(cursor, queued),
{
}

/// The queue is never filled past its mark by a frame, and a frame fills it to
/// the mark while the take lasts.
pub proof fn law_queue_is_kept_at_its_mark(queued: int, left: int)
    requires
        0 <= queued <= PREVIEW_FILL,
        left >= 0,
    ensures
        queued + top_up(queued, left) <= PREVIEW_FILL,
        left >= PREVIEW_FILL - queued ==> queued + top_up(queued, left) == PREVIEW_FILL,
        left < PREVIEW_FILL - queued ==> top_up(queued, left) == left,
{
}

/// Every length in a WAV file agrees with the file that is written.
pub proof fn law_wav_lengths_agree(samples: Seq<u32>, rate: u32)
    ensures
        wav(samples, rate).len() == 44 + 2 * samples.len(),
        wav(samples, rate).subrange(4, 8) == le32(wav(samples, rate).len() - 8),
        wav(samples, rate).subrange(40, 44) == le32(2 * samples.len() as int),
        wav(samples, rate).subrange(24, 28) == le32(rate as int),
        wav(samples, rate).skip(44) == pcm_bytes(samples),
{
    lemma_pcm_len(samples);
    let data = 2 * samples.len() as int;
    let (outer, format, start) = (wav_outer(data), wav_format(rate as int), wav_data(data));
    let file = wav(samples, rate);
    assert(outer.len() == 12 && format.len() == 24 && start.len() == 8);
    assert(file.subrange(4, 8) =~= outer.subrange(4, 8));
    assert(outer.subrange(4, 8) =~= le32(36 + data));
    assert(file.subrange(40, 44) =~= start.subrange(4, 8));
    assert(start.subrange(4, 8) =~= le32(data));
    assert(file.subrange(24, 28) =~= format.subrange(12, 16));
    assert(format.subrange(12, 16) =~= le32(rate as int));
    assert(file.skip(44) =~= pcm_bytes(samples));
}

proof fn lemma_pcm_len(samples: Seq<u32>)
    ensures
        pcm_bytes(samples).len() == 2 * samples.len(),
    decreases samples.len(),
{
    if samples.len() > 0 {
        lemma_pcm_len(samples.drop_last());
    }
}

/// Two and four bytes hold a number with the low byte first.
pub proof fn law_bytes_hold_the_number(x: int)
    requires
        0 <= x,
    ensures
        le16(x).len() == 2,
        x < 65536 ==> le16(x)[0] + 256 * le16(x)[1] == x,
        le32(x).len() == 4,
        x < 0x1_0000_0000 ==> le32(x)[0] + 256 * le32(x)[1] + 65536 * le32(x)[2] + 16777216 * le32(
            x,
        )[3] == x,
{
    let low = x % 65536;
    assert(x % 256 == low % 256);
    assert(x / 256 % 256 == low / 256);
    assert(x / 65536 % 256 + 256 * (x / 65536 / 256 % 256) == x / 65536 % 65536);
}

/// The bytes of a file from one place to another hold a number, the low byte first.
pub open spec fn reads(file: Seq<u8>, at: int, bytes: int, x: int) -> bool {
    if bytes == 2 {
        file[at] + 256 * file[at + 1] == x
    } else {
        file[at] + 256 * file[at + 1] + 65536 * file[at + 2] + 16777216 * file[at + 3] == x
    }
}

proof fn lemma_reads(file: Seq<u8>, at: int, x: int)
    requires
        0 <= at,
        0 <= x < 0x1_0000_0000,
    ensures
        at + 4 <= file.len() && file.subrange(at, at + 4) == le32(x) ==> reads(file, at, 4, x),
        at + 2 <= file.len() && x < 65536 && file.subrange(at, at + 2) == le16(x) ==> reads(
            file,
            at,
            2,
            x,
        ),
{
    law_bytes_hold_the_number(x);
    if at + 4 <= file.len() && file.subrange(at, at + 4) == le32(x) {
        let four = file.subrange(at, at + 4);
        assert(four[0] == file[at] && four[1] == file[at + 1] && four[2] == file[at + 2] && four[3]
            == file[at + 3]);
    }
    if at + 2 <= file.len() && file.subrange(at, at + 2) == le16(x) {
        let two = file.subrange(at, at + 2);
        assert(two[0] == file[at] && two[1] == file[at + 1]);
    }
}

proof fn lemma_part(whole: Seq<u8>, a: Seq<u8>, b: Seq<u8>, c: Seq<u8>)
    requires
        whole == a + b + c,
    ensures
        whole.subrange(a.len() as int, (a.len() + b.len()) as int) == b,
{
    assert(whole.subrange(a.len() as int, (a.len() + b.len()) as int) =~= b);
}

/// The header of a WAV file: the tags where they belong, plain samples on one channel at
/// the take's rate, two bytes and sixteen bits each, and lengths that agree with the file.
#[verifier::rlimit(60)]
pub proof fn law_wav_header_describes_the_samples(samples: Seq<u32>, rate: u32)
    requires
        36 + 2 * samples.len() <= u32::MAX,
        2 * rate <= u32::MAX,
    ensures
        ({
            let file = wav(samples, rate);
            &&& file.subrange(0, 4) == seq![82u8, 73, 70, 70]
            &&& file.subrange(8, 16) == seq![87u8, 65, 86, 69, 102, 109, 116, 32]
            &&& file.subrange(36, 40) == seq![100u8, 97, 116, 97]
            &&& reads(file, 4, 4, file.len() - 8)
            &&& reads(file, 16, 4, 16)
            &&& reads(file, 20, 2, 1)
            &&& reads(file, 22, 2, 1)
            &&& reads(file, 24, 4, rate as int)
            &&& reads(file, 28, 4, 2 * rate)
            &&& reads(file, 32, 2, 2)
            &&& reads(file, 34, 2, 16)
            &&& reads(file, 40, 4, file.len() - 44)
            &&& file.len() == 44 + 2 * samples.len()
        }),
{
    lemma_pcm_len(samples);
    let data = 2 * samples.len() as int;
    let file = wav(samples, rate);
    let (outer, format, start) = (wav_outer(data), wav_format(rate as int), wav_data(data));
    assert(outer.len() == 12 && format.len() == 24 && start.len() == 8);
    lemma_part(outer, seq![82u8, 73, 70, 70], le32(36 + data), seq![87u8, 65, 86, 69]);
    let head = seq![102u8, 109, 116, 32];
    let kind = le16(1) + le16(1);
    let sizes = le16(2) + le16(16);
    assert(format =~= head + le32(16) + kind + le32(rate as int) + le32(2 * rate as int) + sizes);
    assert(file.subrange(4, 8) =~= outer.subrange(4, 8));
    assert(file.subrange(16, 20) =~= format.subrange(4, 8));
    assert(format.subrange(4, 8) =~= le32(16));
    assert(file.subrange(20, 22) =~= kind.subrange(0, 2));
    assert(kind.subrange(0, 2) =~= le16(1));
    assert(file.subrange(22, 24) =~= kind.subrange(2, 4));
    assert(kind.subrange(2, 4) =~= le16(1));
    assert(file.subrange(24, 28) =~= format.subrange(12, 16));
    assert(format.subrange(12, 16) =~= le32(rate as int));
    assert(file.subrange(28, 32) =~= format.subrange(16, 20));
    assert(format.subrange(16, 20) =~= le32(2 * rate as int));
    assert(file.subrange(32, 34) =~= sizes.subrange(0, 2));
    assert(sizes.subrange(0, 2) =~= le16(2));
    assert(file.subrange(34, 36) =~= sizes.subrange(2, 4));
    assert(sizes.subrange(2, 4) =~= le16(16));
    assert(file.subrange(40, 44) =~= start.subrange(4, 8));
    assert(start.subrange(4, 8) =~= le32(data));
    lemma_reads(file, 4, 36 + data);
    lemma_reads(file, 16, 16);
    lemma_reads(file, 20, 1);
    lemma_reads(file, 22, 1);
    lemma_reads(file, 24, rate as int);
    lemma_reads(file, 28, 2 * rate as int);
    lemma_reads(file, 32, 2);
    lemma_reads(file, 34, 16);
    lemma_reads(file, 40, data);
    assert(file.subrange(0, 4) =~= seq![82u8, 73, 70, 70]);
    assert(file.subrange(8, 16) =~= seq![87u8, 65, 86, 69, 102, 109, 116, 32]);
    assert(file.subrange(36, 40) =~= seq![100u8, 97, 116, 97]);
}

/// Every sample stands in the file at its place, as a signed number of two bytes.
pub proof fn law_wav_holds_every_sample(samples: Seq<u32>, rate: u32, n: int)
    requires
        0 <= n < samples.len(),
    ensures
        ({
            let file = wav(samples, rate);
            let value = pcm(samples[n]);
            reads(file, 44 + 2 * n, 2, if value < 0 {
                value + 65536
            } else {
                value
            })
        }),
{
    law_wav_lengths_agree(samples, rate);
    lemma_pcm_len(samples);
    lemma_pcm_at(samples, n);
    lemma_pcm_range(samples[n]);
    let file = wav(samples, rate);
    assert(file.skip(44)[2 * n] == file[44 + 2 * n]);
    assert(file.skip(44)[2 * n + 1] == file[44 + 2 * n + 1]);
    lemma_reads_signed(file, 44 + 2 * n, pcm(samples[n]));
}

proof fn lemma_reads_signed(file: Seq<u8>, at: int, value: int)
    requires
        -32767 <= value <= 32767,
        file[at] == le16(value % 65536)[0],
        file[at + 1] == le16(value % 65536)[1],
    ensures
        reads(file, at, 2, if value < 0 {
            value + 65536
        } else {
            value
        }),
{
    law_bytes_hold_the_number(value % 65536);
}

proof fn lemma_pcm_at(samples: Seq<u32>, n: int)
    requires
        0 <= n < samples.len(),
    ensures
        pcm_bytes(samples).len() == 2 * samples.len(),
        pcm_bytes(samples)[2 * n] == le16(pcm(samples[n]) % 65536)[0],
        pcm_bytes(samples)[2 * n + 1] == le16(pcm(samples[n]) % 65536)[1],
    decreases samples.len(),
{
    lemma_pcm_len(samples);
    lemma_pcm_len(samples.drop_last());
    if n < samples.len() - 1 {
        lemma_pcm_at(samples.drop_last(), n);
        assert(samples.drop_last()[n] == samples[n]);
    }
}

/// While a take is played back some 2048 samples of it wait, and a pause gives back
/// exactly what was not heard.
pub proof fn law_playback_keeps_a_little_ahead(queued: int, left: int, cursor: int)
    requires
        0 <= queued,
        0 <= left,
        0 <= cursor,
    ensures
        queued >= 2048 ==> top_up(queued, left) == 0,
        queued < 2048 && left >= 2048 - queued ==> top_up(queued, left) == 2048 - queued,
        queued < 2048 && left < 2048 - queued ==> top_up(queued, left) == left,
        queued <= cursor ==> less(cursor, queued) + queued == cursor,
        queued > cursor ==> less(cursor, queued) == 0,
{
}

} // verus!
