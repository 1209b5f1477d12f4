//! Where the spectrum analyser reads its audio from.
use vstd::prelude::*;

use crate::sample::two_to;

verus! {

/// Samples the tap keeps: several windows' worth, so that a frame that arrives
/// late still finds a whole window behind the write head.
pub const CAPACITY: usize = 8192;

/// Samples per analysis window.
pub const WINDOW: usize = 2048;

/// The samples that are being played, as the analyser sees them: written by
/// whichever audio callback is playing, read by the frame loop.
pub struct SpectrumTap {
    slots: Vec<u32>,
    /// Samples written in total. The write position is this modulo the ring.
    written: usize,
    /// Rate the writer is running at, or zero before anything has been declared.
    sample_rate: u32,
}

impl View for SpectrumTap {
    type V = Seq<u32>;

    /// The newest samples, oldest first, as many as are kept.
    closed spec fn view(&self) -> Seq<u32> {
        let kept = if self.written < CAPACITY {
            self.written as int
        } else {
            CAPACITY as int
        };
        Seq::new(kept as nat, |n: int| self.slots@[(self.written - kept + n) % CAPACITY as int])
    }
}

/// What is kept after one more sample.
pub open spec fn tapped(kept: Seq<u32>, sample: u32) -> Seq<u32> {
    if kept.len() < CAPACITY {
        kept.push(sample)
    } else {
        kept.skip(1).push(sample)
    }
}

/// A window of samples read off the tap.
#[derive(Debug)]
pub struct Reading {
    pub samples: Vec<u32>,
    pub sample_rate: u32,
    pub written: usize,
}

impl SpectrumTap {
    pub closed spec fn wf(self) -> bool {
        self.slots@.len() == CAPACITY
    }

    pub closed spec fn rate(self) -> u32 {
        self.sample_rate
    }

    pub closed spec fn count(self) -> usize {
        self.written
    }

    pub fn new() -> (tap: Self)
        ensures
            tap.wf(),
            tap@ == Seq::<u32>::empty(),
            tap.rate() == 0,
            tap.count() == 0,
    {
        let mut slots: Vec<u32> = Vec::new();
        let mut n: usize = 0;
        while n < CAPACITY
            invariant
                n <= CAPACITY,
                slots@.len() == n,
            decreases CAPACITY - n,
        {
            slots.push(0);
            n = n + 1;
        }
        let tap = SpectrumTap { slots, written: 0, sample_rate: 0 };
        assert(tap@ =~= Seq::<u32>::empty());
        tap
    }

    /// Told once, when a stream is opened.
    pub fn set_sample_rate(&mut self, hz: u32)
        ensures
            final(self).rate() == hz,
            final(self)@ == old(self)@,
            final(self).count() == old(self).count(),
            final(self).wf() == old(self).wf(),
    {
        self.sample_rate = hz;
    }

    /// Audio-callback side: one mono sample of whatever is being played. When the
    /// count of samples wraps around, the tap fills up anew.
    pub fn push(&mut self, sample: u32)
        requires
            old(self).wf(),
        ensures
            final(self).wf(),
            final(self).rate() == old(self).rate(),
            old(self).count() < usize::MAX ==> final(self).count() == old(self).count() + 1
                && final(self)@ == tapped(old(self)@, sample),
            old(self).count() == usize::MAX ==> final(self).count() == 0 && final(self)@.len() == 0,
    {
        let at: usize = self.written % CAPACITY;
        self.slots[at] = sample;
        self.written = self.written.wrapping_add(1);
        proof {
            if old(self).written < usize::MAX {
                let kept = old(self)@.len() as int;
                let w = old(self).written as int;
                let cap = CAPACITY as int;
                assert(self@.len() == tapped(old(self)@, sample).len());
                assert forall|n: int| 0 <= n < self@.len() implies #[trigger] self@[n] == tapped(
                    old(self)@,
                    sample,
                )[n] by {
                    let after = self@.len() as int;
                    let from = w + 1 - after + n;
                    assert(self@[n] == self.slots@[from % cap]);
                    if n < after - 1 {
                        assert(from % cap != w % cap) by {
                            assert(0 < w - from < cap);
                            if from % cap == w % cap {
                                assert((w - from) % cap == 0) by (nonlinear_arith)
                                    requires
                                        from % cap == w % cap,
                                        cap == 8192,
                                ;
                            }
                        }
                        let g = if kept < cap {
                            n
                        } else {
                            n + 1
                        };
                        assert(w - kept + g == from);
                        assert(old(self)@[g] == old(self).slots@[from % cap]);
                    }
                }
                assert(self@ =~= tapped(old(self)@, sample));
            }
        }
    }

    /// Frame-loop side: the most recent `count` samples, oldest first.
    ///
    /// `None` until that many have been played and the writer has said what rate
    /// it is running at: there is nothing honest to draw before that.
    pub fn read_latest(&self, count: usize) -> (reading: Option<Reading>)
        requires
            self.wf(),
            count <= CAPACITY,
        ensures
            reading is Some <==> self.rate() != 0 && self@.len() >= count,
            reading is Some ==> {
                &&& (reading->0).samples@ == self@.skip(self@.len() - count)
                &&& (reading->0).sample_rate == self.rate()
                &&& (reading->0).written == self.count()
            },
    {
        if self.sample_rate == 0 || self.written < count {
            return None;
        }
        let start: usize = self.written - count;
        let mut samples: Vec<u32> = Vec::new();
        let mut n: usize = 0;
        while n < count
            invariant
                n <= count <= CAPACITY,
                count <= self.written,
                start == self.written - count,
                self.wf(),
                samples@.len() == n,
                forall|m: int|
                    0 <= m < n ==> #[trigger] samples@[m] == self.slots@[(start + m)
                        % CAPACITY as int],
            decreases count - n,
        {
            samples.push(self.slots[(start + n) % CAPACITY]);
            n = n + 1;
        }
        assert(samples@ =~= self@.skip(self@.len() - count));
        Some(Reading { samples, sample_rate: self.sample_rate, written: self.written })
    }
}

/// What the analyser remembers of the tap. A stream that has stopped leaves its
/// last samples behind, and drawing those forever would freeze the display.
#[derive(Debug, Clone, Copy, PartialEq, Eq, Structural)]
pub struct TapReader {
    pub last_written: usize,
}

impl TapReader {
    /// A window to look at, if there is a new one since the last time.
    pub fn sample(&mut self, tap: &SpectrumTap) -> (reading: Option<Reading>)
        requires
            tap.wf(),
        ensures
            reading is Some <==> tap.rate() != 0 && tap@.len() >= WINDOW && tap.count()
                != old(self).last_written,
            reading is Some ==> {
                &&& (reading->0).samples@ == tap@.skip(tap@.len() - WINDOW)
                &&& (reading->0).sample_rate == tap.rate()
                &&& final(self).last_written == tap.count()
            },
            reading is None ==> *final(self) == *old(self),
    {
        match tap.read_latest(WINDOW) {
            Some(reading) => {
                if reading.written == self.last_written {
                    return None;
                }
                self.last_written = reading.written;
                Some(reading)
            },
            None => None,
        }
    }
}

/// The last `bits` bits of a number, the other way round.
pub open spec fn reversed(i: int, bits: nat) -> int
    decreases bits,
{
    if bits == 0 {
        0
    } else {
        (i % 2) * two_to((bits - 1) as nat) + reversed(i / 2, (bits - 1) as nat)
    }
}

/// Where each position of a transform of `2^bits` samples moves to in the shuffle
/// that the transform starts from.
pub fn bit_reversal(bits: u32) -> (table: Vec<u32>)
    requires
        1 <= bits <= 31,
    ensures
        table@.len() == two_to(bits as nat),
        forall|i: int| 0 <= i < table@.len() ==> #[trigger] table@[i] == reversed(i, bits as nat),
        swaps(table@),
{
    let mut size: u32 = 1;
    let mut b: u32 = 0;
    proof {
        lemma_two_to_31();
    }
    while b < bits
        invariant
            b <= bits <= 31,
            size == two_to(b as nat),
            two_to(31) == 2_147_483_648,
        decreases bits - b,
    {
        proof {
            lemma_two_to_mono(b as nat + 1, 31);
        }
        size = size * 2;
        b = b + 1;
    }
    proof {
        lemma_two_to_mono(bits as nat, 31);
    }
    let mut table: Vec<u32> = Vec::new();
    let mut i: u32 = 0;
    while i < size
        invariant
            i <= size <= 2_147_483_648,
            1 <= bits <= 31,
            size == two_to(bits as nat),
            table@.len() == i,
            forall|j: int| 0 <= j < i ==> #[trigger] table@[j] == reversed(j, bits as nat),
            forall|j: int| 0 <= j < i ==> #[trigger] table@[j] < size,
        decreases size - i,
    {
        let r: u32 = reverse(i, bits);
        proof {
            lemma_reversed_fits(i as int, bits as nat);
        }
        table.push(r);
        i = i + 1;
    }
    proof {
        assert forall|k: int| 0 <= k < table@.len() implies table@[(#[trigger] table@[k]) as int]
            == k by {
            law_reversing_twice_restores(k, bits as nat);
        }
    }
    table
}

/// Whether each position is sent to another one that is sent back to it.
pub open spec fn swaps(table: Seq<u32>) -> bool {
    &&& forall|k: int| 0 <= k < table.len() ==> #[trigger] table[k] < table.len()
    &&& forall|k: int| 0 <= k < table.len() ==> table[(#[trigger] table[k]) as int] == k
}

/// The shuffle that a transform starts from: every sample changes places with the
/// one that the table names.
pub fn shuffle(table: &Vec<u32>, samples: &mut Vec<u32>)
    requires
        table@.len() == old(samples)@.len(),
        swaps(table@),
    ensures
        final(samples)@.len() == old(samples)@.len(),
        forall|k: int|
            0 <= k < table@.len() ==> #[trigger] final(samples)@[k] == old(samples)@[table@[k] as int],
{
    let mut i: usize = 0;
    while i < table.len()
        invariant
            i <= table@.len(),
            table@.len() == old(samples)@.len(),
            samples@.len() == table@.len(),
            swaps(table@),
            forall|k: int|
                0 <= k < table@.len() ==> #[trigger] samples@[k] == (if k < i || table@[k] < i {
                    old(samples)@[table@[k] as int]
                } else {
                    old(samples)@[k]
                }),
        decreases table@.len() - i,
    {
        let j: usize = table[i] as usize;
        assert(table@[j as int] == i);
        assert forall|k: int| 0 <= k < table@.len() && table@[k] == i implies k == j by {
            assert(table@[table@[k] as int] == k);
        }
        if i < j {
            let (a, b): (u32, u32) = (samples[i], samples[j]);
            samples[i] = b;
            samples[j] = a;
        }
        i = i + 1;
    }
}

/// The last `bits` bits of a number, the other way round.
fn reverse(i: u32, bits: u32) -> (r: u32)
    requires
        bits <= 31,
    ensures
        r == reversed(i as int, bits as nat),
{
    let mut left: u32 = i;
    let mut r: u32 = 0;
    let mut b: u32 = 0;
    proof {
        lemma_two_to_31();
        assert(0 * two_to(bits as nat) == 0) by (nonlinear_arith);
    }
    while b < bits
        invariant
            b <= bits <= 31,
            two_to(31) == 2_147_483_648,
            0 <= r < two_to(b as nat),
            r * two_to((bits - b) as nat) + reversed(left as int, (bits - b) as nat) == reversed(
                i as int,
                bits as nat,
            ),
        decreases bits - b,
    {
        proof {
            lemma_two_to_mono(b as nat, 31);
            let rest = two_to((bits - b - 1) as nat) as int;
            let now = r as int;
            let bit = left as int % 2;
            assert(now * (2 * rest) + bit * rest == (2 * now + bit) * rest) by (nonlinear_arith);
        }
        r = 2 * r + left % 2;
        left = left / 2;
        b = b + 1;
    }
    proof {
        assert((bits - b) as nat == 0 && two_to(0) == 1);
        let now = r as int;
        assert(now * two_to(0) == now) by (nonlinear_arith)
            requires
                two_to(0) == 1,
        ;
        assert(reversed(left as int, 0) == 0);
    }
    r
}

proof fn lemma_two_to_31()
    ensures
        two_to(31) == 2_147_483_648,
        two_to(0) == 1,
{
    reveal_with_fuel(two_to, 32);
}

proof fn lemma_two_to_mono(m: nat, n: nat)
    requires
        m <= n,
    ensures
        1 <= two_to(m) <= two_to(n),
    decreases n,
{
    if n > 0 {
        if m < n {
            lemma_two_to_mono(m, (n - 1) as nat);
        } else {
            lemma_two_to_mono((n - 1) as nat, (n - 1) as nat);
        }
    }
}

proof fn lemma_reversed_fits(i: int, bits: nat)
    requires
        i >= 0,
    ensures
        0 <= reversed(i, bits) < two_to(bits),
    decreases bits,
{
    if bits > 0 {
        lemma_reversed_fits(i / 2, (bits - 1) as nat);
        let half = two_to((bits - 1) as nat) as int;
        lemma_two_to_mono((bits - 1) as nat, (bits - 1) as nat);
        assert(i % 2 == 0 || i % 2 == 1);
        assert(0 * half == 0 && 1 * half == half) by (nonlinear_arith);
    }
}

/// Reversing bits twice gives the number back, so that swapping each position
/// with its reverse moves every sample to its place.
pub proof fn law_reversing_twice_restores(i: int, bits: nat)
    requires
        0 <= i < two_to(bits),
    ensures
        0 <= reversed(i, bits) < two_to(bits),
        reversed(reversed(i, bits), bits) == i,
{
    lemma_reversed_fits(i, bits);
    lemma_reversed_twice(i, bits);
}

proof fn lemma_reversed_twice(i: int, bits: nat)
    requires
        0 <= i < two_to(bits),
    ensures
        reversed(reversed(i, bits), bits) == i,
    decreases bits,
{
    if bits > 0 {
        let less = (bits - 1) as nat;
        let half = two_to(less) as int;
        assert(two_to(bits) == 2 * half);
        lemma_two_to_mono(less, less);
        lemma_reversed_fits(i / 2, less);
        lemma_reversed_twice(i / 2, less);
        let low = reversed(i / 2, less);
        let bit = i % 2;
        assert(reversed(i, bits) == bit * half + low);
        lemma_reversed_split(low, bit, less);
    }
}

/// The reverse of a number whose top bit is `top` begins with the reverse of the
/// rest and ends with that bit.
proof fn lemma_reversed_split(low: int, top: int, bits: nat)
    requires
        0 <= low < two_to(bits),
        0 <= top <= 1,
    ensures
        reversed(top * two_to(bits) + low, bits + 1) == 2 * reversed(low, bits) + top,
    decreases bits,
{
    let half = two_to(bits) as int;
    let whole = top * half + low;
    if bits == 0 {
        assert(half == 1);
        assert(top * 1 == top) by (nonlinear_arith);
        assert(low == 0);
        assert(whole == top);
        assert(reversed(whole / 2, 0) == 0);
        assert((whole % 2) * 1 == whole % 2) by (nonlinear_arith);
        assert(reversed(whole, 1) == (whole % 2) * two_to(0) + reversed(whole / 2, 0));
        assert(whole % 2 == top);
    } else {
        let less = (bits - 1) as nat;
        let quarter = two_to(less) as int;
        assert(half == 2 * quarter);
        assert(top * half == 2 * (top * quarter)) by (nonlinear_arith)
            requires
                half == 2 * quarter,
        ;
        assert(whole % 2 == low % 2 && whole / 2 == top * quarter + low / 2);
        lemma_reversed_split(low / 2, top, less);
        assert(reversed(whole, bits + 1) == (whole % 2) * half + reversed(whole / 2, bits));
        assert(reversed(low, bits) == (low % 2) * quarter + reversed(low / 2, less));
        assert((low % 2) * half == 2 * ((low % 2) * quarter)) by (nonlinear_arith)
            requires
                half == 2 * quarter,
        ;
    }
}

/// The tap never keeps more than its capacity.
pub proof fn law_tap_is_bounded(kept: Seq<u32>, sample: u32)
    requires
        kept.len() <= CAPACITY,
    ensures
        tapped(kept, sample).len() <= CAPACITY,
        tapped(kept, sample).last() == sample,
{
}

/// A new sample is the last; of the others the oldest goes when the tap is full, and only
/// then.
pub proof fn law_the_tap_keeps_the_newest(kept: Seq<u32>, sample: u32, n: int)
    ensures
        kept.len() < 8192 ==> tapped(kept, sample).len() == kept.len() + 1,
        kept.len() == 8192 ==> tapped(kept, sample).len() == 8192,
        kept.len() < 8192 && 0 <= n < kept.len() ==> tapped(kept, sample)[n] == kept[n],
        kept.len() >= 8192 && 0 <= n < kept.len() - 1 ==> tapped(kept, sample)[n] == kept[n + 1],
        tapped(kept, sample).last() == sample,
{
}

/// Reversing puts every bit in the place as far from the other end.
pub proof fn law_bits_change_ends(i: int, bits: nat, k: nat)
    requires
        i >= 0,
        k < bits,
    ensures
        reversed(i, bits) / (two_to(k) as int) % 2 == i / (two_to((bits - 1 - k) as nat) as int)
            % 2,
    decreases bits,
{
    let less = (bits - 1) as nat;
    let top = two_to(less) as int;
    let low = reversed(i / 2, less);
    let bit = i % 2;
    lemma_reversed_fits(i / 2, less);
    lemma_two_to_mono(less, less);
    assert(bit == 0 || bit == 1);
    assert(0 * top == 0 && 1 * top == top) by (nonlinear_arith);
    if k == less {
        assert(two_to(0) == 1);
        let whole = reversed(i, bits);
        assert(whole / top == bit) by (nonlinear_arith)
            requires
                whole == bit * top + low,
                0 <= low < top,
                top > 0,
        ;
        assert(i / 1 == i);
    } else {
        law_bits_change_ends(i / 2, less, k);
        let unit = two_to(k) as int;
        lemma_two_to_mono(k, less);
        lemma_two_to_mono(k, k);
        let up = (less - k - 1) as nat;
        let m = two_to(up) as int;
        lemma_two_to_product(k, up + 1);
        assert(two_to(up + 1) == 2 * m);
        assert(top == unit * (2 * m));
        let whole = reversed(i, bits);
        assert((bit * top + low) / unit == bit * (2 * m) + low / unit) by (nonlinear_arith)
            requires
                top == unit * (2 * m),
                unit > 0,
        ;
        assert((bit * (2 * m) + low / unit) % 2 == low / unit % 2) by {
            assert(bit * (2 * m) == 2 * (bit * m)) by (nonlinear_arith);
        }
        assert(whole / unit % 2 == low / unit % 2);
        let part = two_to((less - 1 - k) as nat) as int;
        lemma_two_to_mono((less - 1 - k) as nat, (less - 1 - k) as nat);
        assert(two_to((bits - 1 - k) as nat) == 2 * part);
        assert((i / 2) / part == i / (2 * part)) by (nonlinear_arith)
            requires
                part > 0,
                i >= 0,
        ;
    }
}

proof fn lemma_two_to_product(m: nat, n: nat)
    ensures
        two_to(m + n) == two_to(m) * two_to(n),
    decreases n,
{
    let a = two_to(m) as int;
    if n > 0 {
        lemma_two_to_product(m, (n - 1) as nat);
        let b = two_to((n - 1) as nat) as int;
        assert(a * (2 * b) == 2 * (a * b)) by (nonlinear_arith);
    } else {
        assert(a * 1 == a) by (nonlinear_arith);
    }
}

} // verus!
