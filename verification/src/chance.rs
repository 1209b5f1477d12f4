//! The small pseudo-random generator behind the visual effects.
use vstd::prelude::*;

verus! {

/// One step of the xorshift generator.
pub open spec fn scramble(x: u64) -> u64 {
    let a = x ^ (x << 13);
    let b = a ^ (a >> 7);
    b ^ (b << 17)
}

/// The state of the generator after `n` steps.
pub open spec fn advance(state: u64, n: nat) -> u64
    decreases n,
{
    if n == 0 {
        state
    } else {
        scramble(advance(state, (n - 1) as nat))
    }
}

/// The `n`-th draw from a state on: 24 random bits, to be read as a fraction of
/// `1 << 24`.
pub open spec fn draw(state: u64, n: nat) -> u64 {
    advance(state, n) >> 40
}

/// Takes the next number of the generator.
pub fn next_u64(state: &mut u64) -> (x: u64)
    ensures
        *final(state) == advance(*old(state), 1),
        x == *final(state),
{
    let mut x: u64 = *state;
    x = x ^ (x << 13);
    x = x ^ (x >> 7);
    x = x ^ (x << 17);
    *state = x;
    proof {
        reveal_with_fuel(advance, 2);
    }
    x
}

/// Takes the next draw of 24 random bits.
pub fn next_draw(state: &mut u64) -> (bits: u64)
    ensures
        *final(state) == advance(*old(state), 1),
        bits == draw(*old(state), 1),
        bits < 0x100_0000,
{
    let x: u64 = next_u64(state);
    assert(x >> 40 < 0x100_0000) by (bit_vector);
    x >> 40
}

/// Steps add up.
pub proof fn lemma_advance_adds(state: u64, m: nat, n: nat)
    ensures
        advance(advance(state, m), n) == advance(state, m + n),
    decreases n,
{
    if n > 0 {
        lemma_advance_adds(state, m, (n - 1) as nat);
        assert(advance(state, m + n) == scramble(advance(state, (m + n - 1) as nat)));
    }
}

/// The generator never gets stuck: from a state other than zero it never reaches
/// zero.
pub proof fn law_generator_never_sticks(state: u64, n: nat)
    requires
        state != 0,
    ensures
        advance(state, n) != 0,
    decreases n,
{
    if n > 0 {
        law_generator_never_sticks(state, (n - 1) as nat);
        let x = advance(state, (n - 1) as nat);
        let a = x ^ (x << 13);
        let b = a ^ (a >> 7);
        assert(x != 0 ==> x ^ (x << 13) != 0) by (bit_vector);
        assert(a != 0 ==> a ^ (a >> 7) != 0) by (bit_vector);
        assert(b != 0 ==> b ^ (b << 17) != 0) by (bit_vector);
    }
}

/// How many points a lightning channel has between the edge of the board and the
/// key it strikes.
pub const BOLT_POINTS: usize = 19;

/// A dead-end branch of a lightning bolt: the point of the channel that it
/// leaves, the side it veers to, and two draws for each of its legs, how long
/// the leg is and how far it spreads.
#[derive(Debug, Clone)]
pub struct ForkPlan {
    pub from: usize,
    pub left: bool,
    pub legs: Vec<(u64, u64)>,
}

/// The random choices behind a lightning bolt: how high it comes in, for each
/// point how hard the channel kinks and how far the point slips along it, the
/// branches, and the width.
#[derive(Debug, Clone)]
pub struct BoltPlan {
    pub entry: u64,
    pub kinks: Vec<(u64, u64)>,
    pub forks: Vec<ForkPlan>,
    pub width: u64,
}

impl ForkPlan {
    /// How many draws the branch takes.
    pub open spec fn draws(self) -> nat {
        3 + 2 * self.legs@.len()
    }

    /// Whether these are the choices for a branch that `state` gives.
    pub open spec fn drawn_from(self, state: u64) -> bool {
        &&& self.from == 3 + advance(state, 1) % 10
        &&& self.left == (draw(state, 2) < 0x80_0000)
        &&& self.legs@.len() == 2 + 3 * draw(state, 3) / 0x100_0000
        &&& forall|n: int|
            0 <= n < self.legs@.len() ==> #[trigger] self.legs@[n] == (
                draw(state, (4 + 2 * n) as nat),
                draw(state, (5 + 2 * n) as nat),
            )
    }
}

impl BoltPlan {
    /// How many draws the bolt takes.
    pub open spec fn draws(self) -> nat {
        40 + self.forks@[0].draws() + self.forks@[1].draws()
    }

    /// Whether these are the choices for a bolt that `state` gives.
    pub open spec fn drawn_from(self, state: u64) -> bool {
        &&& self.entry == draw(state, 1)
        &&& self.kinks@.len() == BOLT_POINTS
        &&& forall|n: int|
            0 <= n < BOLT_POINTS ==> #[trigger] self.kinks@[n] == (
                draw(state, (2 + 2 * n) as nat),
                draw(state, (3 + 2 * n) as nat),
            )
        &&& self.forks@.len() == 2
        &&& self.forks@[0].drawn_from(advance(state, 39))
        &&& self.forks@[1].drawn_from(advance(state, 39 + self.forks@[0].draws()))
        &&& self.width == draw(state, self.draws())
    }
}

/// The first `count` draws from a state on.
pub open spec fn drawn(state: u64, count: nat) -> Seq<u64> {
    Seq::new(count, |n: int| draw(state, (n + 1) as nat))
}

/// Takes the next `count` draws.
pub fn draw_many(state: &mut u64, count: usize) -> (draws: Vec<u64>)
    ensures
        draws@ == drawn(*old(state), count as nat),
        *final(state) == advance(*old(state), count as nat),
{
    let ghost start = *state;
    let mut draws: Vec<u64> = Vec::new();
    let mut n: usize = 0;
    while n < count
        invariant
            n <= count,
            draws@ == drawn(start, n as nat),
            *state == advance(start, n as nat),
        decreases count - n,
    {
        let next: u64 = next_draw(state);
        proof {
            lemma_advance_adds(start, n as nat, 1);
        }
        draws.push(next);
        n = n + 1;
    }
    draws
}

/// Draws a list of pairs.
fn draw_pairs(state: &mut u64, count: usize) -> (pairs: Vec<(u64, u64)>)
    requires
        count <= 100,
    ensures
        pairs@.len() == count,
        *final(state) == advance(*old(state), 2 * count as nat),
        forall|n: int|
            0 <= n < count ==> #[trigger] pairs@[n] == (
                draw(*old(state), (1 + 2 * n) as nat),
                draw(*old(state), (2 + 2 * n) as nat),
            ),
{
    let ghost start = *state;
    let mut pairs: Vec<(u64, u64)> = Vec::new();
    let mut n: usize = 0;
    while n < count
        invariant
            n <= count <= 100,
            pairs@.len() == n,
            *state == advance(start, 2 * n as nat),
            forall|m: int|
                0 <= m < n ==> #[trigger] pairs@[m] == (
                    draw(start, (1 + 2 * m) as nat),
                    draw(start, (2 + 2 * m) as nat),
                ),
        decreases count - n,
    {
        let first: u64 = next_draw(state);
        proof {
            lemma_advance_adds(start, 2 * n as nat, 1);
        }
        let second: u64 = next_draw(state);
        proof {
            lemma_advance_adds(start, 2 * n as nat + 1, 1);
        }
        pairs.push((first, second));
        n = n + 1;
    }
    pairs
}

/// Draws the choices for one branch of a bolt.
fn draw_fork(state: &mut u64) -> (fork: ForkPlan)
    ensures
        fork.drawn_from(*old(state)),
        3 <= fork.from < 13,
        2 <= fork.legs@.len() <= 4,
        *final(state) == advance(*old(state), fork.draws()),
{
    let ghost start = *state;
    let from: usize = 3 + (next_u64(state) % 10) as usize;
    let side: u64 = next_draw(state);
    let length: u64 = next_draw(state);
    proof {
        lemma_advance_adds(start, 1, 1);
        lemma_advance_adds(start, 2, 1);
    }
    let legs_count: usize = (2 + 3 * length / 0x100_0000) as usize;
    let legs = draw_pairs(state, legs_count);
    proof {
        assert forall|n: int| 0 <= n < legs@.len() implies #[trigger] legs@[n] == (
            draw(start, (4 + 2 * n) as nat),
            draw(start, (5 + 2 * n) as nat),
        ) by {
            lemma_advance_adds(start, 3, (1 + 2 * n) as nat);
            lemma_advance_adds(start, 3, (2 + 2 * n) as nat);
        }
        lemma_advance_adds(start, 3, 2 * legs@.len());
    }
    ForkPlan { from, left: side < 0x80_0000, legs }
}

/// Draws the choices for a lightning bolt.
pub fn draw_bolt(state: &mut u64) -> (bolt: BoltPlan)
    ensures
        bolt.drawn_from(*old(state)),
        *final(state) == advance(*old(state), bolt.draws()),
        forall|n: int|
            0 <= n < 2 ==> 3 <= (#[trigger] bolt.forks@[n]).from < 13 && 2
                <= bolt.forks@[n].legs@.len() <= 4,
{
    let ghost start = *state;
    let entry: u64 = next_draw(state);
    let kinks = draw_pairs(state, BOLT_POINTS);
    proof {
        assert forall|n: int| 0 <= n < BOLT_POINTS implies #[trigger] kinks@[n] == (
            draw(start, (2 + 2 * n) as nat),
            draw(start, (3 + 2 * n) as nat),
        ) by {
            lemma_advance_adds(start, 1, (1 + 2 * n) as nat);
            lemma_advance_adds(start, 1, (2 + 2 * n) as nat);
        }
        lemma_advance_adds(start, 1, 38);
    }
    let first = draw_fork(state);
    proof {
        lemma_advance_adds(start, 39, first.draws());
    }
    let second = draw_fork(state);
    proof {
        lemma_advance_adds(start, 39 + first.draws(), second.draws());
        lemma_advance_adds(start, 39 + first.draws() + second.draws(), 1);
    }
    let width: u64 = next_draw(state);
    let mut forks: Vec<ForkPlan> = Vec::new();
    forks.push(first);
    forks.push(second);
    BoltPlan { entry, kinks, forks, width }
}

/// A step of the generator mixes a number with itself moved 13 bits up, 7 down and 17 up,
/// and no two numbers are followed by the same one.
pub proof fn law_a_step_of_the_generator(x: u64, y: u64)
    ensures
        scramble(x) == ((x ^ (x << 13)) ^ ((x ^ (x << 13)) >> 7)) ^ (((x ^ (x << 13)) ^ ((x ^ (x
            << 13)) >> 7)) << 17),
        scramble(x) == scramble(y) ==> x == y,
{
    let (a, c) = (x ^ (x << 13), y ^ (y << 13));
    let (b, d) = (a ^ (a >> 7), c ^ (c >> 7));
    assert(x ^ (x << 13) == y ^ (y << 13) ==> x == y) by (bit_vector);
    assert(a ^ (a >> 7) == c ^ (c >> 7) ==> a == c) by (bit_vector);
    assert(b ^ (b << 17) == d ^ (d << 17) ==> b == d) by (bit_vector);
}

/// A draw is the upper 24 bits of the number that is drawn, and each draw is of the
/// number after that of the draw before.
pub proof fn law_what_a_draw_is(state: u64, n: nat)
    ensures
        draw(state, n) < 0x100_0000,
        draw(state, n) * 0x100_0000_0000 <= advance(state, n) < (draw(state, n) + 1)
            * 0x100_0000_0000,
        advance(state, n + 1) == scramble(advance(state, n)),
        advance(state, 0) == state,
{
    let x = advance(state, n);
    assert(x >> 40 == x / 0x100_0000_0000) by (bit_vector);
}

/// A branch leaves the channel at one of ten points from the fourth on, half of the time
/// to the left, with two, three or four legs, each a third of the time.
pub proof fn law_how_a_branch_is_drawn(fork: ForkPlan, state: u64)
    requires
        fork.drawn_from(state),
    ensures
        3 <= fork.from <= 12,
        (fork.from - 3) as int == advance(state, 1) as int % 10,
        fork.left <==> 2 * draw(state, 2) < 0x100_0000,
        fork.legs@.len() == 2 <==> 3 * draw(state, 3) < 0x100_0000,
        fork.legs@.len() == 3 <==> 0x100_0000 <= 3 * draw(state, 3) < 0x200_0000,
        fork.legs@.len() == 4 <==> 0x200_0000 <= 3 * draw(state, 3),
{
    law_what_a_draw_is(state, 3);
}

/// A bolt has nineteen points and two branches, and no draw is used twice: the branches
/// start where the points end, and the width is the last draw.
pub proof fn law_how_a_bolt_is_drawn(bolt: BoltPlan, state: u64, n: int)
    requires
        bolt.drawn_from(state),
        0 <= n < 19,
    ensures
        bolt.entry == draw(state, 1),
        bolt.kinks@.len() == 19,
        bolt.kinks@[n].0 == draw(state, (2 * n + 2) as nat),
        bolt.kinks@[n].1 == draw(state, (2 * n + 3) as nat),
        bolt.forks@.len() == 2,
        bolt.forks@[0].drawn_from(advance(state, 39)),
        bolt.forks@[1].drawn_from(advance(state, 42 + 2 * bolt.forks@[0].legs@.len())),
        bolt.width == draw(
            state,
            46 + 2 * bolt.forks@[0].legs@.len() + 2 * bolt.forks@[1].legs@.len(),
        ),
{
    assert(bolt.kinks@[n] == (
        draw(state, (2 + 2 * n) as nat),
        draw(state, (3 + 2 * n) as nat),
    ));
}

/// The numbers drawn in a row are those that single draws give.
pub proof fn law_draws_come_in_a_row(state: u64, count: nat, n: int)
    requires
        0 <= n < count,
    ensures
        drawn(state, count).len() == count,
        drawn(state, count)[n] == draw(advance(state, n as nat), 1),
{
    lemma_advance_adds(state, n as nat, 1);
}

} // verus!
