//! The whole-song performance summary, and the letter grade it earns.
use vstd::prelude::*;

verus! {

/// A fraction of two whole numbers.
#[derive(Debug, Clone, Copy, PartialEq, Eq, Structural)]
pub struct Fraction {
    pub num: u64,
    pub den: u64,
}

/// Whole-song performance summary for the results screen.
#[derive(Debug, Clone, Copy, PartialEq, Eq, Structural)]
pub struct Results {
    pub perfect: u32,
    pub good: u32,
    pub ok: u32,
    pub wrong: u32,
    pub missed: u32,
    pub best_combo: u32,
    pub score: u64,
}

/// A letter grade and its display colour.
pub type Grade = (&'static str, (u8, u8, u8));

/// The share of full credit that each rung of the grade ladder asks for, in per
/// cent, best grade first.
pub open spec fn rung_percent(rung: int) -> int {
    seq![96int, 90, 84, 78, 72, 65, 58, 51, 44, 37, 29, 21, 0][rung]
}

/// The name of each rung of the grade ladder.
pub open spec fn rung_name(rung: int) -> Seq<char> {
    seq![
        "A++"@, "A+"@, "A"@, "A-"@, "B+"@, "B"@, "B-"@, "C+"@, "C"@, "C-"@, "D+"@, "D"@, "F"@,
    ][rung]
}

/// The colour of each rung of the grade ladder: gold, green, blue, orange,
/// red-orange, red.
pub open spec fn rung_color(rung: int) -> (u8, u8, u8) {
    if rung == 0 {
        (255, 200, 40)
    } else if rung <= 3 {
        (80, 220, 90)
    } else if rung <= 6 {
        (70, 140, 255)
    } else if rung <= 9 {
        (255, 150, 50)
    } else if rung <= 11 {
        (235, 95, 50)
    } else {
        (225, 55, 50)
    }
}

/// The first rung from `rung` on that a share of `num / den` reaches; the last
/// one is always reached.
pub open spec fn rung_from(num: int, den: int, rung: int) -> int
    decreases 12 - rung,
{
    if rung >= 12 {
        12
    } else if num * 100 >= rung_percent(rung) * den {
        rung
    } else {
        rung_from(num, den, rung + 1)
    }
}

/// Whether a share of `num / den` comes to at least `percent` per cent.
fn reaches(num: u64, den: u64, percent: u64) -> (reached: bool)
    ensures
        reached == (num * 100 >= percent * den),
{
    let (p, d): (u128, u128) = (percent as u128, den as u128);
    assert(0 <= p * d <= 0xffff_ffff_ffff_fffe_0000_0000_0000_0001) by (nonlinear_arith)
        requires
            0 <= p <= 0xffff_ffff_ffff_ffff,
            0 <= d <= 0xffff_ffff_ffff_ffff,
    ;
    num as u128 * 100 >= p * d
}

impl Results {
    /// Notes that were landed.
    pub open spec fn hits(self) -> int {
        self.perfect + self.good + self.ok
    }

    /// Notes that were judged at all.
    pub open spec fn judged(self) -> int {
        self.hits() + self.wrong + self.missed
    }

    /// Credit earned, in hundredths of a note: a GOOD is worth nearly a PERFECT,
    /// a note the song had to wait for little, and a wrong note costs more than
    /// the slot it takes up.
    pub open spec fn credit(self) -> int {
        100 * self.perfect + 80 * self.good + 35 * self.ok - 40 * self.wrong
    }

    /// Credit that was to be had, in hundredths of a note: a note nobody played
    /// counts for half a note.
    pub open spec fn full_credit(self) -> int {
        100 * self.hits() + 100 * self.wrong + 50 * self.missed
    }

    /// The timing-weighted share of the credit that was earned, as a fraction;
    /// nothing played earns nothing, and a run cannot earn less than that.
    pub open spec fn share(self) -> (int, int) {
        if self.full_credit() == 0 {
            (0, 1)
        } else if self.credit() < 0 {
            (0, self.full_credit())
        } else {
            (self.credit(), self.full_credit())
        }
    }

    /// The rung of the grade ladder that the performance reaches.
    pub open spec fn rung(self) -> int {
        rung_from(self.share().0, self.share().1, 0)
    }

    pub fn total_hit(&self) -> (total: u32)
        requires
            self.hits() <= u32::MAX,
        ensures
            total == self.hits(),
    {
        self.perfect + self.good + self.ok
    }

    /// The share of the judged notes that were landed.
    pub fn accuracy(&self) -> (share: Fraction)
        ensures
            share.den > 0,
            self.judged() == 0 ==> share.num == 0,
            self.judged() > 0 ==> share.num == self.hits() && share.den == self.judged(),
    {
        let hits: u64 = self.perfect as u64 + self.good as u64 + self.ok as u64;
        let total: u64 = hits + self.wrong as u64 + self.missed as u64;
        if total == 0 {
            return Fraction { num: 0, den: 1 };
        }
        Fraction { num: hits, den: total }
    }

    /// Timing-weighted performance score, from nothing to one.
    ///
    /// Accuracy alone is too easy when the song waits for you, so the grade
    /// rewards precision: a PERFECT is full credit, a GOOD nearly all of it, and
    /// a hit the song had to stall for earns little. Wrong notes cost more than
    /// the note they occupy, so flailing cannot be papered over by volume.
    ///
    /// Notes nobody played count for half a note against you: in the jam modes
    /// the song plays itself, so sitting out a phrase should cost less than
    /// fumbling it.
    pub fn performance(&self) -> (share: Fraction)
        ensures
            share.num == self.share().0,
            share.den == self.share().1,
            share.num <= share.den,
            share.den > 0,
    {
        let hits: u64 = self.perfect as u64 + self.good as u64 + self.ok as u64;
        let total: u64 = 100 * (hits + self.wrong as u64) + 50 * self.missed as u64;
        if total == 0 {
            return Fraction { num: 0, den: 1 };
        }
        let earned: u64 = 100 * self.perfect as u64 + 80 * self.good as u64 + 35 * self.ok as u64;
        let penalty: u64 = 40 * self.wrong as u64;
        if earned < penalty {
            Fraction { num: 0, den: total }
        } else {
            Fraction { num: earned - penalty, den: total }
        }
    }

    /// Arcade letter grade with its display colour.
    ///
    /// A fine-grained ladder from A++ (flawless, gold) down to F. An A has to be
    /// earned on timing, but the ladder is pitched so that playing a song well
    /// lands in the A and B range: clean all-GOOD play is an A-, and only a run
    /// the song spent its whole time waiting for lands in the D's.
    pub fn grade(&self) -> (grade: Grade)
        ensures
            0 <= self.rung() <= 12,
            grade.0@ == rung_name(self.rung()),
            grade.1 == rung_color(self.rung()),
    {
        let share = self.performance();
        let ladder: [u64; 12] = [96, 90, 84, 78, 72, 65, 58, 51, 44, 37, 29, 21];
        let (num, den): (u64, u64) = (share.num, share.den);
        let mut rung: usize = 0;
        while rung < 12 && !reaches(num, den, ladder[rung])
            invariant
                rung <= 12,
                forall|r: int| 0 <= r < 12 ==> #[trigger] ladder@[r] == rung_percent(r),
                forall|r: int| 0 <= r < 12 ==> #[trigger] ladder@[r] <= 100,
                rung_from(num as int, den as int, 0) == rung_from(
                    num as int,
                    den as int,
                    rung as int,
                ),
            decreases 12 - rung,
        {
            assert(ladder@[rung as int] == rung_percent(rung as int));
            rung = rung + 1;
        }
        match rung {
            0 => ("A++", (255, 200, 40)),
            1 => ("A+", (80, 220, 90)),
            2 => ("A", (80, 220, 90)),
            3 => ("A-", (80, 220, 90)),
            4 => ("B+", (70, 140, 255)),
            5 => ("B", (70, 140, 255)),
            6 => ("B-", (70, 140, 255)),
            7 => ("C+", (255, 150, 50)),
            8 => ("C", (255, 150, 50)),
            9 => ("C-", (255, 150, 50)),
            10 => ("D+", (235, 95, 50)),
            11 => ("D", (235, 95, 50)),
            _ => ("F", (225, 55, 50)),
        }
    }

    /// Does this performance deserve fireworks? (A- or better.)
    pub fn celebratory(&self) -> (deserved: bool)
        ensures
            deserved == (self.rung() <= 3),
    {
        let share = self.performance();
        let deserved = reaches(share.num, share.den, 78);
        proof {
            lemma_rung_reached(share.num as int, share.den as int, 0, 3);
        }
        deserved
    }
}

/// A share reaches at least rung `goal` exactly when it meets that rung's
/// percentage.
proof fn lemma_rung_reached(num: int, den: int, rung: int, goal: int)
    requires
        0 <= rung <= goal < 12,
        den > 0,
    ensures
        rung_from(num, den, rung) <= goal <==> num * 100 >= rung_percent(goal) * den,
    decreases 12 - rung,
{
    assert(rung_percent(rung) * den >= rung_percent(goal) * den) by (nonlinear_arith)
        requires
            rung_percent(rung) >= rung_percent(goal),
            den > 0,
    ;
    if rung < goal {
        lemma_rung_reached(num, den, rung + 1, goal);
    } else if num * 100 < rung_percent(rung) * den {
        lemma_rung_bounds(num, den, rung + 1);
    }
}

proof fn lemma_rung_bounds(num: int, den: int, rung: int)
    requires
        0 <= rung <= 12,
    ensures
        rung <= rung_from(num, den, rung) <= 12,
    decreases 12 - rung,
{
    if rung < 12 {
        lemma_rung_bounds(num, den, rung + 1);
    }
}

/// The better share never gets the worse grade.
pub proof fn law_grades_follow_performance(a: Results, b: Results)
    requires
        a.share().0 * b.share().1 <= b.share().0 * a.share().1,
    ensures
        b.rung() <= a.rung(),
{
    lemma_rung_bounds(a.share().0, a.share().1, 0);
    lemma_rung_bounds(b.share().0, b.share().1, 0);
    let goal = a.rung();
    if goal < 12 {
        let (p, q) = a.share();
        let (r, s) = b.share();
        lemma_rung_reached(p, q, 0, goal);
        lemma_rung_reached(r, s, 0, goal);
        assert(r * 100 >= rung_percent(goal) * s) by (nonlinear_arith)
            requires
                p * s <= r * q,
                p * 100 >= rung_percent(goal) * q,
                q > 0,
                s > 0,
        ;
    }
}

/// The performance score lies between nothing and one.
pub proof fn law_share_is_a_share(a: Results)
    ensures
        0 <= a.share().0 <= a.share().1,
        a.share().1 > 0,
{
}

/// A run of nothing but PERFECTs earns the best grade, and one in which nothing
/// was landed the worst.
pub proof fn law_ladder_ends(a: Results)
    ensures
        a.good == 0 && a.ok == 0 && a.wrong == 0 && a.missed == 0 && a.perfect > 0 ==> a.rung() == 0,
        a.hits() == 0 ==> a.rung() == 12,
{
    reveal_with_fuel(rung_from, 13);
}

/// Landing a note on time instead of roughly on time never lowers the share, nor
/// does landing it roughly on time instead of making the song wait.
pub proof fn law_better_timing_never_hurts(a: Results)
    requires
        a.perfect < u32::MAX,
        a.good < u32::MAX,
    ensures
        a.good > 0 ==> {
            let b = Results { perfect: (a.perfect + 1) as u32, good: (a.good - 1) as u32, ..a };
            a.share().0 * b.share().1 <= b.share().0 * a.share().1
        },
        a.ok > 0 ==> {
            let b = Results { good: (a.good + 1) as u32, ok: (a.ok - 1) as u32, ..a };
            a.share().0 * b.share().1 <= b.share().0 * a.share().1
        },
{
    if a.good > 0 {
        let b = Results { perfect: (a.perfect + 1) as u32, good: (a.good - 1) as u32, ..a };
        assert(b.full_credit() == a.full_credit());
        lemma_scale(a.share().0, b.share().0, a.share().1);
    }
    if a.ok > 0 {
        let b = Results { good: (a.good + 1) as u32, ok: (a.ok - 1) as u32, ..a };
        assert(b.full_credit() == a.full_credit());
        lemma_scale(a.share().0, b.share().0, a.share().1);
    }
}

/// A wrong note costs at least as much as a note nobody played.
pub proof fn law_wrong_costs_more_than_missed(a: Results)
    requires
        a.wrong < u32::MAX,
        a.missed < u32::MAX,
    ensures
        ({
            let w = Results { wrong: (a.wrong + 1) as u32, ..a };
            let m = Results { missed: (a.missed + 1) as u32, ..a };
            w.share().0 * m.share().1 <= m.share().0 * w.share().1
        }),
{
    let w = Results { wrong: (a.wrong + 1) as u32, ..a };
    let m = Results { missed: (a.missed + 1) as u32, ..a };
    let (p, q) = w.share();
    let (r, s) = m.share();
    assert(q == a.full_credit() + 100 && s == a.full_credit() + 50);
    assert(p <= r);
    assert(p * s <= r * q) by (nonlinear_arith)
        requires
            0 <= p <= r,
            0 <= s <= q,
    ;
}

/// Neither a wrong note nor a note nobody played ever raises the share.
pub proof fn law_mistakes_never_help(a: Results)
    requires
        a.wrong < u32::MAX,
        a.missed < u32::MAX,
    ensures
        ({
            let w = Results { wrong: (a.wrong + 1) as u32, ..a };
            w.share().0 * a.share().1 <= a.share().0 * w.share().1
        }),
        ({
            let m = Results { missed: (a.missed + 1) as u32, ..a };
            m.share().0 * a.share().1 <= a.share().0 * m.share().1
        }),
{
    let w = Results { wrong: (a.wrong + 1) as u32, ..a };
    let m = Results { missed: (a.missed + 1) as u32, ..a };
    let (x, y) = a.share();
    assert(w.share().0 * y <= x * w.share().1) by (nonlinear_arith)
        requires
            0 <= w.share().0 <= x,
            0 <= y <= w.share().1,
    ;
    assert(m.share().0 * y <= x * m.share().1) by (nonlinear_arith)
        requires
            0 <= m.share().0 <= x,
            0 <= y <= m.share().1,
    ;
}

proof fn lemma_scale(a: int, b: int, by: int)
    requires
        a <= b,
        by >= 0,
    ensures
        a * by <= b * by,
{
    assert(a * by <= b * by) by (nonlinear_arith)
        requires
            a <= b,
            by >= 0,
    ;
}

/// Each letter is given for its own range of shares and for no other, best grade
/// first: A++ from 96 per cent, A+ from 90, A from 84, A- from 78, and so on down
/// to D from 21; below that it is an F.
pub proof fn law_letter_follows_the_share(r: Results)
    ensures
        ({
            let shown = rung_name(r.rung());
            let (earned, all) = (100 * r.share().0, r.share().1);
            &&& shown == "A++"@ <==> 96 * all <= earned
            &&& shown == "A+"@ <==> 90 * all <= earned < 96 * all
            &&& shown == "A"@ <==> 84 * all <= earned < 90 * all
            &&& shown == "A-"@ <==> 78 * all <= earned < 84 * all
            &&& shown == "B+"@ <==> 72 * all <= earned < 78 * all
            &&& shown == "B"@ <==> 65 * all <= earned < 72 * all
            &&& shown == "B-"@ <==> 58 * all <= earned < 65 * all
            &&& shown == "C+"@ <==> 51 * all <= earned < 58 * all
            &&& shown == "C"@ <==> 44 * all <= earned < 51 * all
            &&& shown == "C-"@ <==> 37 * all <= earned < 44 * all
            &&& shown == "D+"@ <==> 29 * all <= earned < 37 * all
            &&& shown == "D"@ <==> 21 * all <= earned < 29 * all
            &&& shown == "F"@ <==> earned < 21 * all
        }),
{
    lemma_names_differ();
    let (num, den) = r.share();
    lemma_rung_bounds(num, den, 0);
    assert forall|goal: int| 0 <= goal < 12 implies r.rung() <= goal <==> num * 100
        >= #[trigger] rung_percent(goal) * den by {
        lemma_rung_reached(num, den, 0, goal);
    }
    assert(r.rung() <= 0 <==> num * 100 >= rung_percent(0) * den);
    assert(r.rung() <= 1 <==> num * 100 >= rung_percent(1) * den);
    assert(r.rung() <= 2 <==> num * 100 >= rung_percent(2) * den);
    assert(r.rung() <= 3 <==> num * 100 >= rung_percent(3) * den);
    assert(r.rung() <= 4 <==> num * 100 >= rung_percent(4) * den);
    assert(r.rung() <= 5 <==> num * 100 >= rung_percent(5) * den);
    assert(r.rung() <= 6 <==> num * 100 >= rung_percent(6) * den);
    assert(r.rung() <= 7 <==> num * 100 >= rung_percent(7) * den);
    assert(r.rung() <= 8 <==> num * 100 >= rung_percent(8) * den);
    assert(r.rung() <= 9 <==> num * 100 >= rung_percent(9) * den);
    assert(r.rung() <= 10 <==> num * 100 >= rung_percent(10) * den);
    assert(r.rung() <= 11 <==> num * 100 >= rung_percent(11) * den);
    let shown = rung_name(r.rung());
    assert(shown == rung_name(0) <==> r.rung() == 0);
    assert(shown == rung_name(1) <==> r.rung() == 1);
    assert(shown == rung_name(2) <==> r.rung() == 2);
    assert(shown == rung_name(3) <==> r.rung() == 3);
    assert(shown == rung_name(4) <==> r.rung() == 4);
    assert(shown == rung_name(5) <==> r.rung() == 5);
    assert(shown == rung_name(6) <==> r.rung() == 6);
    assert(shown == rung_name(7) <==> r.rung() == 7);
    assert(shown == rung_name(8) <==> r.rung() == 8);
    assert(shown == rung_name(9) <==> r.rung() == 9);
    assert(shown == rung_name(10) <==> r.rung() == 10);
    assert(shown == rung_name(11) <==> r.rung() == 11);
    assert(shown == rung_name(12) <==> r.rung() == 12);
}

/// The spelling of the letters.
proof fn lemma_names_differ()
    ensures
        "A++"@ == seq!['A', '+', '+'],
        "A+"@ == seq!['A', '+'],
        "A"@ == seq!['A'],
        "A-"@ == seq!['A', '-'],
        "B+"@ == seq!['B', '+'],
        "B"@ == seq!['B'],
        "B-"@ == seq!['B', '-'],
        "C+"@ == seq!['C', '+'],
        "C"@ == seq!['C'],
        "C-"@ == seq!['C', '-'],
        "D+"@ == seq!['D', '+'],
        "D"@ == seq!['D'],
        "F"@ == seq!['F'],
        forall|a: int, b: int|
            0 <= a < 13 && 0 <= b < 13 && a != b ==> #[trigger] rung_name(a) != #[trigger] rung_name(b),
        forall|a: int| 0 <= a < 13 ==> 1 <= (#[trigger] rung_name(a)).len() <= 3,
{
    reveal_strlit("A++");
    reveal_strlit("A+");
    reveal_strlit("A");
    reveal_strlit("A-");
    reveal_strlit("B+");
    reveal_strlit("B");
    reveal_strlit("B-");
    reveal_strlit("C+");
    reveal_strlit("C");
    reveal_strlit("C-");
    reveal_strlit("D+");
    reveal_strlit("D");
    reveal_strlit("F");
    assert("A++"@ =~= seq!['A', '+', '+']);
    assert("A+"@ =~= seq!['A', '+']);
    assert("A"@ =~= seq!['A']);
    assert("A-"@ =~= seq!['A', '-']);
    assert("B+"@ =~= seq!['B', '+']);
    assert("B"@ =~= seq!['B']);
    assert("B-"@ =~= seq!['B', '-']);
    assert("C+"@ =~= seq!['C', '+']);
    assert("C"@ =~= seq!['C']);
    assert("C-"@ =~= seq!['C', '-']);
    assert("D+"@ =~= seq!['D', '+']);
    assert("D"@ =~= seq!['D']);
    assert("F"@ =~= seq!['F']);
    assert forall|a: int, b: int| 0 <= a < 13 && 0 <= b < 13 && a != b implies #[trigger] rung_name(a)
        != #[trigger] rung_name(b) by {
        let (x, y) = (rung_name(a), rung_name(b));
        assert(x[0] != y[0] || x.len() != y.len() || x[1] != y[1]);
    }
}

/// How good a letter is to a reader, best first: the letter, then its sign.
pub open spec fn letter_rank(shown: Seq<char>) -> int {
    4 * (shown[0] as int - 'A' as int) + if shown.len() == 3 {
        0
    } else if shown.len() == 1 {
        2
    } else if shown[1] == '+' {
        1int
    } else {
        3
    }
}

/// The better share never shows the worse letter, no two rungs show the same one,
/// and fireworks are for the A's.
pub proof fn law_better_share_shows_the_better_letter(a: Results, b: Results)
    requires
        a.share().0 * b.share().1 <= b.share().0 * a.share().1,
    ensures
        letter_rank(rung_name(b.rung())) <= letter_rank(rung_name(a.rung())),
        rung_name(a.rung()) == rung_name(b.rung()) <==> a.rung() == b.rung(),
        a.rung() <= 3 <==> rung_name(a.rung())[0] == 'A',
        a.rung() <= 3 <==> 78 * a.share().1 <= 100 * a.share().0,
{
    law_grades_follow_performance(a, b);
    lemma_rung_bounds(a.share().0, a.share().1, 0);
    lemma_rung_bounds(b.share().0, b.share().1, 0);
    lemma_names_differ();
    lemma_rung_reached(a.share().0, a.share().1, 0, 3);
}

/// Letters of one kind share a colour and letters of two kinds do not, except that
/// the best grade of all has one to itself: gold, green, blue, orange, red-orange
/// and red.
pub proof fn law_colours_tell_the_letters_apart(a: int, b: int)
    requires
        0 <= a < 13,
        0 <= b < 13,
    ensures
        rung_color(a) == rung_color(b) <==> rung_name(a)[0] == rung_name(b)[0] && (
        rung_name(a).len() == 3 <==> rung_name(b).len() == 3),
        rung_name(a)[0] == 'A' ==> rung_color(a) == (if rung_name(a).len() == 3 {
            (255u8, 200u8, 40u8)
        } else {
            (80u8, 220u8, 90u8)
        }),
        rung_name(a)[0] == 'B' ==> rung_color(a) == (70u8, 140u8, 255u8),
        rung_name(a)[0] == 'C' ==> rung_color(a) == (255u8, 150u8, 50u8),
        rung_name(a)[0] == 'D' ==> rung_color(a) == (235u8, 95u8, 50u8),
        rung_name(a)[0] == 'F' ==> rung_color(a) == (225u8, 55u8, 50u8),
{
    lemma_names_differ();
}

/// The share is a weighted mean over the notes: a PERFECT earns all of a note, a
/// GOOD four fifths, a note the song waited for seven twentieths, and a wrong note
/// takes two fifths off; a note nobody played weighs half as much as the others.
/// It is never negative, and nothing judged earns nothing.
pub proof fn law_share_weighs_the_notes(r: Results)
    ensures
        ({
            let earned = 20 * r.perfect + 16 * r.good + 7 * r.ok - 8 * r.wrong;
            let weight = 2 * (r.perfect + r.good + r.ok + r.wrong) + r.missed;
            &&& weight == 0 ==> r.share().0 == 0
            &&& weight > 0 && earned <= 0 ==> r.share().0 == 0
            &&& weight > 0 && earned >= 0 ==> r.share().0 * (10 * weight) == earned * r.share().1
        }),
{
    let earned = 20 * r.perfect + 16 * r.good + 7 * r.ok - 8 * r.wrong;
    let weight = 2 * (r.perfect + r.good + r.ok + r.wrong) + r.missed;
    assert(r.credit() == 5 * earned);
    assert(r.full_credit() == 50 * weight);
    assert((5 * earned) * (10 * weight) == earned * (50 * weight)) by (nonlinear_arith);
}

} // verus!
