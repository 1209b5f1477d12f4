//! What is written over the falling notes: the song title, the streak, the
//! rising grades, the combo, and the results screen.
//!
//! Distances are in billionths of a logical pixel, times in nanoseconds.
use vstd::prelude::*;
use vstd::string::*;

use crate::effects::{mood, multiplier_of, EffectsSystem, RisingGrade, RisingText, BOLT_CHORDS,
    FIRE_COMBO, POP_TIME};
use crate::results::{rung_color, rung_name, Fraction, Results};
use crate::text::{decimal, grouped, push_decimal, thousands};
use crate::tracks::Rgb;

verus! {

/// Speed of the crawling title: 45 logical pixels a second.
pub const TITLE_SCROLL_SPEED: u64 = 45;

/// The furthest that the title crawls in one frame: what it does in a thirtieth
/// of a second. The first frame covers all of start-up, and would otherwise skip
/// the title straight past the position nobody had seen yet.
pub const TITLE_STEP_MAX: u64 = 1_500_000_000;

/// The song title under the performer selector. It sits still when it fits and
/// only crawls right to left when it does not.
#[derive(Debug, Clone, Copy, PartialEq, Eq, Structural)]
pub struct Marquee {
    /// Width of the title, and of the band it has.
    pub title_width: u64,
    pub band_width: u64,
    /// How far the crawl has travelled from its flush-left start.
    pub scroll: u128,
}

/// How the title is shown.
#[derive(Debug, Clone, Copy, PartialEq, Eq, Structural)]
pub enum TitleView {
    Hidden,
    /// Flush left.
    Still,
    /// Its left edge, from the left edge of the band; clipped to the band.
    Crawling { x: i128 },
}

/// How far the title crawls in a frame.
pub open spec fn title_step(dt: u64) -> int {
    if TITLE_SCROLL_SPEED * dt < TITLE_STEP_MAX {
        TITLE_SCROLL_SPEED * dt
    } else {
        TITLE_STEP_MAX as int
    }
}

impl Marquee {
    /// The crawl is somewhere in its first pass or in a lap.
    pub open spec fn wf(self) -> bool {
        &&& TITLE_STEP_MAX <= self.band_width
        &&& self.scroll < 2 * self.title_width + self.band_width || self.scroll == 0
    }

    /// Travel of the first pass: the title leaves to the left.
    pub open spec fn first_pass(self) -> int {
        self.title_width as int
    }

    /// Travel of a later lap: the title comes in from the right and leaves to the
    /// left.
    pub open spec fn lap(self) -> int {
        self.band_width + self.title_width
    }

    /// The travel after a frame: back onto the start of a lap at the end of one.
    pub open spec fn crawled(self, dt: u64) -> int {
        let to = self.scroll + title_step(dt);
        if to >= self.first_pass() + self.lap() {
            to - self.lap()
        } else {
            to
        }
    }

    /// Where the title is.
    pub open spec fn x(self) -> int {
        if self.scroll < self.first_pass() {
            -self.scroll
        } else {
            self.band_width - (self.scroll - self.first_pass())
        }
    }

    /// Whether a frame shows the title as `view` and leaves the marquee as `after`.
    pub open spec fn shows(
        self,
        after: Marquee,
        has_text: bool,
        band_on_screen: bool,
        dt: u64,
        view: TitleView,
    ) -> bool {
        let shown = has_text && self.title_width > 0;
        if shown && self.title_width <= self.band_width {
            view == TitleView::Still && after == (Marquee { scroll: 0, ..self })
        } else if shown && band_on_screen {
            &&& after == (Marquee { scroll: self.crawled(dt) as u128, ..self })
            &&& view matches TitleView::Crawling { x } && x == after.x()
        } else {
            view == TitleView::Hidden && after == self
        }
    }

    pub fn new(title_width: u64, band_width: u64) -> (marquee: Self)
        requires
            TITLE_STEP_MAX <= band_width,
        ensures
            marquee.wf(),
            marquee == (Marquee { title_width, band_width, scroll: 0 }),
    {
        Marquee { title_width, band_width, scroll: 0 }
    }

    /// Snaps the crawl back to its start.
    pub fn reset(&mut self)
        ensures
            *final(self) == (Marquee { scroll: 0, ..*old(self) }),
    {
        self.scroll = 0;
    }

    /// Shows the title in this frame. A title that fits sits still; one that does
    /// not crawls, unless the window is too small to hold the band.
    pub fn show(&mut self, has_text: bool, band_on_screen: bool, dt: u64) -> (view: TitleView)
        requires
            old(self).wf(),
        ensures
            final(self).wf(),
            old(self).shows(*final(self), has_text, band_on_screen, dt, view),
    {
        let shown = has_text && self.title_width > 0;
        if shown && self.title_width <= self.band_width {
            self.scroll = 0;
            return TitleView::Still;
        }
        if !shown || !band_on_screen {
            return TitleView::Hidden;
        }
        let wish: u128 = TITLE_SCROLL_SPEED as u128 * dt as u128;
        let step: u128 = if wish < TITLE_STEP_MAX as u128 {
            wish
        } else {
            TITLE_STEP_MAX as u128
        };
        let first_pass: u128 = self.title_width as u128;
        let lap: u128 = self.band_width as u128 + first_pass;
        let to: u128 = self.scroll + step;
        self.scroll = if to >= first_pass + lap {
            to - lap
        } else {
            to
        };
        let x: i128 = if self.scroll < first_pass {
            -(self.scroll as i128)
        } else {
            self.band_width as i128 - (self.scroll - first_pass) as i128
        };
        TitleView::Crawling { x }
    }
}

/// The title never rests wholly out of sight: it is off the left edge only where
/// it comes back in at the right one, and its travel is bounded however long the
/// song runs.
pub proof fn law_title_passes_through_the_band(marquee: Marquee)
    requires
        marquee.wf(),
        marquee.title_width > 0,
    ensures
        -marquee.title_width < marquee.x() <= marquee.band_width,
        marquee.scroll == 0 ==> marquee.x() == 0,
{
}

/// A per cent figure for a share, to the nearest whole, halves up.
pub open spec fn percent_of(num: int, den: int) -> int {
    (200 * num + den) / (2 * den)
}

/// A share in per cent, to the nearest whole.
pub fn percent(share: Fraction) -> (figure: u64)
    requires
        0 < share.den,
        share.num <= share.den,
    ensures
        figure == percent_of(share.num as int, share.den as int),
        figure <= 100,
{
    let (num, den): (u128, u128) = (share.num as u128, share.den as u128);
    let figure: u128 = (200 * num + den) / (2 * den);
    assert(figure <= 100) by (nonlinear_arith)
        requires
            figure == (200 * num + den) / (2 * den),
            num <= den,
            den > 0,
    ;
    figure as u64
}

/// The results screen.
#[derive(Debug)]
pub struct ResultsView {
    pub grade: &'static str,
    pub grade_color: Rgb,
    pub summary: String,
    pub tallies: String,
    pub score: String,
}

/// The share of the judged notes that were landed, in per cent.
pub open spec fn accuracy_percent(results: Results) -> int {
    if results.judged() == 0 {
        0
    } else {
        percent_of(results.hits(), results.judged())
    }
}

/// The line of per cent figures.
pub open spec fn summary_text(results: Results) -> Seq<char> {
    decimal(percent_of(results.share().0, results.share().1) as nat) + "% performance  ·  "@
        + decimal(accuracy_percent(results) as nat) + "% accuracy"@
}

/// The line of tallies.
pub open spec fn tallies_text(results: Results) -> Seq<char> {
    "PERFECT "@ + decimal(results.perfect as nat) + "    GOOD "@ + decimal(results.good as nat)
        + "    OK "@ + decimal(results.ok as nat) + "    MISS "@ + decimal(results.missed as nat)
        + "    WRONG "@ + decimal(results.wrong as nat)
}

/// The line with the score.
pub open spec fn score_text(results: Results) -> Seq<char> {
    "SCORE "@ + grouped(results.score as nat) + "    ·    Best streak: "@ + decimal(
        results.best_combo as nat,
    )
}

impl ResultsView {
    /// Whether this is the results screen for `results`.
    pub open spec fn of(self, results: Results) -> bool {
        &&& self.grade@ == rung_name(results.rung())
        &&& self.grade_color == rung_color(results.rung())
        &&& self.summary@ == summary_text(results)
        &&& self.tallies@ == tallies_text(results)
        &&& self.score@ == score_text(results)
    }
}

/// Arcade results screen, shown over the dimmed scene when a song ends.
pub fn results_overlay_ui(results: &Results) -> (view: ResultsView)
    ensures
        view.of(*results),
{
    let (grade, grade_color) = results.grade();
    let performance: u64 = percent(results.performance());
    let landed = results.accuracy();
    let accuracy: u64 = percent(landed);
    proof {
        let den = landed.den as int;
        assert(den / (2 * den) == 0) by (nonlinear_arith)
            requires
                den > 0,
        ;
        assert(accuracy == accuracy_percent(*results));
    }
    let mut summary = String::new();
    push_decimal(&mut summary, performance);
    assert(summary@ =~= decimal(performance as nat));
    summary.append("% performance  ·  ");
    push_decimal(&mut summary, accuracy);
    summary.append("% accuracy");
    let mut tallies = String::from_str("PERFECT ");
    push_decimal(&mut tallies, results.perfect as u64);
    tallies.append("    GOOD ");
    push_decimal(&mut tallies, results.good as u64);
    tallies.append("    OK ");
    push_decimal(&mut tallies, results.ok as u64);
    tallies.append("    MISS ");
    push_decimal(&mut tallies, results.missed as u64);
    tallies.append("    WRONG ");
    push_decimal(&mut tallies, results.wrong as u64);
    let mut score = String::from_str("SCORE ");
    let points = thousands(results.score);
    score.append(points.as_str());
    score.append("    ·    Best streak: ");
    push_decimal(&mut score, results.best_combo as u64);
    ResultsView { grade, grade_color, summary, tallies, score }
}

/// The streak block in the top-left corner.
#[derive(Debug)]
pub struct StreakView {
    pub streak: String,
    pub streak_color: Rgb,
    pub best: String,
    pub score: String,
    /// Electric blue for as long as notes are worth half again as much.
    pub score_color: Rgb,
    /// How far the next bolt is charged; only while it is being built.
    pub charge: Option<String>,
    /// The audience's face and dial.
    pub mood: Option<u8>,
}

/// What is said of the charge of the next bolt. A full chain still waits on a
/// delighted crowd, and says so.
pub open spec fn charge_text(chords: nat, crowd_maxed: bool) -> Seq<char> {
    if chords >= BOLT_CHORDS && !crowd_maxed {
        "CHAIN READY · WIN THE CROWD"@
    } else {
        "PERFECT CHAIN "@ + decimal(chords) + "/"@ + decimal(BOLT_CHORDS as nat)
    }
}

impl StreakView {
    /// Whether this is the streak block of `fx`.
    pub open spec fn of(self, fx: EffectsSystem) -> bool {
        let surging = fx.tally.surge > 0;
        &&& self.streak@ == decimal(fx.tally.combo as nat)
        &&& self.streak_color == (if fx.tally.combo >= FIRE_COMBO {
            (255u8, 150u8, 40u8)
        } else {
            (255u8, 255u8, 255u8)
        })
        &&& self.best@ == "BEST "@ + decimal(fx.tally.best_combo as nat)
        &&& self.score@ == "SCORE "@ + grouped(fx.tally.score as nat)
        &&& self.score_color == (if surging {
            (105u8, 195u8, 255u8)
        } else {
            (255u8, 222u8, 84u8)
        })
        &&& self.charge is Some <==> !surging && fx.tally.perfect_chords > 0
        &&& self.charge is Some ==> self.charge->0@ == charge_text(
            fx.tally.perfect_chords as nat,
            mood(fx.recent@) == Some(5int),
        )
        &&& self.mood is None <==> mood(fx.recent@) is None
        &&& self.mood is Some ==> mood(fx.recent@) == Some(self.mood->0 as int)
    }
}

/// The streak block, once anything was played.
pub fn streak_view(fx: &EffectsSystem) -> (view: Option<StreakView>)
    requires
        fx.wf(),
    ensures
        view is Some <==> fx.tally.hits() + fx.tally.total_wrong > 0,
        view is Some ==> view->0.of(*fx),
{
    if !fx.has_activity() {
        return None;
    }
    let surging = fx.surging();
    let mut streak = String::new();
    push_decimal(&mut streak, fx.combo() as u64);
    assert(streak@ =~= decimal(fx.tally.combo as nat));
    let mut best = String::from_str("BEST ");
    push_decimal(&mut best, fx.best_combo() as u64);
    let mut score = String::from_str("SCORE ");
    let points = thousands(fx.score());
    score.append(points.as_str());
    let chords: u32 = fx.perfect_chords();
    let charge: Option<String> = if surging || chords == 0 {
        None
    } else if chords >= BOLT_CHORDS && !fx.crowd_maxed() {
        Some(String::from_str("CHAIN READY · WIN THE CROWD"))
    } else {
        let mut text = String::from_str("PERFECT CHAIN ");
        push_decimal(&mut text, chords as u64);
        text.append("/");
        push_decimal(&mut text, BOLT_CHORDS as u64);
        Some(text)
    };
    let streak_color: Rgb = if fx.on_fire() {
        (255, 150, 40)
    } else {
        (255, 255, 255)
    };
    let score_color: Rgb = if surging {
        (105, 195, 255)
    } else {
        (255, 222, 84)
    };
    Some(
        StreakView {
            streak,
            streak_color,
            best,
            score,
            score_color,
            charge,
            mood: fx.sentiment_level(),
        },
    )
}

/// A grade rising out of a key.
#[derive(Debug, Clone, Copy)]
pub struct RisingView {
    pub x: u32,
    pub text: &'static str,
    pub color: Rgb,
    pub bold: bool,
}

/// The colour of a rising grade.
pub open spec fn rising_color(grade: RisingGrade) -> Rgb {
    match grade {
        RisingGrade::Perfect => (255, 222, 84),
        RisingGrade::Good => (196, 255, 196),
        RisingGrade::Slow => (190, 150, 150),
    }
}

impl RisingView {
    /// Whether this is how `rising` looks.
    pub open spec fn of(self, rising: RisingText) -> bool {
        &&& self.x == rising.x
        &&& self.text@ == rising.grade.label()
        &&& self.color == rising_color(rising.grade)
        &&& self.bold == (rising.grade == RisingGrade::Perfect)
    }
}

/// How a rising grade looks.
pub fn rising_view(rising: &RisingText) -> (view: RisingView)
    ensures
        view.of(*rising),
{
    let color: Rgb = match rising.grade {
        RisingGrade::Perfect => (255, 222, 84),
        RisingGrade::Good => (196, 255, 196),
        RisingGrade::Slow => (190, 150, 150),
    };
    RisingView {
        x: rising.x,
        text: rising.text(),
        color,
        bold: rising.grade == RisingGrade::Perfect,
    }
}

/// How the grades that rise out of the keys look.
pub fn rising_views(texts: &Vec<RisingText>) -> (views: Vec<RisingView>)
    ensures
        views@.len() == texts@.len(),
        forall|n: int| 0 <= n < views@.len() ==> (#[trigger] views@[n]).of(texts@[n]),
{
    let mut views: Vec<RisingView> = Vec::new();
    let mut n: usize = 0;
    while n < texts.len()
        invariant
            n <= texts@.len(),
            views@.len() == n,
            forall|k: int| 0 <= k < n ==> (#[trigger] views@[k]).of(texts@[k]),
        decreases texts@.len() - n,
    {
        views.push(rising_view(&texts[n]));
        n = n + 1;
    }
    views
}

/// The pulsing combo counter in the middle.
#[derive(Debug)]
pub struct ComboView {
    pub text: String,
    /// White, then gold, then blazing orange.
    pub color: Rgb,
    /// Its font size: it pulses on each hit and grows gently with the streak.
    pub size: Fraction,
    /// The font size of "ON FIRE!" above it, if it is.
    pub on_fire: Option<Fraction>,
}

impl ComboView {
    /// Whether this is the combo counter of `fx`.
    pub open spec fn of(self, fx: EffectsSystem) -> bool {
        let combo = fx.tally.combo;
        &&& self.text@ == "x"@ + decimal(multiplier_of(combo as int) as nat) + "   "@ + decimal(
            combo as nat,
        ) + " COMBO"@
        &&& self.size.den == POP_TIME
        &&& self.size.num == 40 * POP_TIME + 22 * fx.combo_pop + 14 * POP_TIME / 50 * (if combo
            < 50 {
            combo as int
        } else {
            50
        })
        &&& self.on_fire is Some <==> combo >= FIRE_COMBO
        &&& self.on_fire is Some ==> self.on_fire->0.den == POP_TIME && self.on_fire->0.num == 22
            * POP_TIME + 6 * fx.combo_pop
        &&& self.color == (if combo >= FIRE_COMBO {
            (255u8, 120u8, 35u8)
        } else if combo >= 10 {
            (255u8, 216u8, 74u8)
        } else {
            (255u8, 255u8, 255u8)
        })
    }
}

/// The combo counter, from the second step on.
pub fn combo_view(fx: &EffectsSystem) -> (view: Option<ComboView>)
    requires
        fx.wf(),
    ensures
        view is Some <==> fx.tally.combo >= 2,
        view is Some ==> view->0.of(*fx),
{
    let combo: u32 = fx.combo();
    if combo < 2 {
        return None;
    }
    let on_fire = fx.on_fire();
    let mut text = String::from_str("x");
    push_decimal(&mut text, fx.multiplier() as u64);
    text.append("   ");
    push_decimal(&mut text, combo as u64);
    text.append(" COMBO");
    let color: Rgb = if on_fire {
        (255, 120, 35)
    } else if combo >= 10 {
        (255, 216, 74)
    } else {
        (255, 255, 255)
    };
    let pop: u64 = fx.combo_pop().num;
    let steps: u64 = if combo < 50 {
        combo as u64
    } else {
        50
    };
    let size = Fraction { num: 40 * POP_TIME + 22 * pop + 70_000_000 * steps, den: POP_TIME };
    let on_fire = if on_fire {
        Some(Fraction { num: 22 * POP_TIME + 6 * pop, den: POP_TIME })
    } else {
        None
    };
    Some(ComboView { text, color, size, on_fire })
}

/// The title crawls 45 pixels a second, but never more than a pixel and a half a frame.
pub proof fn law_the_speed_of_the_title(dt: u64)
    ensures
        45 * dt <= 1_500_000_000 ==> title_step(dt) == 45 * dt,
        45 * dt >= 1_500_000_000 ==> title_step(dt) == 1_500_000_000,
{
}

/// A frame moves the title left by its step; once it has left the band to the left it
/// comes in again from the right, a band and a title further along.
pub proof fn law_the_title_crawls_to_the_left(marquee: Marquee, after: Marquee, dt: u64)
    requires
        marquee.wf(),
        marquee.title_width > marquee.band_width,
        after.scroll == marquee.crawled(dt),
        after.title_width == marquee.title_width,
        after.band_width == marquee.band_width,
    ensures
        ({
            let to = marquee.x() - title_step(dt);
            &&& to > -marquee.title_width ==> after.x() == to
            &&& to <= -marquee.title_width ==> after.x() == to + marquee.band_width
                + marquee.title_width
        }),
{
}

/// When the title is shown: not at all without text; still, from its start, where it fits
/// its band; and else crawling, unless the window is too small for the band.
pub proof fn law_how_the_title_is_shown(
    marquee: Marquee,
    after: Marquee,
    has_text: bool,
    band_on_screen: bool,
    dt: u64,
    view: TitleView,
)
    requires
        marquee.wf(),
        marquee.shows(after, has_text, band_on_screen, dt, view),
    ensures
        ({
            let text = has_text && marquee.title_width > 0;
            let fits = marquee.title_width <= marquee.band_width;
            &&& view == TitleView::Still <==> text && fits
            &&& view is Crawling <==> text && !fits && band_on_screen
            &&& view == TitleView::Hidden <==> !text || (!fits && !band_on_screen)
            &&& view is Still ==> after.scroll == 0
            &&& view is Hidden ==> after.scroll == marquee.scroll
            &&& view matches TitleView::Crawling { x } ==> x == after.x()
            &&& after.title_width == marquee.title_width && after.band_width == marquee.band_width
        }),
{
}

/// A share is shown as the nearest whole per cent.
pub proof fn law_per_cent_is_the_nearest(num: int, den: int)
    requires
        0 <= num <= den,
        0 < den,
    ensures
        -den <= 2 * (percent_of(num, den) * den - 100 * num) <= den,
        0 <= percent_of(num, den) <= 100,
        percent_of(den, den) == 100,
        percent_of(0, den) == 0,
{
    let p = percent_of(num, den);
    assert(-den <= 2 * (p * den - 100 * num) <= den) by (nonlinear_arith)
        requires
            p == (200 * num + den) / (2 * den),
            den > 0,
    ;
    assert(0 <= p <= 100) by (nonlinear_arith)
        requires
            p == (200 * num + den) / (2 * den),
            den > 0,
            0 <= num <= den,
    ;
    assert((200 * den + den) / (2 * den) == 100) by (nonlinear_arith)
        requires
            den > 0,
    ;
    assert((200 * 0 + den) / (2 * den) == 0) by (nonlinear_arith)
        requires
            den > 0,
    ;
}

/// What the results screen says: the grade, the share of full credit and of the notes
/// landed, each tally under its name, the score in groups of three digits and the longest
/// streak.
pub proof fn law_what_the_results_say(view: ResultsView, r: Results)
    requires
        view.of(r),
    ensures
        view.grade@ == rung_name(r.rung()),
        view.grade_color == rung_color(r.rung()),
        view.tallies@ == "PERFECT "@ + decimal(r.perfect as nat) + "    GOOD "@ + decimal(
            r.good as nat,
        ) + "    OK "@ + decimal(r.ok as nat) + "    MISS "@ + decimal(r.missed as nat)
            + "    WRONG "@ + decimal(r.wrong as nat),
        view.score@ == "SCORE "@ + grouped(r.score as nat) + "    ·    Best streak: "@ + decimal(
            r.best_combo as nat,
        ),
        view.summary@ == decimal(percent_of(r.share().0, r.share().1) as nat)
            + "% performance  ·  "@ + decimal(
            if r.perfect + r.good + r.ok + r.wrong + r.missed == 0 {
                0
            } else {
                percent_of(
                    r.perfect + r.good + r.ok,
                    r.perfect + r.good + r.ok + r.wrong + r.missed,
                ) as nat
            },
        ) + "% accuracy"@,
{
}

/// What the streak block says: the streak, orange once it is fifteen, the longest one,
/// the score, electric blue while it surges and gold else; and how far a bolt is charged,
/// while one is.
pub proof fn law_what_the_streak_says(view: StreakView, fx: EffectsSystem)
    requires
        fx.wf(),
        view.of(fx),
    ensures
        view.streak@ == decimal(fx.tally.combo as nat),
        view.best@ == "BEST "@ + decimal(fx.tally.best_combo as nat),
        view.score@ == "SCORE "@ + grouped(fx.tally.score as nat),
        fx.tally.combo >= 15 <==> view.streak_color == (255u8, 150u8, 40u8),
        fx.tally.combo < 15 <==> view.streak_color == (255u8, 255u8, 255u8),
        fx.tally.surge > 0 <==> view.score_color == (105u8, 195u8, 255u8),
        fx.tally.surge == 0 <==> view.score_color == (255u8, 222u8, 84u8),
        view.charge is Some <==> fx.tally.surge == 0 && fx.tally.perfect_chords > 0,
        view.charge is Some ==> view.charge->0@ == "PERFECT CHAIN "@ + decimal(
            fx.tally.perfect_chords as nat,
        ) + "/"@ + decimal(2),
        view.mood is Some <==> fx.recent@.len() >= 3,
        view.mood is Some ==> mood(fx.recent@) == Some(view.mood->0 as int),
{
}

/// A full chain that the crowd does not back yet says so; any other says how far it is.
pub proof fn law_what_the_charge_says(chords: nat, crowd_maxed: bool)
    ensures
        chords >= 2 && !crowd_maxed ==> charge_text(chords, crowd_maxed)
            == "CHAIN READY · WIN THE CROWD"@,
        chords < 2 || crowd_maxed ==> charge_text(chords, crowd_maxed) == "PERFECT CHAIN "@
            + decimal(chords) + "/"@ + decimal(2),
{
}

/// How a rising grade looks: over its key, in its own words and colour, bold when it is
/// PERFECT.
pub proof fn law_how_a_grade_rises(view: RisingView, rising: RisingText)
    requires
        view.of(rising),
    ensures
        view.x == rising.x,
        view.text@ == rising.grade.label(),
        view.bold <==> rising.grade == RisingGrade::Perfect,
        rising.grade == RisingGrade::Perfect <==> view.color == (255u8, 222u8, 84u8),
        rising.grade == RisingGrade::Good <==> view.color == (196u8, 255u8, 196u8),
        rising.grade == RisingGrade::Slow <==> view.color == (190u8, 150u8, 150u8),
{
}

/// What the combo counter says: the multiplier and the combo; white, then gold from ten,
/// then orange from fifteen, when it is on fire. It is 40 high at rest, 22 more when it
/// pops, and grows by 14 over fifty steps.
pub proof fn law_what_the_combo_says(view: ComboView, fx: EffectsSystem)
    requires
        fx.wf(),
        view.of(fx),
    ensures
        ({
            let combo = fx.tally.combo as int;
            let times = if combo < 10 {
                1nat
            } else if combo < 20 {
                2
            } else if combo < 30 {
                3
            } else {
                4
            };
            let steps = if combo < 50 {
                combo
            } else {
                50
            };
            &&& view.text@ == "x"@ + decimal(times) + "   "@ + decimal(combo as nat) + " COMBO"@
            &&& view.size.den == 250_000_000
            &&& 50 * view.size.num == 50 * (40 * 250_000_000 + 22 * fx.combo_pop) + 14 * 250_000_000
                * steps
            &&& view.on_fire is Some <==> combo >= 15
            &&& view.on_fire is Some ==> view.on_fire->0.den == 250_000_000 && view.on_fire->0.num
                == 22 * 250_000_000 + 6 * fx.combo_pop
            &&& combo >= 15 <==> view.color == (255u8, 120u8, 35u8)
            &&& 10 <= combo < 15 <==> view.color == (255u8, 216u8, 74u8)
            &&& combo < 10 <==> view.color == (255u8, 255u8, 255u8)
        }),
{
    let combo = fx.tally.combo as int;
    assert(14 * POP_TIME / 50 == 70_000_000);
    let steps: int = if combo < 50 {
        combo
    } else {
        50
    };
    assert(view.size.num == 40 * POP_TIME + 22 * fx.combo_pop + 70_000_000 * steps);
    let (pop, num) = (fx.combo_pop as int, view.size.num as int);
    assert(50 * num == 50 * (40 * 250_000_000 + 22 * pop) + 14 * 250_000_000 * steps)
        by (nonlinear_arith)
        requires
            num == 40 * 250_000_000 + 22 * pop + 70_000_000 * steps,
    ;
    assert(multiplier_of(combo) == (if combo < 10 {
        1int
    } else if combo < 20 {
        2
    } else if combo < 30 {
        3
    } else {
        4
    }));
}

} // verus!
