//! Easing curves: periodic functions of animation time that rest at 0 or 1
//! and move between the two along half-cosines.
//!
//! A curve cuts its loop into a number of equal parts and groups them into
//! segments. On each segment it is constantly 0, constantly 1, or a wave
//! `half_cosine(turns) = (cos(turns * 2 * pi) + 1) / 2` of the time. Time is kept
//! exact, so the segment a moment falls into, and the argument of the wave,
//! are known without rounding; only the cosine itself is left to the caller.

use vstd::prelude::*;
use crate::time::place_in_loop;
use crate::time::Fraction;

verus! {

/// How a wave segment turns its half-cosine `h` into a value.
#[derive(Clone, Copy, Debug, PartialEq, Eq, Structural)]
pub enum Shape {
    /// `h`: 1 at whole turns, 0 at half turns.
    Cosine,
    /// `1 - h`: 0 at whole turns, 1 at half turns.
    Inverted,
    /// `h / 2 + 1 / 2`: 1 at whole turns, one half at half turns.
    Shallow,
}

/// A wave: its shape, how many turns the cosine makes per loop (a numerator
/// and a denominator), and the part of the loop at which the turns are counted
/// from.
#[derive(Clone, Copy, Debug, PartialEq, Eq, Structural)]
pub struct Wave {
    pub shape: Shape,
    pub rate_numerator: u8,
    pub rate_denominator: u8,
    pub origin: u8,
}

/// What a curve does on one segment.
#[derive(Clone, Copy, Debug, PartialEq, Eq, Structural)]
pub enum Piece {
    /// Constantly 0.
    Low,
    /// Constantly 1.
    High,
    /// A half-cosine wave.
    Wave(Wave),
}

impl Piece {
    /// A wave has a rate: its denominator is not zero.
    pub open spec fn wf(self) -> bool {
        match self {
            Piece::Wave(w) => w.rate_denominator > 0,
            _ => true,
        }
    }
}

/// One segment of a curve: the part of the loop at which it ends, and what the
/// curve does up to there. It begins where the segment before it ends, the
/// first one at 0.
#[derive(Clone, Copy, Debug, PartialEq, Eq, Structural)]
pub struct Segment {
    pub end: u8,
    pub piece: Piece,
}

/// A segment that rests at 0 up to `end`.
pub open spec fn low(end: u8) -> Segment {
    Segment { end, piece: Piece::Low }
}

/// A segment that rests at 1 up to `end`.
pub open spec fn high(end: u8) -> Segment {
    Segment { end, piece: Piece::High }
}

/// A segment that follows a wave up to `end`: the shape of the wave, its rate
/// as a numerator and a denominator, and its origin.
pub open spec fn wave(end: u8, shape: Shape, rate: (u8, u8), origin: u8) -> Segment {
    Segment {
        end,
        piece: Piece::Wave(
            Wave { shape, rate_numerator: rate.0, rate_denominator: rate.1, origin },
        ),
    }
}

impl Segment {
    /// A segment that rests at 0 up to `end`.
    pub fn low(end: u8) -> (segment: Segment)
        ensures
            segment == low(end),
    {
        Segment { end, piece: Piece::Low }
    }

    /// A segment that rests at 1 up to `end`.
    pub fn high(end: u8) -> (segment: Segment)
        ensures
            segment == high(end),
    {
        Segment { end, piece: Piece::High }
    }

    /// A segment that follows a wave up to `end`: the shape of the wave, its
    /// rate as a numerator and a denominator, and its origin.
    pub fn wave(end: u8, shape: Shape, rate: (u8, u8), origin: u8) -> (segment: Segment)
        ensures
            segment == wave(end, shape, rate, origin),
    {
        Segment {
            end,
            piece: Piece::Wave(
                Wave { shape, rate_numerator: rate.0, rate_denominator: rate.1, origin },
            ),
        }
    }
}

/// The value of a curve at one moment: 0, 1, or a wave of known shape at a
/// known argument, `turns_numerator / turns_denominator` turns of the cosine.
#[derive(Clone, Copy, Debug, PartialEq, Eq, Structural)]
pub enum Level {
    Low,
    High,
    Wave { shape: Shape, turns_numerator: i64, turns_denominator: i64 },
}

/// An easing curve: the number of equal parts of its loop, and its segments in
/// order.
#[derive(Clone, Debug)]
pub struct Curve {
    pub parts: u8,
    pub segments: Vec<Segment>,
}

/// The mathematical content of a [`Curve`].
pub struct CurveView {
    pub parts: u8,
    pub segments: Seq<Segment>,
}

impl View for Curve {
    type V = CurveView;

    open spec fn view(&self) -> CurveView {
        CurveView { parts: self.parts, segments: self.segments@ }
    }
}

/// The value, counted in halves, of a wave of the given shape whose cosine
/// has made `half_turns` half turns: the cosine is 1 after an even number of
/// them and -1 after an odd number.
pub open spec fn wave_halves(shape: Shape, half_turns: int) -> int {
    let h: int = if half_turns % 2 == 0 {
        1
    } else {
        0
    };
    match shape {
        Shape::Cosine => 2 * h,
        Shape::Inverted => 2 - 2 * h,
        Shape::Shallow => h + 1,
    }
}

/// The value of a wave of the given shape where its half-cosine is `h`.
pub open spec fn shaped(shape: Shape, h: real) -> real {
    match shape {
        Shape::Cosine => h,
        Shape::Inverted => 1real - h,
        Shape::Shallow => (h + 1real) / 2real,
    }
}

/// The number that a level stands for, where `h` is the half-cosine of the
/// argument of its wave: 0, 1, or the wave's shape applied to `h`.
pub open spec fn value_of(level: Level, h: real) -> real {
    match level {
        Level::Low => 0real,
        Level::High => 1real,
        Level::Wave { shape, .. } => shaped(shape, h),
    }
}

/// A curve stays between 0 and 1: a half-cosine lies between 0 and 1, and
/// whatever it is, so does the value of every level.
pub proof fn lemma_value_in_unit_range(level: Level, h: real)
    requires
        0real <= h <= 1real,
    ensures
        0real <= value_of(level, h) <= 1real,
{
}

/// What is known exactly at a boundary is the value of the wave's shape
/// there: after an even number of half turns the half-cosine is 1, after an
/// odd number it is 0, and `wave_halves` counts the value in halves.
pub proof fn lemma_halves_are_values(shape: Shape, half_turns: int)
    ensures
        wave_halves(shape, half_turns) as real == 2real * shaped(
            shape,
            if half_turns % 2 == 0 {
                1real
            } else {
                0real
            },
        ),
{
}

impl CurveView {
    /// The part of the loop at which segment `i` begins.
    pub open spec fn start(self, i: int) -> int {
        if i == 0 {
            0
        } else {
            self.segments[i - 1].end as int
        }
    }

    /// Segment `i` ends after it begins.
    pub open spec fn has_room(self, i: int) -> bool {
        self.start(i) < self.segments[i].end
    }

    /// The segments are not empty, follow one another, and fill the loop; every
    /// wave has a rate.
    pub open spec fn wf(self) -> bool {
        &&& self.parts > 0
        &&& self.segments.len() > 0
        &&& self.segments.last().end == self.parts
        &&& forall|i: int| 0 <= i < self.segments.len() ==> #[trigger] self.has_room(i)
        &&& forall|i: int|
            0 <= i < self.segments.len() ==> (#[trigger] self.segments[i]).piece.wf()
    }

    /// Segment `i` holds the place `place / denominator` of the loop.
    pub open spec fn holds(self, i: int, place: int, denominator: int) -> bool {
        &&& 0 <= i < self.segments.len()
        &&& self.start(i) * denominator <= place * self.parts
        &&& place * self.parts < self.segments[i].end * denominator
    }

    /// What the piece of segment `i` is worth at the place
    /// `place / denominator` of the loop. The cosine of a wave has then made
    /// `rate * (place / denominator - origin / parts)` turns.
    pub open spec fn level_in(self, i: int, place: int, denominator: int) -> Level {
        match self.segments[i].piece {
            Piece::Low => Level::Low,
            Piece::High => Level::High,
            Piece::Wave(w) => Level::Wave {
                shape: w.shape,
                turns_numerator: (w.rate_numerator * (place * self.parts - w.origin
                    * denominator)) as i64,
                turns_denominator: (w.rate_denominator * denominator * self.parts) as i64,
            },
        }
    }

    /// The value of the curve at the moment `numerator / denominator`: that of
    /// the segment which holds the place of the moment within the loop.
    pub open spec fn level_at(self, numerator: int, denominator: int) -> Level {
        let place = place_in_loop(numerator, denominator);
        let i = choose|i: int| self.holds(i, place, denominator);
        self.level_in(i, place, denominator)
    }

    /// The value of the piece of segment `i`, counted in halves, at the
    /// boundary `at` parts into the loop, where it is known exactly: 0 or 2 on
    /// a constant, and on a wave whose cosine has by then made a whole number
    /// of half turns what `wave_halves` says.
    pub open spec fn halves_at(self, i: int, at: int) -> Option<int> {
        match self.segments[i].piece {
            Piece::Low => Some(0),
            Piece::High => Some(2),
            Piece::Wave(w) => {
                let twice = 2 * w.rate_numerator * (at - w.origin);
                let whole = w.rate_denominator * self.parts;
                if whole > 0 && twice % whole == 0 {
                    Some(wave_halves(w.shape, twice / whole))
                } else {
                    None
                }
            },
        }
    }

    /// Where segment `i` ends, it and the next segment have the same exactly
    /// known value.
    pub open spec fn joins_after(self, i: int) -> bool {
        &&& self.halves_at(i, self.segments[i].end as int) is Some
        &&& self.halves_at(i, self.segments[i].end as int) == self.halves_at(
            i + 1,
            self.segments[i].end as int,
        )
    }

    /// The curve has no jump: where one segment ends, it and the next one have
    /// the same exactly known value, and so have the last segment at the end
    /// of the loop and the first at its start.
    pub open spec fn smooth(self) -> bool {
        &&& forall|i: int| 0 <= i < self.segments.len() - 1 ==> #[trigger] self.joins_after(i)
        &&& self.halves_at(self.segments.len() - 1, self.parts as int) is Some
        &&& self.halves_at(self.segments.len() - 1, self.parts as int) == self.halves_at(0, 0)
    }
}

/// A later segment of a well-formed curve ends no earlier than an earlier one.
proof fn lemma_ends_increase(curve: CurveView, i: int, j: int)
    requires
        curve.wf(),
        0 <= i <= j < curve.segments.len(),
    ensures
        curve.segments[i].end <= curve.segments[j].end,
    decreases j - i,
{
    if i < j {
        lemma_ends_increase(curve, i, j - 1);
        assert(curve.has_room(j));
    }
}

/// The segments of a well-formed curve come in order: a later one begins no
/// earlier than an earlier one ends, and none ends after the loop does.
pub proof fn lemma_segments_in_order(curve: CurveView, i: int, j: int)
    requires
        curve.wf(),
        0 <= i <= j < curve.segments.len(),
    ensures
        curve.segments[i].end <= curve.segments[j].end <= curve.parts,
        i < j ==> curve.segments[i].end <= curve.start(j),
{
    lemma_ends_increase(curve, i, j);
    lemma_ends_increase(curve, j, curve.segments.len() - 1);
    if i < j {
        lemma_ends_increase(curve, i, j - 1);
    }
}

/// From segment `i` on, some segment holds a place that segment `i` does
/// not begin after.
proof fn lemma_holder_from(curve: CurveView, i: int, place: int, denominator: int) -> (k: int)
    requires
        curve.wf(),
        0 <= i < curve.segments.len(),
        0 <= place < denominator,
        curve.start(i) * denominator <= place * curve.parts,
    ensures
        curve.holds(k, place, denominator),
    decreases curve.segments.len() - i,
{
    if place * curve.parts < curve.segments[i].end * denominator {
        i
    } else if i == curve.segments.len() - 1 {
        assert(place * curve.parts < curve.parts * denominator) by (nonlinear_arith)
            requires
                0 <= place < denominator,
                curve.parts > 0,
        ;
        i
    } else {
        lemma_holder_from(curve, i + 1, place, denominator)
    }
}

/// Every place of the loop is held by a segment, so a well-formed curve has
/// a value at every moment.
pub proof fn lemma_every_place_is_held(curve: CurveView, numerator: int, denominator: int)
    requires
        curve.wf(),
        denominator > 0,
    ensures
        exists|i: int| curve.holds(i, place_in_loop(numerator, denominator), denominator),
{
    let place = place_in_loop(numerator, denominator);
    crate::time::lemma_place_is_periodic(numerator, denominator, 0);
    assert(0 * denominator <= place * curve.parts) by (nonlinear_arith)
        requires
            0 <= place,
            curve.parts > 0,
    ;
    let k = lemma_holder_from(curve, 0, place, denominator);
}

/// No place of the loop is held by two segments.
pub proof fn lemma_holder_unique(curve: CurveView, i: int, j: int, place: int, denominator: int)
    requires
        curve.wf(),
        denominator > 0,
        curve.holds(i, place, denominator),
        curve.holds(j, place, denominator),
    ensures
        i == j,
{
    if i < j {
        lemma_segments_in_order(curve, i, j);
        assert(curve.segments[i].end * denominator <= curve.start(j) * denominator)
            by (nonlinear_arith)
            requires
                curve.segments[i].end <= curve.start(j),
                denominator > 0,
        ;
    } else if j < i {
        lemma_segments_in_order(curve, j, i);
        assert(curve.segments[j].end * denominator <= curve.start(i) * denominator)
            by (nonlinear_arith)
            requires
                curve.segments[j].end <= curve.start(i),
                denominator > 0,
        ;
    }
}

/// Where segment `i` holds a moment's place in the loop, the curve has there
/// the value of that segment's piece: on a segment that is constantly 0 or
/// constantly 1, exactly that constant.
pub proof fn lemma_level_of_holder(curve: CurveView, i: int, numerator: int, denominator: int)
    requires
        curve.wf(),
        denominator > 0,
        curve.holds(i, place_in_loop(numerator, denominator), denominator),
    ensures
        curve.level_at(numerator, denominator) == curve.level_in(
            i,
            place_in_loop(numerator, denominator),
            denominator,
        ),
        curve.segments[i].piece == Piece::Low ==> curve.level_at(numerator, denominator)
            == Level::Low,
        curve.segments[i].piece == Piece::High ==> curve.level_at(numerator, denominator)
            == Level::High,
{
    let place = place_in_loop(numerator, denominator);
    let c = choose|c: int| curve.holds(c, place, denominator);
    lemma_holder_unique(curve, c, i, place, denominator);
}

/// A curve repeats itself: whole loops later, or earlier, it has the same
/// value.
pub proof fn lemma_curve_is_periodic(curve: CurveView, numerator: int, denominator: int, loops: int)
    requires
        denominator > 0,
    ensures
        curve.level_at(numerator + loops * denominator, denominator) == curve.level_at(
            numerator,
            denominator,
        ),
{
    crate::time::lemma_place_is_periodic(numerator, denominator, loops);
}

/// The argument of a wave is kept without loss: for a place within the loop,
/// the two integers of the level are exactly the numerator and the
/// denominator of `rate * (place / denominator - origin / parts)`.
pub proof fn lemma_turns_are_exact(curve: CurveView, i: int, place: int, denominator: int)
    requires
        0 <= i < curve.segments.len(),
        0 <= place < denominator <= u32::MAX,
        curve.segments[i].piece is Wave,
    ensures
        ({
            let w = curve.segments[i].piece->Wave_0;
            let level = curve.level_in(i, place, denominator);
            &&& level is Wave
            &&& level->shape == w.shape
            &&& level->turns_numerator == w.rate_numerator * (place * curve.parts - w.origin
                * denominator)
            &&& level->turns_denominator == w.rate_denominator * denominator * curve.parts
        }),
{
    let w = curve.segments[i].piece->Wave_0;
    lemma_products_fit(place, denominator, curve.parts as int);
    lemma_products_fit(place, denominator, w.origin as int);
    lemma_turns_fit(
        w.rate_numerator as int,
        w.rate_denominator as int,
        place * curve.parts - w.origin * denominator,
        denominator,
        curve.parts as int,
    );
}

/// What is known exactly at a boundary is the value of the wave there: at
/// the boundary `at` parts into the loop, a wave whose value is known has made
/// a whole number of half turns, and its value is what `wave_halves` gives
/// for that number.
pub proof fn lemma_boundary_level(curve: CurveView, i: int, at: int) -> (half_turns: int)
    requires
        curve.parts > 0,
        0 <= i < curve.segments.len(),
        0 <= at < curve.parts,
        curve.segments[i].piece is Wave,
        curve.halves_at(i, at) is Some,
    ensures
        ({
            let level = curve.level_in(i, at, curve.parts as int);
            &&& level is Wave
            &&& level->shape == curve.segments[i].piece->Wave_0.shape
            &&& level->turns_denominator > 0
            &&& 2 * level->turns_numerator == half_turns * level->turns_denominator
            &&& curve.halves_at(i, at) == Some(wave_halves(level->shape, half_turns))
        }),
{
    let w = curve.segments[i].piece->Wave_0;
    let parts = curve.parts as int;
    let twice = 2 * w.rate_numerator * (at - w.origin);
    let whole = w.rate_denominator * parts;
    let half_turns = twice / whole;
    lemma_turns_are_exact(curve, i, at, parts);
    vstd::arithmetic::div_mod::lemma_fundamental_div_mod(twice, whole);
    assert(twice == whole * half_turns);
    let n = w.rate_numerator * (at * parts - w.origin * parts);
    let d = w.rate_denominator * parts * parts;
    assert(2 * n == half_turns * d) by (nonlinear_arith)
        requires
            n == w.rate_numerator * (at * parts - w.origin * parts),
            d == w.rate_denominator * parts * parts,
            2 * w.rate_numerator * (at - w.origin) == (w.rate_denominator * parts) * half_turns,
    ;
    assert(d > 0) by (nonlinear_arith)
        requires
            d == w.rate_denominator * parts * parts,
            w.rate_denominator * parts > 0,
            parts > 0,
    ;
    half_turns
}

/// A wave whose cosine has made exactly `half_turns` half turns when the loop
/// is `at` parts old has there the value that `wave_halves` gives. The rate
/// and origin of the wave and the parts of the loop are passed once more as
/// plain numbers, so that the one product the caller has to check is a
/// product of numbers.
pub proof fn lemma_wave_value(
    curve: CurveView,
    i: int,
    at: int,
    half_turns: int,
    rate: (int, int),
    origin: int,
    parts: int,
)
    requires
        0 <= i < curve.segments.len(),
        curve.parts == parts,
        curve.segments[i].piece matches Piece::Wave(w) && w.rate_numerator == rate.0
            && w.rate_denominator == rate.1 && w.origin == origin,
        parts > 0,
        rate.1 > 0,
        2 * rate.0 * (at - origin) == half_turns * (rate.1 * parts),
    ensures
        curve.segments[i].piece matches Piece::Wave(w) && curve.halves_at(i, at) == Some(
            wave_halves(w.shape, half_turns),
        ),
{
    let w = curve.segments[i].piece->Wave_0;
    let twice = 2 * w.rate_numerator * (at - w.origin);
    let whole = w.rate_denominator * curve.parts;
    assert(whole > 0) by (nonlinear_arith)
        requires
            whole == w.rate_denominator * curve.parts,
            w.rate_denominator > 0,
            curve.parts > 0,
    ;
    assert(twice == whole * half_turns + 0) by (nonlinear_arith)
        requires
            twice == 2 * rate.0 * (at - origin),
            whole == rate.1 * parts,
            2 * rate.0 * (at - origin) == half_turns * (rate.1 * parts),
    ;
    vstd::arithmetic::div_mod::lemma_fundamental_div_mod_converse(twice, whole, half_turns, 0);
}

/// Products of a place in the loop, or of its denominator, with a small
/// number stay small.
proof fn lemma_products_fit(place: int, denominator: int, small: int)
    requires
        0 <= place < denominator <= 0xffff_ffff,
        0 <= small <= 255,
    ensures
        0 <= place * small <= 255 * 0xffff_ffff,
        0 <= small * denominator <= 255 * 0xffff_ffff,
        forall|other: int|
            0 <= other <= 255 ==> 0 <= #[trigger] (other * denominator) <= 255 * 0xffff_ffff,
{
    assert(0 <= place * small <= 255 * 0xffff_ffff) by (nonlinear_arith)
        requires
            0 <= place <= 0xffff_ffff,
            0 <= small <= 255,
    ;
    assert forall|other: int| 0 <= other <= 255 implies 0 <= #[trigger] (other * denominator) <= 255
        * 0xffff_ffff by {
        assert(0 <= other * denominator <= 255 * 0xffff_ffff) by (nonlinear_arith)
            requires
                0 <= denominator <= 0xffff_ffff,
                0 <= other <= 255,
        ;
    }
}

/// The argument of a wave fits the integers it is kept in.
proof fn lemma_turns_fit(
    rate_numerator: int,
    rate_denominator: int,
    span: int,
    denominator: int,
    parts: int,
)
    requires
        0 <= rate_numerator <= 255,
        0 <= rate_denominator <= 255,
        -255 * 0xffff_ffff <= span <= 255 * 0xffff_ffff,
        0 <= denominator <= 0xffff_ffff,
        0 <= parts <= 255,
    ensures
        -255 * 255 * 0xffff_ffff <= rate_numerator * span <= 255 * 255 * 0xffff_ffff,
        0 <= rate_denominator * denominator <= 255 * 0xffff_ffff,
        0 <= rate_denominator * denominator * parts <= 255 * 255 * 0xffff_ffff,
{
    assert(-255 * 255 * 0xffff_ffff <= rate_numerator * span <= 255 * 255 * 0xffff_ffff)
        by (nonlinear_arith)
        requires
            0 <= rate_numerator <= 255,
            -255 * 0xffff_ffff <= span <= 255 * 0xffff_ffff,
    ;
    assert(0 <= rate_denominator * denominator <= 255 * 0xffff_ffff) by (nonlinear_arith)
        requires
            0 <= rate_denominator <= 255,
            0 <= denominator <= 0xffff_ffff,
    ;
    assert(0 <= (rate_denominator * denominator) * parts <= 255 * 255 * 0xffff_ffff)
        by (nonlinear_arith)
        requires
            0 <= rate_denominator * denominator <= 255 * 0xffff_ffff,
            0 <= parts <= 255,
    ;
}

impl Curve {
    /// Whether the curve is well formed, so that it has a value at every
    /// moment.
    pub fn is_well_formed(&self) -> (ok: bool)
        ensures
            ok == self@.wf(),
    {
        if self.parts == 0 || self.segments.len() == 0 {
            return false;
        }
        let mut start: u8 = 0;
        let mut i: usize = 0;
        while i < self.segments.len()
            invariant
                i <= self.segments.len(),
                start == self@.start(i as int),
                forall|j: int| 0 <= j < i ==> #[trigger] self@.has_room(j),
                forall|j: int| 0 <= j < i ==> (#[trigger] self@.segments[j]).piece.wf(),
            decreases self.segments.len() - i,
        {
            let segment = self.segments[i];
            if segment.end <= start {
                assert(!self@.has_room(i as int));
                return false;
            }
            match segment.piece {
                Piece::Wave(w) => {
                    if w.rate_denominator == 0 {
                        assert(!self@.segments[i as int].piece.wf());
                        return false;
                    }
                },
                _ => {},
            }
            start = segment.end;
            i += 1;
        }
        self.segments[self.segments.len() - 1].end == self.parts
    }

    /// The value of the curve at `moment`.
    pub fn level_at(&self, moment: Fraction) -> (level: Level)
        requires
            self@.wf(),
            moment.wf(),
        ensures
            level == self@.level_at(moment.numerator as int, moment.denominator as int),
    {
        let place = moment.place();
        let denominator = moment.denominator;
        let parts = self.parts;
        proof {
            lemma_products_fit(place as int, denominator as int, parts as int);
        }
        let scaled: u64 = place as u64 * parts as u64;
        let last: usize = self.segments.len() - 1;
        let mut i: usize = 0;
        while i < last && scaled >= self.segments[i].end as u64 * denominator as u64
            invariant
                forall|small: int|
                    0 <= small <= 255 ==> 0 <= #[trigger] (small * denominator) <= 255
                        * 0xffff_ffff,
                self@.wf(),
                i <= last,
                last == self.segments.len() - 1,
                denominator > 0,
                place < denominator,
                scaled == place * parts,
                parts == self.parts,
                self@.start(i as int) * denominator <= scaled,
            decreases last - i,
        {
            i += 1;
        }
        proof {
            if i == last {
                assert(self.segments@[i as int].end == parts);
                assert(place * parts < parts * denominator) by (nonlinear_arith)
                    requires
                        place < denominator,
                        parts > 0,
                ;
            }
            assert(self@.holds(i as int, place as int, denominator as int));
            lemma_level_of_holder(
                self@,
                i as int,
                moment.numerator as int,
                moment.denominator as int,
            );
        }
        match self.segments[i].piece {
            Piece::Low => Level::Low,
            Piece::High => Level::High,
            Piece::Wave(w) => {
                proof {
                    lemma_products_fit(place as int, denominator as int, w.origin as int);
                    lemma_turns_fit(
                        w.rate_numerator as int,
                        w.rate_denominator as int,
                        place * parts - w.origin * denominator,
                        denominator as int,
                        parts as int,
                    );
                }
                let offset: u64 = w.origin as u64 * denominator as u64;
                let span: i64 = scaled as i64 - offset as i64;
                let turns_numerator: i64 = w.rate_numerator as i64 * span;
                let below: i64 = w.rate_denominator as i64 * denominator as i64;
                let turns_denominator: i64 = below * parts as i64;
                Level::Wave { shape: w.shape, turns_numerator, turns_denominator }
            },
        }
    }
}

} // verus!
