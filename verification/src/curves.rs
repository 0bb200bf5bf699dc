//! The easing curves of the four animations.
//!
//! Each curve is given three times over: as a table in the mathematical
//! model, as a proof that the table is a well-formed curve without a jump, and
//! as the function that builds it. The loop of the eight ball is cut into
//! elevenths, that of the football into twelfths and that of the star ball
//! into sixths, and in each of them the cosine of every wave makes one half
//! turn per part; the loop of the beach ball is cut into fifths, and its one
//! wave makes a full turn in four of them.

use vstd::prelude::*;
use crate::easing::high;
use crate::easing::lemma_wave_value;
use crate::easing::low;
use crate::easing::wave;
use crate::easing::Curve;
use crate::easing::CurveView;
use crate::easing::Segment;
use crate::easing::Shape;

verus! {

/// How far the spheres of the beach ball orbit from their axis: not at all for
/// the first fifth of the loop, then out and back in one full wave.
pub open spec fn beachball_orbit_radius_curve() -> CurveView {
    CurveView {
        parts: 5,
        segments: seq![
            low(1),
            wave(5, Shape::Inverted, (5, 4), 1),
        ],
    }
}

/// The curve `beachball_orbit_radius` is well formed and has no jump.
pub proof fn lemma_beachball_orbit_radius_is_smooth()
    ensures
        beachball_orbit_radius_curve().wf(),
        beachball_orbit_radius_curve().smooth(),
{
    let c = beachball_orbit_radius_curve();
    assert(c.has_room(0));
    assert(c.has_room(1));
    lemma_wave_value(c, 1, 1, 0, (5, 4), 1, 5);
    lemma_wave_value(c, 1, 5, 2, (5, 4), 1, 5);
    assert(c.joins_after(0));
}

/// How far the spheres of the beach ball orbit from their axis: not at all for
/// the first fifth of the loop, then out and back in one full wave.
pub fn beachball_orbit_radius() -> (curve: Curve)
    ensures
        curve@ == beachball_orbit_radius_curve(),
        curve@.wf(),
        curve@.smooth(),
{
    let curve = Curve {
        parts: 5,
        segments: vec![
            Segment::low(1),
            Segment::wave(5, Shape::Inverted, (5, 4), 1),
        ],
    };
    proof {
        assert(curve@.segments =~= beachball_orbit_radius_curve().segments);
        lemma_beachball_orbit_radius_is_smooth();
    }
    curve
}

/// How far the black sphere of the eight ball is moved off the white one: out
/// during the first eleventh of the loop, back during the tenth.
pub open spec fn eightball_main_sphere_radial_offset_curve() -> CurveView {
    CurveView {
        parts: 11,
        segments: seq![
            wave(1, Shape::Inverted, (11, 2), 0),
            high(9),
            wave(10, Shape::Inverted, (11, 2), 0),
            low(11),
        ],
    }
}

/// The curve `eightball_main_sphere_radial_offset` is well formed and has no jump.
pub proof fn lemma_eightball_main_sphere_radial_offset_is_smooth()
    ensures
        eightball_main_sphere_radial_offset_curve().wf(),
        eightball_main_sphere_radial_offset_curve().smooth(),
{
    let c = eightball_main_sphere_radial_offset_curve();
    assert(c.has_room(0));
    assert(c.has_room(1));
    assert(c.has_room(2));
    assert(c.has_room(3));
    lemma_wave_value(c, 0, 0, 0, (11, 2), 0, 11);
    lemma_wave_value(c, 0, 1, 1, (11, 2), 0, 11);
    lemma_wave_value(c, 2, 9, 9, (11, 2), 0, 11);
    lemma_wave_value(c, 2, 10, 10, (11, 2), 0, 11);
    assert(c.joins_after(0));
    assert(c.joins_after(1));
    assert(c.joins_after(2));
}

/// How far the black sphere of the eight ball is moved off the white one: out
/// during the first eleventh of the loop, back during the tenth.
pub fn eightball_main_sphere_radial_offset() -> (curve: Curve)
    ensures
        curve@ == eightball_main_sphere_radial_offset_curve(),
        curve@.wf(),
        curve@.smooth(),
{
    let curve = Curve {
        parts: 11,
        segments: vec![
            Segment::wave(1, Shape::Inverted, (11, 2), 0),
            Segment::high(9),
            Segment::wave(10, Shape::Inverted, (11, 2), 0),
            Segment::low(11),
        ],
    };
    proof {
        assert(curve@.segments =~= eightball_main_sphere_radial_offset_curve().segments);
        lemma_eightball_main_sphere_radial_offset_is_smooth();
    }
    curve
}

/// How far the sphere that cuts the upper ring of the figure eight is pushed
/// out from the centre of the ball, with a dip half way while both rings are
/// out.
pub open spec fn eightball_circle_radial_upper_offset_curve() -> CurveView {
    CurveView {
        parts: 11,
        segments: seq![
            low(1),
            wave(2, Shape::Cosine, (11, 2), 0),
            high(4),
            wave(6, Shape::Shallow, (11, 2), 0),
            high(7),
            wave(8, Shape::Inverted, (11, 2), 0),
            low(11),
        ],
    }
}

/// The curve `eightball_circle_radial_upper_offset` is well formed and has no jump.
pub proof fn lemma_eightball_circle_radial_upper_offset_is_smooth()
    ensures
        eightball_circle_radial_upper_offset_curve().wf(),
        eightball_circle_radial_upper_offset_curve().smooth(),
{
    let c = eightball_circle_radial_upper_offset_curve();
    assert(c.has_room(0));
    assert(c.has_room(1));
    assert(c.has_room(2));
    assert(c.has_room(3));
    assert(c.has_room(4));
    assert(c.has_room(5));
    assert(c.has_room(6));
    lemma_wave_value(c, 1, 1, 1, (11, 2), 0, 11);
    lemma_wave_value(c, 1, 2, 2, (11, 2), 0, 11);
    lemma_wave_value(c, 3, 4, 4, (11, 2), 0, 11);
    lemma_wave_value(c, 3, 6, 6, (11, 2), 0, 11);
    lemma_wave_value(c, 5, 7, 7, (11, 2), 0, 11);
    lemma_wave_value(c, 5, 8, 8, (11, 2), 0, 11);
    assert(c.joins_after(0));
    assert(c.joins_after(1));
    assert(c.joins_after(2));
    assert(c.joins_after(3));
    assert(c.joins_after(4));
    assert(c.joins_after(5));
}

/// How far the sphere that cuts the upper ring of the figure eight is pushed
/// out from the centre of the ball, with a dip half way while both rings are
/// out.
pub fn eightball_circle_radial_upper_offset() -> (curve: Curve)
    ensures
        curve@ == eightball_circle_radial_upper_offset_curve(),
        curve@.wf(),
        curve@.smooth(),
{
    let curve = Curve {
        parts: 11,
        segments: vec![
            Segment::low(1),
            Segment::wave(2, Shape::Cosine, (11, 2), 0),
            Segment::high(4),
            Segment::wave(6, Shape::Shallow, (11, 2), 0),
            Segment::high(7),
            Segment::wave(8, Shape::Inverted, (11, 2), 0),
            Segment::low(11),
        ],
    };
    proof {
        assert(curve@.segments =~= eightball_circle_radial_upper_offset_curve().segments);
        lemma_eightball_circle_radial_upper_offset_is_smooth();
    }
    curve
}

/// How far the sphere that cuts the lower ring of the figure eight is pushed
/// out from the centre of the ball, with a dip half way while both rings are
/// out.
pub open spec fn eightball_circle_radial_lower_offset_curve() -> CurveView {
    CurveView {
        parts: 11,
        segments: seq![
            low(2),
            wave(3, Shape::Inverted, (11, 2), 0),
            high(4),
            wave(6, Shape::Shallow, (11, 2), 0),
            high(8),
            wave(9, Shape::Cosine, (11, 2), 0),
            low(11),
        ],
    }
}

/// The curve `eightball_circle_radial_lower_offset` is well formed and has no jump.
pub proof fn lemma_eightball_circle_radial_lower_offset_is_smooth()
    ensures
        eightball_circle_radial_lower_offset_curve().wf(),
        eightball_circle_radial_lower_offset_curve().smooth(),
{
    let c = eightball_circle_radial_lower_offset_curve();
    assert(c.has_room(0));
    assert(c.has_room(1));
    assert(c.has_room(2));
    assert(c.has_room(3));
    assert(c.has_room(4));
    assert(c.has_room(5));
    assert(c.has_room(6));
    lemma_wave_value(c, 1, 2, 2, (11, 2), 0, 11);
    lemma_wave_value(c, 1, 3, 3, (11, 2), 0, 11);
    lemma_wave_value(c, 3, 4, 4, (11, 2), 0, 11);
    lemma_wave_value(c, 3, 6, 6, (11, 2), 0, 11);
    lemma_wave_value(c, 5, 8, 8, (11, 2), 0, 11);
    lemma_wave_value(c, 5, 9, 9, (11, 2), 0, 11);
    assert(c.joins_after(0));
    assert(c.joins_after(1));
    assert(c.joins_after(2));
    assert(c.joins_after(3));
    assert(c.joins_after(4));
    assert(c.joins_after(5));
}

/// How far the sphere that cuts the lower ring of the figure eight is pushed
/// out from the centre of the ball, with a dip half way while both rings are
/// out.
pub fn eightball_circle_radial_lower_offset() -> (curve: Curve)
    ensures
        curve@ == eightball_circle_radial_lower_offset_curve(),
        curve@.wf(),
        curve@.smooth(),
{
    let curve = Curve {
        parts: 11,
        segments: vec![
            Segment::low(2),
            Segment::wave(3, Shape::Inverted, (11, 2), 0),
            Segment::high(4),
            Segment::wave(6, Shape::Shallow, (11, 2), 0),
            Segment::high(8),
            Segment::wave(9, Shape::Cosine, (11, 2), 0),
            Segment::low(11),
        ],
    };
    proof {
        assert(curve@.segments =~= eightball_circle_radial_lower_offset_curve().segments);
        lemma_eightball_circle_radial_lower_offset_is_smooth();
    }
    curve
}

/// How far the sphere that cuts the hole of the upper ring is pushed out from
/// the centre of the ball.
pub open spec fn eightball_hole_radial_upper_offset_curve() -> CurveView {
    CurveView {
        parts: 11,
        segments: seq![
            low(1),
            wave(2, Shape::Cosine, (11, 2), 0),
            high(7),
            wave(8, Shape::Inverted, (11, 2), 0),
            low(11),
        ],
    }
}

/// The curve `eightball_hole_radial_upper_offset` is well formed and has no jump.
pub proof fn lemma_eightball_hole_radial_upper_offset_is_smooth()
    ensures
        eightball_hole_radial_upper_offset_curve().wf(),
        eightball_hole_radial_upper_offset_curve().smooth(),
{
    let c = eightball_hole_radial_upper_offset_curve();
    assert(c.has_room(0));
    assert(c.has_room(1));
    assert(c.has_room(2));
    assert(c.has_room(3));
    assert(c.has_room(4));
    lemma_wave_value(c, 1, 1, 1, (11, 2), 0, 11);
    lemma_wave_value(c, 1, 2, 2, (11, 2), 0, 11);
    lemma_wave_value(c, 3, 7, 7, (11, 2), 0, 11);
    lemma_wave_value(c, 3, 8, 8, (11, 2), 0, 11);
    assert(c.joins_after(0));
    assert(c.joins_after(1));
    assert(c.joins_after(2));
    assert(c.joins_after(3));
}

/// How far the sphere that cuts the hole of the upper ring is pushed out from
/// the centre of the ball.
pub fn eightball_hole_radial_upper_offset() -> (curve: Curve)
    ensures
        curve@ == eightball_hole_radial_upper_offset_curve(),
        curve@.wf(),
        curve@.smooth(),
{
    let curve = Curve {
        parts: 11,
        segments: vec![
            Segment::low(1),
            Segment::wave(2, Shape::Cosine, (11, 2), 0),
            Segment::high(7),
            Segment::wave(8, Shape::Inverted, (11, 2), 0),
            Segment::low(11),
        ],
    };
    proof {
        assert(curve@.segments =~= eightball_hole_radial_upper_offset_curve().segments);
        lemma_eightball_hole_radial_upper_offset_is_smooth();
    }
    curve
}

/// How far the sphere that cuts the hole of the lower ring is pushed out from
/// the centre of the ball.
pub open spec fn eightball_hole_radial_lower_offset_curve() -> CurveView {
    CurveView {
        parts: 11,
        segments: seq![
            low(2),
            wave(3, Shape::Inverted, (11, 2), 0),
            high(8),
            wave(9, Shape::Cosine, (11, 2), 0),
            low(11),
        ],
    }
}

/// The curve `eightball_hole_radial_lower_offset` is well formed and has no jump.
pub proof fn lemma_eightball_hole_radial_lower_offset_is_smooth()
    ensures
        eightball_hole_radial_lower_offset_curve().wf(),
        eightball_hole_radial_lower_offset_curve().smooth(),
{
    let c = eightball_hole_radial_lower_offset_curve();
    assert(c.has_room(0));
    assert(c.has_room(1));
    assert(c.has_room(2));
    assert(c.has_room(3));
    assert(c.has_room(4));
    lemma_wave_value(c, 1, 2, 2, (11, 2), 0, 11);
    lemma_wave_value(c, 1, 3, 3, (11, 2), 0, 11);
    lemma_wave_value(c, 3, 8, 8, (11, 2), 0, 11);
    lemma_wave_value(c, 3, 9, 9, (11, 2), 0, 11);
    assert(c.joins_after(0));
    assert(c.joins_after(1));
    assert(c.joins_after(2));
    assert(c.joins_after(3));
}

/// How far the sphere that cuts the hole of the lower ring is pushed out from
/// the centre of the ball.
pub fn eightball_hole_radial_lower_offset() -> (curve: Curve)
    ensures
        curve@ == eightball_hole_radial_lower_offset_curve(),
        curve@.wf(),
        curve@.smooth(),
{
    let curve = Curve {
        parts: 11,
        segments: vec![
            Segment::low(2),
            Segment::wave(3, Shape::Inverted, (11, 2), 0),
            Segment::high(8),
            Segment::wave(9, Shape::Cosine, (11, 2), 0),
            Segment::low(11),
        ],
    };
    proof {
        assert(curve@.segments =~= eightball_hole_radial_lower_offset_curve().segments);
        lemma_eightball_hole_radial_lower_offset_is_smooth();
    }
    curve
}

/// How far the spheres of the upper ring and its hole are moved sideways.
pub open spec fn eightball_horizontal_upper_offset_curve() -> CurveView {
    CurveView {
        parts: 11,
        segments: seq![
            low(2),
            wave(3, Shape::Inverted, (11, 2), 0),
            high(6),
            wave(7, Shape::Cosine, (11, 2), 0),
            low(11),
        ],
    }
}

/// The curve `eightball_horizontal_upper_offset` is well formed and has no jump.
pub proof fn lemma_eightball_horizontal_upper_offset_is_smooth()
    ensures
        eightball_horizontal_upper_offset_curve().wf(),
        eightball_horizontal_upper_offset_curve().smooth(),
{
    let c = eightball_horizontal_upper_offset_curve();
    assert(c.has_room(0));
    assert(c.has_room(1));
    assert(c.has_room(2));
    assert(c.has_room(3));
    assert(c.has_room(4));
    lemma_wave_value(c, 1, 2, 2, (11, 2), 0, 11);
    lemma_wave_value(c, 1, 3, 3, (11, 2), 0, 11);
    lemma_wave_value(c, 3, 6, 6, (11, 2), 0, 11);
    lemma_wave_value(c, 3, 7, 7, (11, 2), 0, 11);
    assert(c.joins_after(0));
    assert(c.joins_after(1));
    assert(c.joins_after(2));
    assert(c.joins_after(3));
}

/// How far the spheres of the upper ring and its hole are moved sideways.
pub fn eightball_horizontal_upper_offset() -> (curve: Curve)
    ensures
        curve@ == eightball_horizontal_upper_offset_curve(),
        curve@.wf(),
        curve@.smooth(),
{
    let curve = Curve {
        parts: 11,
        segments: vec![
            Segment::low(2),
            Segment::wave(3, Shape::Inverted, (11, 2), 0),
            Segment::high(6),
            Segment::wave(7, Shape::Cosine, (11, 2), 0),
            Segment::low(11),
        ],
    };
    proof {
        assert(curve@.segments =~= eightball_horizontal_upper_offset_curve().segments);
        lemma_eightball_horizontal_upper_offset_is_smooth();
    }
    curve
}

/// How far the spheres of the lower ring and its hole are moved sideways, the
/// other way.
pub open spec fn eightball_horizontal_lower_offset_curve() -> CurveView {
    CurveView {
        parts: 11,
        segments: seq![
            low(3),
            wave(4, Shape::Cosine, (11, 2), 0),
            high(7),
            wave(8, Shape::Inverted, (11, 2), 0),
            low(11),
        ],
    }
}

/// The curve `eightball_horizontal_lower_offset` is well formed and has no jump.
pub proof fn lemma_eightball_horizontal_lower_offset_is_smooth()
    ensures
        eightball_horizontal_lower_offset_curve().wf(),
        eightball_horizontal_lower_offset_curve().smooth(),
{
    let c = eightball_horizontal_lower_offset_curve();
    assert(c.has_room(0));
    assert(c.has_room(1));
    assert(c.has_room(2));
    assert(c.has_room(3));
    assert(c.has_room(4));
    lemma_wave_value(c, 1, 3, 3, (11, 2), 0, 11);
    lemma_wave_value(c, 1, 4, 4, (11, 2), 0, 11);
    lemma_wave_value(c, 3, 7, 7, (11, 2), 0, 11);
    lemma_wave_value(c, 3, 8, 8, (11, 2), 0, 11);
    assert(c.joins_after(0));
    assert(c.joins_after(1));
    assert(c.joins_after(2));
    assert(c.joins_after(3));
}

/// How far the spheres of the lower ring and its hole are moved sideways, the
/// other way.
pub fn eightball_horizontal_lower_offset() -> (curve: Curve)
    ensures
        curve@ == eightball_horizontal_lower_offset_curve(),
        curve@.wf(),
        curve@.smooth(),
{
    let curve = Curve {
        parts: 11,
        segments: vec![
            Segment::low(3),
            Segment::wave(4, Shape::Cosine, (11, 2), 0),
            Segment::high(7),
            Segment::wave(8, Shape::Inverted, (11, 2), 0),
            Segment::low(11),
        ],
    };
    proof {
        assert(curve@.segments =~= eightball_horizontal_lower_offset_curve().segments);
        lemma_eightball_horizontal_lower_offset_is_smooth();
    }
    curve
}

/// How far the figure eight is turned about the upright axis, as a part of
/// half a turn: not at all until the last eleventh of the loop, during which
/// it turns over once. With the next loop the turn starts again at nothing, so
/// this curve alone ends higher than it begins.
pub open spec fn eightball_flip_curve() -> CurveView {
    CurveView {
        parts: 11,
        segments: seq![
            low(10),
            wave(11, Shape::Inverted, (11, 2), 10),
        ],
    }
}

/// The curve `eightball_flip` is well formed.
pub proof fn lemma_eightball_flip_is_well_formed()
    ensures
        eightball_flip_curve().wf(),
{
    let c = eightball_flip_curve();
    assert(c.has_room(0));
    assert(c.has_room(1));
}

/// How far the figure eight is turned about the upright axis, as a part of
/// half a turn: not at all until the last eleventh of the loop, during which
/// it turns over once. With the next loop the turn starts again at nothing, so
/// this curve alone ends higher than it begins.
pub fn eightball_flip() -> (curve: Curve)
    ensures
        curve@ == eightball_flip_curve(),
        curve@.wf(),
{
    let curve = Curve {
        parts: 11,
        segments: vec![
            Segment::low(10),
            Segment::wave(11, Shape::Inverted, (11, 2), 10),
        ],
    };
    proof {
        assert(curve@.segments =~= eightball_flip_curve().segments);
        lemma_eightball_flip_is_well_formed();
    }
    curve
}

/// How far the spheres of the football stand from its centre: out and back
/// twice in every loop.
pub open spec fn football_orbital_radius_curve() -> CurveView {
    CurveView {
        parts: 12,
        segments: seq![
            low(1),
            wave(2, Shape::Cosine, (6, 1), 0),
            high(5),
            wave(6, Shape::Inverted, (6, 1), 0),
            low(7),
            wave(8, Shape::Cosine, (6, 1), 0),
            high(11),
            wave(12, Shape::Inverted, (6, 1), 0),
        ],
    }
}

/// The curve `football_orbital_radius` is well formed and has no jump.
pub proof fn lemma_football_orbital_radius_is_smooth()
    ensures
        football_orbital_radius_curve().wf(),
        football_orbital_radius_curve().smooth(),
{
    let c = football_orbital_radius_curve();
    assert(c.has_room(0));
    assert(c.has_room(1));
    assert(c.has_room(2));
    assert(c.has_room(3));
    assert(c.has_room(4));
    assert(c.has_room(5));
    assert(c.has_room(6));
    assert(c.has_room(7));
    lemma_wave_value(c, 1, 1, 1, (6, 1), 0, 12);
    lemma_wave_value(c, 1, 2, 2, (6, 1), 0, 12);
    lemma_wave_value(c, 3, 5, 5, (6, 1), 0, 12);
    lemma_wave_value(c, 3, 6, 6, (6, 1), 0, 12);
    lemma_wave_value(c, 5, 7, 7, (6, 1), 0, 12);
    lemma_wave_value(c, 5, 8, 8, (6, 1), 0, 12);
    lemma_wave_value(c, 7, 11, 11, (6, 1), 0, 12);
    lemma_wave_value(c, 7, 12, 12, (6, 1), 0, 12);
    assert(c.joins_after(0));
    assert(c.joins_after(1));
    assert(c.joins_after(2));
    assert(c.joins_after(3));
    assert(c.joins_after(4));
    assert(c.joins_after(5));
    assert(c.joins_after(6));
}

/// How far the spheres of the football stand from its centre: out and back
/// twice in every loop.
pub fn football_orbital_radius() -> (curve: Curve)
    ensures
        curve@ == football_orbital_radius_curve(),
        curve@.wf(),
        curve@.smooth(),
{
    let curve = Curve {
        parts: 12,
        segments: vec![
            Segment::low(1),
            Segment::wave(2, Shape::Cosine, (6, 1), 0),
            Segment::high(5),
            Segment::wave(6, Shape::Inverted, (6, 1), 0),
            Segment::low(7),
            Segment::wave(8, Shape::Cosine, (6, 1), 0),
            Segment::high(11),
            Segment::wave(12, Shape::Inverted, (6, 1), 0),
        ],
    };
    proof {
        assert(curve@.segments =~= football_orbital_radius_curve().segments);
        lemma_football_orbital_radius_is_smooth();
    }
    curve
}

/// How far the dark and the light spheres of the football are pulled apart
/// sideways.
pub open spec fn football_horizontal_offset_curve() -> CurveView {
    CurveView {
        parts: 12,
        segments: seq![
            low(3),
            wave(4, Shape::Cosine, (6, 1), 0),
            high(9),
            wave(10, Shape::Inverted, (6, 1), 0),
            low(12),
        ],
    }
}

/// The curve `football_horizontal_offset` is well formed and has no jump.
pub proof fn lemma_football_horizontal_offset_is_smooth()
    ensures
        football_horizontal_offset_curve().wf(),
        football_horizontal_offset_curve().smooth(),
{
    let c = football_horizontal_offset_curve();
    assert(c.has_room(0));
    assert(c.has_room(1));
    assert(c.has_room(2));
    assert(c.has_room(3));
    assert(c.has_room(4));
    lemma_wave_value(c, 1, 3, 3, (6, 1), 0, 12);
    lemma_wave_value(c, 1, 4, 4, (6, 1), 0, 12);
    lemma_wave_value(c, 3, 9, 9, (6, 1), 0, 12);
    lemma_wave_value(c, 3, 10, 10, (6, 1), 0, 12);
    assert(c.joins_after(0));
    assert(c.joins_after(1));
    assert(c.joins_after(2));
    assert(c.joins_after(3));
}

/// How far the dark and the light spheres of the football are pulled apart
/// sideways.
pub fn football_horizontal_offset() -> (curve: Curve)
    ensures
        curve@ == football_horizontal_offset_curve(),
        curve@.wf(),
        curve@.smooth(),
{
    let curve = Curve {
        parts: 12,
        segments: vec![
            Segment::low(3),
            Segment::wave(4, Shape::Cosine, (6, 1), 0),
            Segment::high(9),
            Segment::wave(10, Shape::Inverted, (6, 1), 0),
            Segment::low(12),
        ],
    };
    proof {
        assert(curve@.segments =~= football_horizontal_offset_curve().segments);
        lemma_football_horizontal_offset_is_smooth();
    }
    curve
}

/// How far the lower sphere of the star ball is moved off the upper one.
pub open spec fn starball_lower_sphere_offset_curve() -> CurveView {
    CurveView {
        parts: 6,
        segments: seq![
            low(1),
            wave(2, Shape::Cosine, (3, 1), 0),
            high(5),
            wave(6, Shape::Inverted, (3, 1), 0),
        ],
    }
}

/// The curve `starball_lower_sphere_offset` is well formed and has no jump.
pub proof fn lemma_starball_lower_sphere_offset_is_smooth()
    ensures
        starball_lower_sphere_offset_curve().wf(),
        starball_lower_sphere_offset_curve().smooth(),
{
    let c = starball_lower_sphere_offset_curve();
    assert(c.has_room(0));
    assert(c.has_room(1));
    assert(c.has_room(2));
    assert(c.has_room(3));
    lemma_wave_value(c, 1, 1, 1, (3, 1), 0, 6);
    lemma_wave_value(c, 1, 2, 2, (3, 1), 0, 6);
    lemma_wave_value(c, 3, 5, 5, (3, 1), 0, 6);
    lemma_wave_value(c, 3, 6, 6, (3, 1), 0, 6);
    assert(c.joins_after(0));
    assert(c.joins_after(1));
    assert(c.joins_after(2));
}

/// How far the lower sphere of the star ball is moved off the upper one.
pub fn starball_lower_sphere_offset() -> (curve: Curve)
    ensures
        curve@ == starball_lower_sphere_offset_curve(),
        curve@.wf(),
        curve@.smooth(),
{
    let curve = Curve {
        parts: 6,
        segments: vec![
            Segment::low(1),
            Segment::wave(2, Shape::Cosine, (3, 1), 0),
            Segment::high(5),
            Segment::wave(6, Shape::Inverted, (3, 1), 0),
        ],
    };
    proof {
        assert(curve@.segments =~= starball_lower_sphere_offset_curve().segments);
        lemma_starball_lower_sphere_offset_is_smooth();
    }
    curve
}

/// How far the stripe of the star ball is moved off the upper sphere.
pub open spec fn starball_stripe_sphere_offset_curve() -> CurveView {
    CurveView {
        parts: 6,
        segments: seq![
            low(2),
            wave(3, Shape::Inverted, (3, 1), 0),
            high(4),
            wave(5, Shape::Cosine, (3, 1), 0),
            low(6),
        ],
    }
}

/// The curve `starball_stripe_sphere_offset` is well formed and has no jump.
pub proof fn lemma_starball_stripe_sphere_offset_is_smooth()
    ensures
        starball_stripe_sphere_offset_curve().wf(),
        starball_stripe_sphere_offset_curve().smooth(),
{
    let c = starball_stripe_sphere_offset_curve();
    assert(c.has_room(0));
    assert(c.has_room(1));
    assert(c.has_room(2));
    assert(c.has_room(3));
    assert(c.has_room(4));
    lemma_wave_value(c, 1, 2, 2, (3, 1), 0, 6);
    lemma_wave_value(c, 1, 3, 3, (3, 1), 0, 6);
    lemma_wave_value(c, 3, 4, 4, (3, 1), 0, 6);
    lemma_wave_value(c, 3, 5, 5, (3, 1), 0, 6);
    assert(c.joins_after(0));
    assert(c.joins_after(1));
    assert(c.joins_after(2));
    assert(c.joins_after(3));
}

/// How far the stripe of the star ball is moved off the upper sphere.
pub fn starball_stripe_sphere_offset() -> (curve: Curve)
    ensures
        curve@ == starball_stripe_sphere_offset_curve(),
        curve@.wf(),
        curve@.smooth(),
{
    let curve = Curve {
        parts: 6,
        segments: vec![
            Segment::low(2),
            Segment::wave(3, Shape::Inverted, (3, 1), 0),
            Segment::high(4),
            Segment::wave(5, Shape::Cosine, (3, 1), 0),
            Segment::low(6),
        ],
    };
    proof {
        assert(curve@.segments =~= starball_stripe_sphere_offset_curve().segments);
        lemma_starball_stripe_sphere_offset_is_smooth();
    }
    curve
}

/// How far the spheres that cut the star are pushed out from the centre of the
/// ball.
pub open spec fn starball_star_sphere_offset_curve() -> CurveView {
    CurveView {
        parts: 6,
        segments: seq![
            low(1),
            wave(2, Shape::Cosine, (3, 1), 0),
            high(5),
            wave(6, Shape::Inverted, (3, 1), 0),
        ],
    }
}

/// The curve `starball_star_sphere_offset` is well formed and has no jump.
pub proof fn lemma_starball_star_sphere_offset_is_smooth()
    ensures
        starball_star_sphere_offset_curve().wf(),
        starball_star_sphere_offset_curve().smooth(),
{
    let c = starball_star_sphere_offset_curve();
    assert(c.has_room(0));
    assert(c.has_room(1));
    assert(c.has_room(2));
    assert(c.has_room(3));
    lemma_wave_value(c, 1, 1, 1, (3, 1), 0, 6);
    lemma_wave_value(c, 1, 2, 2, (3, 1), 0, 6);
    lemma_wave_value(c, 3, 5, 5, (3, 1), 0, 6);
    lemma_wave_value(c, 3, 6, 6, (3, 1), 0, 6);
    assert(c.joins_after(0));
    assert(c.joins_after(1));
    assert(c.joins_after(2));
}

/// How far the spheres that cut the star are pushed out from the centre of the
/// ball.
pub fn starball_star_sphere_offset() -> (curve: Curve)
    ensures
        curve@ == starball_star_sphere_offset_curve(),
        curve@.wf(),
        curve@.smooth(),
{
    let curve = Curve {
        parts: 6,
        segments: vec![
            Segment::low(1),
            Segment::wave(2, Shape::Cosine, (3, 1), 0),
            Segment::high(5),
            Segment::wave(6, Shape::Inverted, (3, 1), 0),
        ],
    };
    proof {
        assert(curve@.segments =~= starball_star_sphere_offset_curve().segments);
        lemma_starball_star_sphere_offset_is_smooth();
    }
    curve
}

/// How far the spheres that cut the star are tilted, as a part of a seventh
/// of a turn.
pub open spec fn starball_star_sphere_z_rotation_curve() -> CurveView {
    CurveView {
        parts: 6,
        segments: seq![
            low(2),
            wave(3, Shape::Inverted, (3, 1), 0),
            high(4),
            wave(5, Shape::Cosine, (3, 1), 0),
            low(6),
        ],
    }
}

/// The curve `starball_star_sphere_z_rotation` is well formed and has no jump.
pub proof fn lemma_starball_star_sphere_z_rotation_is_smooth()
    ensures
        starball_star_sphere_z_rotation_curve().wf(),
        starball_star_sphere_z_rotation_curve().smooth(),
{
    let c = starball_star_sphere_z_rotation_curve();
    assert(c.has_room(0));
    assert(c.has_room(1));
    assert(c.has_room(2));
    assert(c.has_room(3));
    assert(c.has_room(4));
    lemma_wave_value(c, 1, 2, 2, (3, 1), 0, 6);
    lemma_wave_value(c, 1, 3, 3, (3, 1), 0, 6);
    lemma_wave_value(c, 3, 4, 4, (3, 1), 0, 6);
    lemma_wave_value(c, 3, 5, 5, (3, 1), 0, 6);
    assert(c.joins_after(0));
    assert(c.joins_after(1));
    assert(c.joins_after(2));
    assert(c.joins_after(3));
}

/// How far the spheres that cut the star are tilted, as a part of a seventh
/// of a turn.
pub fn starball_star_sphere_z_rotation() -> (curve: Curve)
    ensures
        curve@ == starball_star_sphere_z_rotation_curve(),
        curve@.wf(),
        curve@.smooth(),
{
    let curve = Curve {
        parts: 6,
        segments: vec![
            Segment::low(2),
            Segment::wave(3, Shape::Inverted, (3, 1), 0),
            Segment::high(4),
            Segment::wave(5, Shape::Cosine, (3, 1), 0),
            Segment::low(6),
        ],
    };
    proof {
        assert(curve@.segments =~= starball_star_sphere_z_rotation_curve().segments);
        lemma_starball_star_sphere_z_rotation_is_smooth();
    }
    curve
}

} // verus!
