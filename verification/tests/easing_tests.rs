use spherecast::curves::beachball_orbit_radius;
use spherecast::curves::eightball_circle_radial_lower_offset;
use spherecast::curves::eightball_circle_radial_upper_offset;
use spherecast::curves::eightball_flip;
use spherecast::curves::eightball_hole_radial_lower_offset;
use spherecast::curves::eightball_hole_radial_upper_offset;
use spherecast::curves::eightball_horizontal_lower_offset;
use spherecast::curves::eightball_horizontal_upper_offset;
use spherecast::curves::eightball_main_sphere_radial_offset;
use spherecast::curves::football_horizontal_offset;
use spherecast::curves::football_orbital_radius;
use spherecast::curves::starball_lower_sphere_offset;
use spherecast::curves::starball_star_sphere_offset;
use spherecast::curves::starball_star_sphere_z_rotation;
use spherecast::curves::starball_stripe_sphere_offset;
use spherecast::easing::Curve;
use spherecast::easing::Level;
use spherecast::easing::Piece;
use spherecast::easing::Segment;
use spherecast::easing::Shape;
use spherecast::easing::Wave;
use spherecast::time::Fraction;

fn at(curve: &Curve, numerator: i64, denominator: u32) -> Level {
    curve.level_at(Fraction { numerator, denominator })
}

/// The value of a level as a number.
fn value(level: Level) -> f64 {
    match level {
        Level::Low => 0.0,
        Level::High => 1.0,
        Level::Wave { shape, turns_numerator, turns_denominator } => {
            let turns = turns_numerator as f64 / turns_denominator as f64;
            let h = ((turns * std::f64::consts::TAU).cos() + 1.0) * 0.5;
            match shape {
                Shape::Cosine => h,
                Shape::Inverted => 1.0 - h,
                Shape::Shallow => h * 0.5 + 0.5,
            }
        }
    }
}

/// The curves that end as they begin.
fn smooth_curves() -> Vec<Curve> {
    vec![
        beachball_orbit_radius(),
        eightball_main_sphere_radial_offset(),
        eightball_circle_radial_upper_offset(),
        eightball_circle_radial_lower_offset(),
        eightball_hole_radial_upper_offset(),
        eightball_hole_radial_lower_offset(),
        eightball_horizontal_upper_offset(),
        eightball_horizontal_lower_offset(),
        football_orbital_radius(),
        football_horizontal_offset(),
        starball_lower_sphere_offset(),
        starball_stripe_sphere_offset(),
        starball_star_sphere_offset(),
        starball_star_sphere_z_rotation(),
    ]
}

fn all_curves() -> Vec<Curve> {
    let mut curves = smooth_curves();
    curves.push(eightball_flip());
    curves
}

#[test]
fn beachball_rests_for_the_first_fifth() {
    let curve = beachball_orbit_radius();
    assert_eq!(at(&curve, 0, 600), Level::Low);
    assert_eq!(at(&curve, 119, 600), Level::Low);
    assert_eq!(at(&curve, 1, 10), Level::Low);
}

#[test]
fn beachball_wave_starts_at_the_fifth() {
    let curve = beachball_orbit_radius();
    // At one fifth the wave has made no turn; at three fifths half a turn.
    assert_eq!(
        at(&curve, 120, 600),
        Level::Wave { shape: Shape::Inverted, turns_numerator: 0, turns_denominator: 12000 }
    );
    assert_eq!(
        at(&curve, 3, 5),
        Level::Wave { shape: Shape::Inverted, turns_numerator: 50, turns_denominator: 100 }
    );
    assert_eq!(
        at(&curve, 599, 600),
        Level::Wave { shape: Shape::Inverted, turns_numerator: 11975, turns_denominator: 12000 }
    );
    assert_eq!(value(at(&curve, 120, 600)), 0.0);
    assert!((value(at(&curve, 3, 5)) - 1.0).abs() < 1e-12);
}

#[test]
fn beachball_matches_its_formula() {
    let curve = beachball_orbit_radius();
    for index in 0..600u32 {
        let a = index as f64 / 600.0;
        let expected = if a < 0.2 {
            0.0
        } else {
            1.0 - (((a - 0.2) * 5.0 / 4.0 * std::f64::consts::TAU).cos() + 1.0) * 0.5
        };
        let got = value(at(&curve, index as i64, 600));
        assert!((got - expected).abs() < 1e-12, "frame {index}: {got} and {expected}");
    }
}

#[test]
fn eightball_main_sphere_follows_its_segments() {
    let curve = eightball_main_sphere_radial_offset();
    assert_eq!(
        at(&curve, 0, 11),
        Level::Wave { shape: Shape::Inverted, turns_numerator: 0, turns_denominator: 242 }
    );
    assert_eq!(at(&curve, 1, 11), Level::High);
    assert_eq!(at(&curve, 8, 11), Level::High);
    assert_eq!(
        at(&curve, 9, 11),
        Level::Wave { shape: Shape::Inverted, turns_numerator: 1089, turns_denominator: 242 }
    );
    assert_eq!(at(&curve, 10, 11), Level::Low);
    assert_eq!(at(&curve, 499, 500), Level::Low);
    // Half way up the first ramp.
    assert!((value(at(&curve, 1, 22)) - 0.5).abs() < 1e-12);
}

#[test]
fn eightball_rings_dip_to_one_half() {
    for curve in [eightball_circle_radial_upper_offset(), eightball_circle_radial_lower_offset()] {
        assert_eq!(
            at(&curve, 5, 11),
            Level::Wave { shape: Shape::Shallow, turns_numerator: 605, turns_denominator: 242 }
        );
        assert!((value(at(&curve, 5, 11)) - 0.5).abs() < 1e-12);
        assert!((value(at(&curve, 4, 11)) - 1.0).abs() < 1e-12);
    }
}

#[test]
fn eightball_curves_match_their_formulas() {
    let tau = std::f64::consts::TAU;
    let pc = |x: f64| (x.cos() + 1.0) * 0.5;
    let upper = |a: f64| {
        if a < 1.0 / 11.0 {
            0.0
        } else if a < 2.0 / 11.0 {
            pc(a * 11.0 / 2.0 * tau)
        } else if a < 4.0 / 11.0 {
            1.0
        } else if a < 6.0 / 11.0 {
            pc(a * 11.0 / 2.0 * tau) * 0.5 + 0.5
        } else if a < 7.0 / 11.0 {
            1.0
        } else if a < 8.0 / 11.0 {
            1.0 - pc(a * 11.0 / 2.0 * tau)
        } else {
            0.0
        }
    };
    let horizontal_lower = |a: f64| {
        if a < 3.0 / 11.0 {
            0.0
        } else if a < 4.0 / 11.0 {
            pc(a * 11.0 / 2.0 * tau)
        } else if a < 7.0 / 11.0 {
            1.0
        } else if a < 8.0 / 11.0 {
            1.0 - pc(a * 11.0 / 2.0 * tau)
        } else {
            0.0
        }
    };
    let first = eightball_circle_radial_upper_offset();
    let second = eightball_horizontal_lower_offset();
    for index in 0..500u32 {
        let a = index as f64 / 500.0;
        assert!((value(at(&first, index as i64, 500)) - upper(a)).abs() < 1e-12);
        assert!((value(at(&second, index as i64, 500)) - horizontal_lower(a)).abs() < 1e-12);
    }
}

#[test]
fn football_curves_match_their_formulas() {
    let tau = std::f64::consts::TAU;
    let pc = |x: f64| (x.cos() + 1.0) * 0.5;
    let orbital = |a: f64| {
        if a < tau / 12.0 {
            0.0
        } else if a < tau / 6.0 {
            pc(6.0 * a)
        } else if a < tau * 5.0 / 12.0 {
            1.0
        } else if a < tau / 2.0 {
            1.0 - pc(6.0 * a)
        } else if a < tau * 7.0 / 12.0 {
            0.0
        } else if a < tau * 2.0 / 3.0 {
            pc(6.0 * a)
        } else if a < tau * 11.0 / 12.0 {
            1.0
        } else {
            1.0 - pc(6.0 * a)
        }
    };
    let horizontal = |a: f64| {
        if a < tau / 4.0 {
            0.0
        } else if a < tau / 3.0 {
            pc(6.0 * a)
        } else if a < tau * 3.0 / 4.0 {
            1.0
        } else if a < tau * 5.0 / 6.0 {
            1.0 - pc(6.0 * a)
        } else {
            0.0
        }
    };
    let first = football_orbital_radius();
    let second = football_horizontal_offset();
    for index in 0..500u32 {
        let a = index as f64 / 500.0 * tau;
        assert!((value(at(&first, index as i64, 500)) - orbital(a)).abs() < 1e-12);
        assert!((value(at(&second, index as i64, 500)) - horizontal(a)).abs() < 1e-12);
    }
}

#[test]
fn starball_curves_match_their_formulas() {
    let tau = std::f64::consts::TAU;
    let pc = |x: f64| (x.cos() + 1.0) * 0.5;
    let lower = |a: f64| {
        if a < 1.0 / 6.0 {
            0.0
        } else if a < 2.0 / 6.0 {
            pc(a * tau * 3.0)
        } else if a < 5.0 / 6.0 {
            1.0
        } else {
            1.0 - pc(a * tau * 3.0)
        }
    };
    let stripe = |a: f64| {
        if a < 2.0 / 6.0 {
            0.0
        } else if a < 3.0 / 6.0 {
            1.0 - pc(a * tau * 3.0)
        } else if a < 4.0 / 6.0 {
            1.0
        } else if a < 5.0 / 6.0 {
            pc(a * tau * 3.0)
        } else {
            0.0
        }
    };
    for index in 0..600u32 {
        let a = index as f64 / 600.0;
        let n = index as i64;
        assert!((value(at(&starball_lower_sphere_offset(), n, 600)) - lower(a)).abs() < 1e-12);
        assert!((value(at(&starball_star_sphere_offset(), n, 600)) - lower(a)).abs() < 1e-12);
        assert!((value(at(&starball_stripe_sphere_offset(), n, 600)) - stripe(a)).abs() < 1e-12);
        assert!(
            (value(at(&starball_star_sphere_z_rotation(), n, 600)) - stripe(a)).abs() < 1e-12
        );
    }
}

#[test]
fn eightball_flip_turns_over_in_the_last_eleventh() {
    let curve = eightball_flip();
    assert_eq!(at(&curve, 0, 11), Level::Low);
    assert_eq!(at(&curve, 9, 11), Level::Low);
    assert_eq!(
        at(&curve, 10, 11),
        Level::Wave { shape: Shape::Inverted, turns_numerator: 0, turns_denominator: 242 }
    );
    assert!((value(at(&curve, 21, 22)) - 0.5).abs() < 1e-12);
    assert!(value(at(&curve, 499, 500)) > 0.99);
}

#[test]
fn curves_are_periodic() {
    for curve in all_curves() {
        for numerator in 0..60i64 {
            let here = at(&curve, numerator, 60);
            assert_eq!(here, at(&curve, numerator + 60, 60));
            assert_eq!(here, at(&curve, numerator - 60, 60));
            assert_eq!(here, at(&curve, numerator + 60 * 1000, 60));
            assert_eq!(here, at(&curve, numerator - 60 * 1000, 60));
        }
    }
}

#[test]
fn curves_stay_between_zero_and_one() {
    for curve in all_curves() {
        for numerator in -700..1400i64 {
            let v = value(at(&curve, numerator, 700));
            assert!((0.0..=1.0).contains(&v));
        }
    }
}

#[test]
fn curves_have_no_jump_at_segment_boundaries() {
    // Just before a boundary the value is within a hair of the value at it.
    for curve in smooth_curves() {
        let parts = curve.parts as i64;
        let fine = 1_000_000i64;
        for segment in &curve.segments {
            let boundary = segment.end as i64;
            let just_before = value(at(&curve, boundary * fine - 1, (parts * fine) as u32));
            let on_it = value(at(&curve, boundary, parts as u32));
            assert!((just_before - on_it).abs() < 1e-9);
        }
    }
}

#[test]
fn a_curve_of_ones_own_is_looked_up_by_segment() {
    let curve = Curve {
        parts: 4,
        segments: vec![
            Segment { end: 1, piece: Piece::High },
            Segment {
                end: 3,
                piece: Piece::Wave(Wave {
                    shape: Shape::Cosine,
                    rate_numerator: 1,
                    rate_denominator: 1,
                    origin: 1,
                }),
            },
            Segment { end: 4, piece: Piece::High },
        ],
    };
    assert_eq!(at(&curve, 0, 8), Level::High);
    assert_eq!(at(&curve, 1, 8), Level::High);
    assert_eq!(
        at(&curve, 2, 8),
        Level::Wave { shape: Shape::Cosine, turns_numerator: 0, turns_denominator: 32 }
    );
    assert_eq!(
        at(&curve, 3, 8),
        Level::Wave { shape: Shape::Cosine, turns_numerator: 4, turns_denominator: 32 }
    );
    assert_eq!(
        at(&curve, 5, 8),
        Level::Wave { shape: Shape::Cosine, turns_numerator: 12, turns_denominator: 32 }
    );
    assert_eq!(at(&curve, 6, 8), Level::High);
    assert_eq!(at(&curve, 7, 8), Level::High);
    assert_eq!(at(&curve, -1, 8), Level::High);
    assert_eq!(
        at(&curve, -3, 8),
        Level::Wave { shape: Shape::Cosine, turns_numerator: 12, turns_denominator: 32 }
    );
}

#[test]
fn lookup_at_the_largest_denominator() {
    let curve = starball_lower_sphere_offset();
    let d = u32::MAX;
    assert_eq!(at(&curve, 0, d), Level::Low);
    assert_eq!(at(&curve, (d / 2) as i64, d), Level::High);
    match at(&curve, (d - 1) as i64, d) {
        Level::Wave { shape, turns_numerator, turns_denominator } => {
            assert_eq!(shape, Shape::Inverted);
            assert_eq!(turns_numerator, 3 * 6 * (d as i64 - 1));
            assert_eq!(turns_denominator, 6 * d as i64);
        }
        other => panic!("unexpected level {other:?}"),
    }
}

fn cosine(end: u8, rate_denominator: u8) -> Segment {
    Segment {
        end,
        piece: Piece::Wave(Wave {
            shape: Shape::Cosine,
            rate_numerator: 1,
            rate_denominator,
            origin: 0,
        }),
    }
}

#[test]
fn the_curves_of_the_animations_are_well_formed() {
    for curve in all_curves() {
        assert!(curve.is_well_formed());
    }
}

#[test]
fn ill_formed_curves_are_told_apart() {
    let low = |end: u8| Segment { end, piece: Piece::Low };
    let high = |end: u8| Segment { end, piece: Piece::High };
    assert!(Curve { parts: 3, segments: vec![low(1), high(3)] }.is_well_formed());
    assert!(Curve { parts: 1, segments: vec![high(1)] }.is_well_formed());
    assert!(Curve { parts: 255, segments: vec![low(254), cosine(255, 1)] }.is_well_formed());
    // No parts, no segments.
    assert!(!Curve { parts: 0, segments: vec![low(0)] }.is_well_formed());
    assert!(!Curve { parts: 3, segments: Vec::new() }.is_well_formed());
    // A segment without room: at the start, or in the middle.
    assert!(!Curve { parts: 3, segments: vec![low(0), high(3)] }.is_well_formed());
    assert!(!Curve { parts: 3, segments: vec![low(2), high(2), low(3)] }.is_well_formed());
    assert!(!Curve { parts: 3, segments: vec![low(2), high(1), low(3)] }.is_well_formed());
    // The last segment ends before the loop does, or after.
    assert!(!Curve { parts: 3, segments: vec![low(1), high(2)] }.is_well_formed());
    assert!(!Curve { parts: 3, segments: vec![low(1), high(4)] }.is_well_formed());
    // A wave without a rate.
    assert!(!Curve { parts: 3, segments: vec![low(1), cosine(3, 0)] }.is_well_formed());
}
