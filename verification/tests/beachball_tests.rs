use spherecast::curves::beachball_orbit_radius;
use spherecast::driver::render;
use spherecast::driver::Animation;
use spherecast::easing::Level;
use spherecast::frame::rasterize;
use spherecast::frame::Frame;
use spherecast::easing::Shape;
use spherecast::palette::beachball_grey;
use spherecast::palette::ColourScheme;
use spherecast::palette::BEACHBALL_SPHERES;
use spherecast::scene::Group;
use spherecast::scene::Sphere;
use spherecast::time::Fraction;
use std::f64::consts::TAU;

/// A ball in space: centre and radius.
#[derive(Clone, Copy)]
struct Ball {
    centre: [f64; 3],
    radius: f64,
}

fn about_x(p: [f64; 3], angle: f64) -> [f64; 3] {
    let (s, c) = angle.sin_cos();
    [p[0], p[1] * c - p[2] * s, p[1] * s + p[2] * c]
}

fn about_y(p: [f64; 3], angle: f64) -> [f64; 3] {
    let (s, c) = angle.sin_cos();
    [p[0] * c + p[2] * s, p[1], -p[0] * s + p[2] * c]
}

fn value(level: Level) -> f64 {
    match level {
        Level::Low => 0.0,
        Level::High => 1.0,
        Level::Wave { shape, turns_numerator, turns_denominator } => {
            let h = ((turns_numerator as f64 / turns_denominator as f64 * TAU).cos() + 1.0) * 0.5;
            match shape {
                Shape::Cosine => h,
                Shape::Inverted => 1.0 - h,
                Shape::Shallow => h * 0.5 + 0.5,
            }
        }
    }
}

fn beachball(moment: Fraction, _scheme: ColourScheme) -> Group<Ball> {
    let fraction = moment.numerator as f64 / moment.denominator as f64;
    let orbit = value(beachball_orbit_radius().level_at(moment));
    Group::new(
        (0..BEACHBALL_SPHERES)
            .map(|index| Sphere {
                shape: Ball {
                    centre: about_y(
                        [4.0 * orbit + 0.001, 0.0, 0.0],
                        (index as f64 / 8.0 + fraction) * TAU,
                    ),
                    radius: 1.0,
                },
                intensity: beachball_grey(index),
            })
            .collect(),
    )
}

fn camera(ball: &Ball) -> Ball {
    let p = about_x(ball.centre, TAU / 8.0);
    Ball { centre: [p[0] * 0.25, p[1] * 0.25, p[2] * 0.25], radius: ball.radius * 0.25 }
}

fn depth_key(depth: f64) -> i64 {
    let bits = (depth + 0.0).to_bits() as i64;
    if bits < 0 {
        bits ^ i64::MAX
    } else {
        bits
    }
}

fn planar(col: u32, row: u32, size: u32) -> (f64, f64) {
    (col as f64 / size as f64 * 2.0 - 1.0, row as f64 / size as f64 * 2.0 - 1.0)
}

fn probe(size: u32) -> impl Fn(&Ball, u32, u32) -> Option<i64> {
    move |ball: &Ball, col: u32, row: u32| {
        let (x, y) = planar(col, row, size);
        let distance = ((x - ball.centre[0]).powi(2) + (y - ball.centre[1]).powi(2)).sqrt();
        if distance < ball.radius {
            Some(depth_key(ball.centre[2] - (ball.radius.powi(2) - distance.powi(2)).sqrt()))
        } else {
            None
        }
    }
}

/// Frame `index` of `total_frames`, on a square grid.
fn frame_at(size: u32, index: u32, total_frames: u32) -> Frame {
    let scene = beachball(Fraction::of_frame(index, total_frames), ColourScheme::Standard);
    rasterize(&scene.transform(&camera), size, size, &probe(size))
}

#[test]
fn first_frame_is_a_ball_of_eight_greys() {
    let size = 128;
    let first = frame_at(size, 0, 600);
    let mut seen = std::collections::BTreeSet::new();
    for row in 0..size {
        for col in 0..size {
            let (x, y) = planar(col, row, size);
            let distance = (x * x + y * y).sqrt();
            let grey = first.pixel(col, row);
            if distance > 0.2505 {
                assert_eq!(grey, 0);
            }
            if distance < 0.2495 {
                assert_ne!(grey, 0);
            }
            seen.insert(grey);
        }
    }
    let expected: std::collections::BTreeSet<u8> =
        [0, 64, 85, 106, 127, 148, 169, 190, 211].into_iter().collect();
    assert_eq!(seen, expected);
}

#[test]
fn spheres_are_farthest_out_at_three_fifths_of_the_loop() {
    // With the spheres four radii from the axis, and a quarter of that on the
    // picture plane, the picture reaches the edge of the frame.
    let size = 64;
    let lit = |frame: &Frame| {
        let mut columns = Vec::new();
        for col in 0..size {
            if (0..size).any(|row| frame.pixel(col, row) != 0) {
                columns.push(col);
            }
        }
        columns
    };
    let resting = lit(&frame_at(size, 0, 5));
    let out = lit(&frame_at(size, 3, 5));
    // At rest the spheres are a thousandth of a radius off the axis, to both
    // sides, so the ball just covers the columns a quarter of the way out.
    assert_eq!(resting.first(), Some(&24));
    assert_eq!(resting.last(), Some(&40));
    assert!(out.first().unwrap() < &4);
    assert!(out.last().unwrap() > &60);
}

#[test]
fn the_driver_makes_the_frames_that_the_rasterizer_makes() {
    let size = 24;
    let total_frames = 10;
    let show = Animation {
        width: size,
        height: size,
        total_frames,
        delay_numerator: 2,
        delay_denominator: 100,
    };
    let frames = render(&show, ColourScheme::Standard, &beachball, &camera, &probe(size));
    assert_eq!(frames.len(), 10);
    for index in 0..total_frames {
        assert_eq!(frames[index as usize].pixels, frame_at(size, index, total_frames).pixels);
    }
    // The ball moves: not all frames are alike.
    assert_ne!(frames[0].pixels, frames[5].pixels);
}

/// A frame of sixteen by sixteen pixels, written row by row.
fn rows(frame: &Frame) -> Vec<Vec<u8>> {
    frame.pixels.chunks(16).map(|row| row.to_vec()).collect()
}

#[test]
fn first_frame_at_sixteen_pixels_is_as_recorded() {
    let mut recorded = vec![vec![0u8; 16]; 16];
    recorded[6][8] = 190;
    recorded[7][7..10].copy_from_slice(&[148, 106, 64]);
    recorded[8][6..11].copy_from_slice(&[148, 127, 106, 85, 64]);
    recorded[9][7..10].copy_from_slice(&[127, 106, 85]);
    recorded[10][8] = 106;
    assert_eq!(rows(&frame_at(16, 0, 600)), recorded);
}

#[test]
fn a_later_frame_at_sixteen_pixels_is_as_recorded() {
    let mut recorded = vec![vec![0u8; 16]; 16];
    recorded[4][5..11].copy_from_slice(&[106, 106, 0, 127, 127, 127]);
    recorded[5][4..13].copy_from_slice(&[106, 106, 106, 106, 127, 127, 148, 148, 148]);
    recorded[6][3..14].copy_from_slice(&[85, 85, 85, 106, 106, 127, 127, 148, 148, 148, 148]);
    recorded[7][3..14].copy_from_slice(&[85, 85, 85, 106, 106, 127, 127, 148, 169, 169, 169]);
    recorded[8][3..14].copy_from_slice(&[85, 64, 64, 0, 0, 0, 0, 0, 169, 169, 169]);
    recorded[9][3..14].copy_from_slice(&[64, 64, 64, 64, 211, 211, 190, 190, 190, 169, 169]);
    recorded[10][3..14].copy_from_slice(&[64, 64, 64, 211, 211, 211, 190, 190, 190, 190, 169]);
    recorded[11][4..13].copy_from_slice(&[64, 64, 211, 211, 211, 211, 190, 190, 190]);
    recorded[12][6..12].copy_from_slice(&[211, 211, 211, 0, 190, 190]);
    assert_eq!(rows(&frame_at(16, 240, 600)), recorded);
}
