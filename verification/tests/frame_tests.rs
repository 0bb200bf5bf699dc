use spherecast::frame::cast_ray;
use spherecast::frame::rasterize;
use spherecast::frame::Frame;
use spherecast::scene::Group;
use spherecast::scene::Sphere;

/// A ball as the tests see it: centre and radius.
#[derive(Clone, Copy)]
struct Ball {
    x: f64,
    y: f64,
    z: f64,
    radius: f64,
}

/// An integer that is ordered as the depth is.
fn depth_key(depth: f64) -> i64 {
    let bits = (depth + 0.0).to_bits() as i64;
    if bits < 0 {
        bits ^ i64::MAX
    } else {
        bits
    }
}

fn planar_distance(ball: &Ball, col: u32, row: u32, width: u32, height: u32) -> f64 {
    let nx = col as f64 / width as f64 * 2.0 - 1.0;
    let ny = row as f64 / height as f64 * 2.0 - 1.0;
    ((nx - ball.x).powf(2.0) + (ny - ball.y).powf(2.0)).powf(0.5)
}

fn depth(ball: &Ball, col: u32, row: u32, width: u32, height: u32) -> Option<f64> {
    let distance = planar_distance(ball, col, row, width, height);
    if distance < ball.radius {
        Some(ball.z - (ball.radius.powf(2.0) - distance.powf(2.0)).powf(0.5))
    } else {
        None
    }
}

fn render(balls: Vec<(Ball, u8)>, width: u32, height: u32) -> Frame {
    let group = Group::new(
        balls
            .into_iter()
            .map(|(shape, intensity)| Sphere { shape, intensity })
            .collect(),
    );
    let probe = move |ball: &Ball, col: u32, row: u32| {
        depth(ball, col, row, width, height).map(depth_key)
    };
    rasterize(&group, width, height, &probe)
}

#[test]
fn depth_keys_are_ordered_as_depths() {
    let depths = [-1000.5, -1.0, -1e-300, 0.0, 1e-300, 0.25, 1.0, 999.0];
    for pair in depths.windows(2) {
        assert!(depth_key(pair[0]) < depth_key(pair[1]));
    }
    assert_eq!(depth_key(-0.0), depth_key(0.0));
}

#[test]
fn empty_scene_is_all_background() {
    let frame = render(Vec::new(), 7, 5);
    assert_eq!(frame.width, 7);
    assert_eq!(frame.height, 5);
    assert_eq!(frame.pixels, vec![0u8; 35]);
}

#[test]
fn empty_scene_gives_one_byte_of_background_per_pixel() {
    for (width, height) in [(1, 1), (1, 9), (9, 1), (16, 16), (3, 200)] {
        let frame = render(Vec::new(), width, height);
        assert_eq!(frame.pixels.len(), (width * height) as usize);
        assert!(frame.pixels.iter().all(|&grey| grey == 0));
    }
}

#[test]
fn empty_grid_has_no_pixels() {
    let ball = Ball { x: 0.0, y: 0.0, z: 0.0, radius: 1.0 };
    assert_eq!(render(vec![(ball, 9)], 0, 5).pixels, Vec::<u8>::new());
    assert_eq!(render(vec![(ball, 9)], 5, 0).pixels, Vec::<u8>::new());
}

#[test]
fn single_sphere_is_a_disk_of_its_grey() {
    let ball = Ball { x: 0.0, y: 0.0, z: 0.0, radius: 0.5 };
    let (width, height) = (16, 16);
    let frame = render(vec![(ball, 200)], width, height);
    let mut inside = 0;
    for row in 0..height {
        for col in 0..width {
            let expected = if planar_distance(&ball, col, row, width, height) < 0.5 {
                inside += 1;
                200
            } else {
                0
            };
            assert_eq!(frame.pixel(col, row), expected);
        }
    }
    // The centre is inside; a point at exactly the radius is not.
    assert_eq!(frame.pixel(8, 8), 200);
    assert_eq!(frame.pixel(12, 8), 0);
    assert_eq!(frame.pixel(11, 8), 200);
    assert!(inside > 0 && inside < width * height);
}

#[test]
fn single_sphere_at_the_centre_is_symmetric() {
    let ball = Ball { x: 0.0, y: 0.0, z: 0.0, radius: 0.7 };
    let size = 32;
    let frame = render(vec![(ball, 123)], size, size);
    for row in 1..size {
        for col in 1..size {
            let here = frame.pixel(col, row);
            // A quarter turn, a half turn, and the two mirrors.
            assert_eq!(here, frame.pixel(size - row, col));
            assert_eq!(here, frame.pixel(size - col, size - row));
            assert_eq!(here, frame.pixel(size - col, row));
            assert_eq!(here, frame.pixel(row, col));
        }
    }
}

#[test]
fn pixels_are_stored_row_by_row() {
    // A small ball in the upper right: columns grow with x, rows with y.
    let ball = Ball { x: 0.5, y: -0.5, z: 0.0, radius: 0.2 };
    let frame = render(vec![(ball, 50)], 8, 4);
    assert_eq!(frame.pixels.len(), 32);
    for row in 0..4 {
        for col in 0..8 {
            assert_eq!(frame.pixels[(row * 8 + col) as usize], frame.pixel(col, row));
        }
    }
    assert_eq!(frame.pixel(6, 1), 50);
    assert_eq!(frame.pixels[1 * 8 + 6], 50);
    assert_eq!(frame.pixel(1, 1), 0);
    assert_eq!(frame.pixel(6, 3), 0);
}

#[test]
fn nearer_of_two_overlapping_spheres_wins() {
    let near = Ball { x: -0.1, y: 0.0, z: -0.3, radius: 0.5 };
    let far = Ball { x: 0.1, y: 0.0, z: 0.4, radius: 0.5 };
    let (width, height) = (24, 24);
    for balls in [vec![(near, 60), (far, 180)], vec![(far, 180), (near, 60)]] {
        let frame = render(balls, width, height);
        let mut in_both = 0;
        for row in 0..height {
            for col in 0..width {
                let a = depth(&near, col, row, width, height);
                let b = depth(&far, col, row, width, height);
                let expected = match (a, b) {
                    (Some(a), Some(b)) => {
                        in_both += 1;
                        if a < b {
                            60
                        } else {
                            180
                        }
                    }
                    (Some(_), None) => 60,
                    (None, Some(_)) => 180,
                    (None, None) => 0,
                };
                assert_eq!(frame.pixel(col, row), expected);
            }
        }
        assert!(in_both > 0);
    }
}

#[test]
fn sphere_behind_shows_only_where_the_front_one_is_not() {
    let front = Ball { x: 0.0, y: 0.0, z: 0.0, radius: 0.3 };
    let back = Ball { x: 0.0, y: 0.0, z: 5.0, radius: 0.8 };
    let frame = render(vec![(back, 10), (front, 250)], 20, 20);
    assert_eq!(frame.pixel(10, 10), 250);
    assert_eq!(frame.pixel(15, 10), 10);
    assert_eq!(frame.pixel(0, 0), 0);
}

#[test]
fn cast_ray_asks_every_sphere_in_order() {
    let group = Group::new(vec![
        Sphere { shape: 1i64, intensity: 10 },
        Sphere { shape: 2i64, intensity: 20 },
        Sphere { shape: 3i64, intensity: 30 },
    ]);
    let asked = std::cell::RefCell::new(Vec::new());
    let probe = |shape: &i64, col: u32, row: u32| {
        asked.borrow_mut().push((*shape, col, row));
        if *shape == 2 {
            None
        } else {
            Some(-*shape)
        }
    };
    assert_eq!(cast_ray(&group, &probe, 4, 9), 30);
    assert_eq!(*asked.borrow(), vec![(1, 4, 9), (2, 4, 9), (3, 4, 9)]);
}
