use spherecast::raster::closer;
use spherecast::raster::nearest_hit;
use spherecast::raster::shade;
use spherecast::raster::Hit;
use spherecast::raster::BACKGROUND;

fn hit(depth: i64, intensity: u8) -> Option<Hit> {
    Some(Hit { depth, intensity })
}

#[test]
fn shade_of_no_spheres_is_background() {
    assert_eq!(shade(&vec![]), 0);
    assert_eq!(BACKGROUND, 0);
}

#[test]
fn shade_of_misses_is_background() {
    assert_eq!(shade(&vec![None, None, None]), 0);
    assert_eq!(nearest_hit(&vec![None, None, None]), None);
}

#[test]
fn shade_of_one_hit_is_its_grey() {
    assert_eq!(shade(&vec![hit(5, 77)]), 77);
    assert_eq!(shade(&vec![None, hit(5, 77), None]), 77);
    assert_eq!(nearest_hit(&vec![None, hit(5, 77), None]), Some(1));
}

#[test]
fn shade_takes_the_nearest_hit() {
    let far = hit(10, 40);
    let near = hit(-3, 200);
    assert_eq!(shade(&vec![far, None, near]), 200);
    assert_eq!(shade(&vec![near, None, far]), 200);
    assert_eq!(nearest_hit(&vec![far, None, near]), Some(2));
    assert_eq!(nearest_hit(&vec![near, None, far]), Some(0));
}

#[test]
fn shade_does_not_depend_on_order_without_ties() {
    let a = hit(4, 10);
    let b = hit(-9, 20);
    let c = hit(7, 30);
    let orders = vec![
        vec![a, b, c],
        vec![a, c, b],
        vec![b, a, c],
        vec![b, c, a],
        vec![c, a, b],
        vec![c, b, a],
    ];
    for order in &orders {
        assert_eq!(shade(order), 20);
    }
}

#[test]
fn first_seen_wins_a_tie() {
    let first = hit(3, 11);
    let second = hit(3, 22);
    assert_eq!(shade(&vec![first, second]), 11);
    assert_eq!(shade(&vec![second, first]), 22);
    assert_eq!(nearest_hit(&vec![hit(9, 1), first, second]), Some(1));
}

#[test]
fn extreme_depth_keys_are_ordered() {
    let nearest = hit(i64::MIN, 1);
    let farthest = hit(i64::MAX, 2);
    assert_eq!(shade(&vec![farthest, nearest]), 1);
    assert_eq!(shade(&vec![farthest]), 2);
}

#[test]
fn closer_keeps_the_best_unless_the_next_is_strictly_nearer() {
    let best = hit(5, 50);
    assert_eq!(closer(None, None), None);
    assert_eq!(closer(None, best), best);
    assert_eq!(closer(best, None), best);
    assert_eq!(closer(best, hit(4, 60)), hit(4, 60));
    assert_eq!(closer(best, hit(5, 60)), best);
    assert_eq!(closer(best, hit(6, 60)), best);
}
