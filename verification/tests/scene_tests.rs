use spherecast::scene::Group;
use spherecast::scene::Sphere;

fn ball(shape: i32, intensity: u8) -> Sphere<i32> {
    Sphere { shape, intensity }
}

fn contents(group: &Group<i32>) -> Vec<(i32, u8)> {
    group.spheres.iter().map(|s| (s.shape, s.intensity)).collect()
}

#[test]
fn new_keeps_the_spheres_in_order() {
    let group = Group::new(vec![ball(3, 30), ball(1, 10), ball(2, 20)]);
    assert_eq!(group.len(), 3);
    assert_eq!(contents(&group), vec![(3, 30), (1, 10), (2, 20)]);
}

#[test]
fn union_puts_the_first_group_before_the_second() {
    let a = Group::new(vec![ball(1, 10), ball(2, 20)]);
    let b = Group::new(vec![ball(3, 30)]);
    let both = a.union(b);
    assert_eq!(contents(&both), vec![(1, 10), (2, 20), (3, 30)]);
}

#[test]
fn union_with_an_empty_group_changes_nothing() {
    let a = Group::new(vec![ball(1, 10), ball(2, 20)]);
    let left = Group::new(Vec::new()).union(a);
    assert_eq!(contents(&left), vec![(1, 10), (2, 20)]);
    let right = left.union(Group::new(Vec::new()));
    assert_eq!(contents(&right), vec![(1, 10), (2, 20)]);
    let nothing: Group<i32> = Group::new(Vec::new()).union(Group::new(Vec::new()));
    assert_eq!(nothing.len(), 0);
}

#[test]
fn transform_acts_on_every_member_and_keeps_the_greys() {
    let group = Group::new(vec![ball(1, 10), ball(-2, 20), ball(3, 30)]);
    let moved = group.transform(&|shape: &i32| shape * 10 + 1);
    assert_eq!(contents(&moved), vec![(11, 10), (-19, 20), (31, 30)]);
    assert_eq!(contents(&group), vec![(1, 10), (-2, 20), (3, 30)]);
}

#[test]
fn transform_of_an_empty_group_is_empty() {
    let group: Group<i32> = Group::new(Vec::new());
    assert_eq!(group.transform(&|shape: &i32| shape + 1).len(), 0);
}
