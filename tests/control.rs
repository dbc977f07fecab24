use raytracer::frame::grid_position;
use raytracer::scene::nearest_hit;
use raytracer::sphere::{pick_root, Root};
use raytracer::trace::{next_step, Bounce, Path, Step};

fn key(t: f32) -> i32 {
    let bits = t.to_bits() as i32;
    bits ^ ((((bits >> 31) as u32) >> 1) as i32)
}

#[test]
fn miss_shows_sky_at_any_depth() {
    assert_eq!(next_step(0, 50, Bounce::Miss), Step::Sky);
    assert_eq!(next_step(50, 50, Bounce::Miss), Step::Sky);
    assert_eq!(next_step(7, 0, Bounce::Miss), Step::Sky);
}

#[test]
fn absorbed_is_black() {
    assert_eq!(next_step(0, 50, Bounce::Absorbed), Step::Black);
    assert_eq!(next_step(49, 50, Bounce::Absorbed), Step::Black);
}

#[test]
fn scatter_followed_below_limit_only() {
    assert_eq!(next_step(0, 50, Bounce::Scattered), Step::Follow);
    assert_eq!(next_step(49, 50, Bounce::Scattered), Step::Follow);
    assert_eq!(next_step(50, 50, Bounce::Scattered), Step::Black);
    assert_eq!(next_step(u32::MAX, u32::MAX, Bounce::Scattered), Step::Black);
}

#[test]
fn zero_bounce_limit_gives_black_on_first_scatter() {
    let mut path = Path::new(0);
    assert_eq!(path.advance(Bounce::Scattered), Step::Black);
    assert!(path.is_ended());
    assert_eq!(path.depth(), 0);
}

#[test]
fn first_bounce_absorbed_gives_black() {
    let mut path = Path::new(50);
    assert_eq!(path.advance(Bounce::Absorbed), Step::Black);
    assert!(path.is_ended());
}

#[test]
fn path_follows_at_most_limit_scatters() {
    let mut path = Path::new(3);
    assert_eq!(path.depth(), 0);
    assert!(!path.is_ended());
    let mut follows: u32 = 0;
    loop {
        let step = path.advance(Bounce::Scattered);
        if step != Step::Follow {
            assert_eq!(step, Step::Black);
            break;
        }
        follows += 1;
    }
    assert_eq!(follows, 3);
    assert_eq!(path.depth(), 3);
    assert!(path.is_ended());
}

#[test]
fn path_ends_with_sky_after_bounces() {
    let mut path = Path::new(50);
    assert_eq!(path.advance(Bounce::Scattered), Step::Follow);
    assert_eq!(path.advance(Bounce::Scattered), Step::Follow);
    assert_eq!(path.depth(), 2);
    assert_eq!(path.advance(Bounce::Miss), Step::Sky);
    assert!(path.is_ended());
    assert_eq!(path.depth(), 2);
}

#[test]
fn nearest_of_no_members_is_none() {
    assert_eq!(nearest_hit(&vec![]), None);
}

#[test]
fn ray_missing_every_member_has_no_hit_and_shows_sky() {
    let keys: Vec<Option<i32>> = vec![None, None, None];
    assert_eq!(nearest_hit(&keys), None);
    assert_eq!(next_step(0, 50, Bounce::Miss), Step::Sky);
}

#[test]
fn nearest_picks_smallest_parameter() {
    let keys = vec![Some(key(3.5)), None, Some(key(0.75)), Some(key(1000.0))];
    assert_eq!(nearest_hit(&keys), Some(2));
}

#[test]
fn nearest_keeps_first_of_equal_hits() {
    let keys = vec![None, Some(key(2.0)), Some(key(2.0)), Some(key(4.0))];
    assert_eq!(nearest_hit(&keys), Some(1));
}

#[test]
fn key_orders_as_parameters() {
    assert!(key(-1.0) < key(-0.5));
    assert!(key(-0.5) < key(0.0));
    assert!(key(0.0001) < key(0.5));
    assert!(key(0.5) < key(f32::MAX));
}

#[test]
fn near_root_preferred_when_in_range() {
    assert_eq!(pick_root(key(0.5), key(1.5), key(0.0), key(f32::MAX)), Some(Root::Near));
}

#[test]
fn far_root_when_origin_inside() {
    assert_eq!(pick_root(key(-0.5), key(0.5), key(0.0001), key(f32::MAX)), Some(Root::Far));
}

#[test]
fn far_root_when_near_suppressed_by_epsilon() {
    assert_eq!(pick_root(key(0.00005), key(2.0), key(0.0001), key(f32::MAX)), Some(Root::Far));
}

#[test]
fn no_root_when_both_out_of_range() {
    assert_eq!(pick_root(key(-2.0), key(-1.0), key(0.0001), key(f32::MAX)), None);
    assert_eq!(pick_root(key(5.0), key(6.0), key(0.0001), key(4.0)), None);
}

#[test]
fn range_bounds_are_open() {
    assert_eq!(pick_root(3, 7, 3, 7), None);
    assert_eq!(pick_root(3, 7, 2, 7), Some(Root::Near));
    assert_eq!(pick_root(3, 7, 3, 8), Some(Root::Far));
}

#[test]
fn grid_row_counts_from_bottom() {
    assert_eq!(grid_position(0, 0, 360), (0, 360));
    assert_eq!(grid_position(639, 359, 360), (639, 1));
    assert_eq!(grid_position(12, 100, 360), (12, 260));
}
