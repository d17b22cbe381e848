use boids::angle::{angle_diff, normalize_angle, FULL_TURN, HALF_TURN};
use boids::flock::{avg_heading, center_of_mass, neighbors, Bird, LOCAL_RADIUS};
use boids::geometry::{Vector, UNITS_PER_WORLD};
use boids::sim::{flock_centers, tick, wrap_coord, Config};
use boids::steering::{steer, Policy, STEER_BOUND, STEER_DEN};

fn bird(x: i64, y: i64, dir: i64) -> Bird {
    Bird { pos: Vector::new(x, y), dir }
}

fn world(w: i64) -> i64 {
    w * UNITS_PER_WORLD
}

fn degrees(d: i64) -> i64 {
    d * 10_000
}

fn units_of_radians(r: f64) -> i64 {
    (r.to_degrees() * 10_000.0).round() as i64
}

fn radians_of_units(a: i64) -> f64 {
    (a as f64 / 10_000.0).to_radians()
}

fn steps_for(birds: &[Bird]) -> Vec<Vector> {
    birds
        .iter()
        .map(|b| {
            let h = radians_of_units(b.dir);
            let speed = UNITS_PER_WORLD as f64;
            Vector::new((speed * h.cos()).round() as i64, (speed * h.sin()).round() as i64)
        })
        .collect()
}

fn bearings_for(birds: &[Bird], centers: &[Vector]) -> Vec<i64> {
    birds
        .iter()
        .zip(centers)
        .map(|(b, c)| {
            let dx = (c.x - b.pos.x) as f64;
            let dy = (c.y - b.pos.y) as f64;
            units_of_radians(dy.atan2(dx))
        })
        .collect()
}

fn canonical(a: i64) -> bool {
    -HALF_TURN < a && a <= HALF_TURN
}

#[test]
fn normalize_keeps_canonical_angles() {
    assert_eq!(normalize_angle(0), 0);
    assert_eq!(normalize_angle(HALF_TURN), HALF_TURN);
    assert_eq!(normalize_angle(-HALF_TURN + 1), -HALF_TURN + 1);
    assert_eq!(normalize_angle(degrees(79)), degrees(79));
}

#[test]
fn normalize_reduces_by_whole_turns() {
    assert_eq!(normalize_angle(-HALF_TURN), HALF_TURN);
    assert_eq!(normalize_angle(FULL_TURN + 5), 5);
    assert_eq!(normalize_angle(-FULL_TURN - 5), -5);
    assert_eq!(normalize_angle(degrees(270)), degrees(-90));
    assert_eq!(normalize_angle(degrees(-270)), degrees(90));
    assert_eq!(normalize_angle(3 * FULL_TURN + HALF_TURN), HALF_TURN);
}

#[test]
fn normalize_is_canonical_and_idempotent() {
    let samples = [
        i64::MIN,
        i64::MIN + 1,
        -7 * FULL_TURN - 3,
        -HALF_TURN,
        -1,
        0,
        1,
        HALF_TURN,
        HALF_TURN + 1,
        123_456_789,
        i64::MAX,
    ];
    for &a in samples.iter() {
        let n = normalize_angle(a);
        assert!(canonical(n), "{} gave {}", a, n);
        assert_eq!((n as i128 - a as i128).rem_euclid(FULL_TURN as i128), 0);
        assert_eq!(normalize_angle(n), n);
    }
}

#[test]
fn angle_diff_takes_the_short_way() {
    assert_eq!(angle_diff(degrees(170), degrees(-170)), degrees(-20));
    assert_eq!(angle_diff(degrees(-170), degrees(170)), degrees(20));
    assert_eq!(angle_diff(degrees(90), degrees(0)), degrees(90));
    // i64::MAX - i64::MIN is 2^64 - 1, which is 1_551_615 past a whole number of turns.
    assert_eq!(angle_diff(i64::MAX, i64::MIN), 1_551_615);
}

#[test]
fn center_of_no_neighbors_is_origin() {
    let birds = vec![bird(5_000, 7_000, 0)];
    assert_eq!(center_of_mass(&birds, &vec![]), Vector::new(0, 0));
}

#[test]
fn center_of_one_neighbor_is_its_position() {
    let birds = vec![bird(5_000, 7_000, 0), bird(-3_000, 11_000, 10)];
    assert_eq!(center_of_mass(&birds, &vec![1]), Vector::new(-3_000, 11_000));
    assert_eq!(center_of_mass(&birds, &vec![0]), Vector::new(5_000, 7_000));
}

#[test]
fn center_is_componentwise_mean_rounded_down() {
    let birds = vec![bird(0, 0, 0), bird(1, -1, 0), bird(3, -4, 0)];
    assert_eq!(center_of_mass(&birds, &vec![0, 1, 2]), Vector::new(1, -2));
    assert_eq!(center_of_mass(&birds, &vec![1, 2]), Vector::new(2, -3));
    assert_eq!(center_of_mass(&birds, &vec![0, 1]), Vector::new(0, -1));
}

#[test]
fn center_of_extreme_positions_does_not_overflow() {
    let birds = vec![bird(i64::MAX, i64::MIN, 0), bird(i64::MAX, i64::MIN, 1)];
    assert_eq!(center_of_mass(&birds, &vec![0, 1]), Vector::new(i64::MAX, i64::MIN));
}

#[test]
fn avg_heading_is_plain_mean() {
    let birds = vec![bird(0, 0, degrees(170)), bird(0, 0, degrees(-170)), bird(0, 0, 7)];
    assert_eq!(avg_heading(&birds, &vec![]), 0);
    // Not a circular mean: headings near both ends of the range average to zero.
    assert_eq!(avg_heading(&birds, &vec![0, 1]), 0);
    assert_eq!(avg_heading(&birds, &vec![2]), 7);
    assert_eq!(avg_heading(&birds, &vec![1, 2]), (degrees(-170) + 7).div_euclid(2));
}

#[test]
fn neighbors_exclude_self_and_far_birds() {
    let birds = vec![
        bird(0, 0, 0),
        bird(LOCAL_RADIUS - 1, 0, 0),
        bird(LOCAL_RADIUS, 0, 0),
        bird(0, -(LOCAL_RADIUS - 1), 5),
        bird(world(70), world(70), 0),
        bird(world(71), world(71), 0),
    ];
    assert_eq!(neighbors(&birds, birds[0]), vec![1, 3, 4]);
    for i in 0..birds.len() {
        assert!(!neighbors(&birds, birds[i]).contains(&i));
    }
}

#[test]
fn neighbors_skip_birds_equal_to_the_focal_one() {
    let birds = vec![bird(10, 10, 3), bird(10, 10, 3), bird(10, 10, 4)];
    assert_eq!(neighbors(&birds, birds[0]), vec![2]);
    assert_eq!(neighbors(&birds, birds[2]), vec![0, 1]);
}

#[test]
fn neighbors_are_symmetric() {
    let birds = vec![
        bird(world(400), world(350), 0),
        bird(world(450), world(250), 0),
        bird(world(350), world(300), 0),
        bird(world(420), world(320), 9),
        bird(i64::MAX, i64::MIN, 0),
    ];
    for i in 0..birds.len() {
        for j in 0..birds.len() {
            let ij = neighbors(&birds, birds[i]).contains(&j);
            let ji = neighbors(&birds, birds[j]).contains(&i);
            assert_eq!(ij, ji, "{} {}", i, j);
        }
    }
}

#[test]
fn steer_full_policy_exact() {
    // cohesion 1_460_000, alignment 810_000
    let r = steer(Policy::Full, degrees(79), degrees(-135), degrees(160));
    assert_eq!(r, (1_460_000 + 10 * 810_000) / STEER_DEN);
    assert_eq!(r, 478_000);
}

#[test]
fn steer_cohesion_only_exact() {
    assert_eq!(steer(Policy::CohesionOnly, 0, HALF_TURN, degrees(50)), 90_000);
    assert_eq!(steer(Policy::CohesionOnly, 0, -1, 0), -1);
    assert_eq!(steer(Policy::CohesionOnly, degrees(10), degrees(-30), 0), degrees(-40) / 20);
}

#[test]
fn steer_replaces_rather_than_adds() {
    // Already facing the centre and the neighbours: the new heading is zero.
    assert_eq!(steer(Policy::Full, degrees(45), degrees(45), degrees(45)), 0);
}

#[test]
fn steer_reaches_its_bound() {
    assert_eq!(steer(Policy::Full, 0, HALF_TURN, HALF_TURN), STEER_BOUND);
    assert_eq!(steer(Policy::Full, 0, -HALF_TURN + 1, -HALF_TURN + 1), -STEER_BOUND);
}

#[test]
fn wrap_coord_cases() {
    assert_eq!(wrap_coord(-1, 800), 800);
    assert_eq!(wrap_coord(801, 800), 0);
    assert_eq!(wrap_coord(0, 800), 0);
    assert_eq!(wrap_coord(800, 800), 800);
    assert_eq!(wrap_coord(400, 800), 400);
}

#[test]
fn wrap_past_right_edge_lands_at_zero() {
    let width = 800 * UNITS_PER_WORLD;
    let screen = Vector::new(width, 600 * UNITS_PER_WORLD);
    let birds = vec![bird(width, 1_000, 0)];
    let steps = vec![Vector::new(5, 0)];
    let wrapped = tick(&birds, &steps, &vec![0], Config { policy: Policy::Full, wrap: true }, screen);
    assert_eq!(wrapped[0].pos.x, 0);
    assert_eq!(wrapped[0].pos.y, 1_000);
    let free = tick(&birds, &steps, &vec![0], Config { policy: Policy::Full, wrap: false }, screen);
    assert_eq!(free[0].pos.x, width + 5);
}

#[test]
fn wrap_below_zero_lands_at_far_edge() {
    let screen = Vector::new(world(800), world(600));
    let birds = vec![bird(0, 0, 0)];
    let steps = vec![Vector::new(-1, -2)];
    let r = tick(&birds, &steps, &vec![0], Config { policy: Policy::CohesionOnly, wrap: true }, screen);
    assert_eq!(r[0].pos, Vector::new(world(800), world(600)));
}

#[test]
fn three_birds_around_center_stay_bounded() {
    let (cx, cy) = (world(400), world(300));
    let birds = vec![
        bird(cx, cy + world(50), degrees(79)),
        bird(cx + world(50), cy - world(50), 0),
        bird(cx - world(50), cy, degrees(160)),
    ];
    let centers = flock_centers(&birds);
    let bearings = bearings_for(&birds, &centers);
    let steps = steps_for(&birds);
    let next = tick(&birds, &steps, &bearings, Config { policy: Policy::Full, wrap: true }, Vector::new(world(800), world(600)));
    for b in next.iter() {
        assert!(b.dir.abs() <= STEER_BOUND);
        assert!(b.dir.abs() <= HALF_TURN / 20 + HALF_TURN / 2);
    }
}

#[test]
fn one_tick_end_to_end() {
    let (cx, cy) = (world(400), world(300));
    let birds = vec![
        bird(cx, cy + world(50), degrees(79)),
        bird(cx + world(50), cy - world(50), degrees(0)),
        bird(cx - world(50), cy, degrees(160)),
    ];
    let centers = flock_centers(&birds);
    // Birds 0 and 2 are 70.7 world units apart; bird 1 is alone.
    assert_eq!(centers, vec![Vector::new(cx - world(50), cy), Vector::new(0, 0), Vector::new(cx, cy + world(50))]);
    let bearings = bearings_for(&birds, &centers);
    assert_eq!(bearings[0], degrees(-135));
    let steps = steps_for(&birds);
    let screen = Vector::new(world(800), world(600));
    let next = tick(&birds, &steps, &bearings, Config { policy: Policy::Full, wrap: true }, screen);
    assert_eq!(next.len(), 3);
    for i in 0..3 {
        assert_eq!(next[i].pos.x, birds[i].pos.x + steps[i].x);
        assert_eq!(next[i].pos.y, birds[i].pos.y + steps[i].y);
        assert!(canonical(next[i].dir));
    }
    assert_eq!(steps[1], Vector::new(UNITS_PER_WORLD, 0));
    assert_eq!(next[0].dir, 478_000);
    // Bird 1 has no neighbours: the alignment term pulls towards heading zero.
    let alone = steer(Policy::Full, 0, bearings[1], 0);
    assert_eq!(next[1].dir, alone);
}

fn run_ticks(mut birds: Vec<Bird>, ticks: usize) -> Vec<Bird> {
    let screen = Vector::new(world(800), world(600));
    let config = Config { policy: Policy::Full, wrap: true };
    for _ in 0..ticks {
        let centers = flock_centers(&birds);
        let bearings = bearings_for(&birds, &centers);
        let steps = steps_for(&birds);
        birds = tick(&birds, &steps, &bearings, config, screen);
    }
    birds
}

fn assert_near(b: &Bird, x: f64, y: f64) {
    let bx = b.pos.x as f64 / UNITS_PER_WORLD as f64;
    let by = b.pos.y as f64 / UNITS_PER_WORLD as f64;
    assert!((bx - x).abs() <= 1e-4 && (by - y).abs() <= 1e-4, "({}, {}) vs ({}, {})", bx, by, x, y);
}

#[test]
fn reference_flock_one_tick_positions() {
    let birds = vec![
        bird(world(400), world(350), degrees(79)),
        bird(world(450), world(250), 0),
        bird(world(350), world(300), degrees(160)),
    ];
    let next = run_ticks(birds, 1);
    assert_near(&next[0], 400.19081, 350.98163);
    assert_near(&next[1], 451.0, 250.0);
    assert_near(&next[2], 349.06031, 300.34202);
}

#[test]
fn lone_bird_steers_toward_origin() {
    let next = run_ticks(vec![bird(world(400), world(300), 0)], 2);
    assert_near(&next[0], 401.99221, 299.87542);
}

#[test]
fn two_birds_cohere() {
    let birds = vec![bird(world(400), world(300), 0), bird(world(400), world(350), 0)];
    let next = run_ticks(birds, 2);
    assert_near(&next[0], 401.99692, 300.07846);
}
