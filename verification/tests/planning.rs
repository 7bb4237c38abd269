use orbit_annealer::{
    CraftParams, GravityField, PhysicsSnapshot, Point, RandomSource, SafetyBoundary,
    TrajectoryProblem,
};

fn params(cool_down_per_turn: u64) -> CraftParams {
    CraftParams { energy: 8, laser_power: 0, cool_down_per_turn, life: 1 }
}

fn snapshot(
    position: Point,
    velocity: Point,
    heat: u64,
    cool_down_per_turn: u64,
    gravity: bool,
    boundary: Option<SafetyBoundary>,
    turns_remaining: u64,
) -> PhysicsSnapshot {
    PhysicsSnapshot {
        position,
        velocity,
        heat,
        params: params(cool_down_per_turn),
        gravity: GravityField { enabled: gravity },
        boundary,
        turns_remaining,
    }
}

#[test]
fn construction_rejects_empty_horizon() {
    let snap = snapshot(Point::new(0, 0), Point::new(0, 0), 0, 10, false, None, 0);
    assert!(TrajectoryProblem::new(snap).is_none());
}

#[test]
fn construction_rejects_out_of_bounds_snapshot() {
    let snap = snapshot(Point::new(2_000_000_000, 0), Point::new(0, 0), 0, 10, false, None, 5);
    assert!(TrajectoryProblem::new(snap).is_none());
}

#[test]
fn construction_accepts_valid_snapshot() {
    let snap = snapshot(Point::new(3, 0), Point::new(1, 0), 0, 10, false, None, 5);
    assert!(TrajectoryProblem::new(snap).is_some());
}

#[test]
fn parked_craft_scores_zero() {
    let snap = snapshot(Point::new(0, 0), Point::new(0, 0), 0, 10, false, None, 10);
    let problem = TrajectoryProblem::new(snap).unwrap();
    let plan: Vec<(i64, i64)> = vec![(0, 0); 10];
    assert_eq!(problem.eval(&plan), 0);
}

#[test]
fn eval_is_pure() {
    let snap = snapshot(
        Point::new(10, -4),
        Point::new(1, 1),
        20,
        3,
        true,
        Some(SafetyBoundary { inner_radius: 2, outer_radius: 100 }),
        12,
    );
    let problem = TrajectoryProblem::new(snap).unwrap();
    let plan: Vec<(i64, i64)> = vec![(1, 0), (0, -1), (0, 0), (-1, 1), (0, 0)];
    let first = problem.eval(&plan);
    let second = problem.eval(&plan);
    assert_eq!(first, second);
}

#[test]
fn drifting_outlives_crashing_into_the_well() {
    let boundary = Some(SafetyBoundary { inner_radius: 2, outer_radius: 100 });
    let snap = snapshot(Point::new(3, 0), Point::new(1, 0), 0, 10, false, boundary, 5);
    let problem = TrajectoryProblem::new(snap).unwrap();

    let drift: Vec<(i64, i64)> = vec![(0, 0); 5];
    let drift_score = problem.eval(&drift);
    assert_eq!(drift_score, 0);

    // Thrusting (1, 0) subtracts from the velocity, so this plan steers the
    // craft back into the gravity well and crashes on the second step.
    let crash: Vec<(i64, i64)> = vec![(1, 0); 5];
    let crash_score = problem.eval(&crash);
    assert_eq!(crash_score, 1000 + 5 - 1);

    assert!(drift_score < crash_score);
}

#[test]
fn overheating_is_penalized() {
    let snap = snapshot(Point::new(0, 0), Point::new(0, 0), 0, 0, false, None, 10);
    let problem = TrajectoryProblem::new(snap).unwrap();

    // Thrust every turn with no cooldown: heat reaches the ceiling of 64
    // after eight turns and overflows by 8 on each of the last two.
    let relentless: Vec<(i64, i64)> = vec![(1, 0); 10];
    let relentless_score = problem.eval(&relentless);
    assert_eq!(relentless_score, 9 + 10 * 16);

    // The same amount of drifting with thrust only while under the ceiling.
    let mut spaced: Vec<(i64, i64)> = vec![(1, 0); 8];
    spaced.push((0, 0));
    spaced.push((0, 0));
    let spaced_score = problem.eval(&spaced);
    assert_eq!(spaced_score, 7);

    assert!(spaced_score < relentless_score);
}

#[test]
fn plan_beyond_its_length_coasts() {
    // A short plan is padded with zero accelerations during simulation.
    let snap = snapshot(Point::new(0, 0), Point::new(0, 0), 0, 10, false, None, 10);
    let problem = TrajectoryProblem::new(snap).unwrap();
    let short: Vec<(i64, i64)> = vec![(0, 1), (0, -1)];
    let long: Vec<(i64, i64)> = vec![(0, 1), (0, -1), (0, 0), (0, 0), (0, 0)];
    assert_eq!(problem.eval(&short), problem.eval(&long));
}

#[test]
fn init_state_has_horizon_length_and_small_components() {
    let snap = snapshot(Point::new(3, 0), Point::new(1, 0), 0, 10, false, None, 50);
    let problem = TrajectoryProblem::new(snap).unwrap();
    let mut rng = RandomSource::from_seed(7);
    let state = problem.init_state(&mut rng);
    assert_eq!(state.len(), 20);
    for &(dx, dy) in state.iter() {
        assert!(-1 <= dx && dx <= 1);
        assert!(-1 <= dy && dy <= 1);
    }

    let short_snap = snapshot(Point::new(3, 0), Point::new(1, 0), 0, 10, false, None, 7);
    let short_problem = TrajectoryProblem::new(short_snap).unwrap();
    let short_state = short_problem.init_state(&mut rng);
    assert_eq!(short_state.len(), 7);
}

#[test]
fn neighbour_proposes_a_changed_entry() {
    let snap = snapshot(Point::new(3, 0), Point::new(1, 0), 0, 10, false, None, 10);
    let problem = TrajectoryProblem::new(snap).unwrap();
    let state: Vec<(i64, i64)> = vec![(0, 0), (1, -1), (0, 1)];
    let mut rng = RandomSource::from_seed(99);
    for _ in 0..50 {
        let m = problem.neighbour(&state, &mut rng);
        assert!(m.index < state.len());
        assert_eq!(m.prev, state[m.index]);
        assert_ne!(m.next, m.prev);
        assert!(-1 <= m.next.0 && m.next.0 <= 1);
        assert!(-1 <= m.next.1 && m.next.1 <= 1);
    }
}

#[test]
fn apply_then_unapply_restores_the_state() {
    let snap = snapshot(Point::new(3, 0), Point::new(1, 0), 0, 10, false, None, 10);
    let problem = TrajectoryProblem::new(snap).unwrap();
    let original: Vec<(i64, i64)> = vec![(0, 0), (1, -1), (0, 1), (-1, -1)];
    let mut state = original.clone();
    let mut rng = RandomSource::from_seed(3);
    for _ in 0..20 {
        let m = problem.neighbour(&state, &mut rng);
        problem.apply(&mut state, &m);
        problem.unapply(&mut state, &m);
        assert_eq!(state, original);
    }
}

#[test]
fn trim_removes_trailing_zeros() {
    let mut plan: Vec<(i64, i64)> = vec![(1, 0), (0, 0), (0, -1), (0, 0), (0, 0)];
    orbit_annealer::problem::trim_trailing_zeros(&mut plan);
    assert_eq!(plan, vec![(1, 0), (0, 0), (0, -1)]);
}

#[test]
fn trim_empties_an_all_zero_plan() {
    let mut plan: Vec<(i64, i64)> = vec![(0, 0), (0, 0), (0, 0)];
    orbit_annealer::problem::trim_trailing_zeros(&mut plan);
    assert!(plan.is_empty());
}

#[test]
fn trim_keeps_a_thrusting_tail() {
    let mut plan: Vec<(i64, i64)> = vec![(0, 0), (0, 1)];
    orbit_annealer::problem::trim_trailing_zeros(&mut plan);
    assert_eq!(plan, vec![(0, 0), (0, 1)]);
}
