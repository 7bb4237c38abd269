//! The annealing engine: a search loop that proposes single-step edits,
//! accepts improvements outright and worsenings with a probability that
//! shrinks as the temperature falls, and tracks the best sequence seen.
//! Temperatures are integers and the exponential acceptance rule is taken in
//! base-2 fixed point, so the whole loop stays in integer arithmetic.

use vstd::prelude::*;

use vstd::arithmetic::div_mod::{lemma_div_is_ordered, lemma_div_multiples_vanish};
use vstd::arithmetic::mul::{lemma_mul_inequality, lemma_mul_is_commutative, lemma_mul_upper_bound};

use crate::problem::{
    lemma_move_round_trip, plan_ok, score_of, PlanMove, TrajectoryProblem, MAX_TURNS, SCORE_LIMIT,
};
use crate::rng::RandomSource;

verus! {

/// Largest start temperature a schedule may carry.
pub const MAX_TEMP: u64 = 1_000_000_000;

/// Largest iteration count a schedule may carry.
pub const MAX_ITERS: u64 = 1_000_000_000;

/// The cooling schedule of one optimization run: the temperature falls
/// linearly from `t_start` to `t_end` over `iterations` iterations.
#[derive(Clone, Copy, PartialEq, Eq, Structural, Debug)]
pub struct ScheduleConfig {
    pub t_start: u64,
    pub t_end: u64,
    pub iterations: u64,
}

/// The temperature at iteration `i`, interpolated linearly from `t_start`
/// down to `t_end`.
pub open spec fn temperature_at(s: ScheduleConfig, i: int) -> int {
    s.t_start - ((s.t_start - s.t_end) * i) / (s.iterations as int)
}

impl ScheduleConfig {
    /// Both temperatures are positive, the schedule cools, and the bounds
    /// keep the interpolation arithmetic in range.
    pub open spec fn wf(self) -> bool {
        1 <= self.t_end <= self.t_start <= MAX_TEMP && self.iterations <= MAX_ITERS
    }

    /// Builds a schedule, rejecting non-positive or non-cooling temperature
    /// pairs and out-of-range values.
    pub fn new(t_start: u64, t_end: u64, iterations: u64) -> (r: Option<ScheduleConfig>)
        ensures
            r is Some <==> (1 <= t_end <= t_start <= MAX_TEMP && iterations <= MAX_ITERS),
            r is Some ==> (r->0 == ScheduleConfig { t_start, t_end, iterations }),
            r is Some ==> r->0.wf(),
    {
        if 1 <= t_end && t_end <= t_start && t_start <= MAX_TEMP && iterations <= MAX_ITERS {
            Some(ScheduleConfig { t_start, t_end, iterations })
        } else {
            None
        }
    }
}

/// Computes the temperature of iteration `i`.
fn temperature(sched: &ScheduleConfig, i: u64) -> (r: u64)
    requires
        sched.wf(),
        i < sched.iterations,
    ensures
        r == temperature_at(*sched, i as int),
        sched.t_end <= r <= sched.t_start,
{
    let span: u64 = sched.t_start - sched.t_end;
    proof {
        let s = span as int;
        let iv = i as int;
        let n = sched.iterations as int;
        lemma_mul_upper_bound(s, 1_000_000_000, iv, 1_000_000_000);
        lemma_mul_inequality(iv, n, s);
        lemma_mul_is_commutative(s, iv);
        lemma_mul_is_commutative(s, n);
        lemma_div_is_ordered(s * iv, n * s, n);
        lemma_div_multiples_vanish(s, n);
        assert((s * iv) / n <= s);
    }
    let drop_amount: u64 = (span * i) / sched.iterations;
    sched.t_start - drop_amount
}

/// Decides whether a score-worsening move is accepted at the given
/// temperature: the acceptance probability of the exponential rule is taken
/// in base-2 fixed point, halving for each full temperature quantum of score
/// increase, so a hotter run accepts worse moves more readily.
fn accept_worse(delta: i64, temp: u64, rng: &mut RandomSource) -> (r: bool)
    requires
        delta >= 1,
        temp >= 1,
{
    let ratio: u64 = (delta as u64) / temp + 1;
    if ratio >= 62 {
        return false;
    }
    let mut threshold: i64 = 4_611_686_018_427_387_904;
    let mut k: u64 = 0;
    while k < ratio
        invariant
            k <= ratio,
            0 <= threshold <= 4_611_686_018_427_387_904,
        decreases ratio - k,
    {
        threshold = threshold / 2;
        k = k + 1;
    }
    let draw: i64 = rng.next_in_range(0, 4_611_686_018_427_387_904);
    draw < threshold
}

/// Copies a candidate sequence.
fn copy_plan(v: &Vec<(i64, i64)>) -> (r: Vec<(i64, i64)>)
    ensures
        r@ == v@,
{
    let mut r: Vec<(i64, i64)> = Vec::new();
    let mut i: usize = 0;
    while i < v.len()
        invariant
            i <= v@.len(),
            r@ == v@.subrange(0, i as int),
        decreases v@.len() - i,
    {
        r.push(v[i]);
        i = i + 1;
        proof {
            assert(r@ =~= v@.subrange(0, i as int));
        }
    }
    proof {
        assert(r@ =~= v@);
    }
    r
}

/// Runs the annealing loop from a given starting sequence and returns the
/// best sequence seen together with its score.  The score of the result is
/// never worse than the score of the starting sequence: the best-seen score
/// can only fall as the search runs.
pub fn optimize_from(
    problem: &TrajectoryProblem,
    schedule: &ScheduleConfig,
    rng: &mut RandomSource,
    init: Vec<(i64, i64)>,
) -> (r: (Vec<(i64, i64)>, i64))
    requires
        problem.wf(),
        schedule.wf(),
        plan_ok(init@),
        1 <= init@.len() <= MAX_TURNS,
    ensures
        r.0@.len() == init@.len(),
        plan_ok(r.0@),
        r.1 == score_of(problem.snapshot, r.0@),
        r.1 <= score_of(problem.snapshot, init@),
        0 <= r.1 <= SCORE_LIMIT,
{
    let ghost init_view = init@;
    let mut current = init;
    let mut current_score = problem.eval(&current);
    let mut best = copy_plan(&current);
    let mut best_score = current_score;
    let iters: u64 = schedule.iterations;
    let mut i: u64 = 0;
    while i < iters
        invariant
            problem.wf(),
            schedule.wf(),
            iters == schedule.iterations,
            i <= iters,
            1 <= init_view.len() <= MAX_TURNS,
            current@.len() == init_view.len(),
            best@.len() == init_view.len(),
            plan_ok(current@),
            plan_ok(best@),
            current_score == score_of(problem.snapshot, current@),
            best_score == score_of(problem.snapshot, best@),
            0 <= current_score <= SCORE_LIMIT,
            0 <= best_score <= SCORE_LIMIT,
            best_score <= current_score,
            best_score <= score_of(problem.snapshot, init_view),
        decreases iters - i,
    {
        let m: PlanMove = problem.neighbour(&current, rng);
        let ghost pre = current@;
        problem.apply(&mut current, &m);
        proof {
            assert forall|j: int| 0 <= j < current@.len() implies crate::problem::accel_ok(
                #[trigger] current@[j],
            ) by {
                if j != m.index {
                    assert(current@[j] == pre[j]);
                }
            }
        }
        let new_score: i64 = problem.eval(&current);
        let delta: i64 = new_score - current_score;
        let accept: bool = if delta <= 0 {
            true
        } else {
            let temp: u64 = temperature(schedule, i);
            accept_worse(delta, temp, rng)
        };
        if accept {
            current_score = new_score;
            if new_score < best_score {
                best = copy_plan(&current);
                best_score = new_score;
            }
        } else {
            problem.unapply(&mut current, &m);
            proof {
                lemma_move_round_trip(pre, m);
            }
        }
        i = i + 1;
    }
    (best, best_score)
}

/// One full optimization run: draws a fresh random starting sequence of full
/// horizon length and anneals it.  The returned score is exactly the score
/// of the returned sequence.
pub fn optimize(
    problem: &TrajectoryProblem,
    schedule: &ScheduleConfig,
    rng: &mut RandomSource,
) -> (r: (Vec<(i64, i64)>, i64))
    requires
        problem.wf(),
        schedule.wf(),
    ensures
        r.0@.len() == problem.horizon(),
        plan_ok(r.0@),
        r.1 == score_of(problem.snapshot, r.0@),
        0 <= r.1 <= SCORE_LIMIT,
{
    let init = problem.init_state(rng);
    optimize_from(problem, schedule, rng, init)
}

} // verus!
