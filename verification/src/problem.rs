//! The trajectory problem: a physics snapshot, the candidate thrust
//! sequence, and the forward simulation that scores a candidate.  Scores are
//! integers and lower is better; a crash before the horizon is penalized
//! heavily, a surviving plan is charged for late thrust use and overheating.

use vstd::prelude::*;

use crate::physics::{
    abs_of, get_gravity, gravity_at, is_safe, safe_at, GravityField, Point, SafetyBoundary,
};
use crate::rng::RandomSource;

verus! {

/// Largest coordinate magnitude a snapshot may carry.
pub const MAX_COORD: i64 = 1_000_000_000;

/// Largest number of turns a snapshot may have left.
pub const MAX_TURNS: u64 = 10_000;

/// Largest heat value a snapshot may carry.
pub const MAX_HEAT: u64 = 1_000_000_000;

/// Planning-horizon cap: a candidate sequence never plans further ahead.
pub const PLAN_CAP: u64 = 20;

/// Heat added by one turn of non-zero thrust.
pub const THRUST_HEAT: u64 = 8;

/// Heat ceiling; heat beyond it is clipped and charged as a penalty.
pub const HEAT_CEILING: u64 = 64;

/// Base score of a plan that crashes before the horizon.
pub const CRASH_PENALTY: u64 = 1_000;

/// Weight of the accumulated overheat penalty in the score.
pub const OVERHEAT_WEIGHT: i64 = 10;

/// Largest velocity magnitude the simulation can reach: the initial bound
/// plus two units of change per axis per turn.
pub const VEL_LIMIT: i64 = 1_000_000_000 + 2 * 10_000;

/// Largest overheat penalty one simulated turn can add.
pub const PENA_STEP: u64 = 1_000_000_000 + 8 * 10_000;

/// Largest score `eval` can return.
pub const SCORE_LIMIT: i64 = 10_000 + 100_000 * 1_000_080_000;

/// Per-craft parameters; only `cool_down_per_turn` and `energy` matter to
/// the planner.
#[derive(Clone, Copy, PartialEq, Eq, Structural, Debug)]
pub struct CraftParams {
    pub energy: u64,
    pub laser_power: u64,
    pub cool_down_per_turn: u64,
    pub life: u64,
}

/// The immutable physics input of one optimization run.
#[derive(Clone, Copy, Debug)]
pub struct PhysicsSnapshot {
    pub position: Point,
    pub velocity: Point,
    pub heat: u64,
    pub params: CraftParams,
    pub gravity: GravityField,
    pub boundary: Option<SafetyBoundary>,
    pub turns_remaining: u64,
}

/// A single-timestep overwrite of the candidate sequence, reversible by
/// re-applying the value it replaced.
#[derive(Clone, Copy, Debug)]
pub struct PlanMove {
    pub index: usize,
    pub next: (i64, i64),
    pub prev: (i64, i64),
}

/// The trajectory problem handed to the annealing engine.
#[derive(Clone, Copy, Debug)]
pub struct TrajectoryProblem {
    pub snapshot: PhysicsSnapshot,
}

/// An acceleration component is drawn from {-1, 0, 1}.
pub open spec fn accel_ok(a: (i64, i64)) -> bool {
    -1 <= a.0 <= 1 && -1 <= a.1 <= 1
}

/// Every acceleration of a candidate sequence is valid.
pub open spec fn plan_ok(s: Seq<(i64, i64)>) -> bool {
    forall|i: int| 0 <= i < s.len() ==> accel_ok(#[trigger] s[i])
}

/// The acceleration planned for a step: zero beyond the end of the plan.
pub open spec fn plan_accel(plan: Seq<(i64, i64)>, step: int) -> (int, int) {
    if 0 <= step < plan.len() {
        (plan[step].0 as int, plan[step].1 as int)
    } else {
        (0, 0)
    }
}

/// The full state of the forward simulation after some number of steps.
pub ghost struct SimState {
    pub pos_x: int,
    pub pos_y: int,
    pub vel_x: int,
    pub vel_y: int,
    pub heat: int,
    pub overheat_penalty: int,
    pub completed: int,
    pub last_use: int,
    pub crashed: bool,
}

pub open spec fn sim_init(snap: PhysicsSnapshot) -> SimState {
    SimState {
        pos_x: snap.position.x as int,
        pos_y: snap.position.y as int,
        vel_x: snap.velocity.x as int,
        vel_y: snap.velocity.y as int,
        heat: snap.heat as int,
        overheat_penalty: 0,
        completed: 0,
        last_use: 0,
        crashed: false,
    }
}

/// One simulated turn at step index `step`: thrust corrects the velocity,
/// gravity pulls at the old position, the position advances, and on a safe
/// landing the heat budget is charged and cooled.
pub open spec fn sim_advance(
    snap: PhysicsSnapshot,
    plan: Seq<(i64, i64)>,
    st: SimState,
    step: int,
) -> SimState {
    let a = plan_accel(plan, step);
    let g = gravity_at(snap.gravity, st.pos_x, st.pos_y);
    let vx = st.vel_x - a.0 + g.0;
    let vy = st.vel_y - a.1 + g.1;
    let px = st.pos_x + vx;
    let py = st.pos_y + vy;
    if !safe_at(snap.boundary, px, py) {
        SimState {
            pos_x: px,
            pos_y: py,
            vel_x: vx,
            vel_y: vy,
            heat: st.heat,
            overheat_penalty: st.overheat_penalty,
            completed: st.completed,
            last_use: st.last_use,
            crashed: true,
        }
    } else {
        let used = a.0 != 0 || a.1 != 0;
        let heat_charged = st.heat + if used {
            THRUST_HEAT as int
        } else {
            0
        };
        let cool = if heat_charged < snap.params.cool_down_per_turn as int {
            heat_charged
        } else {
            snap.params.cool_down_per_turn as int
        };
        let heat_cooled = heat_charged - cool;
        let over = if heat_cooled > HEAT_CEILING as int {
            heat_cooled - HEAT_CEILING as int
        } else {
            0
        };
        SimState {
            pos_x: px,
            pos_y: py,
            vel_x: vx,
            vel_y: vy,
            heat: heat_cooled - over,
            overheat_penalty: st.overheat_penalty + over,
            completed: st.completed + 1,
            last_use: if used {
                step
            } else {
                st.last_use
            },
            crashed: false,
        }
    }
}

/// The simulation state after `n` turns; once crashed it stays put.
pub open spec fn sim(snap: PhysicsSnapshot, plan: Seq<(i64, i64)>, n: nat) -> SimState
    decreases n,
{
    if n == 0 {
        sim_init(snap)
    } else {
        let prev = sim(snap, plan, (n - 1) as nat);
        if prev.crashed {
            prev
        } else {
            sim_advance(snap, plan, prev, n - 1)
        }
    }
}

/// The score of a candidate sequence: a crash before the horizon costs the
/// crash penalty plus the missing turns; a surviving plan costs the index of
/// its last thrust use plus the weighted overheat penalty.  Lower is better.
pub open spec fn score_of(snap: PhysicsSnapshot, plan: Seq<(i64, i64)>) -> int {
    let rest = snap.turns_remaining as int;
    let fin = sim(snap, plan, snap.turns_remaining as nat);
    if fin.completed < rest {
        CRASH_PENALTY as int + rest - fin.completed
    } else {
        fin.last_use + fin.overheat_penalty * (OVERHEAT_WEIGHT as int)
    }
}

proof fn lemma_sim_unfold(snap: PhysicsSnapshot, plan: Seq<(i64, i64)>, n: nat)
    requires
        n > 0,
    ensures
        sim(snap, plan, n) == (if sim(snap, plan, (n - 1) as nat).crashed {
            sim(snap, plan, (n - 1) as nat)
        } else {
            sim_advance(snap, plan, sim(snap, plan, (n - 1) as nat), n - 1)
        }),
{
}

/// A crashed simulation never moves again.
proof fn lemma_crash_stable(snap: PhysicsSnapshot, plan: Seq<(i64, i64)>, m: nat, n: nat)
    requires
        m <= n,
        sim(snap, plan, m).crashed,
    ensures
        sim(snap, plan, n) == sim(snap, plan, m),
    decreases n,
{
    if n > m {
        lemma_crash_stable(snap, plan, m, (n - 1) as nat);
        lemma_sim_unfold(snap, plan, n);
    }
}

impl PhysicsSnapshot {
    /// The bounds under which the simulation arithmetic stays in range.
    pub open spec fn wf(self) -> bool {
        &&& abs_of(self.position.x as int) <= MAX_COORD as int
        &&& abs_of(self.position.y as int) <= MAX_COORD as int
        &&& abs_of(self.velocity.x as int) <= MAX_COORD as int
        &&& abs_of(self.velocity.y as int) <= MAX_COORD as int
        &&& self.heat <= MAX_HEAT
        &&& self.turns_remaining <= MAX_TURNS
        &&& match self.boundary {
            Option::Some(b) => 0 <= b.inner_radius && 0 <= b.outer_radius,
            Option::None => true,
        }
    }

    /// Decides whether the snapshot is within the supported bounds.
    pub fn is_well_formed(&self) -> (r: bool)
        ensures
            r == self.wf(),
    {
        let pos_ok = -MAX_COORD <= self.position.x && self.position.x <= MAX_COORD && -MAX_COORD
            <= self.position.y && self.position.y <= MAX_COORD;
        let vel_ok = -MAX_COORD <= self.velocity.x && self.velocity.x <= MAX_COORD && -MAX_COORD
            <= self.velocity.y && self.velocity.y <= MAX_COORD;
        let budget_ok = self.heat <= MAX_HEAT && self.turns_remaining <= MAX_TURNS;
        let boundary_ok = match &self.boundary {
            Option::Some(b) => 0 <= b.inner_radius && 0 <= b.outer_radius,
            Option::None => true,
        };
        pos_ok && vel_ok && budget_ok && boundary_ok
    }
}

impl TrajectoryProblem {
    pub open spec fn wf(self) -> bool {
        self.snapshot.wf() && self.snapshot.turns_remaining >= 1
    }

    /// Planned sequence length: the horizon cap or the remaining turns,
    /// whichever is smaller.
    pub open spec fn horizon(self) -> int {
        if self.snapshot.turns_remaining > PLAN_CAP {
            PLAN_CAP as int
        } else {
            self.snapshot.turns_remaining as int
        }
    }

    /// Builds the problem, rejecting a snapshot that is out of bounds or has
    /// no turns left to plan for.
    pub fn new(snapshot: PhysicsSnapshot) -> (r: Option<TrajectoryProblem>)
        ensures
            r is Some <==> snapshot.wf() && snapshot.turns_remaining >= 1,
            r is Some ==> r->0.snapshot == snapshot && r->0.wf(),
    {
        if snapshot.is_well_formed() && snapshot.turns_remaining >= 1 {
            Some(TrajectoryProblem { snapshot })
        } else {
            None
        }
    }

    /// A fresh candidate sequence of full horizon length with each
    /// acceleration component drawn uniformly from {-1, 0, 1}.
    pub fn init_state(&self, rng: &mut RandomSource) -> (r: Vec<(i64, i64)>)
        requires
            self.wf(),
        ensures
            r@.len() == self.horizon(),
            plan_ok(r@),
    {
        let n: u64 = if self.snapshot.turns_remaining > PLAN_CAP {
            PLAN_CAP
        } else {
            self.snapshot.turns_remaining
        };
        let mut v: Vec<(i64, i64)> = Vec::new();
        let mut i: u64 = 0;
        while i < n
            invariant
                i <= n,
                n <= PLAN_CAP,
                v@.len() == i,
                plan_ok(v@),
            decreases n - i,
        {
            let dx = rng.next_in_range(-1, 2);
            let dy = rng.next_in_range(-1, 2);
            v.push((dx, dy));
            i = i + 1;
        }
        v
    }

    /// Scores a candidate sequence by forward simulation.  The score is a
    /// pure function of the snapshot and the sequence.
    #[verifier::rlimit(60)]
    pub fn eval(&self, state: &Vec<(i64, i64)>) -> (r: i64)
        requires
            self.snapshot.wf(),
            plan_ok(state@),
        ensures
            r == score_of(self.snapshot, state@),
            0 <= r <= SCORE_LIMIT,
    {
        let rest: u64 = self.snapshot.turns_remaining;
        let cd: u64 = self.snapshot.params.cool_down_per_turn;
        let mut px: i64 = self.snapshot.position.x;
        let mut py: i64 = self.snapshot.position.y;
        let mut vx: i64 = self.snapshot.velocity.x;
        let mut vy: i64 = self.snapshot.velocity.y;
        let mut heat: u64 = self.snapshot.heat;
        let mut ovh: u64 = 0;
        let mut last_use: u64 = 0;
        let mut crashed: bool = false;
        let mut step: u64 = 0;
        while step < rest
            invariant_except_break
                self.snapshot.wf(),
                plan_ok(state@),
                rest == self.snapshot.turns_remaining,
                cd == self.snapshot.params.cool_down_per_turn,
                step <= rest,
                !crashed,
                (sim(self.snapshot, state@, step as nat) == SimState {
                    pos_x: px as int,
                    pos_y: py as int,
                    vel_x: vx as int,
                    vel_y: vy as int,
                    heat: heat as int,
                    overheat_penalty: ovh as int,
                    completed: step as int,
                    last_use: last_use as int,
                    crashed: false,
                }),
                abs_of(vx as int) <= 1_000_000_000 + 2 * (step as int),
                abs_of(vy as int) <= 1_000_000_000 + 2 * (step as int),
                abs_of(px as int) <= 1_000_000_000 + (step as int) * 1_000_020_000,
                abs_of(py as int) <= 1_000_000_000 + (step as int) * 1_000_020_000,
                heat as int <= 1_000_000_000 + 8 * (step as int),
                ovh as int <= (step as int) * 1_000_080_000,
                last_use <= 10_000,
            ensures
                step <= rest,
                !crashed ==> step == rest,
                crashed ==> step < rest,
                (sim(self.snapshot, state@, rest as nat).completed == if crashed {
                    step as int
                } else {
                    rest as int
                }),
                sim(self.snapshot, state@, rest as nat).last_use == last_use as int,
                sim(self.snapshot, state@, rest as nat).overheat_penalty == ovh as int,
                ovh as int <= 10_000 * 1_000_080_000,
                last_use <= 10_000,
            decreases rest - step,
        {
            let idx: usize = step as usize;
            let a: (i64, i64) = if idx < state.len() {
                state[idx]
            } else {
                (0, 0)
            };
            assert((a.0 as int, a.1 as int) == plan_accel(state@, step as int));
            let g: Point = get_gravity(&self.snapshot.gravity, &Point { x: px, y: py });
            let nvx: i64 = vx - a.0 + g.x;
            let nvy: i64 = vy - a.1 + g.y;
            let npx: i64 = px + nvx;
            let npy: i64 = py + nvy;
            if !is_safe(&self.snapshot.boundary, &Point { x: npx, y: npy }) {
                proof {
                    lemma_sim_unfold(self.snapshot, state@, (step + 1) as nat);
                    assert(sim(self.snapshot, state@, (step + 1) as nat).crashed);
                    lemma_crash_stable(self.snapshot, state@, (step + 1) as nat, rest as nat);
                }
                crashed = true;
                break ;
            }
            px = npx;
            py = npy;
            vx = nvx;
            vy = nvy;
            let used: bool = a.0 != 0 || a.1 != 0;
            if used {
                heat = heat + THRUST_HEAT;
                last_use = step;
            }
            let cool: u64 = if heat < cd {
                heat
            } else {
                cd
            };
            heat = heat - cool;
            if heat > HEAT_CEILING {
                ovh = ovh + (heat - HEAT_CEILING);
                heat = HEAT_CEILING;
            }
            proof {
                lemma_sim_unfold(self.snapshot, state@, (step + 1) as nat);
            }
            step = step + 1;
        }
        if crashed {
            let missing: u64 = rest - step;
            (CRASH_PENALTY + missing) as i64
        } else {
            last_use as i64 + (ovh as i64) * OVERHEAT_WEIGHT
        }
    }

    /// Proposes a random move: a uniformly random timestep gets a uniformly
    /// random replacement acceleration different from its current one.
    pub fn neighbour(&self, state: &Vec<(i64, i64)>, rng: &mut RandomSource) -> (m: PlanMove)
        requires
            1 <= state@.len() <= MAX_TURNS,
            plan_ok(state@),
        ensures
            m.index < state@.len(),
            m.prev == state@[m.index as int],
            accel_ok(m.next),
            m.next != m.prev,
    {
        let ix_raw: i64 = rng.next_in_range(0, state.len() as i64);
        let ix: usize = ix_raw as usize;
        let prev: (i64, i64) = state[ix];
        let ci: i64 = (prev.0 + 1) * 3 + (prev.1 + 1);
        let k: i64 = rng.next_in_range(0, 8);
        let j: i64 = if k < ci {
            k
        } else {
            k + 1
        };
        let nx: i64 = j / 3 - 1;
        let ny: i64 = j % 3 - 1;
        proof {
            assert(0 <= j <= 8 && j != ci);
            assert(j == (j / 3) * 3 + j % 3) by (nonlinear_arith)
                requires
                    0 <= j <= 8,
            ;
            assert(0 <= j / 3 <= 2 && 0 <= j % 3 <= 2);
            assert((nx as int, ny as int) != (prev.0 as int, prev.1 as int)) by {
                if nx as int == prev.0 as int && ny as int == prev.1 as int {
                    assert(j == ci);
                }
            }
        }
        PlanMove { index: ix, next: (nx, ny), prev }
    }

    /// Overwrites the indexed acceleration with the move's new value.
    pub fn apply(&self, state: &mut Vec<(i64, i64)>, m: &PlanMove)
        requires
            m.index < old(state)@.len(),
        ensures
            final(state)@ == old(state)@.update(m.index as int, m.next),
    {
        state[m.index] = m.next;
    }

    /// Restores the indexed acceleration to the move's previous value.
    pub fn unapply(&self, state: &mut Vec<(i64, i64)>, m: &PlanMove)
        requires
            m.index < old(state)@.len(),
        ensures
            final(state)@ == old(state)@.update(m.index as int, m.prev),
    {
        state[m.index] = m.prev;
    }
}

/// Applying a move and then undoing it restores the sequence exactly.
pub proof fn lemma_move_round_trip(s: Seq<(i64, i64)>, m: PlanMove)
    requires
        m.index < s.len(),
        m.prev == s[m.index as int],
    ensures
        s.update(m.index as int, m.next).update(m.index as int, m.prev) == s,
{
    assert(s.update(m.index as int, m.next).update(m.index as int, m.prev) =~= s);
}

/// The length of a plan with its insignificant trailing zero accelerations
/// removed.
pub open spec fn trimmed_len(s: Seq<(i64, i64)>) -> int
    decreases s.len(),
{
    if s.len() > 0 && s.last() == (0i64, 0i64) {
        trimmed_len(s.drop_last())
    } else {
        s.len() as int
    }
}

/// Removes the trailing zero accelerations of a plan; they carry no thrust
/// and are insignificant to the caller.
pub fn trim_trailing_zeros(plan: &mut Vec<(i64, i64)>)
    ensures
        final(plan)@ == old(plan)@.subrange(0, trimmed_len(old(plan)@)),
        final(plan)@.len() == 0 || !(final(plan)@.last() == (0i64, 0i64)),
{
    let ghost orig = plan@;
    proof {
        assert(plan@ =~= orig.subrange(0, plan@.len() as int));
    }
    loop
        invariant
            plan@.len() <= orig.len(),
            (plan@ == orig.subrange(0, plan@.len() as int)),
            trimmed_len(plan@) == trimmed_len(orig),
        ensures
            (plan@ == orig.subrange(0, trimmed_len(orig))),
            plan@.len() == 0 || !(plan@.last() == (0i64, 0i64)),
        decreases plan@.len(),
    {
        let n = plan.len();
        if n == 0 {
            break ;
        }
        let last: (i64, i64) = plan[n - 1];
        if !(last.0 == 0 && last.1 == 0) {
            proof {
                assert(plan@.last() == plan@[n - 1]);
            }
            break ;
        }
        let ghost before = plan@;
        proof {
            assert(before.last() == (0i64, 0i64));
            assert(trimmed_len(before) == trimmed_len(before.drop_last()));
        }
        plan.pop();
        proof {
            assert(plan@ =~= before.drop_last());
            assert(plan@ =~= orig.subrange(0, plan@.len() as int));
        }
    }
}

} // verus!
