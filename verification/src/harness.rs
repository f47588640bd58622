//! The harness: a retry-within-iteration state machine with fail-fast
//! semantics across seeds.
//!
//! For each seed, in order, the body is attempted up to `retries + 1` times;
//! success on any attempt counts as success for that seed and moves on to
//! the next seed, while exhausting every attempt ends the whole run with
//! that seed and its attempt count.  If every seed succeeds, the harness
//! succeeds.  Each attempt's context is freshly constructed and dropped at
//! the attempt boundary, so no state leaks between attempts or seeds.

use crate::options::TestConfig;
use crate::seeds::derive_seeds;
use crate::seeds::seed_seq;
use crate::signature::ExecutionShape;
use vstd::prelude::*;

verus! {

/// A terminal outcome of one harness run: either every seed passed, or one
/// seed exhausted all of its attempts and no later seed was tried.
#[derive(Debug, Clone, Copy, PartialEq, Eq, Structural)]
pub enum HarnessResult {
    AllSeedsPassed,
    SeedFailedExhausted { seed: u64, attempts_made: u64 },
}

/// The state of a run: either about to make attempt number `attempt` (zero
/// based) on the seed at `seed_idx`, or finished with a result.
#[derive(Debug, Clone, Copy, PartialEq, Eq, Structural)]
pub enum HarnessState {
    Running { seed_idx: usize, attempt: u64 },
    Finished { result: HarnessResult },
}

/// One attempt as it was made: which seed, which attempt number, and
/// whether the body passed.
#[derive(Debug, Clone, Copy, PartialEq, Eq, Structural)]
pub struct AttemptRecord {
    pub seed: u64,
    pub attempt: u64,
    pub passed: bool,
}

/// What the failure hook is handed, once, after a seed exhausts all of its
/// attempts: the failing seed and how many attempts were made on it.
#[derive(Debug, Clone, Copy, PartialEq, Eq, Structural)]
pub struct FailureContext {
    pub seed: u64,
    pub attempts_made: u64,
}

/// The synthesized harness for one expansion: the execution shape of the
/// body, the seeds baked in as literal values, the retry budget per seed,
/// and the optional failure-hook path wired into the run.
#[derive(Debug, Clone, PartialEq, Eq)]
pub struct HarnessPlan {
    pub shape: ExecutionShape,
    pub seeds: Vec<u64>,
    pub retries: u64,
    pub on_failure: Option<String>,
}

/// A completed run: its terminal result together with every attempt that
/// was made, in order.
#[derive(Debug, Clone, PartialEq, Eq)]
pub struct HarnessRun {
    pub result: HarnessResult,
    pub attempts: Vec<AttemptRecord>,
}

impl HarnessPlan {
    /// The plan's invariant: at least one seed, and a retry budget small
    /// enough that an attempt count always fits its word.
    pub open spec fn wf(self) -> bool {
        &&& self.seeds@.len() >= 1
        &&& self.seeds@.len() <= usize::MAX
        &&& self.retries < u64::MAX
    }
}

/// The state a run starts in: the first attempt on the first seed, or, for
/// an empty seed sequence, immediate success.
pub open spec fn init_state_spec(seeds: Seq<u64>) -> HarnessState {
    if seeds.len() > 0 {
        HarnessState::Running { seed_idx: 0, attempt: 0 }
    } else {
        HarnessState::Finished { result: HarnessResult::AllSeedsPassed }
    }
}

/// One transition of the state machine, on the outcome of one attempt.
///
/// On success the run moves to the next seed (no further attempts for this
/// seed), or finishes passed after the last seed.  On failure it retries
/// the *same* seed while attempts remain, else finishes with that seed
/// exhausted after `attempt + 1` attempts.  Terminal states absorb.
pub open spec fn step_spec(
    seeds: Seq<u64>,
    retries: u64,
    state: HarnessState,
    passed: bool,
) -> HarnessState {
    match state {
        HarnessState::Running { seed_idx, attempt } => {
            if passed {
                if seed_idx + 1 < seeds.len() {
                    HarnessState::Running { seed_idx: (seed_idx + 1) as usize, attempt: 0 }
                } else {
                    HarnessState::Finished { result: HarnessResult::AllSeedsPassed }
                }
            } else {
                if attempt < retries {
                    HarnessState::Running { seed_idx, attempt: (attempt + 1) as u64 }
                } else {
                    HarnessState::Finished {
                        result: HarnessResult::SeedFailedExhausted {
                            seed: seeds[seed_idx as int],
                            attempts_made: (attempt + 1) as u64,
                        },
                    }
                }
            }
        },
        HarnessState::Finished { .. } => state,
    }
}

/// A state the machine can actually be in: a running state points at a real
/// seed and has not outlived its retry budget.
pub open spec fn state_wf(seeds: Seq<u64>, retries: u64, state: HarnessState) -> bool {
    match state {
        HarnessState::Running { seed_idx, attempt } => seed_idx < seeds.len() && attempt <= retries,
        HarnessState::Finished { .. } => true,
    }
}

/// Runs the state machine from `state` over a sequence of attempt
/// outcomes, oldest first.
pub open spec fn run_from(
    seeds: Seq<u64>,
    retries: u64,
    state: HarnessState,
    outcomes: Seq<bool>,
) -> HarnessState
    decreases outcomes.len(),
{
    if outcomes.len() == 0 {
        state
    } else {
        run_from(seeds, retries, step_spec(seeds, retries, state, outcomes[0]), outcomes.drop_first())
    }
}

/// The outcome column of an attempt log.
pub open spec fn outcomes_of(log: Seq<AttemptRecord>) -> Seq<bool> {
    log.map_values(|rec: AttemptRecord| rec.passed)
}

/// The log entry at `j` records exactly the attempt the machine was about
/// to make after the first `j` outcomes: same seed, same attempt number.
pub open spec fn record_matches(
    seeds: Seq<u64>,
    retries: u64,
    log: Seq<AttemptRecord>,
    j: int,
) -> bool {
    run_from(seeds, retries, init_state_spec(seeds), outcomes_of(log).take(j))
        matches HarnessState::Running { seed_idx, attempt }
        && log[j].seed == seeds[seed_idx as int]
        && log[j].attempt == attempt
}

/// A faithful account of one complete run: every attempt in the log is the
/// one the state machine prescribed at that point, and the machine, fed the
/// logged outcomes, finishes with exactly `result`.  Given the outcomes,
/// this pins the whole log and the result.
pub open spec fn log_wf(
    seeds: Seq<u64>,
    retries: u64,
    log: Seq<AttemptRecord>,
    result: HarnessResult,
) -> bool {
    &&& forall|j: int| 0 <= j < log.len() ==> #[trigger] record_matches(seeds, retries, log, j)
    &&& run_from(seeds, retries, init_state_spec(seeds), outcomes_of(log)) == (
    HarnessState::Finished { result })
}

/// The state a run of this plan starts in.
pub fn init_state(plan: &HarnessPlan) -> (r: HarnessState)
    ensures
        r == init_state_spec(plan.seeds@),
{
    if plan.seeds.len() > 0 {
        HarnessState::Running { seed_idx: 0, attempt: 0 }
    } else {
        HarnessState::Finished { result: HarnessResult::AllSeedsPassed }
    }
}

/// The attempt to make next: the seed value and attempt number while the
/// run is still going, nothing once it has finished.
pub fn next_attempt(plan: &HarnessPlan, state: &HarnessState) -> (r: Option<(u64, u64)>)
    requires
        state_wf(plan.seeds@, plan.retries, *state),
    ensures
        match *state {
            HarnessState::Running { seed_idx, attempt } => r == Some(
                (plan.seeds@[seed_idx as int], attempt),
            ),
            HarnessState::Finished { .. } => r is None,
        },
{
    match state {
        HarnessState::Running { seed_idx, attempt } => Some((plan.seeds[*seed_idx], *attempt)),
        HarnessState::Finished { .. } => None,
    }
}

/// Advances the run by the outcome of the attempt just made.
pub fn step(plan: &HarnessPlan, state: HarnessState, passed: bool) -> (r: HarnessState)
    requires
        plan.wf(),
        state_wf(plan.seeds@, plan.retries, state),
    ensures
        r == step_spec(plan.seeds@, plan.retries, state, passed),
        state_wf(plan.seeds@, plan.retries, r),
{
    match state {
        HarnessState::Running { seed_idx, attempt } => {
            if passed {
                if seed_idx + 1 < plan.seeds.len() {
                    HarnessState::Running { seed_idx: seed_idx + 1, attempt: 0 }
                } else {
                    HarnessState::Finished { result: HarnessResult::AllSeedsPassed }
                }
            } else {
                if attempt < plan.retries {
                    HarnessState::Running { seed_idx, attempt: attempt + 1 }
                } else {
                    HarnessState::Finished {
                        result: HarnessResult::SeedFailedExhausted {
                            seed: plan.seeds[seed_idx],
                            attempts_made: attempt + 1,
                        },
                    }
                }
            }
        },
        HarnessState::Finished { .. } => state,
    }
}

/// Feeding one more outcome runs the machine one step further.
pub proof fn lemma_run_from_snoc(
    seeds: Seq<u64>,
    retries: u64,
    state: HarnessState,
    outcomes: Seq<bool>,
    passed: bool,
)
    ensures
        run_from(seeds, retries, state, outcomes.push(passed)) == step_spec(
            seeds,
            retries,
            run_from(seeds, retries, state, outcomes),
            passed,
        ),
    decreases outcomes.len(),
{
    if outcomes.len() == 0 {
        assert(outcomes.push(passed).drop_first() =~= Seq::<bool>::empty());
    } else {
        assert(outcomes.push(passed)[0] == outcomes[0]);
        assert(outcomes.push(passed).drop_first() =~= outcomes.drop_first().push(passed));
        lemma_run_from_snoc(
            seeds,
            retries,
            step_spec(seeds, retries, state, outcomes[0]),
            outcomes.drop_first(),
            passed,
        );
    }
}

/// Every attempt the body can be asked for: one of the plan's seeds, with
/// an attempt number within the retry budget.
pub open spec fn attempt_in_plan(plan: HarnessPlan, seed: u64, attempt: u64) -> bool {
    plan.seeds@.contains(seed) && attempt <= plan.retries
}

/// Each logged attempt is a genuine input/output pair of the body.
pub open spec fn body_consistent<F: Fn(u64, u64) -> bool>(
    body: F,
    log: Seq<AttemptRecord>,
) -> bool {
    forall|j: int|
        0 <= j < log.len() ==> call_ensures(
            body,
            ((#[trigger] log[j]).seed, log[j].attempt),
            log[j].passed,
        )
}

/// Runs the plan's whole seed/retry loop over the body, one attempt at a
/// time, strictly sequentially, and returns the terminal result together
/// with the full attempt log.
///
/// The body is handed the attempt's seed and attempt number; the ambient
/// runtime constructs whatever per-attempt context or random source the
/// execution shape asks for from that seed.  Whatever the body's outcomes,
/// the log and the result follow the state machine exactly
/// ([`log_wf`]), and every logged outcome came from the body
/// ([`body_consistent`]).
pub fn run_plan<F: Fn(u64, u64) -> bool>(plan: &HarnessPlan, body: F) -> (r: HarnessRun)
    requires
        plan.wf(),
        forall|seed: u64, attempt: u64|
            attempt_in_plan(*plan, seed, attempt) ==> call_requires(body, (seed, attempt)),
    ensures
        log_wf(plan.seeds@, plan.retries, r.attempts@, r.result),
        body_consistent(body, r.attempts@),
{
    let ghost seeds = plan.seeds@;
    let ghost retries = plan.retries;
    let mut log: Vec<AttemptRecord> = Vec::new();
    let mut state = init_state(plan);
    proof {
        assert(outcomes_of(log@) =~= Seq::<bool>::empty());
    }
    loop
        invariant
            plan.wf(),
            seeds == plan.seeds@,
            retries == plan.retries,
            forall|seed: u64, attempt: u64|
                attempt_in_plan(*plan, seed, attempt) ==> call_requires(body, (seed, attempt)),
            state == run_from(seeds, retries, init_state_spec(seeds), outcomes_of(log@)),
            state_wf(seeds, retries, state),
            forall|j: int| 0 <= j < log@.len() ==> #[trigger] record_matches(seeds, retries, log@, j),
            body_consistent(body, log@),
        decreases
            seeds.len() - (match state {
                HarnessState::Running { seed_idx, .. } => seed_idx as int,
                HarnessState::Finished { .. } => seeds.len() as int,
            }),
            retries + 1 - (match state {
                HarnessState::Running { attempt, .. } => attempt as int,
                HarnessState::Finished { .. } => retries as int + 1,
            }),
    {
        match state {
            HarnessState::Finished { result } => {
                return HarnessRun { result, attempts: log };
            },
            HarnessState::Running { seed_idx, attempt } => {
                let seed = plan.seeds[seed_idx];
                proof {
                    assert(seeds[seed_idx as int] == seed);
                    assert(seeds.contains(seed));
                    assert(attempt_in_plan(*plan, seed, attempt));
                }
                let passed = body(seed, attempt);
                let ghost old_log = log@;
                let rec = AttemptRecord { seed, attempt, passed };
                log.push(rec);
                proof {
                    assert(outcomes_of(log@) =~= outcomes_of(old_log).push(passed));
                    lemma_run_from_snoc(
                        seeds,
                        retries,
                        init_state_spec(seeds),
                        outcomes_of(old_log),
                        passed,
                    );
                    assert forall|j: int| 0 <= j < log@.len() implies #[trigger] record_matches(
                        seeds,
                        retries,
                        log@,
                        j,
                    ) by {
                        assert(outcomes_of(log@).take(j) =~= outcomes_of(old_log).take(j));
                        if j < old_log.len() {
                            assert(record_matches(seeds, retries, old_log, j));
                            assert(log@[j] == old_log[j]);
                        } else {
                            assert(j == old_log.len());
                            assert(outcomes_of(old_log).take(j) =~= outcomes_of(old_log));
                        }
                    }
                }
                state = step(plan, state, passed);
            },
        }
    }
}

/// Runs the plan over the body and, if some seed exhausts all of its
/// attempts, invokes the failure hook exactly once, synchronously, with
/// that seed and its attempt count, before the failure is returned as the
/// run's outcome.  A run in which every seed passes never invokes the hook.
pub fn run_plan_with_hook<F: Fn(u64, u64) -> bool, G: Fn(FailureContext)>(
    plan: &HarnessPlan,
    body: F,
    on_failure: G,
) -> (r: HarnessRun)
    requires
        plan.wf(),
        forall|seed: u64, attempt: u64|
            attempt_in_plan(*plan, seed, attempt) ==> call_requires(body, (seed, attempt)),
        forall|ctx: FailureContext| call_requires(on_failure, (ctx,)),
    ensures
        log_wf(plan.seeds@, plan.retries, r.attempts@, r.result),
        body_consistent(body, r.attempts@),
        r.result matches HarnessResult::SeedFailedExhausted { seed, attempts_made }
            ==> call_ensures(on_failure, ((FailureContext { seed, attempts_made }),), ()),
{
    let run = run_plan(plan, body);
    match run.result {
        HarnessResult::SeedFailedExhausted { seed, attempts_made } => {
            on_failure(FailureContext { seed, attempts_made });
        },
        HarnessResult::AllSeedsPassed => {},
    }
    run
}

/// Outcomes of a seed that is flaky `k` times: `k` failures, then a pass.
pub open spec fn fail_then_pass(k: int) -> Seq<bool> {
    Seq::new((k + 1) as nat, |j: int| j == k)
}

/// Outcomes of `m` straight failures.
pub open spec fn all_fail(m: int) -> Seq<bool> {
    Seq::new(m as nat, |j: int| false)
}

/// The state after a seed succeeds: the next seed's first attempt, or
/// overall success after the last seed.
pub open spec fn seed_succeeded_state(seeds: Seq<u64>, seed_idx: usize) -> HarnessState {
    if seed_idx + 1 < seeds.len() {
        HarnessState::Running { seed_idx: (seed_idx + 1) as usize, attempt: 0 }
    } else {
        HarnessState::Finished { result: HarnessResult::AllSeedsPassed }
    }
}

proof fn lemma_fail_then_pass_from(seeds: Seq<u64>, retries: u64, seed_idx: usize, a: u64, k: u64)
    requires
        seed_idx < seeds.len(),
        retries < u64::MAX,
        a + k <= retries,
    ensures
        run_from(
            seeds,
            retries,
            HarnessState::Running { seed_idx, attempt: a },
            fail_then_pass(k as int),
        ) == seed_succeeded_state(seeds, seed_idx),
    decreases k,
{
    let st = HarnessState::Running { seed_idx, attempt: a };
    let outcomes = fail_then_pass(k as int);
    if k == 0 {
        assert(outcomes[0]);
        let next = step_spec(seeds, retries, st, true);
        assert(next == seed_succeeded_state(seeds, seed_idx));
        assert(run_from(seeds, retries, st, outcomes) == run_from(
            seeds,
            retries,
            next,
            outcomes.drop_first(),
        ));
        assert(outcomes.drop_first() =~= Seq::<bool>::empty());
        assert(run_from(seeds, retries, next, Seq::<bool>::empty()) == next);
    } else {
        assert(!outcomes[0]);
        let next = step_spec(seeds, retries, st, false);
        assert(next == (HarnessState::Running { seed_idx, attempt: (a + 1) as u64 }));
        assert(run_from(seeds, retries, st, outcomes) == run_from(
            seeds,
            retries,
            next,
            outcomes.drop_first(),
        ));
        assert(outcomes.drop_first() =~= fail_then_pass(k as int - 1));
        lemma_fail_then_pass_from(seeds, retries, seed_idx, (a + 1) as u64, (k - 1) as u64);
    }
}

/// A seed whose body fails on its first `k <= retries` attempts and then
/// passes counts as succeeded: the run moves on to the next seed (or to
/// overall success after the last seed) and never reaches the exhausted
/// terminal state for it, so the failure hook is not owed a call.
pub proof fn lemma_flaky_seed_succeeds(seeds: Seq<u64>, retries: u64, seed_idx: usize, k: u64)
    requires
        seed_idx < seeds.len(),
        retries < u64::MAX,
        k <= retries,
    ensures
        run_from(
            seeds,
            retries,
            HarnessState::Running { seed_idx, attempt: 0 },
            fail_then_pass(k as int),
        ) == seed_succeeded_state(seeds, seed_idx),
{
    lemma_fail_then_pass_from(seeds, retries, seed_idx, 0, k);
}

proof fn lemma_all_fail_from(seeds: Seq<u64>, retries: u64, seed_idx: usize, a: u64, m: u64)
    requires
        seed_idx < seeds.len(),
        retries < u64::MAX,
        a <= retries,
        a + m <= retries + 1,
    ensures
        run_from(
            seeds,
            retries,
            HarnessState::Running { seed_idx, attempt: a },
            all_fail(m as int),
        ) == (if a + m <= retries {
            HarnessState::Running { seed_idx, attempt: (a + m) as u64 }
        } else {
            HarnessState::Finished {
                result: HarnessResult::SeedFailedExhausted {
                    seed: seeds[seed_idx as int],
                    attempts_made: (retries + 1) as u64,
                },
            }
        }),
    decreases m,
{
    if m > 0 {
        let st = HarnessState::Running { seed_idx, attempt: a };
        let outcomes = all_fail(m as int);
        assert(!outcomes[0]);
        let next = step_spec(seeds, retries, st, false);
        assert(run_from(seeds, retries, st, outcomes) == run_from(
            seeds,
            retries,
            next,
            outcomes.drop_first(),
        ));
        assert(outcomes.drop_first() =~= all_fail(m as int - 1));
        if a < retries {
            lemma_all_fail_from(seeds, retries, seed_idx, (a + 1) as u64, (m - 1) as u64);
        } else {
            lemma_terminal_absorbing(seeds, retries, next, all_fail(m as int - 1));
        }
    }
}

/// Once a run has finished, nothing changes it: no further seed or attempt
/// is processed after a terminal state is reached.
pub proof fn lemma_terminal_absorbing(
    seeds: Seq<u64>,
    retries: u64,
    state: HarnessState,
    outcomes: Seq<bool>,
)
    requires
        state matches HarnessState::Finished { .. },
    ensures
        run_from(seeds, retries, state, outcomes) == state,
    decreases outcomes.len(),
{
    if outcomes.len() > 0 {
        lemma_terminal_absorbing(seeds, retries, state, outcomes.drop_first());
    }
}

/// A seed whose body fails on every attempt exhausts the run: exactly
/// `retries + 1` attempts are made on it — after any fewer failures the
/// run is still on that same seed — and the run then terminates with that
/// seed and that attempt count, before any later seed is attempted.
pub proof fn lemma_exhausted_seed_fails(seeds: Seq<u64>, retries: u64, seed_idx: usize)
    requires
        seed_idx < seeds.len(),
        retries < u64::MAX,
    ensures
        run_from(
            seeds,
            retries,
            HarnessState::Running { seed_idx, attempt: 0 },
            all_fail(retries as int + 1),
        ) == (HarnessState::Finished {
            result: HarnessResult::SeedFailedExhausted {
                seed: seeds[seed_idx as int],
                attempts_made: (retries + 1) as u64,
            },
        }),
        forall|m: int|
            0 <= m <= retries ==> run_from(
                seeds,
                retries,
                HarnessState::Running { seed_idx, attempt: 0 },
                #[trigger] all_fail(m),
            ) == (HarnessState::Running { seed_idx, attempt: m as u64 }),
{
    lemma_all_fail_from(seeds, retries, seed_idx, 0, (retries + 1) as u64);
    assert forall|m: int|
        0 <= m <= retries implies run_from(
        seeds,
        retries,
        HarnessState::Running { seed_idx, attempt: 0 },
        #[trigger] all_fail(m),
    ) == (HarnessState::Running { seed_idx, attempt: m as u64 }) by {
        lemma_all_fail_from(seeds, retries, seed_idx, 0, m as u64);
    }
}

/// Outcomes split anywhere: running the machine over a concatenation is
/// running it over the first part, then the second from where it left off.
pub proof fn lemma_run_from_concat(
    seeds: Seq<u64>,
    retries: u64,
    state: HarnessState,
    first: Seq<bool>,
    second: Seq<bool>,
)
    ensures
        run_from(seeds, retries, state, first + second) == run_from(
            seeds,
            retries,
            run_from(seeds, retries, state, first),
            second,
        ),
    decreases first.len(),
{
    if first.len() == 0 {
        assert(first + second =~= second);
    } else {
        assert((first + second)[0] == first[0]);
        assert((first + second).drop_first() =~= first.drop_first() + second);
        lemma_run_from_concat(
            seeds,
            retries,
            step_spec(seeds, retries, state, first[0]),
            first.drop_first(),
            second,
        );
    }
}

/// The outcomes of a whole run in which the seed at index `i` is flaky
/// `flaky[i]` times before passing: one [`fail_then_pass`] block per seed,
/// in seed order.
pub open spec fn flaky_run_outcomes(flaky: Seq<int>) -> Seq<bool>
    decreases flaky.len(),
{
    if flaky.len() == 0 {
        Seq::empty()
    } else {
        fail_then_pass(flaky[0]) + flaky_run_outcomes(flaky.drop_first())
    }
}

proof fn lemma_all_seeds_succeed_from(seeds: Seq<u64>, retries: u64, seed_idx: usize, flaky: Seq<
    int,
>)
    requires
        seed_idx < seeds.len(),
        seeds.len() <= usize::MAX,
        retries < u64::MAX,
        flaky.len() == seeds.len() - seed_idx,
        forall|i: int| 0 <= i < flaky.len() ==> 0 <= #[trigger] flaky[i] <= retries,
    ensures
        run_from(
            seeds,
            retries,
            HarnessState::Running { seed_idx, attempt: 0 },
            flaky_run_outcomes(flaky),
        ) == (HarnessState::Finished { result: HarnessResult::AllSeedsPassed }),
    decreases seeds.len() - seed_idx,
{
    let st = HarnessState::Running { seed_idx, attempt: 0 };
    let block = fail_then_pass(flaky[0]);
    let rest = flaky_run_outcomes(flaky.drop_first());
    lemma_run_from_concat(seeds, retries, st, block, rest);
    lemma_fail_then_pass_from(seeds, retries, seed_idx, 0, flaky[0] as u64);
    if seed_idx + 1 < seeds.len() {
        assert(seed_succeeded_state(seeds, seed_idx) == (HarnessState::Running {
            seed_idx: (seed_idx + 1) as usize,
            attempt: 0,
        }));
        lemma_all_seeds_succeed_from(seeds, retries, (seed_idx + 1) as usize, flaky.drop_first());
    } else {
        assert(rest =~= Seq::<bool>::empty());
    }
}

/// If every seed succeeds — each within the retry budget, after any number
/// of flaky failures — the harness itself succeeds: a run whose outcomes
/// are, for each seed in order, `flaky[i] <= retries` failures followed by
/// a pass ends in `AllSeedsPassed`.
pub proof fn lemma_all_seeds_succeed(seeds: Seq<u64>, retries: u64, flaky: Seq<int>)
    requires
        1 <= seeds.len() <= usize::MAX,
        retries < u64::MAX,
        flaky.len() == seeds.len(),
        forall|i: int| 0 <= i < flaky.len() ==> 0 <= #[trigger] flaky[i] <= retries,
    ensures
        run_from(seeds, retries, init_state_spec(seeds), flaky_run_outcomes(flaky)) == (
        HarnessState::Finished { result: HarnessResult::AllSeedsPassed }),
{
    lemma_all_seeds_succeed_from(seeds, retries, 0, flaky);
}

/// A state the machine can reach: well formed, and if it has failed, the
/// report names one of the run's seeds with a full complement of attempts.
pub open spec fn state_reachable(seeds: Seq<u64>, retries: u64, state: HarnessState) -> bool {
    &&& state_wf(seeds, retries, state)
    &&& (state matches HarnessState::Finished {
        result: HarnessResult::SeedFailedExhausted { seed, attempts_made },
    } ==> seeds.contains(seed) && attempts_made == retries + 1)
}

proof fn lemma_run_from_preserves_reachable(
    seeds: Seq<u64>,
    retries: u64,
    state: HarnessState,
    outcomes: Seq<bool>,
)
    requires
        retries < u64::MAX,
        state_reachable(seeds, retries, state),
    ensures
        state_reachable(seeds, retries, run_from(seeds, retries, state, outcomes)),
    decreases outcomes.len(),
{
    if outcomes.len() > 0 {
        let next = step_spec(seeds, retries, state, outcomes[0]);
        match state {
            HarnessState::Running { seed_idx, attempt } => {
                if !outcomes[0] && attempt >= retries {
                    assert(seeds.contains(seeds[seed_idx as int]));
                }
            },
            HarnessState::Finished { .. } => {},
        }
        lemma_run_from_preserves_reachable(seeds, retries, next, outcomes.drop_first());
    }
}

/// The only failure terminal state is full exhaustion: however a complete
/// run came to fail, it reports one of its own seeds, with exactly
/// `retries + 1` attempts made on it — never more, never fewer.
pub proof fn lemma_failure_is_exhaustion(
    seeds: Seq<u64>,
    retries: u64,
    log: Seq<AttemptRecord>,
    seed: u64,
    attempts_made: u64,
)
    requires
        retries < u64::MAX,
        log_wf(
            seeds,
            retries,
            log,
            HarnessResult::SeedFailedExhausted { seed, attempts_made },
        ),
    ensures
        attempts_made == retries + 1,
        seeds.contains(seed),
{
    lemma_run_from_preserves_reachable(seeds, retries, init_state_spec(seeds), outcomes_of(log));
}

/// A deterministic body: each attempt's outcome is a function of the seed
/// and attempt number alone.
pub open spec fn log_follows_oracle(
    log: Seq<AttemptRecord>,
    oracle: spec_fn(u64, u64) -> bool,
) -> bool {
    forall|j: int|
        0 <= j < log.len() ==> (#[trigger] log[j]).passed == oracle(log[j].seed, log[j].attempt)
}

proof fn lemma_prefix_agree(
    seeds: Seq<u64>,
    retries: u64,
    log1: Seq<AttemptRecord>,
    r1: HarnessResult,
    log2: Seq<AttemptRecord>,
    r2: HarnessResult,
    oracle: spec_fn(u64, u64) -> bool,
    j: int,
)
    requires
        log_wf(seeds, retries, log1, r1),
        log_wf(seeds, retries, log2, r2),
        log_follows_oracle(log1, oracle),
        log_follows_oracle(log2, oracle),
        0 <= j <= log1.len(),
        j <= log2.len(),
    ensures
        log1.take(j) == log2.take(j),
    decreases j,
{
    if j == 0 {
        assert(log1.take(0) =~= log2.take(0));
    } else {
        lemma_prefix_agree(seeds, retries, log1, r1, log2, r2, oracle, j - 1);
        assert(outcomes_of(log1).take(j - 1) =~= outcomes_of(log2).take(j - 1)) by {
            assert forall|l: int| 0 <= l < j - 1 implies outcomes_of(log1)[l] == outcomes_of(
                log2,
            )[l] by {
                assert(log1.take(j - 1)[l] == log2.take(j - 1)[l]);
            }
        }
        assert(record_matches(seeds, retries, log1, j - 1));
        assert(record_matches(seeds, retries, log2, j - 1));
        let st = run_from(seeds, retries, init_state_spec(seeds), outcomes_of(log1).take(j - 1));
        assert(log1[j - 1] == log2[j - 1]) by {
            match st {
                HarnessState::Running { seed_idx, attempt } => {
                    assert(log1[j - 1].seed == seeds[seed_idx as int]);
                    assert(log2[j - 1].seed == seeds[seed_idx as int]);
                    assert(log1[j - 1].attempt == attempt);
                    assert(log2[j - 1].attempt == attempt);
                    assert(log1[j - 1].passed == oracle(seeds[seed_idx as int], attempt));
                    assert(log2[j - 1].passed == oracle(seeds[seed_idx as int], attempt));
                },
                HarnessState::Finished { .. } => {
                    assert(false);
                },
            }
        }
        assert(log1.take(j) =~= log2.take(j)) by {
            assert forall|l: int| 0 <= l < j implies log1.take(j)[l] == log2.take(j)[l] by {
                if l < j - 1 {
                    assert(log1.take(j - 1)[l] == log2.take(j - 1)[l]);
                }
            }
        }
    }
}

/// Determinism: over a deterministic body, any two complete runs of the
/// same seed sequence and retry budget make the same attempts in the same
/// order and end in the same result.
pub proof fn lemma_harness_deterministic(
    seeds: Seq<u64>,
    retries: u64,
    log1: Seq<AttemptRecord>,
    r1: HarnessResult,
    log2: Seq<AttemptRecord>,
    r2: HarnessResult,
    oracle: spec_fn(u64, u64) -> bool,
)
    requires
        log_wf(seeds, retries, log1, r1),
        log_wf(seeds, retries, log2, r2),
        log_follows_oracle(log1, oracle),
        log_follows_oracle(log2, oracle),
    ensures
        log1 == log2,
        r1 == r2,
{
    if log1.len() < log2.len() {
        lemma_prefix_agree(seeds, retries, log1, r1, log2, r2, oracle, log1.len() as int);
        assert(outcomes_of(log2).take(log1.len() as int) =~= outcomes_of(log1)) by {
            assert forall|l: int| 0 <= l < log1.len() implies outcomes_of(log2)[l] == outcomes_of(
                log1,
            )[l] by {
                assert(log1.take(log1.len() as int)[l] == log2.take(log1.len() as int)[l]);
            }
        }
        assert(record_matches(seeds, retries, log2, log1.len() as int));
        assert(false);
    } else if log2.len() < log1.len() {
        lemma_prefix_agree(seeds, retries, log2, r2, log1, r1, oracle, log2.len() as int);
        assert(outcomes_of(log1).take(log2.len() as int) =~= outcomes_of(log2)) by {
            assert forall|l: int| 0 <= l < log2.len() implies outcomes_of(log1)[l] == outcomes_of(
                log2,
            )[l] by {
                assert(log2.take(log2.len() as int)[l] == log1.take(log2.len() as int)[l]);
            }
        }
        assert(record_matches(seeds, retries, log1, log2.len() as int));
        assert(false);
    } else {
        lemma_prefix_agree(seeds, retries, log1, r1, log2, r2, oracle, log1.len() as int);
        assert(log1 =~= log2) by {
            assert(log1.take(log1.len() as int) =~= log1);
            assert(log2.take(log2.len() as int) =~= log2);
        }
    }
}

/// Assembles the harness for one expansion: the seeds are derived from the
/// base seed, and the retry budget and failure hook are taken from the
/// configuration.
pub fn synthesize_harness(config: TestConfig, shape: ExecutionShape, base_seed: u64) -> (r:
    HarnessPlan)
    requires
        config.wf(),
        config.iterations <= usize::MAX,
        config.retries < u64::MAX,
        base_seed + config.iterations - 1 <= u64::MAX,
    ensures
        r.wf(),
        r.shape == shape,
        r.seeds@ == seed_seq(base_seed, config.iterations),
        r.retries == config.retries,
        r.on_failure == config.on_failure,
{
    let seeds = derive_seeds(base_seed, config.iterations);
    HarnessPlan { shape, seeds, retries: config.retries, on_failure: config.on_failure }
}

} // verus!
