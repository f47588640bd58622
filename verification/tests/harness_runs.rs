use std::cell::Cell;
use std::cell::RefCell;

use seed_harness::harness::AttemptRecord;
use seed_harness::harness::FailureContext;
use seed_harness::harness::HarnessResult;
use seed_harness::harness::run_plan;
use seed_harness::harness::run_plan_with_hook;
use seed_harness::options::ArgKey;
use seed_harness::options::ArgValue;
use seed_harness::options::OptionToken;
use seed_harness::signature::TestSignature;

fn tok(key: ArgKey, value: ArgValue) -> OptionToken {
    OptionToken { key, value }
}

fn sync_sig() -> TestSignature {
    TestSignature { is_async: false, params: vec![] }
}

fn rec(seed: u64, attempt: u64, passed: bool) -> AttemptRecord {
    AttemptRecord { seed, attempt, passed }
}

#[test]
fn one_seed_one_attempt_when_body_passes() {
    // no arguments: one seed, no retries; a passing body runs exactly once
    let plan = seed_harness::expand::test(&vec![], &sync_sig(), None).unwrap();
    let calls = Cell::new(0u64);
    let run = run_plan(&plan, |_seed: u64, _attempt: u64| -> bool {
        calls.set(calls.get() + 1);
        true
    });
    assert_eq!(calls.get(), 1);
    assert_eq!(run.result, HarnessResult::AllSeedsPassed);
    assert_eq!(run.attempts, vec![rec(0, 0, true)]);
}

#[test]
fn fail_fast_stops_at_first_exhausted_seed() {
    // three seeds from base 0, no retries; the body fails on odd seeds, so
    // seed 1 exhausts its single attempt and seed 2 is never run
    let args = vec![tok(ArgKey::Iterations, ArgValue::Int(3))];
    let plan = seed_harness::expand::test(&args, &sync_sig(), Some(0)).unwrap();
    let run = run_plan(&plan, |seed: u64, _attempt: u64| -> bool { seed % 2 == 0 });
    assert_eq!(
        run.result,
        HarnessResult::SeedFailedExhausted { seed: 1, attempts_made: 1 }
    );
    assert_eq!(run.attempts, vec![rec(0, 0, true), rec(1, 0, false)]);
}

#[test]
fn exhausted_seed_calls_hook_once_with_attempt_count() {
    // retries = 2 and a body that always fails: exactly three attempts at
    // seed 0, the hook called exactly once with attempts_made = 3
    let args = vec![
        tok(ArgKey::Retries, ArgValue::Int(2)),
        tok(ArgKey::OnFailure, ArgValue::Str(String::from("report"))),
    ];
    let plan = seed_harness::expand::test(&args, &sync_sig(), None).unwrap();
    let hook_calls = RefCell::new(Vec::new());
    let run = run_plan_with_hook(
        &plan,
        |_seed: u64, _attempt: u64| -> bool { false },
        |ctx: FailureContext| {
            hook_calls.borrow_mut().push(ctx);
        },
    );
    assert_eq!(
        run.result,
        HarnessResult::SeedFailedExhausted { seed: 0, attempts_made: 3 }
    );
    assert_eq!(
        run.attempts,
        vec![rec(0, 0, false), rec(0, 1, false), rec(0, 2, false)]
    );
    assert_eq!(
        *hook_calls.borrow(),
        vec![FailureContext { seed: 0, attempts_made: 3 }]
    );
}

#[test]
fn flaky_seed_succeeds_within_retry_budget() {
    // retries = 2 and a body that fails its first attempt and passes the
    // second: the seed counts as succeeded and the hook is never invoked
    let args = vec![
        tok(ArgKey::Retries, ArgValue::Int(2)),
        tok(ArgKey::OnFailure, ArgValue::Str(String::from("report"))),
    ];
    let plan = seed_harness::expand::test(&args, &sync_sig(), None).unwrap();
    let hook_calls = Cell::new(0u64);
    let run = run_plan_with_hook(
        &plan,
        |_seed: u64, attempt: u64| -> bool { attempt >= 1 },
        |_ctx: FailureContext| {
            hook_calls.set(hook_calls.get() + 1);
        },
    );
    assert_eq!(run.result, HarnessResult::AllSeedsPassed);
    assert_eq!(run.attempts, vec![rec(0, 0, false), rec(0, 1, true)]);
    assert_eq!(hook_calls.get(), 0);
}

#[test]
fn retries_reuse_the_same_seed() {
    let args = vec![tok(ArgKey::Retries, ArgValue::Int(3))];
    let plan = seed_harness::expand::test(&args, &sync_sig(), Some(17)).unwrap();
    let seen = RefCell::new(Vec::new());
    let run = run_plan(&plan, |seed: u64, attempt: u64| -> bool {
        seen.borrow_mut().push(seed);
        attempt == 3
    });
    assert_eq!(run.result, HarnessResult::AllSeedsPassed);
    assert_eq!(*seen.borrow(), vec![17, 17, 17, 17]);
}

#[test]
fn every_flaky_seed_within_budget_means_overall_success() {
    // three seeds, one retry each; every seed fails its first attempt and
    // passes its second, so the whole run succeeds
    let args = vec![
        tok(ArgKey::Iterations, ArgValue::Int(3)),
        tok(ArgKey::Retries, ArgValue::Int(1)),
    ];
    let plan = seed_harness::expand::test(&args, &sync_sig(), Some(0)).unwrap();
    let run = run_plan(&plan, |_seed: u64, attempt: u64| -> bool { attempt == 1 });
    assert_eq!(run.result, HarnessResult::AllSeedsPassed);
    assert_eq!(
        run.attempts,
        vec![
            rec(0, 0, false),
            rec(0, 1, true),
            rec(1, 0, false),
            rec(1, 1, true),
            rec(2, 0, false),
            rec(2, 1, true),
        ]
    );
}

#[test]
fn identical_runs_give_identical_outcomes() {
    // a deterministic body: same plan, same base seed, same pass/fail record
    let args = vec![
        tok(ArgKey::Iterations, ArgValue::Int(5)),
        tok(ArgKey::Retries, ArgValue::Int(1)),
    ];
    let body = |seed: u64, attempt: u64| -> bool { (seed + attempt) % 3 != 2 };
    let plan_a = seed_harness::expand::test(&args, &sync_sig(), Some(2)).unwrap();
    let plan_b = seed_harness::expand::test(&args, &sync_sig(), Some(2)).unwrap();
    let run_a = run_plan(&plan_a, body);
    let run_b = run_plan(&plan_b, body);
    assert_eq!(run_a.result, run_b.result);
    assert_eq!(run_a.attempts, run_b.attempts);
}
