use seed_harness::options::ArgKey;
use seed_harness::options::ArgValue;
use seed_harness::options::ConfigError;
use seed_harness::options::OptionToken;
use seed_harness::signature::ParamKind;
use seed_harness::signature::TestSignature;

fn tok(key: ArgKey, value: ArgValue) -> OptionToken {
    OptionToken { key, value }
}

fn sync_sig() -> TestSignature {
    TestSignature { is_async: false, params: vec![] }
}

#[test]
fn expand_defaults() {
    let plan = seed_harness::expand::test(&vec![], &sync_sig(), None).unwrap();
    assert_eq!(plan.seeds, vec![0]);
    assert_eq!(plan.retries, 0);
    assert_eq!(plan.on_failure, None);
    assert!(!plan.shape.is_async);
    assert!(!plan.shape.needs_context);
    assert!(!plan.shape.needs_random);
}

#[test]
fn expand_bakes_seed_literals_from_override() {
    let args = vec![tok(ArgKey::Iterations, ArgValue::Int(3))];
    let plan = seed_harness::expand::test(&args, &sync_sig(), Some(10)).unwrap();
    assert_eq!(plan.seeds, vec![10, 11, 12]);
}

#[test]
fn expand_wires_retries_and_hook() {
    let args = vec![
        tok(ArgKey::Retries, ArgValue::Int(2)),
        tok(ArgKey::OnFailure, ArgValue::Str(String::from("report"))),
    ];
    let plan = seed_harness::expand::test(&args, &sync_sig(), None).unwrap();
    assert_eq!(plan.retries, 2);
    assert_eq!(plan.on_failure, Some(String::from("report")));
}

#[test]
fn expand_reports_parse_error() {
    let args = vec![tok(ArgKey::Unknown(String::from("seed")), ArgValue::Int(1))];
    let r = seed_harness::expand::test(&args, &sync_sig(), None);
    assert_eq!(
        r,
        Err(ConfigError::InvalidOption(ArgKey::Unknown(String::from("seed"))))
    );
}

#[test]
fn expand_reports_unsupported_signature() {
    let sig = TestSignature { is_async: false, params: vec![ParamKind::Unsupported] };
    assert_eq!(seed_harness::expand::test(&vec![], &sig, None), Err(ConfigError::UnsupportedSignature));
}

#[test]
fn expand_parse_error_wins_over_signature_error() {
    let args = vec![tok(ArgKey::Iterations, ArgValue::NonLiteral)];
    let sig = TestSignature { is_async: false, params: vec![ParamKind::Unsupported] };
    assert_eq!(
        seed_harness::expand::test(&args, &sig, None),
        Err(ConfigError::InvalidOption(ArgKey::Iterations))
    );
}

#[test]
fn expand_is_deterministic() {
    let args = vec![
        tok(ArgKey::Iterations, ArgValue::Int(4)),
        tok(ArgKey::Retries, ArgValue::Int(1)),
    ];
    let sig = TestSignature { is_async: true, params: vec![ParamKind::RandomSource] };
    let first = seed_harness::expand::test(&args, &sig, Some(5));
    let second = seed_harness::expand::test(&args, &sig, Some(5));
    assert_eq!(first, second);
    assert_eq!(first.unwrap().seeds, vec![5, 6, 7, 8]);
}
