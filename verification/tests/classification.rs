use seed_harness::options::ConfigError;
use seed_harness::signature::ExecutionShape;
use seed_harness::signature::ParamKind;
use seed_harness::signature::TestSignature;
use seed_harness::signature::classify_signature;

#[test]
fn classify_zero_parameter_sync_body() {
    let sig = TestSignature { is_async: false, params: vec![] };
    assert_eq!(
        classify_signature(&sig),
        Ok(ExecutionShape { is_async: false, needs_context: false, needs_random: false })
    );
}

#[test]
fn classify_async_body_with_context() {
    let sig = TestSignature { is_async: true, params: vec![ParamKind::TestContext] };
    assert_eq!(
        classify_signature(&sig),
        Ok(ExecutionShape { is_async: true, needs_context: true, needs_random: false })
    );
}

#[test]
fn classify_body_with_random_source() {
    let sig = TestSignature {
        is_async: false,
        params: vec![ParamKind::RandomSource, ParamKind::TestContext],
    };
    assert_eq!(
        classify_signature(&sig),
        Ok(ExecutionShape { is_async: false, needs_context: true, needs_random: true })
    );
}

#[test]
fn classify_rejects_parameter_outside_closed_set() {
    let sig = TestSignature {
        is_async: false,
        params: vec![ParamKind::TestContext, ParamKind::Unsupported],
    };
    assert_eq!(classify_signature(&sig), Err(ConfigError::UnsupportedSignature));
}
