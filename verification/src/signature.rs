//! The signature classifier: which execution shape a test body has.
//!
//! The harness supports a closed, enumerable set of injectable parameter
//! capabilities — a per-attempt test context and a per-attempt seeded random
//! source — rather than arbitrary dependency injection, so that every
//! injected value is seed-derived and reproducible.  Any other parameter
//! shape is rejected.

use crate::options::ConfigError;
use vstd::prelude::*;

verus! {

/// The capability a declared parameter of the test body asks for.
#[derive(Debug, Clone, Copy, PartialEq, Eq, Structural)]
pub enum ParamKind {
    /// A freshly constructed test context, one per attempt.
    TestContext,
    /// A deterministic random source seeded with the attempt's seed.
    RandomSource,
    /// Any parameter type outside the closed capability set.
    Unsupported,
}

/// The declared signature of the annotated function, as far as the
/// classifier reads it: synchronicity and the parameter list.
#[derive(Debug, Clone, PartialEq, Eq)]
pub struct TestSignature {
    pub is_async: bool,
    pub params: Vec<ParamKind>,
}

/// The classification of a test body: synchronicity crossed with which
/// injectable values the harness must synthesize per attempt.  Derived once
/// from the declared signature; immutable for the lifetime of the expansion.
#[derive(Debug, Clone, Copy, PartialEq, Eq, Structural)]
pub struct ExecutionShape {
    /// An asynchronous body is driven to completion by the ambient
    /// asynchronous execution contract; a synchronous body is invoked
    /// directly.
    pub is_async: bool,
    /// The body declares a test-context parameter.
    pub needs_context: bool,
    /// The body declares a deterministic-random-source parameter.
    pub needs_random: bool,
}

/// Every declared parameter lies inside the closed capability set.
pub open spec fn params_supported(params: Seq<ParamKind>) -> bool {
    forall|i: int| 0 <= i < params.len() ==> params[i] != ParamKind::Unsupported
}

/// Some declared parameter asks for the given capability.
pub open spec fn wants(params: Seq<ParamKind>, kind: ParamKind) -> bool {
    exists|i: int| 0 <= i < params.len() && params[i] == kind
}

/// The shape a supported signature classifies to.
pub open spec fn shape_spec(sig: TestSignature) -> ExecutionShape {
    ExecutionShape {
        is_async: sig.is_async,
        needs_context: wants(sig.params@, ParamKind::TestContext),
        needs_random: wants(sig.params@, ParamKind::RandomSource),
    }
}

/// Classifies the annotated function's signature: accepted exactly when
/// every parameter lies in the closed capability set (zero-parameter bodies
/// are accepted), rejected with `UnsupportedSignature` otherwise.
pub fn classify_signature(sig: &TestSignature) -> (r: Result<ExecutionShape, ConfigError>)
    ensures
        r matches Ok(shape) ==> params_supported(sig.params@) && shape == shape_spec(*sig),
        r matches Err(e) ==> !params_supported(sig.params@) && e == ConfigError::UnsupportedSignature,
{
    let mut needs_context = false;
    let mut needs_random = false;
    let mut i: usize = 0;
    while i < sig.params.len()
        invariant
            i <= sig.params@.len(),
            forall|j: int| 0 <= j < i ==> sig.params@[j] != ParamKind::Unsupported,
            needs_context == wants(sig.params@.take(i as int), ParamKind::TestContext),
            needs_random == wants(sig.params@.take(i as int), ParamKind::RandomSource),
        decreases sig.params@.len() - i,
    {
        let ghost prefix = sig.params@.take(i as int);
        let ghost next_prefix = sig.params@.take(i as int + 1);
        proof {
            assert(next_prefix.drop_last() =~= prefix);
            assert(next_prefix.last() == sig.params@[i as int]);
            assert forall|k: ParamKind| wants(next_prefix, k) implies wants(prefix, k)
                || sig.params@[i as int] == k by {
                let w = choose|j: int| 0 <= j < next_prefix.len() && next_prefix[j] == k;
                if w < prefix.len() {
                    assert(prefix[w] == k);
                }
            }
            assert forall|k: ParamKind| wants(prefix, k) implies wants(next_prefix, k) by {
                let w = choose|j: int| 0 <= j < prefix.len() && prefix[j] == k;
                assert(next_prefix[w] == k);
            }
        }
        match sig.params[i] {
            ParamKind::TestContext => {
                needs_context = true;
                proof {
                    assert(next_prefix[i as int] == ParamKind::TestContext);
                }
            },
            ParamKind::RandomSource => {
                needs_random = true;
                proof {
                    assert(next_prefix[i as int] == ParamKind::RandomSource);
                }
            },
            ParamKind::Unsupported => {
                proof {
                    assert(sig.params@[i as int] == ParamKind::Unsupported);
                }
                return Err(ConfigError::UnsupportedSignature);
            },
        }
        i = i + 1;
    }
    proof {
        assert(sig.params@.take(i as int) =~= sig.params@);
    }
    Ok(ExecutionShape { is_async: sig.is_async, needs_context, needs_random })
}

} // verus!
