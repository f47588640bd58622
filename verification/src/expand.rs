//! The expansion pipeline for one annotated test declaration: parse the
//! attribute's options, classify the body's signature, resolve the base
//! seed, derive the seed sequence, and assemble the harness plan.
//!
//! The pipeline is a single linear pass with no state shared between
//! expansions; an error is fatal to this one declaration only.

use crate::harness::synthesize_harness;
use crate::harness::HarnessPlan;
use crate::options::parse_args;
use crate::options::parse_spec;
use crate::options::ConfigError;
use crate::options::OptionToken;
use crate::seeds::resolve_base_seed;
use crate::seeds::resolved_base_seed;
use crate::seeds::seed_seq;
use crate::signature::classify_signature;
use crate::signature::params_supported;
use crate::signature::shape_spec;
use crate::signature::TestSignature;
use vstd::prelude::*;

verus! {

/// Expands one annotated test declaration into its harness plan.
///
/// The option list is parsed first, so an invalid option is reported even
/// when the signature is also unsupported; then the signature is
/// classified; then the seed sequence is derived from the resolved base
/// seed, one seed per iteration, and baked into the plan together with the
/// retry budget and the failure-hook path.
pub fn test(
    args: &Vec<OptionToken>,
    sig: &TestSignature,
    base_seed_override: Option<u64>,
) -> (r: Result<HarnessPlan, ConfigError>)
    requires
        parse_spec(args@) matches Ok(cfg) ==> {
            &&& cfg.iterations <= usize::MAX
            &&& cfg.retries < u64::MAX
            &&& resolved_base_seed(base_seed_override) + cfg.iterations - 1 <= u64::MAX
        },
    ensures
        parse_spec(args@) matches Err(e) ==> r == Err::<HarnessPlan, ConfigError>(e),
        parse_spec(args@) matches Ok(cfg) ==> {
            &&& !params_supported(sig.params@) ==> r == Err::<HarnessPlan, ConfigError>(
                ConfigError::UnsupportedSignature,
            )
            &&& params_supported(sig.params@) ==> (r matches Ok(plan) && plan.wf() && plan.shape
                == shape_spec(*sig) && plan.seeds@ == seed_seq(
                resolved_base_seed(base_seed_override),
                cfg.iterations,
            ) && plan.retries == cfg.retries && plan.on_failure == cfg.on_failure)
        },
{
    let config = match parse_args(args) {
        Ok(config) => config,
        Err(e) => {
            return Err(e);
        },
    };
    let shape = match classify_signature(sig) {
        Ok(shape) => shape,
        Err(e) => {
            return Err(e);
        },
    };
    proof {
        crate::options::lemma_parse_wf(args@);
    }
    let base_seed = resolve_base_seed(base_seed_override);
    Ok(synthesize_harness(config, shape, base_seed))
}

} // verus!
