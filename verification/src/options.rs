//! The attribute parser: the macro's `key = value` option list, already
//! lexed into [`OptionToken`]s, is folded into a [`TestConfig`].
//!
//! Unknown keys, duplicate keys, and values that are not a literal of the
//! expected kind each fail with [`ConfigError::InvalidOption`] naming the
//! offending key.  An empty option list yields the default configuration.

use vstd::prelude::*;

verus! {

/// A recognized option key, or an unknown key carried for error reporting.
#[derive(Debug, Clone, PartialEq, Eq)]
pub enum ArgKey {
    /// `iterations = <positive int literal>`: how many seeds to run.
    Iterations,
    /// `retries = <int literal>`: additional attempts per seed after an
    /// initial failure.
    Retries,
    /// `on_failure = "<path>"`: a callable to invoke once a seed exhausts
    /// all of its attempts.
    OnFailure,
    /// Any other key; the name is kept so the error can report it.
    Unknown(String),
}

/// The value of one option, as lexed: an integer literal, a string literal,
/// or something that is not a literal at all.
#[derive(Debug, Clone, PartialEq, Eq)]
pub enum ArgValue {
    Int(u64),
    Str(String),
    NonLiteral,
}

/// One `key = value` option from the attribute's argument list.
#[derive(Debug, Clone, PartialEq, Eq)]
pub struct OptionToken {
    pub key: ArgKey,
    pub value: ArgValue,
}

/// The parsed configuration of one expansion, immutable once parsed.
#[derive(Debug, Clone, PartialEq, Eq)]
pub struct TestConfig {
    /// Number of distinct seeds to execute; at least 1.
    pub iterations: u64,
    /// Number of additional attempts per seed after an initial failure.
    pub retries: u64,
    /// Callable path invoked when all attempts for a seed are exhausted.
    pub on_failure: Option<String>,
}

/// An expansion-time error, fatal to the one annotated declaration.
#[derive(Debug, Clone, PartialEq, Eq)]
pub enum ConfigError {
    /// An unknown key, a duplicate key, or a value that is not a literal of
    /// the expected kind; carries the offending key.
    InvalidOption(ArgKey),
    /// The annotated function's parameter list falls outside the closed set
    /// of injectable capabilities.
    UnsupportedSignature,
}

impl TestConfig {
    /// The configuration's invariant: at least one iteration is always run.
    pub open spec fn wf(self) -> bool {
        self.iterations >= 1
    }
}

/// Which keys an option-list prefix has already set; a second occurrence of
/// any of them is a duplicate.
#[derive(Debug, Clone, Copy, PartialEq, Eq, Structural)]
pub struct SeenKeys {
    pub iterations: bool,
    pub retries: bool,
    pub on_failure: bool,
}

/// The configuration an empty option list yields.
pub open spec fn default_config() -> TestConfig {
    TestConfig { iterations: 1, retries: 0, on_failure: None }
}

/// The state before any option is applied: nothing seen yet.
pub open spec fn no_keys_seen() -> SeenKeys {
    SeenKeys { iterations: false, retries: false, on_failure: false }
}

/// Applies one option to the configuration built so far, or rejects it.
pub open spec fn apply_option(cfg: TestConfig, seen: SeenKeys, t: OptionToken) -> Result<
    (TestConfig, SeenKeys),
    ConfigError,
> {
    match t.key {
        ArgKey::Iterations => if seen.iterations {
            Err(ConfigError::InvalidOption(ArgKey::Iterations))
        } else {
            match t.value {
                ArgValue::Int(v) => if v >= 1 {
                    Ok(
                        (
                            TestConfig { iterations: v, ..cfg },
                            SeenKeys { iterations: true, ..seen },
                        ),
                    )
                } else {
                    Err(ConfigError::InvalidOption(ArgKey::Iterations))
                },
                _ => Err(ConfigError::InvalidOption(ArgKey::Iterations)),
            }
        },
        ArgKey::Retries => if seen.retries {
            Err(ConfigError::InvalidOption(ArgKey::Retries))
        } else {
            match t.value {
                ArgValue::Int(v) => Ok(
                    (TestConfig { retries: v, ..cfg }, SeenKeys { retries: true, ..seen }),
                ),
                _ => Err(ConfigError::InvalidOption(ArgKey::Retries)),
            }
        },
        ArgKey::OnFailure => if seen.on_failure {
            Err(ConfigError::InvalidOption(ArgKey::OnFailure))
        } else {
            match t.value {
                ArgValue::Str(path) => Ok(
                    (
                        TestConfig { on_failure: Some(path), ..cfg },
                        SeenKeys { on_failure: true, ..seen },
                    ),
                ),
                _ => Err(ConfigError::InvalidOption(ArgKey::OnFailure)),
            }
        },
        ArgKey::Unknown(name) => Err(ConfigError::InvalidOption(ArgKey::Unknown(name))),
    }
}

/// Folds the remaining options, left to right, over an accumulated
/// configuration; the first rejected option aborts the parse.
pub open spec fn parse_from(tokens: Seq<OptionToken>, cfg: TestConfig, seen: SeenKeys) -> Result<
    TestConfig,
    ConfigError,
>
    decreases tokens.len(),
{
    if tokens.len() == 0 {
        Ok(cfg)
    } else {
        match apply_option(cfg, seen, tokens[0]) {
            Ok((cfg2, seen2)) => parse_from(tokens.drop_first(), cfg2, seen2),
            Err(e) => Err(e),
        }
    }
}

/// What parsing a whole option list means: fold from the defaults.
pub open spec fn parse_spec(tokens: Seq<OptionToken>) -> Result<TestConfig, ConfigError> {
    parse_from(tokens, default_config(), no_keys_seen())
}

/// Parses the attribute's option list into a `TestConfig`, or fails with
/// the first invalid option.  Parsing is referentially transparent: the
/// result is a function of the token sequence alone.
pub fn parse_args(args: &Vec<OptionToken>) -> (r: Result<TestConfig, ConfigError>)
    ensures
        r == parse_spec(args@),
{
    let mut cfg = TestConfig { iterations: 1, retries: 0, on_failure: None };
    let mut seen = SeenKeys { iterations: false, retries: false, on_failure: false };
    let mut i: usize = 0;
    proof {
        assert(cfg == default_config());
        assert(seen == no_keys_seen());
        assert(args@.skip(0) =~= args@);
    }
    while i < args.len()
        invariant
            i <= args@.len(),
            parse_from(args@.skip(i as int), cfg, seen) == parse_spec(args@),
        decreases args@.len() - i,
    {
        let ghost rest = args@.skip(i as int);
        proof {
            assert(rest.len() > 0);
            assert(rest[0] == args@[i as int]);
            assert(rest.drop_first() =~= args@.skip(i as int + 1));
        }
        let t = &args[i];
        match &t.key {
            ArgKey::Iterations => {
                if seen.iterations {
                    return Err(ConfigError::InvalidOption(ArgKey::Iterations));
                }
                match &t.value {
                    ArgValue::Int(v) => {
                        if *v >= 1 {
                            cfg.iterations = *v;
                            seen.iterations = true;
                        } else {
                            return Err(ConfigError::InvalidOption(ArgKey::Iterations));
                        }
                    },
                    _ => {
                        return Err(ConfigError::InvalidOption(ArgKey::Iterations));
                    },
                }
            },
            ArgKey::Retries => {
                if seen.retries {
                    return Err(ConfigError::InvalidOption(ArgKey::Retries));
                }
                match &t.value {
                    ArgValue::Int(v) => {
                        cfg.retries = *v;
                        seen.retries = true;
                    },
                    _ => {
                        return Err(ConfigError::InvalidOption(ArgKey::Retries));
                    },
                }
            },
            ArgKey::OnFailure => {
                if seen.on_failure {
                    return Err(ConfigError::InvalidOption(ArgKey::OnFailure));
                }
                match &t.value {
                    ArgValue::Str(path) => {
                        cfg.on_failure = Some(path.clone());
                        seen.on_failure = true;
                    },
                    _ => {
                        return Err(ConfigError::InvalidOption(ArgKey::OnFailure));
                    },
                }
            },
            ArgKey::Unknown(name) => {
                return Err(ConfigError::InvalidOption(ArgKey::Unknown(name.clone())));
            },
        }
        i = i + 1;
    }
    proof {
        assert(args@.skip(i as int) =~= Seq::<OptionToken>::empty());
    }
    Ok(cfg)
}

/// Parsing is idempotent: any two parses of the same option token sequence
/// yield equal results, because each equals `parse_spec` of that sequence.
pub proof fn lemma_parse_deterministic(
    tokens: Seq<OptionToken>,
    r1: Result<TestConfig, ConfigError>,
    r2: Result<TestConfig, ConfigError>,
)
    requires
        r1 == parse_spec(tokens),
        r2 == parse_spec(tokens),
    ensures
        r1 == r2,
{
}

/// A successful parse always yields a well-formed configuration: the
/// defaults are well formed and no accepted option can set `iterations`
/// below 1.
pub proof fn lemma_parse_wf(tokens: Seq<OptionToken>)
    ensures
        parse_spec(tokens) matches Ok(cfg) ==> cfg.wf(),
{
    lemma_parse_from_wf(tokens, default_config(), no_keys_seen());
}

proof fn lemma_parse_from_wf(tokens: Seq<OptionToken>, cfg: TestConfig, seen: SeenKeys)
    requires
        cfg.wf(),
    ensures
        parse_from(tokens, cfg, seen) matches Ok(out) ==> out.wf(),
    decreases tokens.len(),
{
    if tokens.len() > 0 {
        match apply_option(cfg, seen, tokens[0]) {
            Ok((cfg2, seen2)) => {
                lemma_parse_from_wf(tokens.drop_first(), cfg2, seen2);
            },
            Err(_) => {},
        }
    }
}

} // verus!
