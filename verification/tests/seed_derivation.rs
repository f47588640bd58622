use seed_harness::seeds::DEFAULT_BASE_SEED;
use seed_harness::seeds::derive_seeds;
use seed_harness::seeds::resolve_base_seed;

#[test]
fn seed_sequence_is_base_plus_index() {
    let seeds = derive_seeds(7, 5);
    assert_eq!(seeds, vec![7, 8, 9, 10, 11]);
}

#[test]
fn seed_sequence_length_matches_iterations() {
    for n in 1..20u64 {
        assert_eq!(derive_seeds(100, n).len() as u64, n);
    }
}

#[test]
fn more_iterations_extend_the_sequence() {
    let short = derive_seeds(42, 3);
    let long = derive_seeds(42, 8);
    assert_eq!(&long[..3], &short[..]);
}

#[test]
fn seed_sequence_reaches_the_top_of_the_range() {
    let seeds = derive_seeds(u64::MAX - 2, 3);
    assert_eq!(seeds, vec![u64::MAX - 2, u64::MAX - 1, u64::MAX]);
}

#[test]
fn base_seed_defaults_and_overrides() {
    assert_eq!(resolve_base_seed(None), DEFAULT_BASE_SEED);
    assert_eq!(resolve_base_seed(None), 0);
    assert_eq!(resolve_base_seed(Some(99)), 99);
}
