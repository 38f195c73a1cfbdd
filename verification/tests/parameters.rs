use beacon_api_checker::api_checker::ProbeKind;
use beacon_api_checker::sampler::{
    block_candidates, random_block_identifier, random_indices, random_parameters, random_slot,
    random_state_identifier, random_validator_subset, state_candidates, RequestParameters,
    ValidatorFilter, ValidatorSubset, SLOT_WINDOW, SUBSET_SIZE_LIMIT, VALIDATOR_INDEX_LIMIT,
};
use beacon_api_checker::types::{BlockIdExt, StateIdExt};

#[test]
fn limits_are_as_documented() {
    assert_eq!(SLOT_WINDOW, 64);
    assert_eq!(SUBSET_SIZE_LIMIT, 100);
    assert_eq!(VALIDATOR_INDEX_LIMIT, 500_000);
}

#[test]
fn random_slot_is_recent() {
    let mut rng = rand::thread_rng();
    let mut drawn = std::collections::BTreeSet::new();
    for _ in 0..500 {
        let s = random_slot(&mut rng, 1000);
        assert!(s >= 936 && s < 1000);
        drawn.insert(s);
    }
    assert!(drawn.len() > 1);
    for _ in 0..100 {
        let s = random_slot(&mut rng, 64);
        assert!(s < 64);
    }
    for _ in 0..100 {
        let s = random_slot(&mut rng, u64::MAX);
        assert!(s >= u64::MAX - 64 && s < u64::MAX);
    }
}

#[test]
fn state_candidates_are_the_four() {
    let ids = state_candidates(77);
    assert_eq!(ids.len(), 4);
    assert!(matches!(ids[0], StateIdExt::Finalized));
    assert!(matches!(ids[1], StateIdExt::Justified));
    assert!(matches!(ids[2], StateIdExt::Head));
    assert!(matches!(ids[3], StateIdExt::Slot(77)));
}

#[test]
fn block_candidates_are_the_three() {
    let ids = block_candidates(78);
    assert_eq!(ids.len(), 3);
    assert!(matches!(ids[0], BlockIdExt::Finalized));
    assert!(matches!(ids[1], BlockIdExt::Head));
    assert!(matches!(ids[2], BlockIdExt::Slot(78)));
}

#[test]
fn random_state_identifier_is_a_candidate() {
    let mut seen = [false; 4];
    for _ in 0..400 {
        match random_state_identifier(5000) {
            StateIdExt::Finalized => seen[0] = true,
            StateIdExt::Justified => seen[1] = true,
            StateIdExt::Head => seen[2] = true,
            StateIdExt::Slot(s) => {
                assert!(s >= 4936 && s < 5000);
                seen[3] = true;
            }
            other => panic!("not a candidate: {:?}", other),
        }
    }
    assert!(seen.iter().all(|s| *s));
}

#[test]
fn random_block_identifier_is_a_candidate() {
    let mut seen = [false; 3];
    for _ in 0..400 {
        match random_block_identifier(5000) {
            BlockIdExt::Finalized => seen[0] = true,
            BlockIdExt::Head => seen[1] = true,
            BlockIdExt::Slot(s) => {
                assert!(s >= 4936 && s < 5000);
                seen[2] = true;
            }
            other => panic!("not a candidate: {:?}", other),
        }
    }
    assert!(seen.iter().all(|s| *s));
}

#[test]
fn random_validator_subset_is_within_limits() {
    let mut sizes = std::collections::BTreeSet::new();
    for _ in 0..2000 {
        let s = random_validator_subset();
        assert!(s.indices.len() < 100);
        assert!(s.indices.iter().all(|i| *i < 500_000));
        sizes.insert(s.indices.len());
    }
    assert!(sizes.len() > 10);
}

#[test]
fn empty_subset_asks_for_everyone() {
    let s = ValidatorSubset { indices: vec![] };
    assert!(s.is_unfiltered());
    assert!(s.asks_for(0));
    assert!(s.asks_for(499_999));
    assert!(matches!(s.into_filter(), ValidatorFilter::All));
}

#[test]
fn subset_asks_for_its_indices_only() {
    let s = ValidatorSubset { indices: vec![4, 9, 4] };
    assert!(!s.is_unfiltered());
    assert!(s.asks_for(4));
    assert!(s.asks_for(9));
    assert!(!s.asks_for(5));
    match s.into_filter() {
        ValidatorFilter::Only(v) => assert_eq!(v, vec![4, 9, 4]),
        ValidatorFilter::All => panic!("a subset with indices is a filter"),
    }
}

#[test]
fn parameters_fit_the_probe_kind() {
    for _ in 0..50 {
        for kind in [ProbeKind::Validators, ProbeKind::Balances] {
            match random_parameters(kind, 1000) {
                RequestParameters::Validators(id, subset) => {
                    assert!(!matches!(id, StateIdExt::Genesis | StateIdExt::Root(_)));
                    assert!(subset.indices.len() < 100);
                    assert!(subset.indices.iter().all(|i| *i < 500_000));
                }
                other => panic!("not a validators request: {:?}", other),
            }
        }
        match random_parameters(ProbeKind::Block, 1000) {
            RequestParameters::Block(BlockIdExt::Slot(s)) => assert!(s >= 936 && s < 1000),
            RequestParameters::Block(id) => {
                assert!(matches!(id, BlockIdExt::Finalized | BlockIdExt::Head))
            }
            other => panic!("not a block request: {:?}", other),
        }
        for kind in [ProbeKind::FinalityCheckpoints, ProbeKind::StateRoot] {
            match random_parameters(kind, 1000) {
                RequestParameters::State(StateIdExt::Slot(s)) => assert!(s >= 936 && s < 1000),
                RequestParameters::State(id) => assert!(matches!(
                    id,
                    StateIdExt::Finalized | StateIdExt::Justified | StateIdExt::Head
                )),
                other => panic!("not a state request: {:?}", other),
            }
        }
    }
}

#[test]
fn random_indices_draws_the_count_asked_for() {
    let mut rng = rand::thread_rng();
    assert!(random_indices(&mut rng, 0).indices.is_empty());
    assert!(random_indices(&mut rng, 0).is_unfiltered());
    for count in [1u64, 2, 37, 99] {
        let s = random_indices(&mut rng, count);
        assert_eq!(s.indices.len() as u64, count);
        assert!(s.indices.iter().all(|i| *i < 500_000));
        assert!(!s.is_unfiltered());
    }
    let many = random_indices(&mut rng, 99);
    assert!(many.indices.iter().any(|i| *i != many.indices[0]));
}
