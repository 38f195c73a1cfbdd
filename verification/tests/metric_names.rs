use beacon_api_checker::api_checker::{default_pipeline, ProbeKind};
use beacon_api_checker::metrics::{latency_buckets, LATENCY_BUCKET_COUNT};

#[test]
fn latency_buckets_are_the_fixed_bounds() {
    assert_eq!(
        latency_buckets(),
        [10, 50, 100, 150, 200, 300, 500, 1000, 5000, 10000, 30000, 60000]
    );
    assert_eq!(latency_buckets().len(), LATENCY_BUCKET_COUNT);
    assert!(latency_buckets().windows(2).all(|w| w[0] < w[1]));
}

#[test]
fn counters_are_named_by_probe_kind() {
    assert_eq!(ProbeKind::Validators.counter_name(), "validators_unequal_total");
    assert_eq!(ProbeKind::Balances.counter_name(), "balances_unequal_total");
    assert_eq!(ProbeKind::Block.counter_name(), "block_unequal_total");
    assert_eq!(
        ProbeKind::FinalityCheckpoints.counter_name(),
        "finality_checkpoints_unequal_total"
    );
    assert_eq!(ProbeKind::StateRoot.counter_name(), "state_root_unequal_total");
}

#[test]
fn histograms_are_named_by_probe_kind() {
    assert_eq!(ProbeKind::Validators.histogram_name(), "validators_latency_milliseconds");
    assert_eq!(ProbeKind::Balances.histogram_name(), "balances_latency_milliseconds");
    assert_eq!(ProbeKind::Block.histogram_name(), "block_latency_milliseconds");
    assert_eq!(
        ProbeKind::FinalityCheckpoints.histogram_name(),
        "finality_checkpoints_latency_milliseconds"
    );
    assert_eq!(ProbeKind::StateRoot.histogram_name(), "state_root_latency_milliseconds");
}

#[test]
fn metric_names_start_with_the_kind_name() {
    for kind in default_pipeline() {
        assert_eq!(kind.counter_name(), format!("{}_unequal_total", kind.name()));
        assert_eq!(kind.histogram_name(), format!("{}_latency_milliseconds", kind.name()));
    }
}
