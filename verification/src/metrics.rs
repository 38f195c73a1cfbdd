//! The names and the histogram buckets of the metrics that a probe writes.
//!
//! Each probe kind has a counter of runs that found a mismatch and a
//! histogram of median latencies.

use crate::api_checker::ProbeKind;
use vstd::prelude::*;

verus! {

/// How many bucket boundaries a latency histogram has.
pub const LATENCY_BUCKET_COUNT: usize = 12;

/// The upper bounds, in milliseconds, of the buckets of a latency histogram.
pub open spec fn latency_bucket_bounds() -> Seq<u64> {
    seq![10, 50, 100, 150, 200, 300, 500, 1000, 5000, 10000, 30000, 60000]
}

/// The upper bounds, in milliseconds, of the buckets of a latency histogram.
pub fn latency_buckets() -> (bounds: [u64; 12])
    ensures
        bounds@ == latency_bucket_bounds(),
{
    let bounds: [u64; 12] = [10, 50, 100, 150, 200, 300, 500, 1000, 5000, 10000, 30000, 60000];
    assert(bounds@ =~= latency_bucket_bounds());
    bounds
}

/// The bucket bounds rise strictly.
pub proof fn lemma_latency_buckets_ascend()
    ensures
        latency_bucket_bounds().len() == LATENCY_BUCKET_COUNT,
        forall|i: int, j: int|
            0 <= i < j < latency_bucket_bounds().len() ==> latency_bucket_bounds()[i]
                < latency_bucket_bounds()[j],
{
}

impl ProbeKind {
    /// The name of the probe kind, as it stands in metric names.
    pub open spec fn label(&self) -> Seq<char> {
        match self {
            ProbeKind::Validators => "validators"@,
            ProbeKind::Balances => "balances"@,
            ProbeKind::Block => "block"@,
            ProbeKind::FinalityCheckpoints => "finality_checkpoints"@,
            ProbeKind::StateRoot => "state_root"@,
        }
    }

    /// The name of the probe kind, as it stands in metric names.
    pub fn name(&self) -> (s: &'static str)
        ensures
            s@ == self.label(),
    {
        match self {
            ProbeKind::Validators => "validators",
            ProbeKind::Balances => "balances",
            ProbeKind::Block => "block",
            ProbeKind::FinalityCheckpoints => "finality_checkpoints",
            ProbeKind::StateRoot => "state_root",
        }
    }

    /// The name of the counter of runs of this kind that found a mismatch.
    pub fn counter_name(&self) -> (s: &'static str)
        ensures
            s@ == self.label() + "_unequal_total"@,
    {
        proof {
            reveal_strlit("_unequal_total");
            reveal_strlit("validators");
            reveal_strlit("balances");
            reveal_strlit("block");
            reveal_strlit("finality_checkpoints");
            reveal_strlit("state_root");
            reveal_strlit("validators_unequal_total");
            reveal_strlit("balances_unequal_total");
            reveal_strlit("block_unequal_total");
            reveal_strlit("finality_checkpoints_unequal_total");
            reveal_strlit("state_root_unequal_total");
        }
        let s = match self {
            ProbeKind::Validators => "validators_unequal_total",
            ProbeKind::Balances => "balances_unequal_total",
            ProbeKind::Block => "block_unequal_total",
            ProbeKind::FinalityCheckpoints => "finality_checkpoints_unequal_total",
            ProbeKind::StateRoot => "state_root_unequal_total",
        };
        assert(s@ =~= self.label() + "_unequal_total"@);
        s
    }

    /// The name of the histogram of the median latencies of this kind's runs.
    pub fn histogram_name(&self) -> (s: &'static str)
        ensures
            s@ == self.label() + "_latency_milliseconds"@,
    {
        proof {
            reveal_strlit("_latency_milliseconds");
            reveal_strlit("validators");
            reveal_strlit("balances");
            reveal_strlit("block");
            reveal_strlit("finality_checkpoints");
            reveal_strlit("state_root");
            reveal_strlit("validators_latency_milliseconds");
            reveal_strlit("balances_latency_milliseconds");
            reveal_strlit("block_latency_milliseconds");
            reveal_strlit("finality_checkpoints_latency_milliseconds");
            reveal_strlit("state_root_latency_milliseconds");
        }
        let s = match self {
            ProbeKind::Validators => "validators_latency_milliseconds",
            ProbeKind::Balances => "balances_latency_milliseconds",
            ProbeKind::Block => "block_latency_milliseconds",
            ProbeKind::FinalityCheckpoints => "finality_checkpoints_latency_milliseconds",
            ProbeKind::StateRoot => "state_root_latency_milliseconds",
        };
        assert(s@ =~= self.label() + "_latency_milliseconds"@);
        s
    }
}

} // verus!
