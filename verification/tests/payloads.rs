use beacon_api_checker::order::sort_by_key;
use beacon_api_checker::types::{
    same_bytes, BalanceSummaryExt, BlockIdExt, Checkpoint, FinalityCheckpointsExt, PublicKey, Root,
    SignedBeaconBlock, StateIdExt, Validator, ValidatorStatus, ValidatorStatusExt,
    ValidatorSummaryExt,
};

fn root(b: u8) -> Root {
    Root { bytes: [b; 32] }
}

fn validator() -> Validator {
    Validator {
        public_key: PublicKey { bytes: [3; 48] },
        withdrawal_credentials: root(9),
        effective_balance: 32_000_000_000,
        slashed: false,
        activation_eligibility_epoch: 1,
        activation_epoch: 2,
        exit_epoch: u64::MAX,
        withdrawable_epoch: u64::MAX,
    }
}

fn summary() -> ValidatorSummaryExt {
    ValidatorSummaryExt {
        index: 5,
        balance: 100,
        status: ValidatorStatus::ActiveOngoing,
        validator: validator(),
    }
}

fn block() -> SignedBeaconBlock {
    SignedBeaconBlock {
        slot: 10,
        proposer_index: 3,
        parent_root: root(1),
        state_root: root(2),
        body: vec![1, 2, 3],
        signature: vec![9; 96],
    }
}

#[test]
fn same_bytes_compares_every_byte() {
    let a = [0u8; 32];
    let mut b = [0u8; 32];
    assert!(same_bytes(&a, &b));
    b[31] = 1;
    assert!(!same_bytes(&a, &b));
    b[31] = 0;
    b[0] = 1;
    assert!(!same_bytes(&a, &b));
}

#[test]
fn roots_are_equal_by_hash() {
    assert!(root(1) == root(1));
    assert!(root(1) != root(2));
    let mut r = root(1);
    r.bytes[17] = 0;
    assert!(r != root(1));
}

#[test]
fn checkpoints_need_all_three_to_match() {
    let cp = |e: u64, b: u8| Checkpoint { epoch: e, root: root(b) };
    let a = FinalityCheckpointsExt {
        previous_justified: cp(1, 1),
        current_justified: cp(2, 2),
        finalized: cp(0, 3),
    };
    let mut b = a;
    assert!(a == b);
    b.previous_justified = cp(9, 1);
    assert!(a != b);
    b = a;
    b.current_justified = cp(2, 9);
    assert!(a != b);
    b = a;
    b.finalized = cp(7, 3);
    assert!(a != b);
}

#[test]
fn status_strings_are_canonical() {
    assert_eq!(ValidatorStatus::PendingInitialized.to_string(), "pending_initialized");
    assert_eq!(ValidatorStatus::PendingQueued.to_string(), "pending_queued");
    assert_eq!(ValidatorStatus::ActiveOngoing.to_string(), "active_ongoing");
    assert_eq!(ValidatorStatus::ActiveExiting.to_string(), "active_exiting");
    assert_eq!(ValidatorStatus::ActiveSlashed.to_string(), "active_slashed");
    assert_eq!(ValidatorStatus::ExitedUnslashed.to_string(), "exited_unslashed");
    assert_eq!(ValidatorStatus::ExitedSlashed.to_string(), "exited_slashed");
    assert_eq!(ValidatorStatus::WithdrawalPossible.to_string(), "withdrawal_possible");
    assert_eq!(ValidatorStatus::WithdrawalDone.to_string(), "withdrawal_done");
    assert_eq!(ValidatorStatus::Active.to_string(), "active");
    assert_eq!(ValidatorStatus::Pending.to_string(), "pending");
    assert_eq!(ValidatorStatus::Exited.to_string(), "exited");
    assert_eq!(ValidatorStatus::Withdrawal.to_string(), "withdrawal");
    assert_eq!(ValidatorStatus::Active.as_str(), "active");
}

#[test]
fn statuses_are_equal_by_string_form() {
    let a = ValidatorStatusExt { inner: ValidatorStatus::ActiveOngoing };
    let b = ValidatorStatusExt { inner: ValidatorStatus::ActiveOngoing };
    let c = ValidatorStatusExt { inner: ValidatorStatus::Active };
    assert_eq!(a.inner.to_string(), b.inner.to_string());
    assert!(a == b);
    assert!(a != c);
}

#[test]
fn validator_summaries_compare_every_part() {
    let a = summary();
    assert!(a == summary());
    let mut b = summary();
    b.index = 6;
    assert!(a != b);
    b = summary();
    b.balance = 99;
    assert!(a != b);
    b = summary();
    b.status = ValidatorStatus::ActiveExiting;
    assert!(a != b);
    b = summary();
    b.validator.slashed = true;
    assert!(a != b);
    b = summary();
    b.validator.public_key.bytes[47] = 0;
    assert!(a != b);
    b = summary();
    b.validator.withdrawal_credentials = root(8);
    assert!(a != b);
    b = summary();
    b.validator.effective_balance = 31_000_000_000;
    assert!(a != b);
    b = summary();
    b.validator.activation_eligibility_epoch = 0;
    assert!(a != b);
    b = summary();
    b.validator.activation_epoch = 0;
    assert!(a != b);
    b = summary();
    b.validator.exit_epoch = 0;
    assert!(a != b);
    b = summary();
    b.validator.withdrawable_epoch = 0;
    assert!(a != b);
}

#[test]
fn balance_summaries_compare_index_and_balance() {
    let a = BalanceSummaryExt { index: 5, balance: 100 };
    assert!(a == BalanceSummaryExt { index: 5, balance: 100 });
    assert!(a != BalanceSummaryExt { index: 5, balance: 99 });
    assert!(a != BalanceSummaryExt { index: 4, balance: 100 });
}

#[test]
fn blocks_are_compared_in_full() {
    let a = block();
    assert!(a == block());
    let mut b = block();
    b.slot = 11;
    assert!(a != b);
    b = block();
    b.proposer_index = 4;
    assert!(a != b);
    b = block();
    b.parent_root = root(7);
    assert!(a != b);
    b = block();
    b.state_root = root(7);
    assert!(a != b);
    b = block();
    b.body = vec![1, 2, 4];
    assert!(a != b);
    b = block();
    b.body = vec![1, 2];
    assert!(a != b);
    b = block();
    b.signature[95] = 0;
    assert!(a != b);
}

#[test]
fn identifiers_clone_to_themselves() {
    let ids = vec![
        StateIdExt::Genesis,
        StateIdExt::Finalized,
        StateIdExt::Justified,
        StateIdExt::Head,
        StateIdExt::Slot(12),
        StateIdExt::Root(root(1)),
    ];
    for id in ids.iter() {
        assert_eq!(format!("{:?}", id.clone()), format!("{:?}", id));
    }
    let blocks = vec![
        BlockIdExt::Genesis,
        BlockIdExt::Finalized,
        BlockIdExt::Head,
        BlockIdExt::Slot(12),
        BlockIdExt::Root(root(1)),
    ];
    for id in blocks.iter() {
        assert_eq!(format!("{:?}", id.clone()), format!("{:?}", id));
    }
}

#[test]
fn sort_by_key_is_stable() {
    let mut v = vec![
        BalanceSummaryExt { index: 5, balance: 1 },
        BalanceSummaryExt { index: 1, balance: 2 },
        BalanceSummaryExt { index: 5, balance: 3 },
        BalanceSummaryExt { index: 1, balance: 4 },
        BalanceSummaryExt { index: 3, balance: 5 },
    ];
    sort_by_key(&mut v);
    let got: Vec<(u64, u64)> = v.iter().map(|b| (b.index, b.balance)).collect();
    assert_eq!(got, vec![(1, 2), (1, 4), (3, 5), (5, 1), (5, 3)]);
}
