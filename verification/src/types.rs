//! The request identifiers and the payloads that a beacon node returns, as
//! far as a probe reads them, each with the equality by which two endpoints'
//! answers are held against each other.

use crate::order::Keyed;
use vstd::prelude::*;

verus! {

/// Whether two byte arrays hold the same bytes.
pub fn same_bytes<const N: usize>(a: &[u8; N], b: &[u8; N]) -> (r: bool)
    ensures
        r == (a@ == b@),
{
    let mut i: usize = 0;
    while i < N
        invariant
            i <= N,
            forall|j: int| 0 <= j < i ==> a@[j] == b@[j],
        decreases N - i,
    {
        if a[i] != b[i] {
            assert(a@[i as int] != b@[i as int]);
            return false;
        }
        i += 1;
    }
    assert(a@ =~= b@);
    true
}

/// A 32-byte hash-tree root.
#[derive(Clone, Copy, Debug)]
pub struct Root {
    pub bytes: [u8; 32],
}

impl Root {
    /// The two hashes are the same, byte for byte.
    pub open spec fn matches(&self, other: &Self) -> bool {
        self.bytes@ == other.bytes@
    }
}

impl PartialEq for Root {
    fn eq(&self, other: &Self) -> (r: bool) {
        same_bytes(&self.bytes, &other.bytes)
    }
}

impl Eq for Root {

}

impl vstd::std_specs::cmp::PartialEqSpecImpl for Root {
    open spec fn obeys_eq_spec() -> bool {
        true
    }

    open spec fn eq_spec(&self, other: &Self) -> bool {
        self.matches(other)
    }
}

/// A 48-byte BLS public key.
#[derive(Clone, Copy, Debug)]
pub struct PublicKey {
    pub bytes: [u8; 48],
}

impl PublicKey {
    /// The two keys are the same, byte for byte.
    pub open spec fn matches(&self, other: &Self) -> bool {
        self.bytes@ == other.bytes@
    }
}

impl PartialEq for PublicKey {
    fn eq(&self, other: &Self) -> (r: bool) {
        same_bytes(&self.bytes, &other.bytes)
    }
}

impl Eq for PublicKey {

}

impl vstd::std_specs::cmp::PartialEqSpecImpl for PublicKey {
    open spec fn obeys_eq_spec() -> bool {
        true
    }

    open spec fn eq_spec(&self, other: &Self) -> bool {
        self.matches(other)
    }
}

/// A reference to a point in the history of the chain's state.
#[derive(Debug)]
pub enum StateIdExt {
    Genesis,
    Finalized,
    Justified,
    Head,
    Slot(u64),
    Root(Root),
}

impl Clone for StateIdExt {
    fn clone(&self) -> (r: Self)
        ensures
            r == *self,
    {
        match self {
            StateIdExt::Genesis => StateIdExt::Genesis,
            StateIdExt::Finalized => StateIdExt::Finalized,
            StateIdExt::Justified => StateIdExt::Justified,
            StateIdExt::Head => StateIdExt::Head,
            StateIdExt::Slot(x) => StateIdExt::Slot(*x),
            StateIdExt::Root(x) => StateIdExt::Root(*x),
        }
    }
}

/// A reference to one block of the chain.
#[derive(Debug)]
pub enum BlockIdExt {
    Genesis,
    Finalized,
    Head,
    Slot(u64),
    Root(Root),
}

impl Clone for BlockIdExt {
    fn clone(&self) -> (r: Self)
        ensures
            r == *self,
    {
        match self {
            BlockIdExt::Genesis => BlockIdExt::Genesis,
            BlockIdExt::Finalized => BlockIdExt::Finalized,
            BlockIdExt::Head => BlockIdExt::Head,
            BlockIdExt::Slot(x) => BlockIdExt::Slot(*x),
            BlockIdExt::Root(x) => BlockIdExt::Root(*x),
        }
    }
}

/// An epoch with the root of its boundary block.
#[derive(Clone, Copy, Debug)]
pub struct Checkpoint {
    pub epoch: u64,
    pub root: Root,
}

impl Checkpoint {
    /// Epoch and root match.
    pub open spec fn matches(&self, other: &Self) -> bool {
        self.epoch == other.epoch && self.root.matches(&other.root)
    }
}

impl PartialEq for Checkpoint {
    fn eq(&self, other: &Self) -> (r: bool) {
        self.epoch == other.epoch && self.root == other.root
    }
}

impl Eq for Checkpoint {

}

impl vstd::std_specs::cmp::PartialEqSpecImpl for Checkpoint {
    open spec fn obeys_eq_spec() -> bool {
        true
    }

    open spec fn eq_spec(&self, other: &Self) -> bool {
        self.matches(other)
    }
}

/// The three checkpoints by which a node reports finality.
#[derive(Clone, Copy, Debug)]
pub struct FinalityCheckpointsExt {
    pub previous_justified: Checkpoint,
    pub current_justified: Checkpoint,
    pub finalized: Checkpoint,
}

impl FinalityCheckpointsExt {
    /// All three checkpoints match.
    pub open spec fn matches(&self, other: &Self) -> bool {
        &&& self.previous_justified.matches(&other.previous_justified)
        &&& self.current_justified.matches(&other.current_justified)
        &&& self.finalized.matches(&other.finalized)
    }
}

impl PartialEq for FinalityCheckpointsExt {
    fn eq(&self, other: &Self) -> (r: bool) {
        if self.previous_justified != other.previous_justified {
            return false;
        }
        if self.current_justified != other.current_justified {
            return false;
        }
        self.finalized == other.finalized
    }
}

impl Eq for FinalityCheckpointsExt {

}

impl vstd::std_specs::cmp::PartialEqSpecImpl for FinalityCheckpointsExt {
    open spec fn obeys_eq_spec() -> bool {
        true
    }

    open spec fn eq_spec(&self, other: &Self) -> bool {
        self.matches(other)
    }
}

/// Where a validator stands in its life cycle.
#[derive(Clone, Copy, Debug)]
pub enum ValidatorStatus {
    PendingInitialized,
    PendingQueued,
    ActiveOngoing,
    ActiveExiting,
    ActiveSlashed,
    ExitedUnslashed,
    ExitedSlashed,
    WithdrawalPossible,
    WithdrawalDone,
    Active,
    Pending,
    Exited,
    Withdrawal,
}

impl ValidatorStatus {
    /// The canonical string form of the status.
    pub open spec fn canonical(&self) -> Seq<char> {
        match self {
            ValidatorStatus::PendingInitialized => "pending_initialized"@,
            ValidatorStatus::PendingQueued => "pending_queued"@,
            ValidatorStatus::ActiveOngoing => "active_ongoing"@,
            ValidatorStatus::ActiveExiting => "active_exiting"@,
            ValidatorStatus::ActiveSlashed => "active_slashed"@,
            ValidatorStatus::ExitedUnslashed => "exited_unslashed"@,
            ValidatorStatus::ExitedSlashed => "exited_slashed"@,
            ValidatorStatus::WithdrawalPossible => "withdrawal_possible"@,
            ValidatorStatus::WithdrawalDone => "withdrawal_done"@,
            ValidatorStatus::Active => "active"@,
            ValidatorStatus::Pending => "pending"@,
            ValidatorStatus::Exited => "exited"@,
            ValidatorStatus::Withdrawal => "withdrawal"@,
        }
    }

    pub fn as_str(&self) -> (s: &'static str)
        ensures
            s@ == self.canonical(),
    {
        match self {
            ValidatorStatus::PendingInitialized => "pending_initialized",
            ValidatorStatus::PendingQueued => "pending_queued",
            ValidatorStatus::ActiveOngoing => "active_ongoing",
            ValidatorStatus::ActiveExiting => "active_exiting",
            ValidatorStatus::ActiveSlashed => "active_slashed",
            ValidatorStatus::ExitedUnslashed => "exited_unslashed",
            ValidatorStatus::ExitedSlashed => "exited_slashed",
            ValidatorStatus::WithdrawalPossible => "withdrawal_possible",
            ValidatorStatus::WithdrawalDone => "withdrawal_done",
            ValidatorStatus::Active => "active",
            ValidatorStatus::Pending => "pending",
            ValidatorStatus::Exited => "exited",
            ValidatorStatus::Withdrawal => "withdrawal",
        }
    }

    pub fn to_string(&self) -> (s: String)
        ensures
            s@ == self.canonical(),
    {
        self.as_str().to_owned()
    }
}

/// A validator status that is compared by its canonical string form.
#[derive(Clone, Copy, Debug)]
pub struct ValidatorStatusExt {
    pub inner: ValidatorStatus,
}

impl ValidatorStatusExt {
    /// The two statuses have the same canonical string form.
    pub open spec fn matches(&self, other: &Self) -> bool {
        self.inner.canonical() == other.inner.canonical()
    }
}

impl PartialEq for ValidatorStatusExt {
    fn eq(&self, other: &Self) -> (r: bool) {
        let s1 = self.inner.to_string();
        let s2 = other.inner.to_string();
        s1 == s2
    }
}

impl Eq for ValidatorStatusExt {

}

impl vstd::std_specs::cmp::PartialEqSpecImpl for ValidatorStatusExt {
    open spec fn obeys_eq_spec() -> bool {
        true
    }

    open spec fn eq_spec(&self, other: &Self) -> bool {
        self.matches(other)
    }
}

/// Two statuses are equal exactly when their canonical string forms are the
/// same, however each of them is encoded.
pub proof fn lemma_status_equal_by_string(a: ValidatorStatusExt, b: ValidatorStatusExt)
    ensures
        a.matches(&b) <==> a.inner.canonical() == b.inner.canonical(),
        a.inner == b.inner ==> a.matches(&b),
{
}

/// The record that the chain keeps of one validator.
#[derive(Clone, Copy, Debug)]
pub struct Validator {
    pub public_key: PublicKey,
    pub withdrawal_credentials: Root,
    pub effective_balance: u64,
    pub slashed: bool,
    pub activation_eligibility_epoch: u64,
    pub activation_epoch: u64,
    pub exit_epoch: u64,
    pub withdrawable_epoch: u64,
}

impl Validator {
    /// Every field of the record matches.
    pub open spec fn matches(&self, other: &Self) -> bool {
        &&& self.public_key.matches(&other.public_key)
        &&& self.withdrawal_credentials.matches(&other.withdrawal_credentials)
        &&& self.effective_balance == other.effective_balance
        &&& self.slashed == other.slashed
        &&& self.activation_eligibility_epoch == other.activation_eligibility_epoch
        &&& self.activation_epoch == other.activation_epoch
        &&& self.exit_epoch == other.exit_epoch
        &&& self.withdrawable_epoch == other.withdrawable_epoch
    }
}

impl PartialEq for Validator {
    fn eq(&self, other: &Self) -> (r: bool) {
        self.public_key == other.public_key && self.withdrawal_credentials
            == other.withdrawal_credentials && self.effective_balance == other.effective_balance
            && self.slashed == other.slashed && self.activation_eligibility_epoch
            == other.activation_eligibility_epoch && self.activation_epoch
            == other.activation_epoch && self.exit_epoch == other.exit_epoch
            && self.withdrawable_epoch == other.withdrawable_epoch
    }
}

impl Eq for Validator {

}

impl vstd::std_specs::cmp::PartialEqSpecImpl for Validator {
    open spec fn obeys_eq_spec() -> bool {
        true
    }

    open spec fn eq_spec(&self, other: &Self) -> bool {
        self.matches(other)
    }
}

/// One validator as a node reports it: index, balance, status and record.
#[derive(Clone, Copy, Debug)]
pub struct ValidatorSummaryExt {
    pub index: u64,
    pub balance: u64,
    pub status: ValidatorStatus,
    pub validator: Validator,
}

impl ValidatorSummaryExt {
    /// Index and balance match, the statuses have the same canonical string
    /// form, and the validator records match.
    pub open spec fn matches(&self, other: &Self) -> bool {
        &&& self.index == other.index
        &&& self.balance == other.balance
        &&& self.status.canonical() == other.status.canonical()
        &&& self.validator.matches(&other.validator)
    }
}

impl PartialEq for ValidatorSummaryExt {
    fn eq(&self, other: &Self) -> (r: bool) {
        if self.index != other.index {
            return false;
        }
        if self.balance != other.balance {
            return false;
        }
        let s1 = ValidatorStatusExt { inner: self.status };
        let s2 = ValidatorStatusExt { inner: other.status };
        if s1 != s2 {
            return false;
        }
        self.validator == other.validator
    }
}

impl Eq for ValidatorSummaryExt {

}

impl vstd::std_specs::cmp::PartialEqSpecImpl for ValidatorSummaryExt {
    open spec fn obeys_eq_spec() -> bool {
        true
    }

    open spec fn eq_spec(&self, other: &Self) -> bool {
        self.matches(other)
    }
}

impl Keyed for ValidatorSummaryExt {
    open spec fn key(&self) -> u64 {
        self.index
    }

    fn sort_key(&self) -> (k: u64) {
        self.index
    }
}

/// The balance of one validator as a node reports it.
#[derive(Clone, Copy, Debug)]
pub struct BalanceSummaryExt {
    pub index: u64,
    pub balance: u64,
}

impl BalanceSummaryExt {
    /// Index and balance match.
    pub open spec fn matches(&self, other: &Self) -> bool {
        self.index == other.index && self.balance == other.balance
    }
}

impl PartialEq for BalanceSummaryExt {
    fn eq(&self, other: &Self) -> (r: bool) {
        if self.index != other.index {
            return false;
        }
        self.balance == other.balance
    }
}

impl Eq for BalanceSummaryExt {

}

impl vstd::std_specs::cmp::PartialEqSpecImpl for BalanceSummaryExt {
    open spec fn obeys_eq_spec() -> bool {
        true
    }

    open spec fn eq_spec(&self, other: &Self) -> bool {
        self.matches(other)
    }
}

impl Keyed for BalanceSummaryExt {
    open spec fn key(&self) -> u64 {
        self.index
    }

    fn sort_key(&self) -> (k: u64) {
        self.index
    }
}

/// A signed block: the header fields of its message, the canonical
/// serialisation of its body, and the proposer's signature.
#[derive(Clone, Debug)]
pub struct SignedBeaconBlock {
    pub slot: u64,
    pub proposer_index: u64,
    pub parent_root: Root,
    pub state_root: Root,
    pub body: Vec<u8>,
    pub signature: Vec<u8>,
}

impl SignedBeaconBlock {
    /// Every field matches, the body and the signature byte for byte.
    pub open spec fn matches(&self, other: &Self) -> bool {
        &&& self.slot == other.slot
        &&& self.proposer_index == other.proposer_index
        &&& self.parent_root.matches(&other.parent_root)
        &&& self.state_root.matches(&other.state_root)
        &&& self.body@ == other.body@
        &&& self.signature@ == other.signature@
    }
}

impl PartialEq for SignedBeaconBlock {
    fn eq(&self, other: &Self) -> (r: bool) {
        let r = self.slot == other.slot && self.proposer_index == other.proposer_index
            && self.parent_root == other.parent_root && self.state_root == other.state_root
            && self.body == other.body && self.signature == other.signature;
        proof {
            if self.body.len() == other.body.len() && (forall|i: int|
                0 <= i < self.body.len() ==> self.body[i] == other.body[i]) {
                assert(self.body@ =~= other.body@);
            }
            if self.signature.len() == other.signature.len() && (forall|i: int|
                0 <= i < self.signature.len() ==> self.signature[i] == other.signature[i]) {
                assert(self.signature@ =~= other.signature@);
            }
        }
        r
    }
}

impl Eq for SignedBeaconBlock {

}

impl vstd::std_specs::cmp::PartialEqSpecImpl for SignedBeaconBlock {
    open spec fn obeys_eq_spec() -> bool {
        true
    }

    open spec fn eq_spec(&self, other: &Self) -> bool {
        self.matches(other)
    }
}

/// The equality of every payload is an equivalence: it holds between a
/// payload and itself, in both directions or in none, and across a chain.
pub proof fn lemma_payload_equalities_are_equivalences()
    ensures
        forall|a: Root| #[trigger] a.matches(&a),
        forall|a: Root, b: Root| #[trigger] a.matches(&b) ==> b.matches(&a),
        forall|a: Root, b: Root, c: Root|
            #[trigger] a.matches(&b) && #[trigger] b.matches(&c) ==> a.matches(&c),
        forall|a: FinalityCheckpointsExt| #[trigger] a.matches(&a),
        forall|a: FinalityCheckpointsExt, b: FinalityCheckpointsExt| #[trigger]
            a.matches(&b) ==> b.matches(&a),
        forall|a: FinalityCheckpointsExt, b: FinalityCheckpointsExt, c: FinalityCheckpointsExt|
            #[trigger] a.matches(&b) && #[trigger] b.matches(&c) ==> a.matches(&c),
        forall|a: ValidatorSummaryExt| #[trigger] a.matches(&a),
        forall|a: ValidatorSummaryExt, b: ValidatorSummaryExt| #[trigger]
            a.matches(&b) ==> b.matches(&a),
        forall|a: ValidatorSummaryExt, b: ValidatorSummaryExt, c: ValidatorSummaryExt|
            #[trigger] a.matches(&b) && #[trigger] b.matches(&c) ==> a.matches(&c),
        forall|a: BalanceSummaryExt| #[trigger] a.matches(&a),
        forall|a: BalanceSummaryExt, b: BalanceSummaryExt| #[trigger]
            a.matches(&b) ==> b.matches(&a),
        forall|a: BalanceSummaryExt, b: BalanceSummaryExt, c: BalanceSummaryExt|
            #[trigger] a.matches(&b) && #[trigger] b.matches(&c) ==> a.matches(&c),
        forall|a: SignedBeaconBlock| #[trigger] a.matches(&a),
        forall|a: SignedBeaconBlock, b: SignedBeaconBlock| #[trigger]
            a.matches(&b) ==> b.matches(&a),
        forall|a: SignedBeaconBlock, b: SignedBeaconBlock, c: SignedBeaconBlock|
            #[trigger] a.matches(&b) && #[trigger] b.matches(&c) ==> a.matches(&c),
{
}

} // verus!
