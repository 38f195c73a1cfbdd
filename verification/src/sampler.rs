//! Random request parameters, biased toward the recent history of the chain.
//!
//! One set of parameters is drawn per probe run and sent to every endpoint,
//! so that the answers can be held against each other.

use crate::api_checker::ProbeKind;
use crate::types::{BlockIdExt, StateIdExt};
use rand::rngs::ThreadRng;
use rand::seq::SliceRandom;
use rand::Rng;
use vstd::prelude::*;

verus! {

/// Slots are drawn from this many slots before the current one, which keeps
/// requests inside the window of states that nodes still hold.
pub const SLOT_WINDOW: u64 = 64;

/// Validator indices are drawn from below this bound.
pub const VALIDATOR_INDEX_LIMIT: u64 = 500_000;

/// A subset holds fewer indices than this.
pub const SUBSET_SIZE_LIMIT: u64 = 100;

/// `rand::rngs::ThreadRng`, the random number generator of a thread. It is
/// carried from call to call; nothing is known of what it holds.
#[verifier::external_type_specification]
#[verifier::external_body]
pub struct ExThreadRng(ThreadRng);

/// `rand::thread_rng`: the generator of the calling thread, seeded by the
/// system. Nothing is claimed of it.
#[verifier::external_body]
fn thread_rng() -> ThreadRng {
    rand::thread_rng()
}

/// `Rng::gen_range` on the half-open range `low..high` of `u64`. It panics on
/// an empty range, which `requires` leaves out; every value it returns lies
/// in the range. Which one is left open.
#[verifier::external_body]
fn gen_range(rng: &mut ThreadRng, low: u64, high: u64) -> (r: u64)
    requires
        low < high,
    ensures
        low <= r < high,
{
    rng.gen_range(low..high)
}

/// `SliceRandom::choose` on a slice: `None` for an empty slice, else a
/// reference to one of its elements. Which one is left open.
#[verifier::external_body]
fn choose_one<'a, T>(rng: &mut ThreadRng, items: &'a Vec<T>) -> (r: Option<&'a T>)
    ensures
        items@.len() == 0 ==> r is None,
        items@.len() > 0 ==> r is Some && items@.contains(*r->0),
{
    items.choose(rng)
}

/// `slot` is one of the `SLOT_WINDOW` slots before `current_slot`.
pub open spec fn is_recent_slot(slot: u64, current_slot: u64) -> bool {
    current_slot - SLOT_WINDOW <= slot < current_slot
}

/// A state identifier that a probe may ask for at `current_slot`: one of the
/// named states, or a recent slot.
pub open spec fn is_state_choice(id: StateIdExt, current_slot: u64) -> bool {
    match id {
        StateIdExt::Finalized | StateIdExt::Justified | StateIdExt::Head => true,
        StateIdExt::Slot(slot) => is_recent_slot(slot, current_slot),
        StateIdExt::Genesis | StateIdExt::Root(_) => false,
    }
}

/// A block identifier that a probe may ask for at `current_slot`: one of the
/// named blocks, or a recent slot.
pub open spec fn is_block_choice(id: BlockIdExt, current_slot: u64) -> bool {
    match id {
        BlockIdExt::Finalized | BlockIdExt::Head => true,
        BlockIdExt::Slot(slot) => is_recent_slot(slot, current_slot),
        BlockIdExt::Genesis | BlockIdExt::Root(_) => false,
    }
}

/// A slot among the `SLOT_WINDOW` slots before `current_slot`.
pub fn random_slot(rng: &mut ThreadRng, current_slot: u64) -> (slot: u64)
    requires
        current_slot >= SLOT_WINDOW,
    ensures
        is_recent_slot(slot, current_slot),
{
    gen_range(rng, current_slot - SLOT_WINDOW, current_slot)
}

/// The state identifiers among which one is drawn, given the slot drawn.
pub fn state_candidates(slot: u64) -> (ids: Vec<StateIdExt>)
    ensures
        ids@ == seq![
            StateIdExt::Finalized,
            StateIdExt::Justified,
            StateIdExt::Head,
            StateIdExt::Slot(slot),
        ],
{
    let mut ids: Vec<StateIdExt> = Vec::new();
    ids.push(StateIdExt::Finalized);
    ids.push(StateIdExt::Justified);
    ids.push(StateIdExt::Head);
    ids.push(StateIdExt::Slot(slot));
    ids
}

/// The block identifiers among which one is drawn, given the slot drawn.
pub fn block_candidates(slot: u64) -> (ids: Vec<BlockIdExt>)
    ensures
        ids@ == seq![BlockIdExt::Finalized, BlockIdExt::Head, BlockIdExt::Slot(slot)],
{
    let mut ids: Vec<BlockIdExt> = Vec::new();
    ids.push(BlockIdExt::Finalized);
    ids.push(BlockIdExt::Head);
    ids.push(BlockIdExt::Slot(slot));
    ids
}

/// Draws a state identifier: finalized, justified, head, or a recent slot.
pub fn random_state_identifier(current_slot: u64) -> (id: StateIdExt)
    requires
        current_slot >= SLOT_WINDOW,
    ensures
        is_state_choice(id, current_slot),
{
    let mut rng = thread_rng();
    let slot = random_slot(&mut rng, current_slot);
    let ids = state_candidates(slot);
    let chosen = choose_one(&mut rng, &ids);
    chosen.unwrap().clone()
}

/// Draws a block identifier: finalized, head, or a recent slot.
pub fn random_block_identifier(current_slot: u64) -> (id: BlockIdExt)
    requires
        current_slot >= SLOT_WINDOW,
    ensures
        is_block_choice(id, current_slot),
{
    let mut rng = thread_rng();
    let slot = random_slot(&mut rng, current_slot);
    let ids = block_candidates(slot);
    let chosen = choose_one(&mut rng, &ids);
    chosen.unwrap().clone()
}

/// What a request for validators is narrowed to.
#[derive(Clone, Debug)]
pub enum ValidatorFilter {
    /// No narrowing: the node returns every validator.
    All,
    /// Only the validators with these indices.
    Only(Vec<u64>),
}

/// The validator indices of one request. An empty subset does not ask for
/// "no validators": it asks for all of them.
#[derive(Clone, Debug)]
pub struct ValidatorSubset {
    pub indices: Vec<u64>,
}

impl ValidatorSubset {
    /// Fewer than `SUBSET_SIZE_LIMIT` indices, each below
    /// `VALIDATOR_INDEX_LIMIT`.
    pub open spec fn within_limits(&self) -> bool {
        &&& self.indices@.len() < SUBSET_SIZE_LIMIT
        &&& forall|i: int|
            0 <= i < self.indices@.len() ==> self.indices@[i] < VALIDATOR_INDEX_LIMIT
    }

    /// Whether a request with this subset asks for the validator `index`.
    pub open spec fn selects(&self, index: u64) -> bool {
        self.indices@.len() == 0 || self.indices@.contains(index)
    }

    /// Whether the subset is empty, and so stands for every validator.
    pub fn is_unfiltered(&self) -> (r: bool)
        ensures
            r == (self.indices@.len() == 0),
            r ==> forall|index: u64| self.selects(index),
    {
        self.indices.len() == 0
    }

    /// Whether a request with this subset asks for the validator `index`.
    pub fn asks_for(&self, index: u64) -> (r: bool)
        ensures
            r == self.selects(index),
    {
        let n: usize = self.indices.len();
        if n == 0 {
            return true;
        }
        let mut i: usize = 0;
        while i < n
            invariant
                n == self.indices@.len(),
                i <= n,
                forall|j: int| 0 <= j < i ==> self.indices@[j] != index,
            decreases n - i,
        {
            if self.indices[i] == index {
                return true;
            }
            i += 1;
        }
        false
    }

    /// The filter to send: `All` for the empty subset, else the indices.
    pub fn into_filter(self) -> (f: ValidatorFilter)
        ensures
            self.indices@.len() == 0 ==> f == ValidatorFilter::All,
            self.indices@.len() > 0 ==> f == ValidatorFilter::Only(self.indices),
    {
        if self.indices.len() == 0 {
            ValidatorFilter::All
        } else {
            ValidatorFilter::Only(self.indices)
        }
    }
}

/// The empty subset selects every validator; any other subset selects
/// exactly the indices it lists.
pub proof fn lemma_empty_subset_is_no_filter(s: ValidatorSubset, index: u64)
    ensures
        s.indices@.len() == 0 ==> s.selects(index),
        s.indices@.len() > 0 ==> (s.selects(index) <==> s.indices@.contains(index)),
{
}

/// Draws a subset of validator indices: a size below `SUBSET_SIZE_LIMIT`,
/// zero included, and that many indices below `VALIDATOR_INDEX_LIMIT`.
pub fn random_validator_subset() -> (s: ValidatorSubset)
    ensures
        s.within_limits(),
{
    let mut rng = thread_rng();
    let count: u64 = gen_range(&mut rng, 0, SUBSET_SIZE_LIMIT);
    random_indices(&mut rng, count)
}

/// Draws a subset of exactly `count` validator indices, each below
/// `VALIDATOR_INDEX_LIMIT`. For a count of zero the subset is empty, which
/// asks for every validator.
pub fn random_indices(rng: &mut ThreadRng, count: u64) -> (s: ValidatorSubset)
    requires
        count < SUBSET_SIZE_LIMIT,
    ensures
        s.indices@.len() == count,
        s.within_limits(),
{
    let mut indices: Vec<u64> = Vec::new();
    let mut i: u64 = 0;
    while i < count
        invariant
            i <= count,
            count < SUBSET_SIZE_LIMIT,
            indices@.len() == i,
            forall|j: int| 0 <= j < indices@.len() ==> indices@[j] < VALIDATOR_INDEX_LIMIT,
        decreases count - i,
    {
        let index: u64 = gen_range(rng, 0, VALIDATOR_INDEX_LIMIT);
        indices.push(index);
        i += 1;
    }
    ValidatorSubset { indices }
}

/// What one probe run asks of every endpoint. The parameters are drawn once
/// per run, so that all endpoints answer the same request.
#[derive(Clone, Debug)]
pub enum RequestParameters {
    /// A state to report on.
    State(StateIdExt),
    /// A block to return.
    Block(BlockIdExt),
    /// A state, and the validators of it to report on.
    Validators(StateIdExt, ValidatorSubset),
}

/// `p` is a request that a probe of this kind may make at `current_slot`.
pub open spec fn is_request_for(kind: ProbeKind, current_slot: u64, p: RequestParameters) -> bool {
    match kind {
        ProbeKind::Validators | ProbeKind::Balances => match p {
            RequestParameters::Validators(id, subset) => is_state_choice(id, current_slot)
                && subset.within_limits(),
            _ => false,
        },
        ProbeKind::Block => match p {
            RequestParameters::Block(id) => is_block_choice(id, current_slot),
            _ => false,
        },
        ProbeKind::FinalityCheckpoints | ProbeKind::StateRoot => match p {
            RequestParameters::State(id) => is_state_choice(id, current_slot),
            _ => false,
        },
    }
}

/// Draws the parameters of one run of a probe: a subset of validators and a
/// state for the validators and balances probes, a block for the block
/// probe, a state for the other two.
pub fn random_parameters(kind: ProbeKind, current_slot: u64) -> (p: RequestParameters)
    requires
        current_slot >= SLOT_WINDOW,
    ensures
        is_request_for(kind, current_slot, p),
{
    match kind {
        ProbeKind::Validators | ProbeKind::Balances => {
            let subset = random_validator_subset();
            let id = random_state_identifier(current_slot);
            RequestParameters::Validators(id, subset)
        },
        ProbeKind::Block => RequestParameters::Block(random_block_identifier(current_slot)),
        ProbeKind::FinalityCheckpoints | ProbeKind::StateRoot => RequestParameters::State(
            random_state_identifier(current_slot),
        ),
    }
}

} // verus!
