//! Builder for the repeated contract-call loop: a fixed count of swap
//! calls alternating direction, all sharing one gas ceiling.

use vstd::prelude::*;
use crate::abi::{encode_swap, swap_calldata};
use crate::address::AccountAddress;
use crate::errors::BuildError;
use crate::grouping::{apply_margin, with_margin, MARGIN_DEN, MINT_MARGIN_NUM};
use crate::intent::{
    IntentModel, SignedTransaction, SimulationRequest, TransactionIntent, CHAIN_ID, GAS_PRICE,
};
use crate::signing::{
    address_of_key, key_accepted, sign_intents, signed_wire_of, signer_account, signing_ok,
};

verus! {

/// The fixed input value of every swap call.
pub const SWAP_AMOUNT_IN: u128 = 100;

/// Builds a fixed count of swap calls.  Every call has the same shape up
/// to its direction flag, so one representative simulated call prices the
/// gas ceiling for all of them.
#[derive(Debug)]
pub struct SwapperBuilder {
    /// The signing identity's 32 key bytes.
    pub signer_key: Vec<u8>,
    /// The swapping contract.
    pub contract_address: AccountAddress,
    /// How many swap calls to produce.
    pub max_swaps: u64,
}

impl SwapperBuilder {
    /// The builder carries a whole signing key.
    pub open spec fn wf(&self) -> bool {
        self.signer_key@.len() == 32
    }

    /// The intent at position `i`: a swap whose direction alternates with
    /// `i`, carrying sequence number `start_nonce + i` and the shared
    /// margined gas ceiling.
    pub open spec fn intent_model(&self, estimate: u64, start_nonce: u64, i: int) -> IntentModel {
        IntentModel {
            nonce: (start_nonce + i) as u64,
            gas_price: GAS_PRICE,
            gas_limit: with_margin(estimate, MINT_MARGIN_NUM, MARGIN_DEN) as u64,
            to: self.contract_address@,
            value: 0,
            input: swap_calldata(SWAP_AMOUNT_IN, i % 2 == 0),
            chain_id: CHAIN_ID,
        }
    }

    /// The one representative simulated-call description whose reported
    /// usage prices every swap of the run.
    pub fn simulation_request(&self) -> (r: Result<SimulationRequest, BuildError>)
        requires
            self.wf(),
        ensures
            (r is Ok) <==> key_accepted(self.signer_key@),
            r matches Err(e) ==> e == BuildError::Signing,
            r matches Ok(s) ==> {
                &&& s.from@ == address_of_key(self.signer_key@)
                &&& s.to@ == self.contract_address@
                &&& s.value is None
                &&& s.data@ == swap_calldata(SWAP_AMOUNT_IN, false)
            },
    {
        let from = match signer_account(&self.signer_key) {
            Some(a) => a,
            None => {
                return Err(BuildError::Signing);
            },
        };
        let data = encode_swap(SWAP_AMOUNT_IN, false);
        Ok(SimulationRequest { from, to: self.contract_address, value: None, data })
    }

    /// Produces `max_swaps` intents with alternating direction and
    /// contiguous sequence numbers from `start_nonce`.
    pub fn build_intents(&self, estimate: u64, start_nonce: u64) -> (r: Vec<TransactionIntent>)
        requires
            self.max_swaps <= usize::MAX,
            estimate * MINT_MARGIN_NUM <= u64::MAX * MARGIN_DEN,
            start_nonce + self.max_swaps <= u64::MAX,
        ensures
            r@.len() == self.max_swaps,
            forall|i: int|
                0 <= i < r@.len() ==> (#[trigger] r@[i])@ == self.intent_model(
                    estimate,
                    start_nonce,
                    i,
                ),
    {
        let gas = apply_margin(estimate, MINT_MARGIN_NUM, MARGIN_DEN);
        let count = self.max_swaps as usize;
        let mut out: Vec<TransactionIntent> = Vec::new();
        let mut i: usize = 0;
        while i < count
            invariant
                i <= count,
                count == self.max_swaps,
                start_nonce + self.max_swaps <= u64::MAX,
                gas == with_margin(estimate, MINT_MARGIN_NUM, MARGIN_DEN),
                out@.len() == i,
                forall|j: int|
                    0 <= j < i ==> (#[trigger] out@[j])@ == self.intent_model(
                        estimate,
                        start_nonce,
                        j,
                    ),
            decreases count - i,
        {
            let data = encode_swap(SWAP_AMOUNT_IN, i % 2 == 0);
            let intent = TransactionIntent {
                nonce: start_nonce + (i as u64),
                gas_price: GAS_PRICE,
                gas_limit: gas,
                to: self.contract_address,
                value: 0,
                input: data,
                chain_id: CHAIN_ID,
            };
            out.push(intent);
            i = i + 1;
        }
        out
    }

    /// Builds and signs the whole run: `max_swaps` signed swap calls, in
    /// order, with contiguous sequence numbers from `start_nonce`.
    pub fn build_transactions(&self, estimate: u64, start_nonce: u64) -> (r: Result<
        Vec<SignedTransaction>,
        BuildError,
    >)
        requires
            self.wf(),
            self.max_swaps <= usize::MAX,
            estimate * MINT_MARGIN_NUM <= u64::MAX * MARGIN_DEN,
            start_nonce + self.max_swaps <= u64::MAX,
        ensures
            (r is Ok) <==> (forall|i: int|
                0 <= i < self.max_swaps ==> signing_ok(
                    self.signer_key@,
                    #[trigger] self.intent_model(estimate, start_nonce, i),
                )),
            r matches Ok(v) ==> {
                &&& v@.len() == self.max_swaps
                &&& forall|i: int|
                    0 <= i < v@.len() ==> (#[trigger] v@[i]).payload@ == signed_wire_of(
                        self.signer_key@,
                        self.intent_model(estimate, start_nonce, i),
                    )
                &&& forall|i: int|
                    0 <= i < v@.len() ==> (#[trigger] v@[i]).nonce == start_nonce + i
            },
            r matches Err(e) ==> e == BuildError::Signing,
    {
        let intents = self.build_intents(estimate, start_nonce);
        let r = sign_intents(&self.signer_key, &intents);
        proof {
            assert forall|i: int|
                #![trigger intents@[i]]
                #![trigger self.intent_model(estimate, start_nonce, i)]
                0 <= i < intents@.len() implies signing_ok(self.signer_key@, intents@[i]@)
                == signing_ok(self.signer_key@, self.intent_model(estimate, start_nonce, i)) by {
                assert(intents@[i]@ == self.intent_model(estimate, start_nonce, i));
            }
        }
        r
    }
}

} // verus!
