//! Builder for collectible batch minting: recipients are split into
//! fixed-size groups and each group becomes one soulbound batch-mint call.

use vstd::prelude::*;
use crate::abi::{batch_mint_calldata, encode_batch_mint};
use crate::address::AccountAddress;
use crate::errors::BuildError;
use crate::grouping::{
    group_bounds, group_count, group_end, apply_margin, with_margin, MARGIN_DEN, MINT_MARGIN_NUM,
};
use crate::intent::{
    IntentModel, SignedTransaction, SimulationRequest, TransactionIntent, CHAIN_ID, GAS_PRICE,
};
use crate::signing::{
    address_of_key, key_accepted, sign_intents, signed_wire_of, signer_account, signing_ok,
};

verus! {

/// Recipients per batch-mint call: smaller than value batches, as mint
/// calls are heavier per recipient.
pub const MINT_GROUP_SIZE: usize = 500;

/// Builds batched soulbound mint calls: one intent per recipient group,
/// each carrying no value and the group's margined gas estimate.
#[derive(Debug)]
pub struct SoulboundNFTMintBuilder {
    /// The signing identity's 32 key bytes.
    pub signer_key: Vec<u8>,
    /// The minting contract.
    pub contract_address: AccountAddress,
    /// One entry per mint target.
    pub recipients: Vec<AccountAddress>,
    /// The metadata reference handed to every mint call, as UTF-8 bytes.
    pub image_url: Vec<u8>,
}

impl SoulboundNFTMintBuilder {
    /// The builder carries a whole signing key.
    pub open spec fn wf(&self) -> bool {
        self.signer_key@.len() == 32
    }

    /// How many groups — and so how many intents and gas estimations —
    /// this distribution produces.
    pub open spec fn groups(&self) -> int {
        group_count(self.recipients@.len() as int, MINT_GROUP_SIZE as int)
    }

    /// The recipients of group `gi`.
    pub open spec fn group_recipients(&self, gi: int) -> Seq<AccountAddress> {
        self.recipients@.subrange(
            gi * MINT_GROUP_SIZE,
            group_end(self.recipients@.len() as int, MINT_GROUP_SIZE as int, gi),
        )
    }

    /// The intent of group `gi`: one batch-mint call with no value,
    /// carrying sequence number `start_nonce + gi`.
    pub open spec fn intent_model(&self, estimates: Seq<u64>, start_nonce: u64, gi: int) -> IntentModel {
        IntentModel {
            nonce: (start_nonce + gi) as u64,
            gas_price: GAS_PRICE,
            gas_limit: with_margin(estimates[gi], MINT_MARGIN_NUM, MARGIN_DEN) as u64,
            to: self.contract_address@,
            value: 0,
            input: batch_mint_calldata(self.group_recipients(gi), self.image_url@),
            chain_id: CHAIN_ID,
        }
    }

    /// One simulated-call description per group, in group order, for gas
    /// estimation against a remote node.
    pub fn simulation_requests(&self) -> (r: Result<Vec<SimulationRequest>, BuildError>)
        requires
            self.wf(),
            self.recipients@.len() + MINT_GROUP_SIZE <= usize::MAX,
        ensures
            (r is Ok) <==> key_accepted(self.signer_key@),
            r matches Err(e) ==> e == BuildError::Signing,
            r matches Ok(v) ==> {
                &&& v@.len() == self.groups()
                &&& forall|gi: int|
                    0 <= gi < v@.len() ==> {
                        let s = #[trigger] v@[gi];
                        &&& s.from@ == address_of_key(self.signer_key@)
                        &&& s.to@ == self.contract_address@
                        &&& s.value is None
                        &&& s.data@ == batch_mint_calldata(
                            self.group_recipients(gi),
                            self.image_url@,
                        )
                    }
            },
    {
        let from = match signer_account(&self.signer_key) {
            Some(a) => a,
            None => {
                return Err(BuildError::Signing);
            },
        };
        let bounds = group_bounds(self.recipients.len(), MINT_GROUP_SIZE);
        let mut out: Vec<SimulationRequest> = Vec::new();
        let mut k: usize = 0;
        while k < bounds.len()
            invariant
                k <= bounds@.len(),
                bounds@.len() == self.groups(),
                from@ == address_of_key(self.signer_key@),
                forall|gi: int|
                    0 <= gi < bounds@.len() ==> (#[trigger] bounds@[gi]).0 == gi * MINT_GROUP_SIZE
                        && bounds@[gi].1 == group_end(
                        self.recipients@.len() as int,
                        MINT_GROUP_SIZE as int,
                        gi,
                    ),
                forall|gi: int|
                    0 <= gi < bounds@.len() ==> (#[trigger] bounds@[gi]).0 < bounds@[gi].1
                        <= self.recipients@.len(),
                out@.len() == k,
                forall|gi: int|
                    0 <= gi < k ==> {
                        let s = #[trigger] out@[gi];
                        &&& s.from@ == address_of_key(self.signer_key@)
                        &&& s.to@ == self.contract_address@
                        &&& s.value is None
                        &&& s.data@ == batch_mint_calldata(
                            self.group_recipients(gi),
                            self.image_url@,
                        )
                    },
            decreases bounds@.len() - k,
        {
            let (gs, ge) = bounds[k];
            let data = encode_batch_mint(&self.recipients, gs, ge, &self.image_url);
            out.push(SimulationRequest { from, to: self.contract_address, value: None, data });
            k = k + 1;
        }
        Ok(out)
    }

    /// Produces one intent per group, in group order, with contiguous
    /// sequence numbers from `start_nonce` and each group's margined gas
    /// estimate.
    pub fn build_intents(&self, estimates: &Vec<u64>, start_nonce: u64) -> (r: Vec<
        TransactionIntent,
    >)
        requires
            self.recipients@.len() + MINT_GROUP_SIZE <= usize::MAX,
            estimates@.len() == self.groups(),
            forall|gi: int|
                0 <= gi < estimates@.len() ==> (#[trigger] estimates@[gi]) * MINT_MARGIN_NUM
                    <= u64::MAX * MARGIN_DEN,
            start_nonce + self.groups() <= u64::MAX,
        ensures
            r@.len() == self.groups(),
            forall|gi: int|
                0 <= gi < r@.len() ==> (#[trigger] r@[gi])@ == self.intent_model(
                    estimates@,
                    start_nonce,
                    gi,
                ),
    {
        let bounds = group_bounds(self.recipients.len(), MINT_GROUP_SIZE);
        let mut out: Vec<TransactionIntent> = Vec::new();
        let mut k: usize = 0;
        while k < bounds.len()
            invariant
                k <= bounds@.len(),
                bounds@.len() == self.groups(),
                estimates@.len() == self.groups(),
                forall|gi: int|
                    0 <= gi < estimates@.len() ==> (#[trigger] estimates@[gi]) * MINT_MARGIN_NUM
                        <= u64::MAX * MARGIN_DEN,
                start_nonce + self.groups() <= u64::MAX,
                forall|gi: int|
                    0 <= gi < bounds@.len() ==> (#[trigger] bounds@[gi]).0 == gi * MINT_GROUP_SIZE
                        && bounds@[gi].1 == group_end(
                        self.recipients@.len() as int,
                        MINT_GROUP_SIZE as int,
                        gi,
                    ),
                forall|gi: int|
                    0 <= gi < bounds@.len() ==> (#[trigger] bounds@[gi]).0 < bounds@[gi].1
                        <= self.recipients@.len(),
                out@.len() == k,
                forall|gi: int|
                    0 <= gi < k ==> (#[trigger] out@[gi])@ == self.intent_model(
                        estimates@,
                        start_nonce,
                        gi,
                    ),
            decreases bounds@.len() - k,
        {
            let (gs, ge) = bounds[k];
            let data = encode_batch_mint(&self.recipients, gs, ge, &self.image_url);
            let gas = apply_margin(estimates[k], MINT_MARGIN_NUM, MARGIN_DEN);
            let intent = TransactionIntent {
                nonce: start_nonce + (k as u64),
                gas_price: GAS_PRICE,
                gas_limit: gas,
                to: self.contract_address,
                value: 0,
                input: data,
                chain_id: CHAIN_ID,
            };
            out.push(intent);
            k = k + 1;
        }
        out
    }

    /// Builds and signs the whole distribution: one signed batch-mint call
    /// per group, in order, with contiguous sequence numbers from
    /// `start_nonce`.
    pub fn build_transactions(&self, estimates: &Vec<u64>, start_nonce: u64) -> (r: Result<
        Vec<SignedTransaction>,
        BuildError,
    >)
        requires
            self.wf(),
            self.recipients@.len() + MINT_GROUP_SIZE <= usize::MAX,
            estimates@.len() == self.groups(),
            forall|gi: int|
                0 <= gi < estimates@.len() ==> (#[trigger] estimates@[gi]) * MINT_MARGIN_NUM
                    <= u64::MAX * MARGIN_DEN,
            start_nonce + self.groups() <= u64::MAX,
        ensures
            (r is Ok) <==> (forall|gi: int|
                0 <= gi < self.groups() ==> signing_ok(
                    self.signer_key@,
                    #[trigger] self.intent_model(estimates@, start_nonce, gi),
                )),
            r matches Ok(v) ==> {
                &&& v@.len() == self.groups()
                &&& forall|gi: int|
                    0 <= gi < v@.len() ==> (#[trigger] v@[gi]).payload@ == signed_wire_of(
                        self.signer_key@,
                        self.intent_model(estimates@, start_nonce, gi),
                    )
                &&& forall|gi: int|
                    0 <= gi < v@.len() ==> (#[trigger] v@[gi]).nonce == start_nonce + gi
            },
            r matches Err(e) ==> e == BuildError::Signing,
    {
        let intents = self.build_intents(estimates, start_nonce);
        let r = sign_intents(&self.signer_key, &intents);
        proof {
            assert forall|gi: int|
                #![trigger intents@[gi]]
                #![trigger self.intent_model(estimates@, start_nonce, gi)]
                0 <= gi < intents@.len() implies signing_ok(self.signer_key@, intents@[gi]@)
                == signing_ok(self.signer_key@, self.intent_model(estimates@, start_nonce, gi)) by {
                assert(intents@[gi]@ == self.intent_model(estimates@, start_nonce, gi));
            }
        }
        r
    }
}

} // verus!
