//! Builders for native value distribution: one transaction per recipient,
//! or batched "send to many" contract calls.

use vstd::prelude::*;
use crate::abi::{batch_send_calldata, encode_batch_send};
use crate::address::AccountAddress;
use crate::errors::BuildError;
use crate::grouping::{
    group_bounds, group_count, group_end, seq_sum, sum_range, apply_margin, with_margin,
    BATCH_MARGIN_NUM, MARGIN_DEN,
};
use crate::intent::{
    IntentModel, SignedTransaction, SimulationRequest, TransactionIntent, CHAIN_ID,
    DIRECT_TRANSFER_GAS, GAS_PRICE,
};
use crate::signing::{
    address_of_key, key_accepted, sign_intents, signed_wire_of, signer_account, signing_ok,
};

verus! {

/// Recipients per "send to many" call.
pub const BATCH_GROUP_SIZE: usize = 1000;

/// Builds one plain value transfer per recipient.  Transfer cost is
/// constant, so every transaction carries the fixed gas ceiling and no
/// estimation is needed.
#[derive(Debug)]
pub struct NativeTransferBuilder {
    /// The signing identity's 32 key bytes.
    pub signer_key: Vec<u8>,
    /// One entry per transfer target.
    pub recipients: Vec<AccountAddress>,
    /// Transfer values in minor units, one per recipient.
    pub amounts: Vec<u128>,
}

impl NativeTransferBuilder {
    /// The builder carries a whole signing key.
    pub open spec fn wf(&self) -> bool {
        self.signer_key@.len() == 32
    }

    /// The intent at position `i`: the recipient's transfer, carrying
    /// sequence number `start_nonce + i`.
    pub open spec fn intent_model(&self, start_nonce: u64, i: int) -> IntentModel {
        IntentModel {
            nonce: (start_nonce + i) as u64,
            gas_price: GAS_PRICE,
            gas_limit: DIRECT_TRANSFER_GAS,
            to: self.recipients@[i]@,
            value: self.amounts@[i],
            input: Seq::empty(),
            chain_id: CHAIN_ID,
        }
    }

    /// Produces one intent per recipient, in recipient order, with
    /// contiguous sequence numbers from `start_nonce`.
    pub fn build_intents(&self, start_nonce: u64) -> (r: Result<Vec<TransactionIntent>, BuildError>)
        requires
            start_nonce + self.recipients@.len() <= u64::MAX,
        ensures
            (r is Ok) <==> self.recipients@.len() == self.amounts@.len(),
            r matches Err(e) ==> e == BuildError::Consistency,
            r matches Ok(v) ==> {
                &&& v@.len() == self.recipients@.len()
                &&& forall|i: int|
                    0 <= i < v@.len() ==> (#[trigger] v@[i])@ == self.intent_model(start_nonce, i)
            },
    {
        if self.recipients.len() != self.amounts.len() {
            return Err(BuildError::Consistency);
        }
        let mut out: Vec<TransactionIntent> = Vec::new();
        let mut i: usize = 0;
        while i < self.recipients.len()
            invariant
                i <= self.recipients@.len(),
                self.recipients@.len() == self.amounts@.len(),
                start_nonce + self.recipients@.len() <= u64::MAX,
                out@.len() == i,
                forall|j: int|
                    0 <= j < i ==> (#[trigger] out@[j])@ == self.intent_model(start_nonce, j),
            decreases self.recipients@.len() - i,
        {
            let intent = TransactionIntent {
                nonce: start_nonce + (i as u64),
                gas_price: GAS_PRICE,
                gas_limit: DIRECT_TRANSFER_GAS,
                to: self.recipients[i],
                value: self.amounts[i],
                input: Vec::new(),
                chain_id: CHAIN_ID,
            };
            out.push(intent);
            i = i + 1;
        }
        Ok(out)
    }

    /// Builds and signs the whole distribution: one signed transaction per
    /// recipient, in order, with contiguous sequence numbers from
    /// `start_nonce`.
    pub fn build_transactions(&self, start_nonce: u64) -> (r: Result<
        Vec<SignedTransaction>,
        BuildError,
    >)
        requires
            self.wf(),
            start_nonce + self.recipients@.len() <= u64::MAX,
        ensures
            (r is Ok) <==> (self.recipients@.len() == self.amounts@.len() && forall|i: int|
                0 <= i < self.recipients@.len() ==> signing_ok(
                    self.signer_key@,
                    #[trigger] self.intent_model(start_nonce, i),
                )),
            r matches Ok(v) ==> {
                &&& v@.len() == self.recipients@.len()
                &&& forall|i: int|
                    0 <= i < v@.len() ==> (#[trigger] v@[i]).payload@ == signed_wire_of(
                        self.signer_key@,
                        self.intent_model(start_nonce, i),
                    )
                &&& forall|i: int|
                    0 <= i < v@.len() ==> (#[trigger] v@[i]).nonce == start_nonce + i
            },
            r matches Err(e) ==> (if self.recipients@.len() != self.amounts@.len() {
                e == BuildError::Consistency
            } else {
                e == BuildError::Signing
            }),
    {
        let intents = match self.build_intents(start_nonce) {
            Ok(v) => v,
            Err(e) => {
                return Err(e);
            },
        };
        let r = sign_intents(&self.signer_key, &intents);
        proof {
            assert forall|i: int|
                #![trigger intents@[i]]
                #![trigger self.intent_model(start_nonce, i)]
                0 <= i < intents@.len() implies signing_ok(self.signer_key@, intents@[i]@)
                == signing_ok(self.signer_key@, self.intent_model(start_nonce, i)) by {
                assert(intents@[i]@ == self.intent_model(start_nonce, i));
            }
        }
        r
    }
}

/// Builds batched "send to many" contract calls: recipients are split into
/// fixed-size groups, each group becomes one contract call whose value is
/// the sum of the group's amounts, and each group's gas ceiling is
/// estimated separately because the call data size varies by group.
#[derive(Debug)]
pub struct NativeBatchSenderBuilder {
    /// The signing identity's 32 key bytes.
    pub signer_key: Vec<u8>,
    /// The "send to many" contract.
    pub contract_address: AccountAddress,
    /// One entry per transfer target.
    pub recipients: Vec<AccountAddress>,
    /// Transfer values in minor units, one per recipient.
    pub amounts: Vec<u128>,
}

impl NativeBatchSenderBuilder {
    /// The builder carries a whole signing key.
    pub open spec fn wf(&self) -> bool {
        self.signer_key@.len() == 32
    }

    /// How many groups — and so how many intents and gas estimations —
    /// this distribution produces.
    pub open spec fn groups(&self) -> int {
        group_count(self.recipients@.len() as int, BATCH_GROUP_SIZE as int)
    }

    /// The recipients of group `gi`.
    pub open spec fn group_recipients(&self, gi: int) -> Seq<AccountAddress> {
        self.recipients@.subrange(
            gi * BATCH_GROUP_SIZE,
            group_end(self.recipients@.len() as int, BATCH_GROUP_SIZE as int, gi),
        )
    }

    /// The amounts of group `gi`.
    pub open spec fn group_amounts(&self, gi: int) -> Seq<u128> {
        self.amounts@.subrange(
            gi * BATCH_GROUP_SIZE,
            group_end(self.recipients@.len() as int, BATCH_GROUP_SIZE as int, gi),
        )
    }

    /// The value a group's call transfers: the sum of its amounts.
    pub open spec fn group_value(&self, gi: int) -> int {
        seq_sum(self.group_amounts(gi))
    }

    /// Every group's value fits the wire value field.
    pub open spec fn values_fit(&self) -> bool {
        forall|gi: int| 0 <= gi < self.groups() ==> #[trigger] self.group_value(gi) <= u128::MAX
    }

    /// The intent of group `gi`: one "send to many" call, carrying sequence
    /// number `start_nonce + gi` and the group's margined gas ceiling.
    pub open spec fn intent_model(&self, estimates: Seq<u64>, start_nonce: u64, gi: int) -> IntentModel {
        IntentModel {
            nonce: (start_nonce + gi) as u64,
            gas_price: GAS_PRICE,
            gas_limit: with_margin(estimates[gi], BATCH_MARGIN_NUM, MARGIN_DEN) as u64,
            to: self.contract_address@,
            value: self.group_value(gi) as u128,
            input: batch_send_calldata(self.group_recipients(gi), self.group_amounts(gi)),
            chain_id: CHAIN_ID,
        }
    }

    /// One simulated-call description per group, in group order, for gas
    /// estimation against a remote node.
    pub fn simulation_requests(&self) -> (r: Result<Vec<SimulationRequest>, BuildError>)
        requires
            self.wf(),
            self.recipients@.len() + BATCH_GROUP_SIZE <= usize::MAX,
        ensures
            (r is Ok) <==> (self.recipients@.len() == self.amounts@.len() && key_accepted(
                self.signer_key@,
            ) && self.values_fit()),
            r matches Ok(v) ==> {
                &&& v@.len() == self.groups()
                &&& forall|gi: int|
                    0 <= gi < v@.len() ==> {
                        let s = #[trigger] v@[gi];
                        &&& s.from@ == address_of_key(self.signer_key@)
                        &&& s.to@ == self.contract_address@
                        &&& s.value == Some(self.group_value(gi) as u128)
                        &&& s.data@ == batch_send_calldata(
                            self.group_recipients(gi),
                            self.group_amounts(gi),
                        )
                    }
            },
            r matches Err(e) ==> (if self.recipients@.len() != self.amounts@.len() {
                e == BuildError::Consistency
            } else if !key_accepted(self.signer_key@) {
                e == BuildError::Signing
            } else {
                e == BuildError::ValueOverflow && !self.values_fit()
            }),
    {
        if self.recipients.len() != self.amounts.len() {
            return Err(BuildError::Consistency);
        }
        let from = match signer_account(&self.signer_key) {
            Some(a) => a,
            None => {
                return Err(BuildError::Signing);
            },
        };
        let bounds = group_bounds(self.recipients.len(), BATCH_GROUP_SIZE);
        let mut out: Vec<SimulationRequest> = Vec::new();
        let mut k: usize = 0;
        while k < bounds.len()
            invariant
                k <= bounds@.len(),
                self.recipients@.len() == self.amounts@.len(),
                bounds@.len() == self.groups(),
                key_accepted(self.signer_key@),
                from@ == address_of_key(self.signer_key@),
                forall|gi: int|
                    0 <= gi < bounds@.len() ==> (#[trigger] bounds@[gi]).0 == gi
                        * BATCH_GROUP_SIZE && bounds@[gi].1 == group_end(
                        self.recipients@.len() as int,
                        BATCH_GROUP_SIZE as int,
                        gi,
                    ),
                forall|gi: int|
                    0 <= gi < bounds@.len() ==> (#[trigger] bounds@[gi]).0 < bounds@[gi].1
                        <= self.recipients@.len(),
                out@.len() == k,
                forall|gi: int| 0 <= gi < k ==> #[trigger] self.group_value(gi) <= u128::MAX,
                forall|gi: int|
                    0 <= gi < k ==> {
                        let s = #[trigger] out@[gi];
                        &&& s.from@ == address_of_key(self.signer_key@)
                        &&& s.to@ == self.contract_address@
                        &&& s.value == Some(self.group_value(gi) as u128)
                        &&& s.data@ == batch_send_calldata(
                            self.group_recipients(gi),
                            self.group_amounts(gi),
                        )
                    },
            decreases bounds@.len() - k,
        {
            let (gs, ge) = bounds[k];
            let sum = match sum_range(&self.amounts, gs, ge) {
                Ok(s) => s,
                Err(_) => {
                    proof {
                        assert(self.group_amounts(k as int) == self.amounts@.subrange(
                            gs as int,
                            ge as int,
                        ));
                        assert(self.group_value(k as int) > u128::MAX);
                    }
                    return Err(BuildError::ValueOverflow);
                },
            };
            proof {
                assert(self.group_amounts(k as int) == self.amounts@.subrange(gs as int, ge as int));
            }
            let data = encode_batch_send(&self.recipients, &self.amounts, gs, ge);
            out.push(
                SimulationRequest {
                    from,
                    to: self.contract_address,
                    value: Some(sum),
                    data,
                },
            );
            k = k + 1;
        }
        Ok(out)
    }

    /// Produces one intent per group, in group order, with contiguous
    /// sequence numbers from `start_nonce` and each group's margined gas
    /// estimate.
    pub fn build_intents(&self, estimates: &Vec<u64>, start_nonce: u64) -> (r: Result<
        Vec<TransactionIntent>,
        BuildError,
    >)
        requires
            self.recipients@.len() + BATCH_GROUP_SIZE <= usize::MAX,
            estimates@.len() == self.groups(),
            forall|gi: int|
                0 <= gi < estimates@.len() ==> (#[trigger] estimates@[gi]) * BATCH_MARGIN_NUM
                    <= u64::MAX * MARGIN_DEN,
            start_nonce + self.groups() <= u64::MAX,
        ensures
            (r is Ok) <==> (self.recipients@.len() == self.amounts@.len() && self.values_fit()),
            r matches Ok(v) ==> {
                &&& v@.len() == self.groups()
                &&& forall|gi: int|
                    0 <= gi < v@.len() ==> (#[trigger] v@[gi])@ == self.intent_model(
                        estimates@,
                        start_nonce,
                        gi,
                    )
            },
            r matches Err(e) ==> (if self.recipients@.len() != self.amounts@.len() {
                e == BuildError::Consistency
            } else {
                e == BuildError::ValueOverflow && !self.values_fit()
            }),
    {
        if self.recipients.len() != self.amounts.len() {
            return Err(BuildError::Consistency);
        }
        let bounds = group_bounds(self.recipients.len(), BATCH_GROUP_SIZE);
        let mut out: Vec<TransactionIntent> = Vec::new();
        let mut k: usize = 0;
        while k < bounds.len()
            invariant
                k <= bounds@.len(),
                self.recipients@.len() == self.amounts@.len(),
                bounds@.len() == self.groups(),
                estimates@.len() == self.groups(),
                forall|gi: int|
                    0 <= gi < estimates@.len() ==> (#[trigger] estimates@[gi]) * BATCH_MARGIN_NUM
                        <= u64::MAX * MARGIN_DEN,
                start_nonce + self.groups() <= u64::MAX,
                forall|gi: int|
                    0 <= gi < bounds@.len() ==> (#[trigger] bounds@[gi]).0 == gi
                        * BATCH_GROUP_SIZE && bounds@[gi].1 == group_end(
                        self.recipients@.len() as int,
                        BATCH_GROUP_SIZE as int,
                        gi,
                    ),
                forall|gi: int|
                    0 <= gi < bounds@.len() ==> (#[trigger] bounds@[gi]).0 < bounds@[gi].1
                        <= self.recipients@.len(),
                out@.len() == k,
                forall|gi: int| 0 <= gi < k ==> #[trigger] self.group_value(gi) <= u128::MAX,
                forall|gi: int|
                    0 <= gi < k ==> (#[trigger] out@[gi])@ == self.intent_model(
                        estimates@,
                        start_nonce,
                        gi,
                    ),
            decreases bounds@.len() - k,
        {
            let (gs, ge) = bounds[k];
            let sum = match sum_range(&self.amounts, gs, ge) {
                Ok(s) => s,
                Err(_) => {
                    proof {
                        assert(self.group_amounts(k as int) == self.amounts@.subrange(
                            gs as int,
                            ge as int,
                        ));
                        assert(self.group_value(k as int) > u128::MAX);
                    }
                    return Err(BuildError::ValueOverflow);
                },
            };
            proof {
                assert(self.group_amounts(k as int) == self.amounts@.subrange(gs as int, ge as int));
            }
            let data = encode_batch_send(&self.recipients, &self.amounts, gs, ge);
            let gas = apply_margin(estimates[k], BATCH_MARGIN_NUM, MARGIN_DEN);
            let intent = TransactionIntent {
                nonce: start_nonce + (k as u64),
                gas_price: GAS_PRICE,
                gas_limit: gas,
                to: self.contract_address,
                value: sum,
                input: data,
                chain_id: CHAIN_ID,
            };
            out.push(intent);
            k = k + 1;
        }
        Ok(out)
    }

    /// Builds and signs the whole distribution: one signed "send to many"
    /// call per group, in order, with contiguous sequence numbers from
    /// `start_nonce`.
    pub fn build_transactions(&self, estimates: &Vec<u64>, start_nonce: u64) -> (r: Result<
        Vec<SignedTransaction>,
        BuildError,
    >)
        requires
            self.wf(),
            self.recipients@.len() + BATCH_GROUP_SIZE <= usize::MAX,
            estimates@.len() == self.groups(),
            forall|gi: int|
                0 <= gi < estimates@.len() ==> (#[trigger] estimates@[gi]) * BATCH_MARGIN_NUM
                    <= u64::MAX * MARGIN_DEN,
            start_nonce + self.groups() <= u64::MAX,
        ensures
            (r is Ok) <==> (self.recipients@.len() == self.amounts@.len() && self.values_fit()
                && forall|gi: int|
                0 <= gi < self.groups() ==> signing_ok(
                    self.signer_key@,
                    #[trigger] self.intent_model(estimates@, start_nonce, gi),
                )),
            r matches Ok(v) ==> {
                &&& v@.len() == self.groups()
                &&& forall|gi: int|
                    0 <= gi < v@.len() ==> (#[trigger] v@[gi]).payload@ == signed_wire_of(
                        self.signer_key@,
                        self.intent_model(estimates@, start_nonce, gi),
                    )
                &&& forall|gi: int|
                    0 <= gi < v@.len() ==> (#[trigger] v@[gi]).nonce == start_nonce + gi
            },
            r matches Err(e) ==> (if self.recipients@.len() != self.amounts@.len() {
                e == BuildError::Consistency
            } else if !self.values_fit() {
                e == BuildError::ValueOverflow
            } else {
                e == BuildError::Signing
            }),
    {
        let intents = match self.build_intents(estimates, start_nonce) {
            Ok(v) => v,
            Err(e) => {
                return Err(e);
            },
        };
        let r = sign_intents(&self.signer_key, &intents);
        proof {
            assert forall|gi: int|
                #![trigger intents@[gi]]
                #![trigger self.intent_model(estimates@, start_nonce, gi)]
                0 <= gi < intents@.len() implies signing_ok(self.signer_key@, intents@[gi]@)
                == signing_ok(self.signer_key@, self.intent_model(estimates@, start_nonce, gi)) by {
                assert(intents@[gi]@ == self.intent_model(estimates@, start_nonce, gi));
            }
        }
        r
    }
}

} // verus!
