//! Transaction intents and signed transactions.

use vstd::prelude::*;
use crate::address::AccountAddress;

verus! {

/// Chain identifier carried by every transaction of this engine.
pub const CHAIN_ID: u64 = 10143;

/// Fee per unit of gas, in minor units.
pub const GAS_PRICE: u128 = 52_000_000_000;

/// Fixed gas ceiling of a plain value transfer; its cost is constant, so no
/// estimation is needed.
pub const DIRECT_TRANSFER_GAS: u64 = 21_000;

/// An abstract description of one on-chain operation, immutable once it
/// carries its sequence number.
#[derive(Debug)]
pub struct TransactionIntent {
    /// The per-identity sequence number this operation must carry.
    pub nonce: u64,
    /// Fee per unit of gas.
    pub gas_price: u128,
    /// Gas ceiling authorized for the execution.
    pub gas_limit: u64,
    /// Target account or contract.
    pub to: AccountAddress,
    /// Transferred value in minor units.
    pub value: u128,
    /// Call parameters.
    pub input: Vec<u8>,
    /// Chain the operation is bound to.
    pub chain_id: u64,
}

/// The mathematical content of a `TransactionIntent`.
pub ghost struct IntentModel {
    pub nonce: u64,
    pub gas_price: u128,
    pub gas_limit: u64,
    pub to: Seq<u8>,
    pub value: u128,
    pub input: Seq<u8>,
    pub chain_id: u64,
}

impl View for TransactionIntent {
    type V = IntentModel;

    open spec fn view(&self) -> IntentModel {
        IntentModel {
            nonce: self.nonce,
            gas_price: self.gas_price,
            gas_limit: self.gas_limit,
            to: self.to@,
            value: self.value,
            input: self.input@,
            chain_id: self.chain_id,
        }
    }
}

/// A simulated-call description for gas estimation against a remote node:
/// the call is described but never committed, and the node reports its gas
/// usage.
#[derive(Debug)]
pub struct SimulationRequest {
    /// The account the simulated call originates from.
    pub from: AccountAddress,
    /// The contract the simulated call targets.
    pub to: AccountAddress,
    /// The value the simulated call would transfer, if any.
    pub value: Option<u128>,
    /// The call parameters.
    pub data: Vec<u8>,
}

/// A wire-ready signed transaction.  The payload is never mutated after
/// signing; a resubmission reuses the identical text.  It carries exactly
/// the sequence number of the intent it was signed from.
#[derive(Debug, Clone)]
pub struct SignedTransaction {
    /// The `0x`-prefixed hexadecimal wire encoding of the signed operation.
    pub payload: String,
    /// The sequence number the payload carries.
    pub nonce: u64,
}

} // verus!
