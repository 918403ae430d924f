//! Applying the signing identity to transaction intents.
//!
//! Signing is deterministic: for fixed key bytes and fixed transaction
//! fields, the wire text is always the same, so resubmission of a signed
//! transaction reuses an identical payload.

use vstd::prelude::*;
use crate::address::AccountAddress;
use crate::errors::BuildError;
use crate::intent::{IntentModel, SignedTransaction, TransactionIntent};
use alloy_consensus::transaction::SignableTransaction;
use alloy_consensus::TxLegacy;
use alloy_network::TxSignerSync;
use alloy_primitives::{Address, B256, TxKind, U256};
use alloy_signer_local::PrivateKeySigner;

verus! {

/// The wire text that signing an intent with a key produces.
pub uninterp spec fn signed_wire_of(key: Seq<u8>, intent: IntentModel) -> Seq<char>;

/// Whether signing an intent with a key succeeds.
pub uninterp spec fn signing_ok(key: Seq<u8>, intent: IntentModel) -> bool;

/// Whether 32 bytes are accepted as a signing key.
pub uninterp spec fn key_accepted(key: Seq<u8>) -> bool;

/// The account address derived from a signing key.
pub uninterp spec fn address_of_key(key: Seq<u8>) -> Seq<u8>;

/// Relies on alloy's local signer: `PrivateKeySigner::from_bytes` accepts or
/// rejects key bytes deterministically; `sign_transaction_sync` signs with
/// deterministic ECDSA (RFC 6979); the legacy transaction is then RLP
/// encoded and written as `0x`-prefixed hexadecimal text by `hex::encode`.
/// Success and the produced text are functions of the key bytes and the
/// transaction fields alone.
#[verifier::external_body]
fn sign_and_encode(key: &Vec<u8>, intent: &TransactionIntent) -> (r: Option<String>)
    requires
        key@.len() == 32,
    ensures
        (r is Some) == signing_ok(key@, intent@),
        r matches Some(s) ==> s@ == signed_wire_of(key@, intent@),
{
    let signer = PrivateKeySigner::from_bytes(&B256::from_slice(key)).ok()?;
    let mut tx = TxLegacy {
        chain_id: Some(intent.chain_id),
        nonce: intent.nonce,
        gas_price: intent.gas_price,
        gas_limit: intent.gas_limit,
        to: TxKind::Call(Address::from_slice(&intent.to.bytes)),
        value: U256::from(intent.value),
        input: intent.input.clone().into(),
    };
    let signature = signer.sign_transaction_sync(&mut tx).ok()?;
    let mut buf = Vec::new();
    tx.into_signed(signature).rlp_encode(&mut buf);
    Some(format!("0x{}", hex::encode(buf)))
}

/// Relies on alloy's local signer: `PrivateKeySigner::from_bytes` accepts or
/// rejects key bytes deterministically, and the signer's account address is
/// derived from the key bytes alone.
#[verifier::external_body]
pub fn signer_account(key: &Vec<u8>) -> (r: Option<AccountAddress>)
    requires
        key@.len() == 32,
    ensures
        (r is Some) == key_accepted(key@),
        r matches Some(a) ==> a@ == address_of_key(key@),
{
    let signer = PrivateKeySigner::from_bytes(&B256::from_slice(key)).ok()?;
    Some(AccountAddress { bytes: signer.address().into_array() })
}

/// Signs every intent in order, producing one wire-ready transaction per
/// intent.  The transform keeps order and length and touches no shared
/// state: each output is a function of the key and of its own intent alone.
/// Every signed transaction carries exactly the sequence number of its
/// intent.
pub fn sign_intents(key: &Vec<u8>, intents: &Vec<TransactionIntent>) -> (r: Result<
    Vec<SignedTransaction>,
    BuildError,
>)
    requires
        key@.len() == 32,
    ensures
        (r is Ok) <==> (forall|i: int|
            0 <= i < intents@.len() ==> signing_ok(key@, (#[trigger] intents@[i])@)),
        r matches Ok(v) ==> {
            &&& v@.len() == intents@.len()
            &&& forall|i: int|
                0 <= i < v@.len() ==> (#[trigger] v@[i]).payload@ == signed_wire_of(
                    key@,
                    intents@[i]@,
                )
            &&& forall|i: int| 0 <= i < v@.len() ==> (#[trigger] v@[i]).nonce == intents@[i].nonce
        },
        r matches Err(e) ==> e == BuildError::Signing,
{
    let mut out: Vec<SignedTransaction> = Vec::new();
    let mut i: usize = 0;
    while i < intents.len()
        invariant
            i <= intents@.len(),
            key@.len() == 32,
            out@.len() == i,
            forall|j: int| 0 <= j < i ==> signing_ok(key@, (#[trigger] intents@[j])@),
            forall|j: int|
                0 <= j < i ==> (#[trigger] out@[j]).payload@ == signed_wire_of(
                    key@,
                    intents@[j]@,
                ),
            forall|j: int| 0 <= j < i ==> (#[trigger] out@[j]).nonce == intents@[j].nonce,
        decreases intents@.len() - i,
    {
        let intent = &intents[i];
        match sign_and_encode(key, intent) {
            Some(payload) => {
                out.push(SignedTransaction { payload, nonce: intent.nonce });
            },
            None => {
                return Err(BuildError::Signing);
            },
        }
        i = i + 1;
    }
    Ok(out)
}

} // verus!
