use distribution::abi::encode_swap;
use distribution::address::AccountAddress;
use distribution::errors::BuildError;
use distribution::native::{NativeBatchSenderBuilder, NativeTransferBuilder};
use distribution::nft::SoulboundNFTMintBuilder;
use distribution::signing::signer_account;
use distribution::swapper::SwapperBuilder;

fn key() -> Vec<u8> {
    hex::decode("4c0883a69102937d6231471b5dbb6204fe5129617082792ae468d01a3f362318").unwrap()
}

fn addr(i: u32) -> AccountAddress {
    let mut b = [0u8; 20];
    b[16..20].copy_from_slice(&i.to_be_bytes());
    AccountAddress::new(b)
}

fn addrs(n: u32) -> Vec<AccountAddress> {
    (1..=n).map(addr).collect()
}

#[test]
fn direct_transfers_carry_contiguous_sequence_numbers() {
    let b = NativeTransferBuilder {
        signer_key: key(),
        recipients: addrs(3),
        amounts: vec![1, 2, 3],
    };
    let txs = b.build_transactions(41).unwrap();
    assert_eq!(txs.len(), 3);
    assert_eq!(txs[0].nonce, 41);
    assert_eq!(txs[1].nonce, 42);
    assert_eq!(txs[2].nonce, 43);
    for tx in &txs {
        assert!(tx.payload.starts_with("0x"));
        assert!(tx.payload.len() > 2);
    }
    // Different sequence numbers sign to different payloads.
    assert_ne!(txs[0].payload, txs[1].payload);
}

#[test]
fn signing_is_deterministic() {
    let b = NativeTransferBuilder { signer_key: key(), recipients: addrs(2), amounts: vec![5, 5] };
    let once = b.build_transactions(0).unwrap();
    let twice = b.build_transactions(0).unwrap();
    assert_eq!(once[0].payload, twice[0].payload);
    assert_eq!(once[1].payload, twice[1].payload);
}

#[test]
fn mismatched_recipients_and_amounts_are_a_consistency_error() {
    let b = NativeTransferBuilder { signer_key: key(), recipients: addrs(2), amounts: vec![1] };
    assert!(matches!(b.build_transactions(0), Err(BuildError::Consistency)));
}

#[test]
fn a_rejected_key_is_a_signing_error() {
    // The zero scalar is not a usable key.
    let b = NativeTransferBuilder {
        signer_key: vec![0u8; 32],
        recipients: addrs(1),
        amounts: vec![1],
    };
    assert!(matches!(b.build_transactions(0), Err(BuildError::Signing)));
    assert!(signer_account(&vec![0u8; 32]).is_none());
}

#[test]
fn signer_account_is_deterministic_and_key_dependent() {
    let a1 = signer_account(&key()).unwrap();
    let a2 = signer_account(&key()).unwrap();
    assert_eq!(a1.bytes, a2.bytes);
    let other = signer_account(&vec![1u8; 32]).unwrap();
    assert_ne!(a1.bytes, other.bytes);
}

#[test]
fn grouped_distribution_of_1234_recipients_makes_two_calls() {
    let n = 1234u32;
    let amounts: Vec<u128> = (0..n as u128).map(|i| i + 1).collect();
    let b = NativeBatchSenderBuilder {
        signer_key: key(),
        contract_address: addr(9_999_999),
        recipients: addrs(n),
        amounts,
    };
    // Two groups of 1000 and 234 recipients mean two gas estimations...
    let sims = b.simulation_requests().unwrap();
    assert_eq!(sims.len(), 2);
    // ... whose values are the group sums.
    let sum_first_1000: u128 = (1..=1000u128).sum();
    let sum_rest: u128 = (1001..=1234u128).sum();
    assert_eq!(sims[0].value, Some(sum_first_1000));
    assert_eq!(sims[1].value, Some(sum_rest));
    // ... and two signed transactions with sequence numbers base and base + 1.
    let base = 7;
    let txs = b.build_transactions(&vec![21_000, 21_000], base).unwrap();
    assert_eq!(txs.len(), 2);
    assert_eq!(txs[0].nonce, base);
    assert_eq!(txs[1].nonce, base + 1);
}

#[test]
fn batch_gas_ceiling_is_margined_up() {
    let b = NativeBatchSenderBuilder {
        signer_key: key(),
        contract_address: addr(1),
        recipients: addrs(2),
        amounts: vec![1, 2],
    };
    let intents = b.build_intents(&vec![21_001], 0).unwrap();
    assert_eq!(intents.len(), 1);
    // Ten percent above 21001, rounded up.
    assert_eq!(intents[0].gas_limit, 23_102);
    assert_eq!(intents[0].value, 3);
}

#[test]
fn mint_batches_group_by_five_hundred_and_carry_no_value() {
    let b = SoulboundNFTMintBuilder {
        signer_key: key(),
        contract_address: addr(77),
        recipients: addrs(1234),
        image_url: b"ipfs://img".to_vec(),
    };
    let sims = b.simulation_requests().unwrap();
    assert_eq!(sims.len(), 3);
    assert!(sims.iter().all(|s| s.value.is_none()));
    let intents = b.build_intents(&vec![100_000, 100_000, 100_000], 5);
    assert_eq!(intents.len(), 3);
    assert_eq!(intents[0].nonce, 5);
    assert_eq!(intents[2].nonce, 7);
    assert!(intents.iter().all(|i| i.value == 0));
    // Five percent above 100000.
    assert!(intents.iter().all(|i| i.gas_limit == 105_000));
}

#[test]
fn swapper_alternates_direction_and_shares_one_gas_ceiling() {
    let b = SwapperBuilder { signer_key: key(), contract_address: addr(3), max_swaps: 5 };
    let intents = b.build_intents(40_000, 10);
    assert_eq!(intents.len(), 5);
    for (i, intent) in intents.iter().enumerate() {
        assert_eq!(intent.nonce, 10 + i as u64);
        assert_eq!(intent.gas_limit, 42_000);
        assert_eq!(intent.value, 0);
        let expected = encode_swap(100, i % 2 == 0);
        assert_eq!(intent.input, expected);
    }
    let txs = b.build_transactions(40_000, 10).unwrap();
    assert_eq!(txs.len(), 5);
    assert_eq!(txs[4].nonce, 14);
}
