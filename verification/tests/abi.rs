use distribution::abi::{encode_batch_mint, encode_batch_send, encode_swap, selector};
use distribution::address::AccountAddress;

fn addr(last: u8) -> AccountAddress {
    let mut b = [0u8; 20];
    b[19] = last;
    AccountAddress::new(b)
}

#[test]
fn selector_of_the_empty_signature_matches_the_known_digest() {
    // Keccak-256 of the empty string begins c5 d2 46 01.
    let s = selector(&Vec::new());
    assert_eq!(s, vec![0xc5, 0xd2, 0x46, 0x01]);
}

#[test]
fn swap_calldata_has_selector_and_two_words() {
    let data = encode_swap(100, true);
    assert_eq!(data.len(), 4 + 32 + 32);
    // The first argument word holds 100 big-endian.
    assert_eq!(data[4 + 31], 100);
    assert!(data[4..4 + 31].iter().all(|&b| b == 0));
    // The boolean word holds 1.
    assert_eq!(data[4 + 32 + 31], 1);
    let data_false = encode_swap(100, false);
    assert_eq!(data_false[4 + 32 + 31], 0);
    // The two directions share their selector and amount word.
    assert_eq!(data[..36], data_false[..36]);
}

#[test]
fn batch_send_calldata_lays_out_offsets_lengths_and_words() {
    let recipients = vec![addr(1), addr(2)];
    let amounts = vec![5u128, 7u128];
    let data = encode_batch_send(&recipients, &amounts, 0, 2);
    // selector + 2 head words + (len + 2 addresses) + (len + 2 amounts)
    assert_eq!(data.len(), 4 + 64 + 32 * 3 + 32 * 3);
    // Offset of the recipient array: 0x40.
    assert_eq!(data[4 + 31], 0x40);
    // Offset of the amount array: 0x60 + 32 * 2 = 0xa0.
    assert_eq!(data[4 + 32 + 31], 0xa0);
    // Lengths.
    assert_eq!(data[4 + 64 + 31], 2);
    assert_eq!(data[4 + 64 + 96 + 31], 2);
    // First recipient: 12 zero bytes, then its 20 bytes ending in 1.
    assert_eq!(data[4 + 96 + 31], 1);
    assert_eq!(data[4 + 96 + 32 + 31], 2);
    // Amounts.
    assert_eq!(data[4 + 64 + 96 + 32 + 31], 5);
    assert_eq!(data[4 + 64 + 96 + 64 + 31], 7);
}

#[test]
fn batch_send_calldata_respects_the_requested_range() {
    let recipients = vec![addr(1), addr(2), addr(3)];
    let amounts = vec![5u128, 7u128, 9u128];
    let data = encode_batch_send(&recipients, &amounts, 1, 3);
    assert_eq!(data[4 + 64 + 31], 2);
    assert_eq!(data[4 + 96 + 31], 2);
    assert_eq!(data[4 + 96 + 32 + 31], 3);
}

#[test]
fn batch_mint_calldata_pads_the_reference_string() {
    let recipients = vec![addr(9)];
    let uri: Vec<u8> = b"ipfs://x".to_vec();
    let data = encode_batch_mint(&recipients, 0, 1, &uri);
    // selector + 2 head words + (len + 1 address) + (len word + padded string)
    assert_eq!(data.len(), 4 + 64 + 64 + 32 + 32);
    // Offset of the string: 0x60 + 32 = 0x80.
    assert_eq!(data[4 + 32 + 31], 0x80);
    // String length word holds 8.
    assert_eq!(data[4 + 64 + 64 + 31], 8);
    // The string bytes, then zero padding.
    let start = 4 + 64 + 64 + 32;
    assert_eq!(&data[start..start + 8], b"ipfs://x");
    assert!(data[start + 8..].iter().all(|&b| b == 0));
}

#[test]
fn distinct_signatures_give_distinct_selectors() {
    let a = selector(&b"batchSend(address[],uint256[])".to_vec());
    let b = selector(&b"batchMint(address[],string)".to_vec());
    let c = selector(&b"swap(uint256,bool)".to_vec());
    assert_ne!(a, b);
    assert_ne!(a, c);
    assert_ne!(b, c);
    let swap_data = encode_swap(1, false);
    assert_eq!(&swap_data[..4], &c[..]);
}
