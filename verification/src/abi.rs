//! Contract-call parameter encoding.
//!
//! The engine encodes three calls itself: a "send to many" value transfer,
//! a collectible batch mint, and a two-argument swap.  Arguments are packed
//! into 32-byte words; dynamic arrays and strings are placed after the head
//! words, addressed by byte offsets.  The four-byte call selector is the
//! head of the Keccak-256 digest of the call signature.

use vstd::prelude::*;
use vstd::string::StringSliceAdditionalSpecFns;
use crate::address::AccountAddress;

verus! {

/// The Keccak-256 digest of a byte string.
pub uninterp spec fn keccak_of(data: Seq<u8>) -> Seq<u8>;

/// Relies on alloy_primitives::keccak256: the digest is 32 bytes and a
/// function of the input bytes alone.
#[verifier::external_body]
fn keccak256_digest(data: &Vec<u8>) -> (r: Vec<u8>)
    ensures
        r@ == keccak_of(data@),
        r@.len() == 32,
{
    alloy_primitives::keccak256(data.as_slice()).to_vec()
}

/// The four-byte call selector that a call signature denotes.
pub fn selector(signature: &Vec<u8>) -> (r: Vec<u8>)
    ensures
        r@ == keccak_of(signature@).subrange(0, 4),
        r@.len() == 4,
{
    let mut digest = keccak256_digest(signature);
    digest.truncate(4);
    digest
}

/// Byte `k` (most significant first) of the 16-byte big-endian form of `v`.
pub open spec fn be_byte_u128(v: u128, k: int) -> u8 {
    (((v >> (((15 - k) * 8) as u128)) % 256) as u8)
}

/// A 32-byte word holding an unsigned number: 16 zero bytes, then the
/// number in big-endian order.
pub open spec fn abi_word_u128(v: u128) -> Seq<u8> {
    Seq::new(32, |i: int| if i < 16 { 0u8 } else { be_byte_u128(v, i - 16) })
}

/// A 32-byte word holding an address: 12 zero bytes, then the 20 address
/// bytes.
pub open spec fn abi_word_address(a: Seq<u8>) -> Seq<u8>
    recommends
        a.len() == 20,
{
    Seq::new(32, |i: int| if i < 12 { 0u8 } else { a[i - 12] })
}

/// A 32-byte word holding a boolean.
pub open spec fn abi_word_bool(b: bool) -> Seq<u8> {
    abi_word_u128(if b { 1u128 } else { 0u128 })
}

/// Appends the 32-byte word of `v`.
pub fn push_abi_word_u128(buf: &mut Vec<u8>, v: u128)
    ensures
        final(buf)@ == old(buf)@ + abi_word_u128(v),
{
    let ghost w = abi_word_u128(v);
    let ghost start = old(buf)@;
    let mut i: usize = 0;
    while i < 16
        invariant
            i <= 16,
            w == abi_word_u128(v),
            start == old(buf)@,
            buf@ =~= start + w.subrange(0, i as int),
        decreases 16 - i,
    {
        buf.push(0u8);
        proof {
            assert(w.subrange(0, i + 1) =~= w.subrange(0, i as int).push(w[i as int]));
        }
        i = i + 1;
    }
    while i < 32
        invariant
            16 <= i <= 32,
            w == abi_word_u128(v),
            start == old(buf)@,
            buf@ =~= start + w.subrange(0, i as int),
        decreases 32 - i,
    {
        let sh: u128 = (8 * (31 - i)) as u128;
        let b: u8 = ((v >> sh) % 256) as u8;
        proof {
            assert(sh == ((15 - (i - 16)) * 8) as u128);
            assert(b == be_byte_u128(v, i - 16));
            assert(w[i as int] == b);
        }
        buf.push(b);
        proof {
            assert(w.subrange(0, i + 1) =~= w.subrange(0, i as int).push(w[i as int]));
        }
        i = i + 1;
    }
    proof {
        assert(w.subrange(0, 32) =~= w);
    }
}

/// Appends the 32-byte word of address `a`.
pub fn push_abi_word_address(buf: &mut Vec<u8>, a: &AccountAddress)
    ensures
        final(buf)@ == old(buf)@ + abi_word_address(a@),
{
    let ghost w = abi_word_address(a@);
    let ghost start = old(buf)@;
    let mut i: usize = 0;
    while i < 12
        invariant
            i <= 12,
            w == abi_word_address(a@),
            start == old(buf)@,
            buf@ =~= start + w.subrange(0, i as int),
        decreases 12 - i,
    {
        buf.push(0u8);
        proof {
            assert(w.subrange(0, i + 1) =~= w.subrange(0, i as int).push(w[i as int]));
        }
        i = i + 1;
    }
    while i < 32
        invariant
            12 <= i <= 32,
            w == abi_word_address(a@),
            start == old(buf)@,
            buf@ =~= start + w.subrange(0, i as int),
        decreases 32 - i,
    {
        let b: u8 = a.bytes[i - 12];
        proof {
            assert(w[i as int] == b);
        }
        buf.push(b);
        proof {
            assert(w.subrange(0, i + 1) =~= w.subrange(0, i as int).push(w[i as int]));
        }
        i = i + 1;
    }
    proof {
        assert(w.subrange(0, 32) =~= w);
    }
}

/// The concatenated address words of `addrs`, in order.
pub open spec fn address_words(addrs: Seq<AccountAddress>) -> Seq<u8>
    decreases addrs.len(),
{
    if addrs.len() == 0 {
        Seq::empty()
    } else {
        address_words(addrs.drop_last()) + abi_word_address(addrs.last()@)
    }
}

/// The concatenated number words of `vals`, in order.
pub open spec fn u128_words(vals: Seq<u128>) -> Seq<u8>
    decreases vals.len(),
{
    if vals.len() == 0 {
        Seq::empty()
    } else {
        u128_words(vals.drop_last()) + abi_word_u128(vals.last())
    }
}

/// Appends the address words of `addrs[start..end]`.
pub fn push_address_words(buf: &mut Vec<u8>, addrs: &Vec<AccountAddress>, start: usize, end: usize)
    requires
        start <= end <= addrs.len(),
    ensures
        final(buf)@ == old(buf)@ + address_words(addrs@.subrange(start as int, end as int)),
{
    let ghost base = old(buf)@;
    let mut j: usize = start;
    proof {
        assert(addrs@.subrange(start as int, start as int) =~= Seq::<AccountAddress>::empty());
    }
    while j < end
        invariant
            start <= j <= end <= addrs.len(),
            base == old(buf)@,
            buf@ == base + address_words(addrs@.subrange(start as int, j as int)),
        decreases end - j,
    {
        let a = addrs[j];
        push_abi_word_address(buf, &a);
        proof {
            let pre = addrs@.subrange(start as int, j as int);
            let post = addrs@.subrange(start as int, j + 1);
            assert(post.drop_last() =~= pre);
            assert(post.last() == addrs@[j as int]);
        }
        j = j + 1;
    }
}

/// Appends the number words of `vals[start..end]`.
pub fn push_u128_words(buf: &mut Vec<u8>, vals: &Vec<u128>, start: usize, end: usize)
    requires
        start <= end <= vals.len(),
    ensures
        final(buf)@ == old(buf)@ + u128_words(vals@.subrange(start as int, end as int)),
{
    let ghost base = old(buf)@;
    let mut j: usize = start;
    proof {
        assert(vals@.subrange(start as int, start as int) =~= Seq::<u128>::empty());
    }
    while j < end
        invariant
            start <= j <= end <= vals.len(),
            base == old(buf)@,
            buf@ == base + u128_words(vals@.subrange(start as int, j as int)),
        decreases end - j,
    {
        let v = vals[j];
        push_abi_word_u128(buf, v);
        proof {
            let pre = vals@.subrange(start as int, j as int);
            let post = vals@.subrange(start as int, j + 1);
            assert(post.drop_last() =~= pre);
            assert(post.last() == vals@[j as int]);
        }
        j = j + 1;
    }
}

/// Zero padding that brings `len` bytes up to a whole number of words.
pub open spec fn pad_len(len: int) -> int {
    (32 - len % 32) % 32
}

/// A byte string padded with zeros to a whole number of words.
pub open spec fn padded_bytes(data: Seq<u8>) -> Seq<u8> {
    data + Seq::new(pad_len(data.len() as int) as nat, |i: int| 0u8)
}

/// The signature whose selector heads a "send to many" call.
pub open spec fn batch_send_sig() -> Seq<u8> {
    "batchSend(address[],uint256[])".spec_bytes()
}

/// The signature whose selector heads a collectible batch-mint call.
pub open spec fn batch_mint_sig() -> Seq<u8> {
    "batchMint(address[],string)".spec_bytes()
}

/// The signature whose selector heads a swap call.
pub open spec fn swap_sig() -> Seq<u8> {
    "swap(uint256,bool)".spec_bytes()
}

/// Call parameters of a "send to many" call: the selector, the offsets of
/// the two arrays, then each array as its length and its words.
pub open spec fn batch_send_calldata(addrs: Seq<AccountAddress>, amounts: Seq<u128>) -> Seq<u8> {
    keccak_of(batch_send_sig()).subrange(0, 4) + abi_word_u128(64) + abi_word_u128(
        (96 + 32 * addrs.len()) as u128,
    ) + abi_word_u128(addrs.len() as u128) + address_words(addrs) + abi_word_u128(
        amounts.len() as u128,
    ) + u128_words(amounts)
}

/// Call parameters of a collectible batch-mint call: the selector, the
/// offsets of the recipient array and of the reference string, the array,
/// then the string as its length and its padded bytes.
pub open spec fn batch_mint_calldata(addrs: Seq<AccountAddress>, uri: Seq<u8>) -> Seq<u8> {
    keccak_of(batch_mint_sig()).subrange(0, 4) + abi_word_u128(64) + abi_word_u128(
        (96 + 32 * addrs.len()) as u128,
    ) + abi_word_u128(addrs.len() as u128) + address_words(addrs) + abi_word_u128(
        uri.len() as u128,
    ) + padded_bytes(uri)
}

/// Call parameters of a swap call: the selector and the two argument words.
pub open spec fn swap_calldata(amount_in: u128, a_to_b: bool) -> Seq<u8> {
    keccak_of(swap_sig()).subrange(0, 4) + abi_word_u128(amount_in) + abi_word_bool(a_to_b)
}

/// Encodes a "send to many" call over `recipients[start..end]` and
/// `amounts[start..end]`.
pub fn encode_batch_send(
    recipients: &Vec<AccountAddress>,
    amounts: &Vec<u128>,
    start: usize,
    end: usize,
) -> (r: Vec<u8>)
    requires
        start <= end <= recipients.len(),
        end <= amounts.len(),
    ensures
        r@ == batch_send_calldata(
            recipients@.subrange(start as int, end as int),
            amounts@.subrange(start as int, end as int),
        ),
{
    let n = end - start;
    let sig: &str = "batchSend(address[],uint256[])";
    let sig_bytes = sig.as_bytes_vec();
    let mut buf = selector(&sig_bytes);
    push_abi_word_u128(&mut buf, 64);
    push_abi_word_u128(&mut buf, 96 + 32 * (n as u128));
    push_abi_word_u128(&mut buf, n as u128);
    push_address_words(&mut buf, recipients, start, end);
    push_abi_word_u128(&mut buf, n as u128);
    push_u128_words(&mut buf, amounts, start, end);
    proof {
        assert(buf@ =~= batch_send_calldata(
            recipients@.subrange(start as int, end as int),
            amounts@.subrange(start as int, end as int),
        ));
    }
    buf
}

/// Encodes a collectible batch-mint call over `recipients[start..end]` with
/// the given reference string.
pub fn encode_batch_mint(
    recipients: &Vec<AccountAddress>,
    start: usize,
    end: usize,
    uri: &Vec<u8>,
) -> (r: Vec<u8>)
    requires
        start <= end <= recipients.len(),
    ensures
        r@ == batch_mint_calldata(recipients@.subrange(start as int, end as int), uri@),
{
    let n = end - start;
    let sig: &str = "batchMint(address[],string)";
    let sig_bytes = sig.as_bytes_vec();
    let mut buf = selector(&sig_bytes);
    push_abi_word_u128(&mut buf, 64);
    push_abi_word_u128(&mut buf, 96 + 32 * (n as u128));
    push_abi_word_u128(&mut buf, n as u128);
    push_address_words(&mut buf, recipients, start, end);
    push_abi_word_u128(&mut buf, uri.len() as u128);
    let ghost before_uri = buf@;
    let mut j: usize = 0;
    while j < uri.len()
        invariant
            j <= uri.len(),
            buf@ =~= before_uri + uri@.subrange(0, j as int),
        decreases uri.len() - j,
    {
        buf.push(uri[j]);
        proof {
            assert(uri@.subrange(0, j + 1) =~= uri@.subrange(0, j as int).push(uri@[j as int]));
        }
        j = j + 1;
    }
    proof {
        assert(uri@.subrange(0, uri@.len() as int) =~= uri@);
    }
    let pad = (32 - uri.len() % 32) % 32;
    let ghost with_uri = buf@;
    let mut k: usize = 0;
    while k < pad
        invariant
            k <= pad,
            pad == pad_len(uri@.len() as int),
            buf@ =~= with_uri + Seq::new(k as nat, |i: int| 0u8),
        decreases pad - k,
    {
        buf.push(0u8);
        proof {
            assert(Seq::new(k as nat + 1, |i: int| 0u8) =~= Seq::new(k as nat, |i: int| 0u8).push(
                0u8,
            ));
        }
        k = k + 1;
    }
    proof {
        assert(buf@ =~= batch_mint_calldata(recipients@.subrange(start as int, end as int), uri@));
    }
    buf
}

/// Encodes a swap call.
pub fn encode_swap(amount_in: u128, a_to_b: bool) -> (r: Vec<u8>)
    ensures
        r@ == swap_calldata(amount_in, a_to_b),
{
    let sig: &str = "swap(uint256,bool)";
    let sig_bytes = sig.as_bytes_vec();
    let mut buf = selector(&sig_bytes);
    push_abi_word_u128(&mut buf, amount_in);
    push_abi_word_u128(&mut buf, if a_to_b { 1 } else { 0 });
    proof {
        assert(buf@ =~= swap_calldata(amount_in, a_to_b));
    }
    buf
}

} // verus!
