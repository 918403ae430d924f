//! Account addresses and their textual form.

use vstd::prelude::*;
use vstd::slice::slice_index_get;
use vstd::string::StringSliceAdditionalSpecFns;

verus! {

/// A 160-bit account address, held as its 20 raw bytes.
#[derive(Debug, Clone, Copy)]
pub struct AccountAddress {
    pub bytes: [u8; 20],
}

impl View for AccountAddress {
    type V = Seq<u8>;

    open spec fn view(&self) -> Seq<u8> {
        self.bytes@
    }
}

impl AccountAddress {
    /// Wraps 20 raw bytes as an address.
    pub fn new(bytes: [u8; 20]) -> (a: AccountAddress)
        ensures
            a@ == bytes@,
    {
        AccountAddress { bytes }
    }
}

/// Whether `b` is the code of an ASCII hexadecimal digit.
pub open spec fn is_hex_digit(b: u8) -> bool {
    (48 <= b <= 57) || (97 <= b <= 102) || (65 <= b <= 70)
}

/// The numeric value of an ASCII hexadecimal digit.
pub open spec fn hex_digit_val(b: u8) -> u8 {
    if 48 <= b <= 57 {
        (b - 48) as u8
    } else if 97 <= b <= 102 {
        (b - 87) as u8
    } else {
        (b - 55) as u8
    }
}

/// Address text may carry a `0x` prefix; this is the text without it.
pub open spec fn strip_hex_prefix(s: Seq<u8>) -> Seq<u8> {
    if s.len() >= 2 && s[0] == 48 && s[1] == 120 {
        s.subrange(2, s.len() as int)
    } else {
        s
    }
}

/// Valid address text: an optional `0x` prefix and exactly 40 hexadecimal
/// digits of either case.
pub open spec fn is_address_text(s: Seq<u8>) -> bool {
    let h = strip_hex_prefix(s);
    h.len() == 40 && forall|i: int| 0 <= i < 40 ==> is_hex_digit(#[trigger] h[i])
}

/// The 20 bytes that valid address text denotes.
pub open spec fn address_bytes_of(s: Seq<u8>) -> Seq<u8> {
    let h = strip_hex_prefix(s);
    Seq::new(20, |i: int| (hex_digit_val(h[2 * i]) * 16 + hex_digit_val(h[2 * i + 1])) as u8)
}

/// Whether two byte strings hold the same bytes.
pub fn bytes_eq(a: &[u8], b: &[u8]) -> (r: bool)
    ensures
        r <==> a@ == b@,
{
    if a.len() != b.len() {
        return false;
    }
    let n = a.len();
    let mut i: usize = 0;
    while i < n
        invariant
            i <= n,
            n == a@.len() == b@.len(),
            forall|j: int| 0 <= j < i ==> a@[j] == b@[j],
        decreases n - i,
    {
        if *slice_index_get(a, i) != *slice_index_get(b, i) {
            return false;
        }
        i = i + 1;
    }
    proof {
        assert(a@ =~= b@);
    }
    true
}

/// The value of one hexadecimal digit, or `None` for any other byte.
pub fn hex_digit_value(b: u8) -> (r: Option<u8>)
    ensures
        r is Some <==> is_hex_digit(b),
        r matches Some(v) ==> v == hex_digit_val(b) && v < 16,
{
    if 48 <= b && b <= 57 {
        Some(b - 48)
    } else if 97 <= b && b <= 102 {
        Some(b - 87)
    } else if 65 <= b && b <= 70 {
        Some(b - 55)
    } else {
        None
    }
}

/// Parses address text (optional `0x` prefix, then 40 hexadecimal digits)
/// into an address; returns `None` for any other text.
pub fn parse_address(s: &str) -> (r: Option<AccountAddress>)
    ensures
        r is Some <==> is_address_text(s.spec_bytes()),
        r matches Some(a) ==> a@ == address_bytes_of(s.spec_bytes()),
{
    parse_address_bytes(s.as_bytes())
}

/// Parses address text given as bytes.
pub fn parse_address_bytes(bytes: &[u8]) -> (r: Option<AccountAddress>)
    ensures
        r is Some <==> is_address_text(bytes@),
        r matches Some(a) ==> a@ == address_bytes_of(bytes@),
{
    let n = bytes.len();
    let offset: usize = if n >= 2 && *slice_index_get(bytes, 0) == 48 && *slice_index_get(bytes, 1)
        == 120 {
        2
    } else {
        0
    };
    let ghost h = strip_hex_prefix(bytes@);
    proof {
        assert(h =~= bytes@.subrange(offset as int, n as int));
    }
    if n - offset != 40 {
        return None;
    }
    let mut out: [u8; 20] = [0u8; 20];
    let mut i: usize = 0;
    while i < 20
        invariant
            i <= 20,
            n == bytes.len(),
            offset + 40 == n,
            h == strip_hex_prefix(bytes@),
            h =~= bytes@.subrange(offset as int, n as int),
            forall|j: int| 0 <= j < 2 * i ==> is_hex_digit(#[trigger] h[j]),
            forall|j: int| 0 <= j < i ==> out@[j] == address_bytes_of(bytes@)[j],
        decreases 20 - i,
    {
        let hi = hex_digit_value(*slice_index_get(bytes, offset + 2 * i));
        let lo = hex_digit_value(*slice_index_get(bytes, offset + 2 * i + 1));
        proof {
            assert(h[2 * i as int] == bytes@[offset + 2 * i]);
            assert(h[2 * i + 1] == bytes@[offset + 2 * i + 1]);
        }
        match (hi, lo) {
            (Some(hv), Some(lv)) => {
                out[i] = hv * 16 + lv;
                proof {
                    assert(out@[i as int] == hv * 16 + lv);
                    assert(out@[i as int] == address_bytes_of(bytes@)[i as int]);
                }
            },
            _ => {
                proof {
                    assert(!(is_hex_digit(h[2 * i]) && is_hex_digit(h[2 * i + 1])));
                    assert(!is_address_text(bytes@));
                }
                return None;
            },
        }
        i = i + 1;
    }
    proof {
        assert(out@ =~= address_bytes_of(bytes@));
    }
    Some(AccountAddress { bytes: out })
}

} // verus!
