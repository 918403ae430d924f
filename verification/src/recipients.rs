//! Loading a recipient source.
//!
//! A source is a list of lines, each an account address optionally
//! followed by a comma and a transfer amount.  Malformed lines are
//! skipped; duplicate addresses keep their first occurrence only; a
//! source mixing amount-bearing and amount-less rows is rejected
//! entirely.

use vstd::prelude::*;
use vstd::slice::{slice_index_get, slice_subrange};
use vstd::string::StringSliceAdditionalSpecFns;
use vstd::utf8::encode_utf8;
use crate::address::{address_bytes_of, is_address_text, parse_address_bytes, AccountAddress};
use crate::amount::{amount_val, digits_val, is_amount_text, parse_amount_bytes, whole_digits};
use crate::errors::LoadError;

verus! {

/// One entry of a loaded recipient source.
#[derive(Debug, Clone, Copy)]
pub struct Recipient {
    /// The account the entry names.
    pub address: AccountAddress,
    /// The entry's transfer amount in minor units, if the source carries
    /// amounts.
    pub amount: Option<u128>,
}

/// ASCII whitespace.
pub open spec fn is_ws(b: u8) -> bool {
    b == 32 || (9 <= b <= 13)
}

/// A byte string without its leading whitespace.
pub open spec fn trim_start(s: Seq<u8>) -> Seq<u8>
    decreases s.len(),
{
    if s.len() > 0 && is_ws(s[0]) {
        trim_start(s.drop_first())
    } else {
        s
    }
}

/// A byte string without its trailing whitespace.
pub open spec fn trim_end(s: Seq<u8>) -> Seq<u8>
    decreases s.len(),
{
    if s.len() > 0 && is_ws(s.last()) {
        trim_end(s.drop_last())
    } else {
        s
    }
}

/// A byte string without leading or trailing whitespace.
pub open spec fn trimmed(s: Seq<u8>) -> Seq<u8> {
    trim_end(trim_start(s))
}

/// The index of the first `,` in `s`, or `s.len()` if there is none.
pub open spec fn comma_index(s: Seq<u8>) -> int
    decreases s.len(),
{
    if s.len() == 0 {
        0
    } else if s[0] == 44 {
        0
    } else {
        1 + comma_index(s.drop_first())
    }
}

/// The address text of a line: everything before the first comma, trimmed.
pub open spec fn address_field(s: Seq<u8>) -> Seq<u8> {
    trimmed(s.subrange(0, comma_index(s)))
}

/// The amount text of a line: between the first and second commas, absent
/// when the line has no comma.
pub open spec fn amount_field(s: Seq<u8>) -> Option<Seq<u8>> {
    if comma_index(s) < s.len() {
        let rest = s.subrange(comma_index(s) + 1, s.len() as int);
        Some(rest.subrange(0, comma_index(rest)))
    } else {
        None
    }
}

/// What one line denotes: its address bytes and its optional minor-unit
/// amount, or nothing for a malformed line.
pub open spec fn line_meaning(s: Seq<u8>) -> Option<(Seq<u8>, Option<u128>)> {
    if !is_address_text(address_field(s)) {
        None
    } else {
        match amount_field(s) {
            None => Some((address_bytes_of(address_field(s)), None)),
            Some(a) => {
                if is_amount_text(a) && digits_val(whole_digits(a)) <= u64::MAX {
                    Some((address_bytes_of(address_field(s)), Some(amount_val(a) as u128)))
                } else {
                    None
                }
            },
        }
    }
}

/// A scan that found no comma before `i`, and one at `i` if `i` is inside
/// the text, has found the first comma.
proof fn lemma_comma_scan(s: Seq<u8>, i: int)
    requires
        0 <= i <= s.len(),
        forall|j: int| 0 <= j < i ==> s[j] != 44,
        i < s.len() ==> s[i] == 44,
    ensures
        comma_index(s) == i,
    decreases s.len(),
{
    if s.len() == 0 {
    } else if s[0] == 44 {
    } else {
        let t = s.drop_first();
        assert forall|j: int| 0 <= j < i - 1 implies t[j] != 44 by {
            assert(t[j] == s[j + 1]);
        }
        if i - 1 < t.len() {
            assert(t[i - 1] == s[i as int]);
        }
        lemma_comma_scan(t, i - 1);
    }
}

/// A scan that skipped exactly the leading whitespace has found where the
/// trimmed text starts.
proof fn lemma_trim_start_scan(s: Seq<u8>, lo: int)
    requires
        0 <= lo <= s.len(),
        forall|j: int| 0 <= j < lo ==> is_ws(#[trigger] s[j]),
        lo < s.len() ==> !is_ws(s[lo]),
    ensures
        trim_start(s) == s.subrange(lo, s.len() as int),
    decreases lo,
{
    if lo == 0 {
        assert(s.subrange(0, s.len() as int) =~= s);
    } else {
        let t = s.drop_first();
        assert forall|j: int| 0 <= j < lo - 1 implies is_ws(#[trigger] t[j]) by {
            assert(t[j] == s[j + 1]);
        }
        if lo - 1 < t.len() {
            assert(t[lo - 1] == s[lo as int]);
        }
        lemma_trim_start_scan(t, lo - 1);
        assert(t.subrange(lo - 1, t.len() as int) =~= s.subrange(lo, s.len() as int));
    }
}

/// A scan that skipped exactly the trailing whitespace has found where the
/// trimmed text ends.
proof fn lemma_trim_end_scan(s: Seq<u8>, hi: int)
    requires
        0 <= hi <= s.len(),
        forall|j: int| hi <= j < s.len() ==> is_ws(#[trigger] s[j]),
        hi > 0 ==> !is_ws(s[hi - 1]),
    ensures
        trim_end(s) == s.subrange(0, hi),
    decreases s.len(),
{
    if hi == s.len() {
        assert(s.subrange(0, hi) =~= s);
    } else {
        let t = s.drop_last();
        assert forall|j: int| hi <= j < t.len() implies is_ws(#[trigger] t[j]) by {
            assert(t[j] == s[j]);
        }
        if hi > 0 {
            assert(t[hi - 1] == s[hi - 1]);
        }
        lemma_trim_end_scan(t, hi);
        assert(t.subrange(0, hi) =~= s.subrange(0, hi));
    }
}

/// Whether `b` is ASCII whitespace.
fn ws(b: u8) -> (r: bool)
    ensures
        r == is_ws(b),
{
    b == 32 || (9 <= b && b <= 13)
}

/// Finds the first comma in a byte string, or its length if there is none.
fn find_comma(bytes: &[u8]) -> (c: usize)
    ensures
        c == comma_index(bytes@),
        c <= bytes@.len(),
        c < bytes@.len() ==> bytes@[c as int] == 44,
{
    let n = bytes.len();
    let mut c: usize = 0;
    while c < n && *slice_index_get(bytes, c) != 44
        invariant
            c <= n,
            n == bytes.len(),
            forall|j: int| 0 <= j < c ==> bytes@[j] != 44,
        decreases n - c,
    {
        c = c + 1;
    }
    proof {
        lemma_comma_scan(bytes@, c as int);
    }
    c
}

/// Trims ASCII whitespace from both ends of a byte string.
fn trim_bytes<'a>(bytes: &'a [u8]) -> (r: &'a [u8])
    ensures
        r@ == trimmed(bytes@),
{
    let n = bytes.len();
    let mut lo: usize = 0;
    while lo < n && ws(*slice_index_get(bytes, lo))
        invariant
            lo <= n,
            n == bytes.len(),
            forall|j: int| 0 <= j < lo ==> is_ws(#[trigger] bytes@[j]),
        decreases n - lo,
    {
        lo = lo + 1;
    }
    let mut hi: usize = n;
    while hi > lo && ws(*slice_index_get(bytes, hi - 1))
        invariant
            lo <= hi <= n,
            n == bytes.len(),
            forall|j: int| 0 <= j < lo ==> is_ws(#[trigger] bytes@[j]),
            forall|j: int| hi <= j < n ==> is_ws(#[trigger] bytes@[j]),
        decreases hi,
    {
        hi = hi - 1;
    }
    proof {
        lemma_trim_start_scan(bytes@, lo as int);
        let t = bytes@.subrange(lo as int, n as int);
        assert forall|j: int| hi - lo <= j < t.len() implies is_ws(#[trigger] t[j]) by {
            assert(t[j] == bytes@[lo + j]);
        }
        if hi > lo {
            assert(t[hi - lo - 1] == bytes@[hi - 1]);
        }
        lemma_trim_end_scan(t, hi - lo);
        assert(t.subrange(0, hi - lo) =~= bytes@.subrange(lo as int, hi as int));
    }
    slice_subrange(bytes, lo, hi)
}

/// Reads one line of a recipient source: the trimmed text before the
/// first comma as an address and, if a comma is present, the text up to
/// the next comma as a decimal amount.  A line whose address or amount
/// does not parse denotes nothing and is skipped by the loader.
pub fn parse_recipient_line(line: &str) -> (r: Option<Recipient>)
    ensures
        (r is Some) == (line_meaning(line.spec_bytes()) is Some),
        r matches Some(rec) ==> line_meaning(line.spec_bytes()) == Some((rec.address@, rec.amount)),
{
    let bytes: &[u8] = line.as_bytes();
    let n = bytes.len();
    let c0 = find_comma(bytes);
    let afield = trim_bytes(slice_subrange(bytes, 0, c0));
    let address = match parse_address_bytes(afield) {
        Some(a) => a,
        None => {
            return None;
        },
    };
    if c0 < n {
        let rest = slice_subrange(bytes, c0 + 1, n);
        let c1 = find_comma(rest);
        let amt_text = slice_subrange(rest, 0, c1);
        match parse_amount_bytes(amt_text) {
            Some(v) => Some(Recipient { address, amount: Some(v) }),
            None => None,
        }
    } else {
        Some(Recipient { address, amount: None })
    }
}

/// The meaning of a loaded entry.
pub open spec fn row_of(r: Recipient) -> (Seq<u8>, Option<u128>) {
    (r.address@, r.amount)
}

/// The meanings of loaded entries, in order.
pub open spec fn rows_of(v: Seq<Recipient>) -> Seq<(Seq<u8>, Option<u128>)> {
    Seq::new(v.len(), |i: int| row_of(v[i]))
}

/// Whether some row carries this address.
pub open spec fn contains_addr(rows: Seq<(Seq<u8>, Option<u128>)>, a: Seq<u8>) -> bool {
    exists|i: int| 0 <= i < rows.len() && (#[trigger] rows[i]).0 == a
}

/// The rows with every repeated address dropped: the first occurrence
/// wins.
pub open spec fn dedup_rows(rows: Seq<(Seq<u8>, Option<u128>)>) -> Seq<(Seq<u8>, Option<u128>)>
    decreases rows.len(),
{
    if rows.len() == 0 {
        Seq::empty()
    } else {
        let prev = dedup_rows(rows.drop_last());
        if contains_addr(prev, rows.last().0) {
            prev
        } else {
            prev.push(rows.last())
        }
    }
}

/// Whether some row carries an amount.
pub open spec fn has_amount_row(rows: Seq<(Seq<u8>, Option<u128>)>) -> bool
    decreases rows.len(),
{
    if rows.len() == 0 {
        false
    } else {
        has_amount_row(rows.drop_last()) || rows.last().1 is Some
    }
}

/// Whether some row carries no amount.
pub open spec fn has_plain_row(rows: Seq<(Seq<u8>, Option<u128>)>) -> bool
    decreases rows.len(),
{
    if rows.len() == 0 {
        false
    } else {
        has_plain_row(rows.drop_last()) || rows.last().1 is None
    }
}

/// A source that mixes amount-bearing and amount-less rows is rejected.
pub open spec fn mixed_rows(rows: Seq<(Seq<u8>, Option<u128>)>) -> bool {
    has_amount_row(rows) && has_plain_row(rows)
}

/// The meanings of the well-formed lines of a source, in order.
pub open spec fn valid_rows(lines: Seq<Seq<u8>>) -> Seq<(Seq<u8>, Option<u128>)>
    decreases lines.len(),
{
    if lines.len() == 0 {
        Seq::empty()
    } else {
        valid_rows(lines.drop_last()) + match line_meaning(lines.last()) {
            Some(r) => seq![r],
            None => Seq::empty(),
        }
    }
}

/// The byte content of each line.
pub open spec fn lines_bytes(lines: Seq<String>) -> Seq<Seq<u8>> {
    Seq::new(lines.len(), |i: int| encode_utf8(lines[i]@))
}

/// Whether some loaded entry carries this address.
fn contains_address(v: &Vec<Recipient>, a: &AccountAddress) -> (r: bool)
    ensures
        r == contains_addr(rows_of(v@), a@),
{
    let n = v.len();
    let mut i: usize = 0;
    while i < n
        invariant
            i <= n,
            n == v@.len(),
            forall|j: int| 0 <= j < i ==> (#[trigger] rows_of(v@)[j]).0 != a@,
        decreases n - i,
    {
        if crate::address::bytes_eq(v[i].address.bytes.as_slice(), a.bytes.as_slice()) {
            proof {
                assert(rows_of(v@)[i as int].0 == a@);
            }
            return true;
        }
        i = i + 1;
    }
    false
}

/// Extending rows by one extends their dedup by the new row exactly when
/// its address is new.
proof fn lemma_dedup_push(rows: Seq<(Seq<u8>, Option<u128>)>, r: (Seq<u8>, Option<u128>))
    ensures
        dedup_rows(rows.push(r)) == if contains_addr(dedup_rows(rows), r.0) {
            dedup_rows(rows)
        } else {
            dedup_rows(rows).push(r)
        },
{
    assert(rows.push(r).drop_last() =~= rows);
    assert(rows.push(r).last() == r);
}

/// The amount flags of rows extended by one.
proof fn lemma_flags_push(rows: Seq<(Seq<u8>, Option<u128>)>, r: (Seq<u8>, Option<u128>))
    ensures
        has_amount_row(rows.push(r)) == (has_amount_row(rows) || r.1 is Some),
        has_plain_row(rows.push(r)) == (has_plain_row(rows) || r.1 is None),
{
    assert(rows.push(r).drop_last() =~= rows);
    assert(rows.push(r).last() == r);
}

/// The valid rows of lines extended by one.
proof fn lemma_valid_rows_push(lines: Seq<Seq<u8>>, l: Seq<u8>)
    ensures
        valid_rows(lines.push(l)) == valid_rows(lines) + match line_meaning(l) {
            Some(r) => seq![r],
            None => Seq::<(Seq<u8>, Option<u128>)>::empty(),
        },
{
    assert(lines.push(l).drop_last() =~= lines);
    assert(lines.push(l).last() == l);
}

/// Loads a recipient source: reads every line, skips the malformed ones,
/// keeps the first occurrence of every address, and rejects the source
/// entirely if the kept rows mix amount-bearing and amount-less entries.
pub fn load_recipients(lines: &Vec<String>) -> (r: Result<Vec<Recipient>, LoadError>)
    ensures
        (r is Ok) <==> !mixed_rows(dedup_rows(valid_rows(lines_bytes(lines@)))),
        r matches Ok(v) ==> rows_of(v@) == dedup_rows(valid_rows(lines_bytes(lines@))),
        r matches Err(e) ==> e == LoadError::MixedAmountRows,
{
    let ghost all = lines_bytes(lines@);
    let mut out: Vec<Recipient> = Vec::new();
    let mut has_amt = false;
    let mut has_plain = false;
    let mut i: usize = 0;
    proof {
        assert(all.subrange(0, 0) =~= Seq::<Seq<u8>>::empty());
    }
    while i < lines.len()
        invariant
            i <= lines@.len(),
            all == lines_bytes(lines@),
            rows_of(out@) == dedup_rows(valid_rows(all.subrange(0, i as int))),
            has_amt == has_amount_row(rows_of(out@)),
            has_plain == has_plain_row(rows_of(out@)),
        decreases lines@.len() - i,
    {
        let ghost pre_rows = rows_of(out@);
        let line = lines[i].as_str();
        proof {
            assert(line.spec_bytes() == all[i as int]);
            assert(all.subrange(0, i + 1) =~= all.subrange(0, i as int).push(all[i as int]));
        }
        match parse_recipient_line(line) {
            Some(rec) => {
                if !contains_address(&out, &rec.address) {
                    match rec.amount {
                        Some(_) => {
                            has_amt = true;
                        },
                        None => {
                            has_plain = true;
                        },
                    }
                    out.push(rec);
                    proof {
                        assert(rows_of(out@) =~= pre_rows.push(row_of(rec)));
                        lemma_flags_push(pre_rows, row_of(rec));
                    }
                }
            },
            None => {},
        }
        proof {
            let prev_valid = valid_rows(all.subrange(0, i as int));
            lemma_valid_rows_push(all.subrange(0, i as int), all[i as int]);
            match line_meaning(all[i as int]) {
                Some(row) => {
                    assert(prev_valid + seq![row] =~= prev_valid.push(row));
                    lemma_dedup_push(prev_valid, row);
                },
                None => {
                    assert(prev_valid + Seq::<(Seq<u8>, Option<u128>)>::empty() =~= prev_valid);
                },
            }
        }
        i = i + 1;
    }
    proof {
        assert(all.subrange(0, all.len() as int) =~= all);
    }
    if has_amt && has_plain {
        Err(LoadError::MixedAmountRows)
    } else {
        Ok(out)
    }
}

} // verus!
