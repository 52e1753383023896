//! The length field of a length-prefixed frame.
//!
//! A length is written in base 128, least significant digit first, one digit
//! to a byte. Every byte but the last has its top bit set, so the field ends
//! where the first byte below 128 stands. This is how `postcard` writes a
//! `usize`, and the two functions that touch the wire, [`length_field`] and
//! [`take_length`], hand the work to it.

use vstd::prelude::*;

verus! {

/// The most bytes that a length field may take.
pub const MAX_WIDTH: usize = 10;

/// The bytes that stand for `n` in a length field.
pub open spec fn varint_bytes(n: nat) -> Seq<u8>
    decreases n,
{
    if n < 128 {
        seq![n as u8]
    } else {
        seq![(128 + n % 128) as u8] + varint_bytes(n / 128)
    }
}

/// The number that the base-128 digits at the front of `s` stand for, and
/// how many bytes they take; `None` where `s` ends before the digits do.
pub open spec fn varint_scan(s: Seq<u8>) -> Option<(nat, nat)>
    decreases s.len(),
{
    if s.len() == 0 {
        None
    } else if s[0] < 128 {
        Some((s[0] as nat, 1nat))
    } else {
        match varint_scan(s.skip(1)) {
            Some((high, width)) => Some(((s[0] - 128 + 128 * high) as nat, width + 1)),
            None => None,
        }
    }
}

/// The length that the field at the front of `s` gives, and the field's
/// width in bytes. There is none where `s` ends inside the field, where the
/// field is wider than [`MAX_WIDTH`] bytes, or where the number does not fit
/// a `usize`.
pub open spec fn varint_parse(s: Seq<u8>) -> Option<(nat, nat)> {
    match varint_scan(s) {
        Some((value, width)) => if width <= MAX_WIDTH && value <= usize::MAX {
            Some((value, width))
        } else {
            None
        },
        None => None,
    }
}

/// `postcard::to_stdvec`, on a `usize`: the bytes of the length field for
/// `n`. The call writes into a vector that grows as needed, so it does not
/// fail.
#[verifier::external_body]
pub(crate) fn length_field(n: usize) -> (field: Option<Vec<u8>>)
    ensures
        field is Some,
        field->0@ == varint_bytes(n as nat),
{
    postcard::to_stdvec(&n).ok()
}

/// `postcard::take_from_bytes`, for a `usize`: the length that the field at
/// the front of `src` gives, with the bytes that follow the field. It fails
/// exactly where [`varint_parse`] finds no field.
#[verifier::external_body]
pub(crate) fn take_length<'a>(src: &'a [u8]) -> (taken: Option<(usize, &'a [u8])>)
    ensures
        match taken {
            Some((n, rest)) => {
                &&& varint_parse(src@) matches Some((value, width))
                &&& n == value
                &&& rest@ == src@.skip(width as int)
            },
            None => varint_parse(src@) is None,
        },
{
    postcard::take_from_bytes::<usize>(src).ok()
}

/// A field that was found lies within the bytes it was found in.
pub proof fn lemma_scan_width(s: Seq<u8>)
    ensures
        varint_scan(s) matches Some((_, width)) ==> 1 <= width <= s.len(),
    decreases s.len(),
{
    if s.len() > 0 && s[0] >= 128 {
        lemma_scan_width(s.skip(1));
    }
}

} // verus!

verus! {

/// 128 to the power of `digits`: the first number that needs more than
/// `digits` base-128 digits.
pub open spec fn limit(digits: nat) -> nat
    decreases digits,
{
    if digits == 0 {
        1
    } else {
        128 * limit((digits - 1) as nat)
    }
}

/// A number below `limit(digits)` takes `digits` bytes at most, and one at
/// least.
pub proof fn lemma_width_below_limit(n: nat, digits: nat)
    requires
        1 <= digits,
        n < limit(digits),
    ensures
        1 <= varint_bytes(n).len() <= digits,
    decreases digits,
{
    reveal_with_fuel(limit, 2);
    if n >= 128 {
        lemma_width_below_limit(n / 128, (digits - 1) as nat);
    }
}

/// The field of a length that fits a `usize` is no wider than
/// [`MAX_WIDTH`] bytes.
pub proof fn lemma_width_of_usize(n: nat)
    requires
        n <= usize::MAX,
    ensures
        1 <= varint_bytes(n).len() <= MAX_WIDTH,
{
    assert(limit(10) == 0x40_0000_0000_0000_0000) by {
        reveal_with_fuel(limit, 11);
    }
    lemma_width_below_limit(n, 10);
}

/// Reading back what was written: the field written for `n`, followed by
/// anything at all, is read as `n`, and as exactly as wide as it was
/// written.
pub proof fn lemma_scan_of_bytes(n: nat, rest: Seq<u8>)
    ensures
        varint_scan(varint_bytes(n) + rest) == Some((n, varint_bytes(n).len())),
    decreases n,
{
    let s = varint_bytes(n) + rest;
    if n >= 128 {
        assert(s.skip(1) =~= varint_bytes(n / 128) + rest);
        lemma_scan_of_bytes(n / 128, rest);
    }
}

/// A field of a length that fits a `usize` is parsed as that length,
/// whatever follows it.
pub proof fn lemma_parse_of_bytes(n: nat, rest: Seq<u8>)
    requires
        n <= usize::MAX,
    ensures
        varint_parse(varint_bytes(n) + rest) == Some((n, varint_bytes(n).len())),
{
    lemma_scan_of_bytes(n, rest);
    lemma_width_of_usize(n);
}

/// A field that is cut short is no field: of the bytes written for `n`, no
/// proper prefix is read as a number.
pub proof fn lemma_scan_of_cut_bytes(n: nat, keep: int)
    requires
        0 <= keep < varint_bytes(n).len(),
    ensures
        varint_scan(varint_bytes(n).take(keep)) is None,
    decreases n,
{
    if n >= 128 && keep >= 1 {
        let cut = varint_bytes(n).take(keep);
        assert(cut.skip(1) =~= varint_bytes(n / 128).take(keep - 1));
        lemma_scan_of_cut_bytes(n / 128, keep - 1);
    }
}

} // verus!
