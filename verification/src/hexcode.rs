//! Lowercase hexadecimal rendering of byte strings.
//!
//! Freshly drawn secrets are shown to callers exactly once, so they are
//! rendered printable here before they leave the crate.

use vstd::prelude::*;

verus! {

/// The lowercase hex digit for a nibble value.
pub open spec fn hex_digit(n: int) -> u8 {
    if 0 <= n < 10 {
        (48 + n) as u8
    } else if 10 <= n < 16 {
        (87 + n) as u8
    } else {
        0
    }
}

/// The lowercase hex rendering of a byte string: two digits per byte,
/// high nibble first.
pub open spec fn hex_of(data: Seq<u8>) -> Seq<u8>
    decreases data.len(),
{
    if data.len() == 0 {
        Seq::empty()
    } else {
        hex_of(data.drop_last()) + seq![
            hex_digit((data.last() >> 4) as int),
            hex_digit((data.last() & 0x0f) as int),
        ]
    }
}

fn hex_digit_byte(n: u8) -> (r: u8)
    requires
        n < 16,
    ensures
        r == hex_digit(n as int),
{
    if n < 10 {
        48 + n
    } else {
        87 + n
    }
}

/// Render `data` as lowercase hex ASCII.
pub fn hex_encode(data: &[u8]) -> (r: Vec<u8>)
    ensures
        r@ == hex_of(data@),
        r@.len() == 2 * data@.len(),
{
    let n = data.len();
    let mut r: Vec<u8> = Vec::new();
    let mut i: usize = 0;
    assert(data@.take(0) =~= Seq::<u8>::empty());
    while i < n
        invariant
            n == data@.len(),
            0 <= i <= n,
            r@ == hex_of(data@.take(i as int)),
            r@.len() == 2 * i,
        decreases n - i,
    {
        let b = data[i];
        assert((b >> 4) < 16 && (b & 0x0f) < 16) by (bit_vector);
        r.push(hex_digit_byte(b >> 4));
        r.push(hex_digit_byte(b & 0x0f));
        proof {
            let t = data@.take(i + 1);
            assert(t.drop_last() =~= data@.take(i as int));
            assert(t.last() == data@[i as int]);
            assert(r@ =~= hex_of(t));
        }
        i = i + 1;
    }
    assert(data@.take(n as int) =~= data@);
    r
}

} // verus!
