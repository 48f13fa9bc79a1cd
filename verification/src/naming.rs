//! Output sequence naming: decimal numbers zero-padded to at least two
//! digits, and the `<NN>_1.jpg` / `<NN>_2.jpg` file names of the two halves.
use crate::ascii::{ascii_chars, string_from_ascii};
use vstd::prelude::*;

verus! {

/// ASCII decimal digits of `n`, most significant first.
pub open spec fn dec_digits(n: nat) -> Seq<u8>
    decreases n,
{
    if n < 10 {
        seq![(48 + n) as u8]
    } else {
        dec_digits(n / 10) + seq![(48 + n % 10) as u8]
    }
}

/// Decimal digits of `n`, zero-padded on the left to at least two digits;
/// larger values simply widen.
pub open spec fn padded_decimal(n: nat) -> Seq<u8> {
    if n < 10 {
        seq![48u8] + dec_digits(n)
    } else {
        dec_digits(n)
    }
}

/// Every byte of a decimal representation is an ASCII digit.
proof fn lemma_dec_digits_ascii(n: nat)
    ensures
        forall|j: int| 0 <= j < dec_digits(n).len() ==> 48 <= #[trigger] dec_digits(n)[j] <= 57,
    decreases n,
{
    if n >= 10 {
        lemma_dec_digits_ascii(n / 10);
        assert forall|j: int| 0 <= j < dec_digits(n).len() implies 48 <= #[trigger] dec_digits(
            n,
        )[j] <= 57 by {
            if j < dec_digits(n / 10).len() {
                assert(dec_digits(n)[j] == dec_digits(n / 10)[j]);
            }
        }
    }
}

/// Digits of `n`, most significant first.
fn digits_of(n: usize) -> (r: Vec<u8>)
    ensures
        r@ == dec_digits(n as nat),
    decreases n,
{
    if n < 10 {
        let mut v: Vec<u8> = Vec::new();
        v.push(48 + (n as u8));
        proof {
            assert(v@ =~= dec_digits(n as nat));
        }
        v
    } else {
        let mut v = digits_of(n / 10);
        v.push(48 + ((n % 10) as u8));
        proof {
            assert(v@ =~= dec_digits(n as nat));
        }
        v
    }
}

/// Format `num` in decimal, zero-padded to at least two digits.
pub fn pad_number(num: usize) -> (r: String)
    ensures
        r@ == ascii_chars(padded_decimal(num as nat)),
{
    let mut v: Vec<u8> = Vec::new();
    if num < 10 {
        v.push(48);
    }
    let mut digits = digits_of(num);
    v.append(&mut digits);
    proof {
        assert(v@ =~= padded_decimal(num as nat));
        lemma_dec_digits_ascii(num as nat);
    }
    string_from_ascii(v)
}

/// File names of the left and right half for one sequence number:
/// `<NN>_1.jpg` and `<NN>_2.jpg`.
pub fn half_file_names(sequence_num: usize) -> (r: (String, String))
    ensures
        r.0@ == ascii_chars(padded_decimal(sequence_num as nat)) + "_1.jpg"@,
        r.1@ == ascii_chars(padded_decimal(sequence_num as nat)) + "_2.jpg"@,
{
    let mut left = pad_number(sequence_num);
    let mut right = pad_number(sequence_num);
    left.append("_1.jpg");
    right.append("_2.jpg");
    (left, right)
}

} // verus!
