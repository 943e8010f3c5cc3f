//! Building short ASCII strings from verified byte sequences.

use vstd::prelude::*;

verus! {

/// The ASCII bytes of `n` written in decimal, most significant digit first.
pub open spec fn dec_bytes(n: int) -> Seq<u8>
    decreases n,
{
    if n <= 0 {
        Seq::empty()
    } else {
        dec_bytes(n / 10).push((48 + n % 10) as u8)
    }
}

/// The decimal digits of a number: `"0"` for zero, no leading zeroes
/// otherwise.
pub open spec fn spec_decimal(n: u64) -> Seq<u8> {
    if n == 0 {
        seq![48u8]
    } else {
        dec_bytes(n as int)
    }
}

/// Every decimal byte is an ASCII digit.
pub proof fn lemma_dec_bytes_ascii(n: int)
    ensures
        forall|i: int| 0 <= i < dec_bytes(n).len() ==> 48 <= #[trigger] dec_bytes(n)[i] <= 57,
    decreases n,
{
    if n > 0 {
        lemma_dec_bytes_ascii(n / 10);
        let pre = dec_bytes(n / 10);
        assert(dec_bytes(n) == pre.push((48 + n % 10) as u8));
        assert forall|i: int| 0 <= i < dec_bytes(n).len() implies 48 <= #[trigger] dec_bytes(n)[i]
            <= 57 by {
            if i < pre.len() {
                assert(dec_bytes(n)[i] == pre[i]);
            } else {
                assert(dec_bytes(n)[i] == (48 + n % 10) as u8);
                assert(0 <= n % 10 < 10);
            }
        }
    }
}

/// The decimal digits of `n`, as bytes.
pub fn decimal_bytes(n: u64) -> (r: Vec<u8>)
    ensures
        r@ == spec_decimal(n),
        forall|i: int| 0 <= i < r@.len() ==> 48 <= #[trigger] r@[i] <= 57,
{
    proof {
        lemma_dec_bytes_ascii(n as int);
    }
    if n == 0 {
        let mut r: Vec<u8> = Vec::new();
        r.push(48);
        proof {
            assert(r@ =~= spec_decimal(0));
        }
        return r;
    }
    // collect digits least significant first, then reverse
    let mut digits: Vec<u8> = Vec::new();
    let mut m: u64 = n;
    while m > 0
        invariant
            m <= n,
            m > 0 || digits@.len() > 0,
            dec_bytes(n as int) =~= dec_bytes(m as int) + digits@.reverse(),
        decreases m,
    {
        let ghost d0 = digits@;
        let ghost m0 = m as int;
        digits.push(48 + (m % 10) as u8);
        m = m / 10;
        proof {
            assert(digits@.reverse() =~= seq![(48 + m0 % 10) as u8] + d0.reverse());
            assert(dec_bytes(m0) =~= dec_bytes(m0 / 10).push((48 + m0 % 10) as u8));
            assert(dec_bytes(m as int) + digits@.reverse() =~= (dec_bytes(m0 / 10).push(
                (48 + m0 % 10) as u8,
            )) + d0.reverse());
        }
    }
    let mut r: Vec<u8> = Vec::new();
    let mut i: usize = digits.len();
    while i > 0
        invariant
            i <= digits.len(),
            r@ =~= digits@.reverse().take(digits@.len() - i),
        decreases i,
    {
        i -= 1;
        r.push(digits[i]);
        proof {
            assert(digits@.reverse()[digits@.len() - i - 1] == digits@[i as int]);
            assert(r@ =~= digits@.reverse().take(digits@.len() - i));
        }
    }
    proof {
        assert(digits@.reverse().take(digits@.len() as int) =~= digits@.reverse());
        assert(r@ =~= dec_bytes(n as int));
    }
    r
}

/// The ASCII byte of one hexadecimal digit, lower case.
pub open spec fn hex_digit(n: u8) -> u8 {
    if n < 10 {
        (48 + n) as u8
    } else {
        (87 + n) as u8
    }
}

/// A byte sequence written out in lower-case hexadecimal, two digits per
/// byte, most significant first.
pub open spec fn hex_bytes(bytes: Seq<u8>) -> Seq<u8>
    decreases bytes.len(),
{
    if bytes.len() == 0 {
        Seq::empty()
    } else {
        hex_bytes(bytes.drop_last()) + seq![
            hex_digit(bytes.last() / 16),
            hex_digit(bytes.last() % 16),
        ]
    }
}

/// The hexadecimal spelling of a byte sequence, as characters.
pub open spec fn spec_hex_str(bytes: Seq<u8>) -> Seq<char> {
    ascii_chars(hex_bytes(bytes))
}

/// The lower-case hexadecimal spelling of a byte string: the identifier
/// form in which payment ids and channel ids travel through the simulation.
pub fn hex_str(bytes: &Vec<u8>) -> (r: String)
    ensures
        r@ == spec_hex_str(bytes@),
{
    let ghost all = bytes@;
    let mut out: Vec<u8> = Vec::new();
    let mut i: usize = 0;
    while i < bytes.len()
        invariant
            i <= bytes.len(),
            all == bytes@,
            out@ =~= hex_bytes(all.take(i as int)),
            forall|j: int| 0 <= j < out@.len() ==> (#[trigger] out@[j]) < 128,
        decreases bytes.len() - i,
    {
        proof {
            assert(all.take(i + 1).drop_last() =~= all.take(i as int));
            assert(all.take(i + 1).last() == all[i as int]);
        }
        let b = bytes[i];
        let hi = b / 16;
        let lo = b % 16;
        out.push(if hi < 10 {
            48 + hi
        } else {
            87 + hi
        });
        out.push(if lo < 10 {
            48 + lo
        } else {
            87 + lo
        });
        proof {
            assert(out@ =~= hex_bytes(all.take(i + 1)));
        }
        i += 1;
    }
    proof {
        assert(all.take(all.len() as int) =~= all);
    }
    ascii_string(out)
}

/// The characters an ASCII byte sequence spells.
pub open spec fn ascii_chars(bytes: Seq<u8>) -> Seq<char> {
    bytes.map_values(|b: u8| b as char)
}

/// Relies on `String::from_utf8`: a sequence of bytes below 128 is valid
/// UTF-8 and decodes to exactly those code points.
#[verifier::external_body]
fn string_from_ascii_bytes(bytes: Vec<u8>) -> (r: String)
    requires
        forall|i: int| 0 <= i < bytes@.len() ==> bytes@[i] < 128,
    ensures
        r@ == ascii_chars(bytes@),
{
    String::from_utf8(bytes).unwrap_or_default()
}

/// An ASCII string from verified bytes.
pub fn ascii_string(bytes: Vec<u8>) -> (r: String)
    requires
        forall|i: int| 0 <= i < bytes@.len() ==> bytes@[i] < 128,
    ensures
        r@ == ascii_chars(bytes@),
{
    string_from_ascii_bytes(bytes)
}

} // verus!
