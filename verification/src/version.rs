//! Parsing of the host's ASCII decimal version number.

use vstd::prelude::*;
use vstd::string::StringSliceAdditionalSpecFns;

verus! {

/// Numeric value of a sequence of ASCII decimal digit bytes.
pub open spec fn dec_value(digits: Seq<u8>) -> int
    decreases digits.len(),
{
    if digits.len() == 0 {
        0
    } else {
        dec_value(digits.drop_last()) * 10 + (digits.last() - 48)
    }
}

/// Every byte of the sequence is an ASCII decimal digit.
pub open spec fn all_digits(bytes: Seq<u8>) -> bool {
    forall|i: int| 0 <= i < bytes.len() ==> 48 <= #[trigger] bytes[i] <= 57
}

proof fn lemma_dec_value_nonneg(digits: Seq<u8>)
    requires
        all_digits(digits),
    ensures
        dec_value(digits) >= 0,
    decreases digits.len(),
{
    if digits.len() > 0 {
        assert(all_digits(digits.drop_last()));
        lemma_dec_value_nonneg(digits.drop_last());
    }
}

proof fn lemma_dec_value_prefix_le(digits: Seq<u8>, i: int)
    requires
        all_digits(digits),
        0 <= i <= digits.len(),
    ensures
        dec_value(digits.take(i)) <= dec_value(digits),
    decreases digits.len() - i,
{
    if i < digits.len() {
        assert(digits.take(i + 1).drop_last() =~= digits.take(i));
        assert(all_digits(digits.take(i + 1)));
        lemma_dec_value_nonneg(digits.take(i));
        assert(dec_value(digits.take(i)) <= dec_value(digits.take(i + 1)));
        lemma_dec_value_prefix_le(digits, i + 1);
        assert(digits.take(digits.len() as int) =~= digits);
    } else {
        assert(digits.take(i) =~= digits);
    }
}

/// Parse an ASCII decimal version number.
pub fn parse_version_number(value: &str) -> (out: usize)
    requires
        all_digits(value.spec_bytes()),
        dec_value(value.spec_bytes()) <= usize::MAX,
    ensures
        out == dec_value(value.spec_bytes()),
{
    let bytes = value.as_bytes();
    let mut out: usize = 0;
    let mut i: usize = 0;
    while i < bytes.len()
        invariant
            all_digits(bytes@),
            dec_value(bytes@) <= usize::MAX,
            0 <= i <= bytes@.len(),
            out == dec_value(bytes@.take(i as int)),
        decreases bytes@.len() - i,
    {
        let b = bytes[i];
        proof {
            assert(bytes@.take(i + 1).drop_last() =~= bytes@.take(i as int));
            assert(bytes@.take(i + 1).last() == b);
            lemma_dec_value_prefix_le(bytes@, i + 1);
            lemma_dec_value_nonneg(bytes@.take(i as int));
        }
        out = out * 10 + (b - 48) as usize;
        i += 1;
    }
    proof {
        assert(bytes@.take(bytes@.len() as int) =~= bytes@);
    }
    out
}

} // verus!
