//! Decimal numerals written as ASCII bytes.
use vstd::prelude::*;

verus! {

/// The ASCII decimal numeral of `n`, without leading zeros.
pub open spec fn decimal(n: nat) -> Seq<u8>
    decreases n,
{
    if n < 10 {
        seq![(48 + n) as u8]
    } else {
        decimal(n / 10).push((48 + n % 10) as u8)
    }
}

pub proof fn lemma_decimal_len_three(n: nat)
    requires
        100 <= n < 1000,
    ensures
        decimal(n).len() == 3,
{
    assert(10 <= n / 10 < 100);
    assert(n / 10 / 10 < 10);
    assert(decimal(n / 10 / 10).len() == 1);
    assert(decimal(n / 10).len() == 2);
}

/// Appends the decimal numeral of `n` to `out`.
pub fn push_decimal(out: &mut Vec<u8>, n: u128)
    ensures
        final(out)@ == old(out)@ + decimal(n as nat),
    decreases n,
{
    if n >= 10 {
        push_decimal(out, n / 10);
    }
    out.push((48 + n % 10) as u8);
    proof {
        if n >= 10 {
            assert(out@ =~= old(out)@ + decimal(n as nat));
        } else {
            assert(out@ =~= old(out)@ + decimal(n as nat));
        }
    }
}

} // verus!
