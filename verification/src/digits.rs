//! Numbers in decimal, as escape sequences carry them.

use vstd::prelude::*;

verus! {

/// The decimal digits of `n`, in ASCII, without leading zeros.
pub open spec fn decimal(n: nat) -> Seq<u8>
    decreases n,
{
    if n < 10 {
        seq![(48 + n) as u8]
    } else {
        decimal(n / 10).push((48 + n % 10) as u8)
    }
}

/// The number that ASCII digits stand for.
pub open spec fn value(digits: Seq<u8>) -> int
    decreases digits.len(),
{
    if digits.len() == 0 {
        0
    } else {
        10 * value(digits.drop_last()) + (digits.last() - 48)
    }
}

/// Appends the decimal digits of `n`.
pub fn push_decimal(out: &mut Vec<u8>, n: usize)
    ensures
        final(out)@ == old(out)@ + decimal(n as nat),
    decreases n,
{
    if n < 10 {
        out.push(48 + n as u8);
    } else {
        push_decimal(out, n / 10);
        out.push(48 + (n % 10) as u8);
    }
    assert(out@ =~= old(out)@ + decimal(n as nat));
}

/// Decimal digits read back as the number they were written for, and no byte
/// among them is anything but a digit.
pub proof fn decimal_reads_back(n: nat)
    ensures
        value(decimal(n)) == n,
        decimal(n).len() > 0,
        forall|i: int| 0 <= i < decimal(n).len() ==> 48 <= #[trigger] decimal(n)[i] <= 57,
    decreases n,
{
    if n < 10 {
        assert(decimal(n).drop_last() =~= Seq::empty());
        assert(value(Seq::empty()) == 0);
    } else {
        decimal_reads_back(n / 10);
        assert(decimal(n).drop_last() =~= decimal(n / 10));
    }
}

/// Two strings that begin with a number and a byte that is no digit are equal
/// only if the numbers are, and the rests.
pub proof fn leading_number_is_unique(a: nat, b: nat, after_a: Seq<u8>, after_b: Seq<u8>)
    requires
        after_a.len() > 0,
        after_b.len() > 0,
        !(48 <= after_a[0] <= 57),
        !(48 <= after_b[0] <= 57),
        decimal(a) + after_a == decimal(b) + after_b,
    ensures
        a == b,
        after_a == after_b,
{
    decimal_reads_back(a);
    decimal_reads_back(b);
    let whole = decimal(a) + after_a;
    let n = decimal(a).len() as int;
    let m = decimal(b).len() as int;
    assert(whole[n] == after_a[0]);
    assert((decimal(b) + after_b)[m] == after_b[0]);
    if n < m {
        assert((decimal(b) + after_b)[n] == decimal(b)[n]);
    }
    if m < n {
        assert(whole[m] == decimal(a)[m]);
    }
    assert(decimal(a) =~= whole.take(n));
    assert(decimal(b) =~= (decimal(b) + after_b).take(n));
    assert(after_a =~= whole.skip(n));
    assert(after_b =~= (decimal(b) + after_b).skip(n));
}

/// Ten times a number and one digit more is written as the number and then the
/// digit, and no number but zero begins with one.
pub proof fn decimal_appends_digits(n: nat, digit: nat)
    requires
        digit < 10,
    ensures
        decimal(digit) == seq![(48 + digit) as u8],
        n > 0 ==> decimal(10 * n + digit) == decimal(n) + seq![(48 + digit) as u8],
        n > 0 ==> decimal(n)[0] != 48,
    decreases n,
{
    if n > 0 {
        assert((10 * n + digit) / 10 == n);
        assert((10 * n + digit) % 10 == digit);
        assert(decimal(10 * n + digit) =~= decimal(n) + seq![(48 + digit) as u8]);
        if n >= 10 {
            decimal_appends_digits(n / 10, digit);
            decimal_reads_back(n / 10);
        }
    }
}

} // verus!
