//! Decimal rendering of counts.

use vstd::prelude::*;

verus! {

/// The character that stands for the digit `d`.
pub open spec fn digit_char(d: int) -> char {
    if d == 0 {
        '0'
    } else if d == 1 {
        '1'
    } else if d == 2 {
        '2'
    } else if d == 3 {
        '3'
    } else if d == 4 {
        '4'
    } else if d == 5 {
        '5'
    } else if d == 6 {
        '6'
    } else if d == 7 {
        '7'
    } else if d == 8 {
        '8'
    } else {
        '9'
    }
}

/// The decimal numeral of `n`: no sign, no leading zero, `"0"` for zero.
pub open spec fn decimal_digits(n: nat) -> Seq<char>
    decreases n,
{
    if n < 10 {
        seq![digit_char(n as int)]
    } else {
        decimal_digits(n / 10).push(digit_char((n % 10) as int))
    }
}

/// The numeral of `high` followed by digits that were peeled off, least
/// significant first, by repeated division.
spec fn numeral_with(high: nat, low_reversed: Seq<char>) -> Seq<char> {
    decimal_digits(high) + low_reversed.reverse()
}

fn digit_of(d: u64) -> (c: char)
    requires
        d < 10,
    ensures
        c == digit_char(d as int),
{
    if d == 0 {
        '0'
    } else if d == 1 {
        '1'
    } else if d == 2 {
        '2'
    } else if d == 3 {
        '3'
    } else if d == 4 {
        '4'
    } else if d == 5 {
        '5'
    } else if d == 6 {
        '6'
    } else if d == 7 {
        '7'
    } else if d == 8 {
        '8'
    } else {
        '9'
    }
}

/// Appends the decimal numeral of `n` to `out`.
pub fn push_decimal(out: &mut String, n: u64)
    ensures
        final(out)@ == old(out)@ + decimal_digits(n as nat),
{
    let mut low: Vec<char> = Vec::new();
    let mut high: u64 = n;
    while high >= 10
        invariant
            numeral_with(high as nat, low@) == decimal_digits(n as nat),
        decreases high,
    {
        let d: u64 = high % 10;
        let ghost before = low@;
        low.push(digit_of(d));
        proof {
            let c = digit_char(d as int);
            assert(before.push(c).reverse() == seq![c] + before.reverse());
            assert(decimal_digits(high as nat) == decimal_digits((high / 10) as nat).push(c));
            assert(decimal_digits((high / 10) as nat).push(c) + before.reverse()
                == decimal_digits((high / 10) as nat) + (seq![c] + before.reverse()));
        }
        high = high / 10;
    }
    out.push(digit_of(high));
    let mut i: usize = low.len();
    while i > 0
        invariant
            i <= low.len(),
            high < 10,
            out@ == old(out)@ + seq![digit_char(high as int)] + low@.reverse().take(low.len() - i),
            numeral_with(high as nat, low@) == decimal_digits(n as nat),
        decreases i,
    {
        i = i - 1;
        out.push(low[i]);
        proof {
            let r = low@.reverse();
            let k = low.len() - i;
            assert(r.take(k) == r.take(k - 1).push(r[k - 1]));
            assert(r[k - 1] == low@[i as int]);
        }
    }
    proof {
        let r = low@.reverse();
        assert(r.take(low.len() as int) == r);
        assert(decimal_digits(high as nat) == seq![digit_char(high as int)]);
        assert(old(out)@ + seq![digit_char(high as int)] + r == old(out)@ + (decimal_digits(
            high as nat,
        ) + r));
    }
}

} // verus!
