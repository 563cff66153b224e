//! Decimal digit strings for calendar fields and elapsed-time values.

use vstd::prelude::*;

use crate::text::push_char;

verus! {

/// The character for one decimal digit value in `0..=9`.
pub open spec fn digit_char(d: int) -> char {
    if d == 0 {
        '0'
    } else if d == 1 {
        '1'
    } else if d == 2 {
        '2'
    } else if d == 3 {
        '3'
    } else if d == 4 {
        '4'
    } else if d == 5 {
        '5'
    } else if d == 6 {
        '6'
    } else if d == 7 {
        '7'
    } else if d == 8 {
        '8'
    } else {
        '9'
    }
}

/// The decimal digits of `n`, most significant first, with no leading zeros
/// (a single `'0'` for zero itself).
pub open spec fn dec_chars(n: nat) -> Seq<char>
    decreases n,
{
    if n < 10 {
        seq![digit_char(n as int)]
    } else {
        dec_chars(n / 10) + seq![digit_char((n % 10) as int)]
    }
}

/// The decimal digits of `n`, left-padded with zeros to two places.
/// Values of one hundred or more keep all their digits.
pub open spec fn two_digit_chars(n: int) -> Seq<char> {
    if n < 10 {
        seq!['0'] + dec_chars(n as nat)
    } else {
        dec_chars(n as nat)
    }
}

/// The decimal digits of `n`, left-padded with zeros to four places.
pub open spec fn four_digit_chars(n: int) -> Seq<char> {
    if n < 10 {
        seq!['0', '0', '0'] + dec_chars(n as nat)
    } else if n < 100 {
        seq!['0', '0'] + dec_chars(n as nat)
    } else if n < 1000 {
        seq!['0'] + dec_chars(n as nat)
    } else {
        dec_chars(n as nat)
    }
}

fn digit_to_char(d: u64) -> (c: char)
    requires
        d < 10,
    ensures
        c == digit_char(d as int),
{
    if d == 0 {
        '0'
    } else if d == 1 {
        '1'
    } else if d == 2 {
        '2'
    } else if d == 3 {
        '3'
    } else if d == 4 {
        '4'
    } else if d == 5 {
        '5'
    } else if d == 6 {
        '6'
    } else if d == 7 {
        '7'
    } else if d == 8 {
        '8'
    } else {
        '9'
    }
}

/// Appends the decimal digits of `n` to `out`.
pub fn push_dec_u64(out: &mut String, n: u64)
    ensures
        final(out)@ == old(out)@ + dec_chars(n as nat),
{
    let mut v: Vec<char> = Vec::new();
    let mut m: u64 = n;
    loop
        invariant_except_break
            dec_chars(n as nat) == dec_chars(m as nat) + v@,
        ensures
            dec_chars(n as nat) == v@,
        decreases m,
    {
        let d: u64 = m % 10;
        let c = digit_to_char(d);
        let ghost prev = v@;
        v.insert(0, c);
        proof {
            assert(v@ =~= seq![c] + prev);
        }
        if m < 10 {
            proof {
                assert(dec_chars(m as nat) =~= seq![digit_char(m as int)]);
                assert(dec_chars(n as nat) =~= v@);
            }
            break;
        }
        proof {
            assert(dec_chars(m as nat) == dec_chars((m / 10) as nat) + seq![
                digit_char((m % 10) as int),
            ]);
            assert(dec_chars((m / 10) as nat) + v@ =~= dec_chars(m as nat) + prev);
        }
        m = m / 10;
    }
    let mut i: usize = 0;
    while i < v.len()
        invariant
            i <= v.len(),
            dec_chars(n as nat) == v@,
            out@ == old(out)@ + v@.take(i as int),
        decreases v.len() - i,
    {
        push_char(out, v[i]);
        proof {
            assert(old(out)@ + v@.take(i as int) + seq![v@[i as int]] =~= old(out)@ + v@.take(
                i + 1 as int,
            ));
        }
        i = i + 1;
    }
    proof {
        assert(v@.take(v@.len() as int) =~= v@);
    }
}

/// Appends the two-place decimal form of `n` to `out`.
pub fn push_two_digits(out: &mut String, n: u64)
    requires
        n < 100,
    ensures
        final(out)@ == old(out)@ + two_digit_chars(n as int),
{
    if n < 10 {
        push_char(out, '0');
    }
    push_dec_u64(out, n);
}

/// Appends the four-place decimal form of `n` to `out`.
pub fn push_four_digits(out: &mut String, n: u64)
    ensures
        final(out)@ == old(out)@ + four_digit_chars(n as int),
{
    if n < 10 {
        push_char(out, '0');
        push_char(out, '0');
        push_char(out, '0');
    } else if n < 100 {
        push_char(out, '0');
        push_char(out, '0');
    } else if n < 1000 {
        push_char(out, '0');
    }
    push_dec_u64(out, n);
}

} // verus!
