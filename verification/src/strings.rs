//! Small string helpers: appending a character and rendering decimal
//! numbers.
use vstd::prelude::*;

verus! {

/// Relies on std's String::push: appends the given character to the end of
/// the string.
#[verifier::external_body]
pub(crate) fn string_push_char(s: &mut String, c: char)
    ensures
        final(s)@ == old(s)@ + seq![c],
{
    s.push(c);
}

/// The character of a single decimal digit.
pub open spec fn digit_char(d: nat) -> char {
    if d == 0 {
        '0'
    } else if d == 1 {
        '1'
    } else if d == 2 {
        '2'
    } else if d == 3 {
        '3'
    } else if d == 4 {
        '4'
    } else if d == 5 {
        '5'
    } else if d == 6 {
        '6'
    } else if d == 7 {
        '7'
    } else if d == 8 {
        '8'
    } else {
        '9'
    }
}

/// The decimal rendering of `n`, most significant digit first, without
/// leading zeros (a single zero for 0).
pub open spec fn decimal_digits(n: nat) -> Seq<char>
    decreases n,
{
    if n < 10 {
        seq![digit_char(n)]
    } else {
        decimal_digits(n / 10).push(digit_char(n % 10))
    }
}

fn digit_to_char(d: u64) -> (r: char)
    requires
        d < 10,
    ensures
        r == digit_char(d as nat),
{
    if d == 0 {
        '0'
    } else if d == 1 {
        '1'
    } else if d == 2 {
        '2'
    } else if d == 3 {
        '3'
    } else if d == 4 {
        '4'
    } else if d == 5 {
        '5'
    } else if d == 6 {
        '6'
    } else if d == 7 {
        '7'
    } else if d == 8 {
        '8'
    } else {
        '9'
    }
}

/// Renders `n` in decimal.
pub fn u64_to_string(n: u64) -> (r: String)
    ensures
        r@ == decimal_digits(n as nat),
{
    let mut rev: Vec<char> = Vec::new();
    let mut m: u64 = n;
    while m >= 10
        invariant
            decimal_digits(n as nat) =~= decimal_digits(m as nat) + rev@.reverse(),
        decreases m,
    {
        let c = digit_to_char(m % 10);
        proof {
            assert((rev@.push(digit_char((m % 10) as nat))).reverse() =~= seq![
                digit_char((m % 10) as nat),
            ] + rev@.reverse());
        }
        rev.push(c);
        m = m / 10;
    }
    let c = digit_to_char(m);
    proof {
        assert((rev@.push(digit_char(m as nat))).reverse() =~= seq![digit_char(m as nat)]
            + rev@.reverse());
    }
    rev.push(c);
    proof {
        assert(decimal_digits(n as nat) =~= rev@.reverse());
    }
    let mut s = String::new();
    let mut i: usize = rev.len();
    while i > 0
        invariant
            i <= rev.len(),
            s@ =~= rev@.skip(i as int).reverse(),
        decreases i,
    {
        proof {
            assert(rev@.skip(i as int - 1) =~= seq![rev@[i as int - 1]] + rev@.skip(i as int));
            assert(rev@.skip(i as int - 1).reverse() =~= rev@.skip(i as int).reverse() + seq![
                rev@[i as int - 1],
            ]);
        }
        i -= 1;
        string_push_char(&mut s, rev[i]);
    }
    proof {
        assert(rev@.skip(0) =~= rev@);
        assert(s@ =~= decimal_digits(n as nat));
    }
    s
}

} // verus!
