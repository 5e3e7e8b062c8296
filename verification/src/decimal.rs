//! Decimal rendering of unsigned integers and of fixed-point prices.
//!
//! Prices are carried through the crate as integer cents; a displayed price
//! is a dollar amount with one decimal digit, rounded half-up from the cent
//! value.

use vstd::prelude::*;

verus! {

/// The character for one decimal digit.
pub open spec fn digit_char(d: nat) -> char {
    if d == 0 {
        '0'
    } else if d == 1 {
        '1'
    } else if d == 2 {
        '2'
    } else if d == 3 {
        '3'
    } else if d == 4 {
        '4'
    } else if d == 5 {
        '5'
    } else if d == 6 {
        '6'
    } else if d == 7 {
        '7'
    } else if d == 8 {
        '8'
    } else {
        '9'
    }
}

/// The usual base-ten rendering of `n`, most significant digit first,
/// without leading zeros (a single `'0'` for zero itself).
pub open spec fn spec_decimal(n: nat) -> Seq<char>
    decreases n,
{
    if n < 10 {
        seq![digit_char(n)]
    } else {
        spec_decimal(n / 10).push(digit_char(n % 10))
    }
}

fn digit_str(d: u64) -> (r: &'static str)
    requires
        d < 10,
    ensures
        r@ == seq![digit_char(d as nat)],
{
    proof {
        reveal_strlit("0");
        reveal_strlit("1");
        reveal_strlit("2");
        reveal_strlit("3");
        reveal_strlit("4");
        reveal_strlit("5");
        reveal_strlit("6");
        reveal_strlit("7");
        reveal_strlit("8");
        reveal_strlit("9");
    }
    let r: &'static str = if d == 0 {
        "0"
    } else if d == 1 {
        "1"
    } else if d == 2 {
        "2"
    } else if d == 3 {
        "3"
    } else if d == 4 {
        "4"
    } else if d == 5 {
        "5"
    } else if d == 6 {
        "6"
    } else if d == 7 {
        "7"
    } else if d == 8 {
        "8"
    } else {
        "9"
    };
    proof {
        assert(r@ =~= seq![digit_char(d as nat)]);
    }
    r
}

/// Renders `n` in base ten.
pub fn u64_to_string(n: u64) -> (r: String)
    ensures
        r@ == spec_decimal(n as nat),
    decreases n,
{
    if n < 10 {
        let r = digit_str(n).to_owned();
        proof {
            assert(r@ =~= spec_decimal(n as nat));
        }
        r
    } else {
        let mut r = u64_to_string(n / 10);
        let last = digit_str(n % 10);
        r.append(last);
        proof {
            assert((n / 10) as nat == n as nat / 10);
            assert((n % 10) as nat == n as nat % 10);
            assert(r@ =~= spec_decimal(n as nat));
        }
        r
    }
}

/// The display form of a price of `cents` cents: a dollar sign, the dollar
/// amount, and one decimal digit, rounded half-up to tenths of a dollar.
pub open spec fn spec_price_display(cents: u64) -> Seq<char> {
    seq!['$'] + spec_decimal((((cents + 5) / 10) / 10) as nat) + seq!['.'] + seq![
        digit_char((((cents + 5) / 10) % 10) as nat),
    ]
}

/// Renders a price of `cents` cents as dollars with one decimal digit.
pub fn format_price_cents(cents: u64) -> (r: String)
    requires
        cents <= u64::MAX - 5,
    ensures
        r@ == spec_price_display(cents),
{
    let deci: u64 = (cents + 5) / 10;
    let dollars: u64 = deci / 10;
    let tenths: u64 = deci % 10;
    let mut r = String::from_str("$");
    let whole = u64_to_string(dollars);
    r.append(whole.as_str());
    r.append(".");
    let last = digit_str(tenths);
    r.append(last);
    proof {
        reveal_strlit("$");
        reveal_strlit(".");
        assert(r@ =~= spec_price_display(cents));
    }
    r
}

} // verus!
