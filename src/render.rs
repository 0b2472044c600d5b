use vstd::prelude::*;
use vstd::string::*;

verus! {

pub open spec fn digit_char(d: nat) -> char {
    "0123456789abcdefghijklmnopqrstuvwxyz"@[d as int]
}

/// The digits of `n` in base `b`, most significant first, without leading
/// zeros; zero is the single digit `0`.
pub open spec fn digits(n: nat, b: nat) -> Seq<char>
    recommends
        2 <= b <= 36,
    decreases n,
    via digits_decreases
{
    if b < 2 || n < b {
        seq![digit_char(n)]
    } else {
        digits(n / b, b).push(digit_char(n % b))
    }
}

#[via_fn]
proof fn digits_decreases(n: nat, b: nat) {
    if !(b < 2 || n < b) {
        assert(n / b < n) by (nonlinear_arith)
            requires
                b >= 2,
                n >= b,
        ;
    }
}

fn digit(d: u128) -> (r: &'static str)
    requires
        d < 36,
    ensures
        r@ == seq![digit_char(d as nat)],
{
    let alphabet = "0123456789abcdefghijklmnopqrstuvwxyz";
    proof {
        reveal_strlit("0123456789abcdefghijklmnopqrstuvwxyz");
    }
    let r = alphabet.substring_char(d as usize, d as usize + 1);
    assert(r@ =~= seq![digit_char(d as nat)]);
    r
}

/// Writes `n` in base `b`.
pub fn radix(n: u128, b: u128) -> (r: String)
    requires
        2 <= b <= 36,
    ensures
        r@ == digits(n as nat, b as nat),
    decreases n,
{
    if n < b {
        String::from_str(digit(n))
    } else {
        assert(n / b < n) by (nonlinear_arith)
            requires
                b >= 2,
                n >= b,
        ;
        let mut s = radix(n / b, b);
        s.append(digit(n % b));
        s
    }
}

/// Writes `n` in decimal.
pub fn decimal(n: u64) -> (r: String)
    ensures
        r@ == digits(n as nat, 10),
{
    radix(n as u128, 10)
}

/// Writes `n` in base 36 with the digits `0-9a-z`.
pub fn base36(n: u128) -> (r: String)
    ensures
        r@ == digits(n as nat, 36),
{
    radix(n, 36)
}

} // verus!
