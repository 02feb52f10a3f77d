//! Division as processors do it.

use vstd::prelude::*;

verus! {

/// The quotient, rounded towards zero.
pub open spec fn toward_zero(n: int, d: int) -> int {
    if n >= 0 {
        n / d
    } else {
        -(-n / d)
    }
}

/// The quotient, rounded towards zero.
pub fn divide(n: i64, d: i64) -> (r: i64)
    requires
        d > 0,
    ensures
        r == toward_zero(n as int, d as int),
        n >= 0 ==> 0 <= r <= n,
        n < 0 ==> n <= r <= 0,
{
    if n >= 0 {
        let q: u64 = n as u64 / d as u64;
        proof {
            lemma_quotient(n as int, d as int);
        }
        q as i64
    } else {
        let m: u64 = (-(n as i128)) as u64;
        let q: u64 = m / d as u64;
        proof {
            lemma_quotient(m as int, d as int);
        }
        (-(q as i128)) as i64
    }
}

proof fn lemma_quotient(n: int, d: int)
    requires
        n >= 0,
        d > 0,
    ensures
        0 <= n / d <= n,
{
    vstd::arithmetic::div_mod::lemma_div_pos_is_pos(n, d);
    vstd::arithmetic::div_mod::lemma_div_nonincreasing(n, d);
}

} // verus!
