use crate::date::utc::floor_mod;
use vstd::prelude::*;

verus! {

/// The place that `a` takes in a cycle of length `b`, counted from 1 to `b`:
/// the least non-negative residue of `a` modulo `b`, except that a residue
/// of zero reads `b`.
pub open spec fn order_mod_spec(a: int, b: int) -> int
    recommends
        b > 0,
{
    if a % b == 0 {
        b
    } else {
        a % b
    }
}

/// Reduces `a` into a cycle of length `b` without ever answering zero.
pub fn order_mod(a: i64, b: i64) -> (r: i64)
    requires
        b > 0,
    ensures
        r == order_mod_spec(a as int, b as int),
        1 <= r <= b,
{
    let result = floor_mod(a, b);
    if result == 0 {
        b
    } else {
        result
    }
}

/// Reduced into a cycle of length `b`, every number lies from 1 to `b` and
/// is never zero: it is the residue of the number modulo `b` where that is
/// not zero, and `b` where it is. Where `b` is even it is even or odd as the
/// number is.
pub proof fn lemma_order_mod_range(a: int, b: int)
    requires
        b > 0,
    ensures
        1 <= order_mod_spec(a, b) <= b,
        a % b != 0 ==> order_mod_spec(a, b) == a % b,
        a % b == 0 ==> order_mod_spec(a, b) == b,
        b % 2 == 0 ==> (order_mod_spec(a, b) - a) % 2 == 0,
{
    vstd::arithmetic::div_mod::lemma_fundamental_div_mod(a, b);
    vstd::arithmetic::div_mod::lemma_mod_bound(a, b);
    if b % 2 == 0 {
        let q = a / b;
        let h = b / 2;
        assert(b * q == 2 * (h * q)) by (nonlinear_arith)
            requires
                b == 2 * h,
        ;
    }
}

} // verus!
