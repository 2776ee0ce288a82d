use num::integer::Roots;
use vstd::prelude::*;

verus! {

/// `root` is the square root of `x` rounded down.
pub open spec fn is_floor_sqrt(x: nat, root: nat) -> bool {
    root * root <= x < (root + 1) * (root + 1)
}

/// The square root of `x` rounded down.
pub open spec fn floor_sqrt(x: nat) -> nat {
    choose|root: nat| is_floor_sqrt(x, root)
}

/// A number has at most one rounded-down square root.
pub proof fn lemma_floor_sqrt_unique(x: nat, first: nat, second: nat)
    requires
        is_floor_sqrt(x, first),
        is_floor_sqrt(x, second),
    ensures
        first == second,
{
    if first < second {
        assert((first + 1) * (first + 1) <= second * second) by (nonlinear_arith)
            requires
                first + 1 <= second,
        ;
    } else if second < first {
        assert((second + 1) * (second + 1) <= first * first) by (nonlinear_arith)
            requires
                second + 1 <= first,
        ;
    }
}

/// A rounded-down square root is the rounded-down square root, and it is
/// no larger than the number it was taken of.
pub proof fn lemma_floor_sqrt_is(x: nat, root: nat)
    requires
        is_floor_sqrt(x, root),
    ensures
        floor_sqrt(x) == root,
        root <= x,
{
    lemma_floor_sqrt_unique(x, root, floor_sqrt(x));
    assert(root <= root * root) by (nonlinear_arith);
}

/// Calls `num::integer::Roots::sqrt` on a `u128`. The crate documents the
/// result as the truncated principal square root, the `r` whose square is
/// at most `x` while the square of `r + 1` is above it; nothing here proves
/// it.
#[verifier::external_body]
pub(crate) fn integer_sqrt(x: u128) -> (root: u128)
    ensures
        is_floor_sqrt(x as nat, root as nat),
{
    x.sqrt()
}

} // verus!
