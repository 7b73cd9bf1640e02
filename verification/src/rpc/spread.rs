//! Even distribution of an integer over a number of terms.

use vstd::arithmetic::div_mod::lemma_fundamental_div_mod;
use vstd::arithmetic::div_mod::lemma_fundamental_div_mod_converse;
use vstd::prelude::*;

verus! {

/// The sum of the first `i` of `len` terms that share `sum` evenly.
pub open spec fn share(sum: int, len: int, i: int) -> int {
    (i * sum) / len
}

/// The sum of all elements of `terms`.
pub open spec fn total(terms: Seq<u64>) -> int
    decreases terms.len(),
{
    if terms.len() == 0 {
        0
    } else {
        total(terms.drop_last()) + terms.last()
    }
}

/// Distributes `sum` into a vector of `len` integers such that each element
/// differs by at most 1, ensuring the most uniform distribution possible.
///
/// The first `i` terms add up to `i * sum / len`, rounded down.
pub fn bresenham(sum: u64, len: u64) -> (terms: Vec<u64>)
    requires
        len > 0,
    ensures
        terms.len() == len,
        forall|i: int|
            0 <= i < len ==> #[trigger] terms[i] == share(sum as int, len as int, i + 1) - share(
                sum as int,
                len as int,
                i,
            ),
        forall|i: int|
            0 <= i < len ==> sum as int / len as int <= #[trigger] terms[i] <= sum as int
                / len as int + 1,
        total(terms@) == sum,
{
    let mut terms: Vec<u64> = Vec::new();
    let base: u64 = sum / len;
    let rest: u64 = sum % len;
    let mut acc: u64 = 0;
    let mut i: u64 = 0;
    let ghost s = sum as int;
    let ghost n = len as int;
    proof {
        lemma_fundamental_div_mod(s, n);
        assert(0 * s == 0) by (nonlinear_arith);
        assert(n * 0 == 0) by (nonlinear_arith);
        lemma_fundamental_div_mod_converse(0, n, 0, 0);
    }
    while i < len
        invariant
            i <= len,
            n == len,
            s == sum,
            n > 0,
            base == s / n,
            rest == s % n,
            s == n * (s / n) + s % n,
            terms.len() == i,
            acc < len,
            total(terms@) == share(s, n, i as int),
            i * s == n * total(terms@) + acc,
            forall|j: int|
                0 <= j < i ==> #[trigger] terms[j] == share(s, n, j + 1) - share(s, n, j),
            forall|j: int| 0 <= j < i ==> s / n <= #[trigger] terms[j] <= s / n + 1,
        decreases len - i,
    {
        let ghost before = terms@;
        let ghost acc_before = acc;
        let ghost t = total(terms@);
        if acc >= len - rest {
            proof {
                assert(rest > 0);
                assert(s / n + 1 <= s) by {
                    assert(n >= 2);
                    assert(s / n < s) by (nonlinear_arith)
                        requires
                            n >= 2,
                            s > 0,
                    ;
                }
            }
            acc = acc - (len - rest);
            terms.push(base + 1);
        } else {
            acc = acc + rest;
            terms.push(base);
        }
        proof {
            assert(terms@.drop_last() =~= before);
            let ghost x = terms@.last() as int;
            assert(total(terms@) == t + x);
            assert((i + 1) * s == i * s + s) by (nonlinear_arith);
            assert(n * (t + x) == n * t + n * x) by (nonlinear_arith);
            assert(n * (s / n + 1) == n * (s / n) + n) by (nonlinear_arith);
            assert((i + 1) * s == (t + x) * n + acc) by (nonlinear_arith)
                requires
                    (i + 1) * s == n * (t + x) + acc,
            ;
            lemma_fundamental_div_mod_converse((i + 1) * s, n, t + x, acc as int);
            assert forall|j: int| 0 <= j < i + 1 implies #[trigger] terms[j] == share(s, n, j + 1)
                - share(s, n, j) by {
                if j < i {
                    assert(terms[j] == before[j]);
                }
            }
        }
        i = i + 1;
    }
    proof {
        assert(len * s == s * n) by (nonlinear_arith)
            requires
                len == n,
        ;
        lemma_fundamental_div_mod_converse(s * n, n, s, 0);
    }
    terms
}

} // verus!
