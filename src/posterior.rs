use vstd::prelude::*;

use vstd::arithmetic::div_mod::{lemma_mod_add_multiples_vanish, lemma_small_mod};

verus! {

/// Shape parameters `(alpha, beta)` of one variant's posterior distribution:
/// a Beta posterior for binary outcomes, a Gamma posterior for counts.
#[derive(Debug, Clone, Copy, PartialEq, Eq, Structural)]
pub struct Posterior {
    pub alpha: u64,
    pub beta: u64,
}

/// Reduction modulo `n` of a value that is below `2 * n`.
pub(crate) proof fn lemma_mod_below_twice(x: int, n: int)
    requires
        0 < n,
        0 <= x < 2 * n,
    ensures
        x % n == (if x < n { x } else { x - n }),
{
    if x < n {
        lemma_small_mod(x as nat, n as nat);
    } else {
        lemma_small_mod((x - n) as nat, n as nat);
        lemma_mod_add_multiples_vanish(x - n, n);
    }
}

} // verus!
