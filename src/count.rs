use vstd::prelude::*;

use crate::error::InvalidArgument;
use crate::posterior::{lemma_mod_below_twice, Posterior};

verus! {

/// The most variants a count-outcome test compares.
pub const MAX_COUNT_VARIANTS: usize = 3;

/// Observed data of one variant with a count outcome: events over exposure.
#[derive(Debug, Clone, Copy, PartialEq, Eq, Structural)]
pub struct CountVariant {
    pub events: u32,
    pub exposure: u32,
}

/// Gamma posterior of a variant: `alpha = events`, `beta = exposure`.
pub open spec fn count_posterior(v: CountVariant) -> Posterior {
    Posterior { alpha: v.events as u64, beta: v.exposure as u64 }
}

/// For a test of `n` variants, the variant that fills argument `j` of the
/// comparison whose candidate is variant `i`: the candidate first, then its
/// rivals in rotation order.
pub open spec fn count_slot(n: int, i: int, j: int) -> int {
    (i + j) % n
}

/// In every comparison of a test of `n` variants, the candidate `i` takes the
/// first argument, and each of the `n` variants fills exactly one argument.
pub proof fn lemma_count_slots_cover_variants(n: int, i: int)
    requires
        2 <= n,
        0 <= i < n - 1,
    ensures
        count_slot(n, i, 0) == i,
        forall|j: int| 0 <= j < n ==> 0 <= #[trigger] count_slot(n, i, j) < n,
        forall|j1: int, j2: int|
            0 <= j1 < n && 0 <= j2 < n && #[trigger] count_slot(n, i, j1) == #[trigger] count_slot(
                n,
                i,
                j2,
            ) ==> j1 == j2,
{
    lemma_mod_below_twice(i, n);
    assert forall|j: int| 0 <= j < n implies 0 <= #[trigger] count_slot(n, i, j) < n
        && count_slot(n, i, j) == (if i + j < n { i + j } else { i + j - n }) by {
        lemma_mod_below_twice(i + j, n);
    }
}

/// A test over 0 to 3 variants with count (events over exposure) outcomes.
pub struct CountTest {
    variants: Vec<CountVariant>,
}

impl View for CountTest {
    type V = Seq<CountVariant>;

    closed spec fn view(&self) -> Seq<CountVariant> {
        self.variants@
    }
}

impl CountVariant {
    /// The variant's Gamma posterior parameters.
    pub fn posterior(&self) -> (p: Posterior)
        ensures
            p == count_posterior(*self),
    {
        Posterior { alpha: self.events as u64, beta: self.exposure as u64 }
    }
}

impl CountTest {
    #[verifier::type_invariant]
    spec fn inv(&self) -> bool {
        self.variants@.len() <= MAX_COUNT_VARIANTS
    }

    /// Creates a test with no variants.
    pub fn new() -> (t: Self)
        ensures
            t@ == Seq::<CountVariant>::empty(),
    {
        CountTest { variants: Vec::with_capacity(MAX_COUNT_VARIANTS) }
    }

    /// Appends a variant. Fails, and leaves the test as it was, when the test
    /// already holds three variants.
    pub fn add(&mut self, events: u32, exposure: u32) -> (r: Result<(), InvalidArgument>)
        ensures
            old(self)@.len() >= MAX_COUNT_VARIANTS ==> r == Err::<(), InvalidArgument>(
                InvalidArgument::TooManyVariants,
            ),
            old(self)@.len() < MAX_COUNT_VARIANTS ==> r is Ok,
            r is Ok ==> final(self)@ == old(self)@.push((CountVariant { events, exposure })),
            r is Err ==> final(self)@ == old(self)@,
    {
        proof {
            use_type_invariant(&*self);
        }
        if self.variants.len() >= MAX_COUNT_VARIANTS {
            return Err(InvalidArgument::TooManyVariants);
        }
        let mut variants = Vec::new();
        std::mem::swap(&mut variants, &mut self.variants);
        variants.push(CountVariant { events, exposure });
        self.variants = variants;
        Ok(())
    }

    /// Number of variants added so far.
    pub fn len(&self) -> (n: usize)
        ensures
            n == self@.len(),
            n <= MAX_COUNT_VARIANTS,
    {
        proof {
            use_type_invariant(self);
        }
        self.variants.len()
    }

    /// The closed-form comparisons from which the winning probabilities follow.
    /// With `n >= 2` variants there is one for each candidate `i < n - 1`:
    /// its `n` arguments are the posteriors of the variants in the order of
    /// `count_slot`, the candidate first. The last variant's probability is
    /// what the others leave of 1, so it gets no comparison of its own.
    pub fn comparisons(&self) -> (calls: Vec<Vec<Posterior>>)
        ensures
            self@.len() < 2 ==> calls@.len() == 0,
            self@.len() >= 2 ==> calls@.len() == self@.len() - 1,
            forall|i: int| 0 <= i < calls@.len() ==> (#[trigger] calls@[i])@.len() == self@.len(),
            forall|i: int, j: int|
                0 <= i < calls@.len() && 0 <= j < self@.len() ==> #[trigger] calls@[i]@[j]
                    == count_posterior(self@[count_slot(self@.len() as int, i, j)]),
            forall|i: int|
                0 <= i < calls@.len() ==> #[trigger] calls@[i]@[0] == count_posterior(self@[i]),
    {
        proof {
            use_type_invariant(self);
        }
        let n = self.variants.len();
        let mut calls: Vec<Vec<Posterior>> = Vec::new();
        if n < 2 {
            return calls;
        }
        let mut i: usize = 0;
        while i < n - 1
            invariant
                2 <= n <= MAX_COUNT_VARIANTS,
                n == self@.len(),
                i <= n - 1,
                calls@.len() == i,
                forall|a: int| 0 <= a < i ==> (#[trigger] calls@[a])@.len() == n,
                forall|a: int, j: int|
                    0 <= a < i && 0 <= j < n ==> #[trigger] calls@[a]@[j] == count_posterior(
                        self@[count_slot(n as int, a, j)],
                    ),
            decreases n - 1 - i,
        {
            let mut args: Vec<Posterior> = Vec::new();
            let mut j: usize = 0;
            while j < n
                invariant
                    2 <= n <= MAX_COUNT_VARIANTS,
                    n == self@.len(),
                    i < n - 1,
                    j <= n,
                    args@.len() == j,
                    forall|b: int| 0 <= b < j ==> #[trigger] args@[b] == count_posterior(
                        self@[count_slot(n as int, i as int, b)],
                    ),
                decreases n - j,
            {
                let k = (i + j) % n;
                let v = &self.variants[k];
                args.push(v.posterior());
                j += 1;
            }
            calls.push(args);
            i += 1;
        }
        assert forall|i: int| 0 <= i < calls@.len() implies #[trigger] calls@[i]@[0]
            == count_posterior(self@[i]) by {
            lemma_count_slots_cover_variants(n as int, i);
        }
        calls
    }
}

impl Default for CountTest {
    fn default() -> (t: Self)
        ensures
            t@ == Seq::<CountVariant>::empty(),
    {
        Self::new()
    }
}

} // verus!
