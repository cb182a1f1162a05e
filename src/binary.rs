use vstd::prelude::*;

use crate::error::InvalidArgument;
use crate::posterior::{lemma_mod_below_twice, Posterior};

verus! {

/// The most variants a binary-outcome test compares.
pub const MAX_BINARY_VARIANTS: usize = 4;

/// Observed data of one variant with a yes/no outcome.
#[derive(Debug, Clone, Copy, PartialEq, Eq, Structural)]
pub struct BinaryVariant {
    pub participants: u32,
    pub conversions: u32,
}

/// Beta posterior of a variant under a uniform Beta(1, 1) prior:
/// `alpha = 1 + conversions`, `beta = 1 + participants - conversions`.
pub open spec fn binary_posterior(v: BinaryVariant) -> Posterior {
    Posterior {
        alpha: (1 + v.conversions) as u64,
        beta: (1 + v.participants - v.conversions) as u64,
    }
}

/// For a test of `n` variants, the variant that fills argument `j` of the
/// comparison whose candidate is variant `i`. Arguments run over the rivals in
/// reverse rotation order and end with the candidate itself.
pub open spec fn binary_slot(n: int, i: int, j: int) -> int {
    (i + n - 1 - j) % n
}

/// In every comparison of a test of `n` variants, the candidate `i` takes the
/// last argument, and each of the `n` variants fills exactly one argument.
pub proof fn lemma_binary_slots_cover_variants(n: int, i: int)
    requires
        2 <= n,
        0 <= i < n - 1,
    ensures
        binary_slot(n, i, n - 1) == i,
        forall|j: int| 0 <= j < n ==> 0 <= #[trigger] binary_slot(n, i, j) < n,
        forall|j1: int, j2: int|
            0 <= j1 < n && 0 <= j2 < n && #[trigger] binary_slot(n, i, j1) == #[trigger] binary_slot(
                n,
                i,
                j2,
            ) ==> j1 == j2,
{
    lemma_mod_below_twice(i, n);
    assert forall|j: int| 0 <= j < n implies 0 <= #[trigger] binary_slot(n, i, j) < n
        && binary_slot(n, i, j) == (if i + n - 1 - j < n { i + n - 1 - j } else { i - 1 - j }) by {
        lemma_mod_below_twice(i + n - 1 - j, n);
    }
}

/// A test over 0 to 4 variants with binary (conversion) outcomes.
pub struct BinaryTest {
    variants: Vec<BinaryVariant>,
}

impl View for BinaryTest {
    type V = Seq<BinaryVariant>;

    closed spec fn view(&self) -> Seq<BinaryVariant> {
        self.variants@
    }
}

impl BinaryVariant {
    /// The variant's Beta posterior parameters.
    pub fn posterior(&self) -> (p: Posterior)
        requires
            self.conversions <= self.participants,
        ensures
            p == binary_posterior(*self),
    {
        Posterior {
            alpha: 1 + self.conversions as u64,
            beta: 1 + (self.participants - self.conversions) as u64,
        }
    }
}

impl BinaryTest {
    #[verifier::type_invariant]
    spec fn inv(&self) -> bool {
        &&& self.variants@.len() <= MAX_BINARY_VARIANTS
        &&& forall|i: int|
            0 <= i < self.variants@.len() ==> #[trigger] self.variants@[i].conversions
                <= self.variants@[i].participants
    }

    /// Creates a test with no variants.
    pub fn new() -> (t: Self)
        ensures
            t@ == Seq::<BinaryVariant>::empty(),
    {
        BinaryTest { variants: Vec::with_capacity(MAX_BINARY_VARIANTS) }
    }

    /// Appends a variant. Fails, and leaves the test as it was, when
    /// `conversions > participants` or when the test already holds four variants.
    pub fn add(&mut self, participants: u32, conversions: u32) -> (r: Result<(), InvalidArgument>)
        ensures
            conversions > participants ==> r == Err::<(), InvalidArgument>(
                InvalidArgument::ConversionsExceedParticipants,
            ),
            conversions <= participants && old(self)@.len() >= MAX_BINARY_VARIANTS ==> r == Err::<
                (),
                InvalidArgument,
            >(InvalidArgument::TooManyVariants),
            conversions <= participants && old(self)@.len() < MAX_BINARY_VARIANTS ==> r is Ok,
            r is Ok ==> final(self)@ == old(self)@.push(
                (BinaryVariant { participants, conversions }),
            ),
            r is Err ==> final(self)@ == old(self)@,
    {
        proof {
            use_type_invariant(&*self);
        }
        if conversions > participants {
            return Err(InvalidArgument::ConversionsExceedParticipants);
        }
        if self.variants.len() >= MAX_BINARY_VARIANTS {
            return Err(InvalidArgument::TooManyVariants);
        }
        let mut variants = Vec::new();
        std::mem::swap(&mut variants, &mut self.variants);
        variants.push(BinaryVariant { participants, conversions });
        self.variants = variants;
        Ok(())
    }

    /// Number of variants added so far.
    pub fn len(&self) -> (n: usize)
        ensures
            n == self@.len(),
            n <= MAX_BINARY_VARIANTS,
    {
        proof {
            use_type_invariant(self);
        }
        self.variants.len()
    }

    /// The closed-form comparisons from which the winning probabilities follow.
    /// With `n >= 2` variants there is one for each candidate `i < n - 1`:
    /// its `n` arguments are the posteriors of the variants in the order of
    /// `binary_slot`, the candidate last. The last variant's probability is
    /// what the others leave of 1, so it gets no comparison of its own.
    pub fn comparisons(&self) -> (calls: Vec<Vec<Posterior>>)
        ensures
            self@.len() < 2 ==> calls@.len() == 0,
            self@.len() >= 2 ==> calls@.len() == self@.len() - 1,
            forall|i: int| 0 <= i < calls@.len() ==> (#[trigger] calls@[i])@.len() == self@.len(),
            forall|i: int, j: int|
                0 <= i < calls@.len() && 0 <= j < self@.len() ==> #[trigger] calls@[i]@[j]
                    == binary_posterior(self@[binary_slot(self@.len() as int, i, j)]),
            forall|i: int|
                0 <= i < calls@.len() ==> #[trigger] calls@[i]@[self@.len() - 1] == binary_posterior(self@[i]),
    {
        proof {
            use_type_invariant(self);
        }
        let n = self.variants.len();
        let mut calls: Vec<Vec<Posterior>> = Vec::new();
        if n < 2 {
            return calls;
        }
        let mut i: usize = 0;
        while i < n - 1
            invariant
                2 <= n <= MAX_BINARY_VARIANTS,
                n == self@.len(),
                i <= n - 1,
                calls@.len() == i,
                forall|a: int| 0 <= a < n ==> #[trigger] self@[a].conversions <= self@[a].participants,
                forall|a: int| 0 <= a < i ==> (#[trigger] calls@[a])@.len() == n,
                forall|a: int, j: int|
                    0 <= a < i && 0 <= j < n ==> #[trigger] calls@[a]@[j] == binary_posterior(
                        self@[binary_slot(n as int, a, j)],
                    ),
            decreases n - 1 - i,
        {
            let mut args: Vec<Posterior> = Vec::new();
            let mut j: usize = 0;
            while j < n
                invariant
                    2 <= n <= MAX_BINARY_VARIANTS,
                    n == self@.len(),
                    i < n - 1,
                    j <= n,
                    args@.len() == j,
                    forall|a: int| 0 <= a < n ==> #[trigger] self@[a].conversions <= self@[a].participants,
                    forall|b: int| 0 <= b < j ==> #[trigger] args@[b] == binary_posterior(
                        self@[binary_slot(n as int, i as int, b)],
                    ),
                decreases n - j,
            {
                let k = (i + n - 1 - j) % n;
                let v = &self.variants[k];
                args.push(v.posterior());
                j += 1;
            }
            calls.push(args);
            i += 1;
        }
        assert forall|i: int| 0 <= i < calls@.len() implies #[trigger] calls@[i]@[self@.len() - 1]
            == binary_posterior(self@[i]) by {
            lemma_binary_slots_cover_variants(n as int, i);
        }
        calls
    }
}

} // verus!
