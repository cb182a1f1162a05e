//! Which of a few experiment variants is best: the bookkeeping of a Bayesian
//! A/B/n test. A test holds its variants in the order they were added, rejects
//! invalid additions, and lays out the closed-form comparisons (posterior
//! parameters in argument order) from which the winning probabilities follow.

mod binary;
mod count;
mod error;
mod posterior;

pub use binary::{
    binary_posterior, binary_slot, lemma_binary_slots_cover_variants, BinaryTest, BinaryVariant,
    MAX_BINARY_VARIANTS,
};
pub use count::{
    count_posterior, count_slot, lemma_count_slots_cover_variants, CountTest, CountVariant,
    MAX_COUNT_VARIANTS,
};
pub use error::InvalidArgument;
pub use posterior::Posterior;
