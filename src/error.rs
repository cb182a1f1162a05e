use vstd::prelude::*;

verus! {

/// Why a variant could not be added to a test.
#[derive(Debug, Clone, Copy, PartialEq, Eq, Structural)]
pub enum InvalidArgument {
    /// The test already holds as many variants as its model supports.
    TooManyVariants,
    /// A binary variant claimed more conversions than participants.
    ConversionsExceedParticipants,
}

} // verus!
