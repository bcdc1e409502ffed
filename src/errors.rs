//! Error types of the library.
use vstd::prelude::*;

verus! {

/// Why an operation on a `Secret`, an `Exchange` or a `Reveal` was refused.
/// A refused operation leaves its object unchanged.
#[derive(Debug, Clone, Copy, PartialEq, Eq, Structural)]
pub enum Error {
    /// A value could not be turned into bytes.
    Serialize,
    /// A commit or secret has already been inserted for this participant.
    AlreadyInserted,
    /// No commit exists for this participant.
    NotPresent,
    /// No commit was added to the exchange.
    Empty,
}

/// What a participant did wrong when the generated value was revealed.
#[derive(Debug, Clone, Copy, PartialEq, Eq, Structural)]
pub enum RevealErrorKind {
    /// The participant submitted a `Commit`, but no `Secret`.
    MissingSecret,
    /// The participant's `Secret` does not match their `Commit`.
    ValidationFailed,
}

/// The error returned when revealing the generated value: every participant
/// that failed, with what it did wrong, in the order of their commits.
#[derive(Debug)]
pub struct RevealError {
    failed: Vec<(RevealErrorKind, u64)>,
}

impl View for RevealError {
    type V = Seq<(RevealErrorKind, u64)>;

    closed spec fn view(&self) -> Seq<(RevealErrorKind, u64)> {
        self.failed@
    }
}

impl RevealError {
    /// An error listing the participants in `failed`.
    pub fn new(failed: Vec<(RevealErrorKind, u64)>) -> (r: Self)
        ensures
            r@ == failed@,
    {
        RevealError { failed }
    }

    /// The participants who caused the reveal to fail, with their failure.
    pub fn failed(self) -> (r: Vec<(RevealErrorKind, u64)>)
        ensures
            r@ == self@,
    {
        self.failed
    }
}

} // verus!
