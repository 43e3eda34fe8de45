use vstd::prelude::*;

verus! {

/// Why an escrow operation was rejected. Every rejection leaves all state untouched.
#[derive(Clone, Copy, Debug, PartialEq, Eq, Structural)]
pub enum Error {
    /// The caller lacks the role that the operation demands.
    Unauthorized,
    /// The project's status forbids the operation.
    InvalidStatus,
    /// The deposited token is not on the project's allow-list.
    TokenNotAccepted,
    /// The allow-list holds more than ten tokens.
    TooManyTokens,
    /// The allow-list names a token twice.
    DuplicateToken,
    /// The funding goal is not positive.
    InvalidGoal,
    /// The deadline is not strictly in the future.
    InvalidDeadline,
    /// The supplied proof differs from the stored commitment.
    InvalidProof,
    /// The accumulated total is below the goal.
    GoalNotMet,
    /// The deadline has not passed yet.
    DeadlineNotReached,
    /// A balance would leave the representable range.
    Overflow,
    /// The deposited amount is not positive.
    InvalidAmount,
    /// No project carries the given id.
    ProjectNotFound,
}

} // verus!
