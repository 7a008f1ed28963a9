use vstd::prelude::*;

verus! {

/// Why an operation on the pool was refused. None of these is transient: the
/// caller decides whether to try again with other arguments.
#[derive(Clone, Copy, Debug, PartialEq, Eq, Structural)]
pub enum StakingError {
    /// The caller is not the pool's authority.
    Unauthorized,
    /// The arguments describe no usable pool (an empty or reversed window).
    NotAllowed,
    /// The pool's window has not opened yet.
    StakingNotStarted,
    /// The pool's window has closed.
    StakingEnded,
    /// The pool's window is still open.
    StakingNotEnded,
    /// The amount must be greater than zero.
    TokenAmountTooSmall,
    /// The amount is larger than the operation allows.
    TokenAmountTooBig,
    /// The deposit would take the participant's principal over the cap.
    ReachMaxDeposit,
    /// A balance or reward would not fit in 64 bits.
    ArithmeticOverflow,
    /// The token ledger refused the transfer that the operation needed.
    TransferFailed,
}

impl StakingError {
    /// A human-readable message for the error.
    pub fn message(&self) -> (r: &'static str) {
        match self {
            StakingError::Unauthorized => "You are not authorized to perform this action.",
            StakingError::NotAllowed => "Not allowed",
            StakingError::StakingNotStarted => "Staking not started yet",
            StakingError::StakingEnded => "Staking already ended",
            StakingError::StakingNotEnded => "Staking not ended yet",
            StakingError::TokenAmountTooSmall => "Amount must be greater than zero",
            StakingError::TokenAmountTooBig => "Withdraw amount cannot be less than deposit",
            StakingError::ReachMaxDeposit => "Deposit reaches maximum amount",
            StakingError::ArithmeticOverflow => "Arithmetic overflow",
            StakingError::TransferFailed => "Token transfer failed",
        }
    }
}

} // verus!
