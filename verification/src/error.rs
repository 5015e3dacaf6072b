use vstd::prelude::*;

verus! {

/// Why a call failed. Every failure is fatal to the call: the caller sees the
/// error and the contract state is left exactly as it was.
#[derive(Clone, Copy, Debug, PartialEq, Eq, Structural)]
pub enum NftError {
    /// Initialization was attempted while contract state already exists.
    AlreadyInitialized,
    /// A mint quoted a token id that is already in use.
    TokenIdAlreadyExists,
    /// The attached deposit does not cover the storage cost of the new record.
    InsufficientDeposit,
    /// The call must attach exactly one yocto.
    OneYoctoRequired,
    /// The call must attach at least one yocto.
    DepositRequired,
    /// No token carries the quoted token id.
    TokenNotFound,
    /// The sender is neither the owner nor an approved account.
    SenderNotApproved,
    /// The quoted approval id differs from the one actually granted.
    ApprovalIdMismatch,
    /// The current owner and the receiver of a transfer must differ.
    OwnerAndReceiverEqual,
    /// Only the token's owner may manage its approvals.
    NotTokenOwner,
    /// The token's approval-id counter is exhausted.
    ApprovalIdsExhausted,
    /// An enumeration call quoted a limit of zero.
    ZeroLimit,
    /// An enumeration call quoted a start index past the end.
    IndexOutOfBounds,
}

} // verus!
