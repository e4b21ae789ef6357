//! The reasons for which an operation is rejected.

use vstd::prelude::*;

verus! {

/// Why an operation was rejected. Every rejection is final for the call
/// that met it.
#[derive(Clone, Copy, Debug, PartialEq, Eq, Structural)]
pub enum ReviewError {
    /// Fewer account handles were supplied than the operation names.
    NotEnoughAccounts,
    /// The instruction bytes hold no known operation with a well-formed payload.
    InvalidInstructionData,
    /// A supplied address differs from the one derived for its role.
    AddressMismatch,
    /// The rating lies outside 1 ..= 5.
    InvalidRating,
    /// The encoded record would exceed its ceiling.
    RecordTooLarge,
    /// The slot already holds an initialized record.
    AlreadyInitialized,
    /// The slot holds no initialized record.
    NotInitialized,
    /// The slot is not owned by the program.
    NotOwner,
    /// The party that has to authenticate did not sign.
    MissingSignature,
    /// The mint authority handle is not the derived reward authority.
    WrongRewardAuthority,
    /// The token program handle is not the reward-token program.
    WrongRewardProgram,
    /// The bytes stored in a slot do not decode to a record.
    InvalidAccountData,
    /// The slot is too small for the record that is to be stored in it.
    AccountDataTooSmall,
    /// The comment counter cannot be advanced any further.
    CounterOverflow,
}

impl ReviewError {
    /// The number under which the error is reported to the host.
    pub open spec fn spec_code(self) -> u32 {
        match self {
            ReviewError::NotEnoughAccounts => 0,
            ReviewError::InvalidInstructionData => 1,
            ReviewError::AddressMismatch => 2,
            ReviewError::InvalidRating => 3,
            ReviewError::RecordTooLarge => 4,
            ReviewError::AlreadyInitialized => 5,
            ReviewError::NotInitialized => 6,
            ReviewError::NotOwner => 7,
            ReviewError::MissingSignature => 8,
            ReviewError::WrongRewardAuthority => 9,
            ReviewError::WrongRewardProgram => 10,
            ReviewError::InvalidAccountData => 11,
            ReviewError::AccountDataTooSmall => 12,
            ReviewError::CounterOverflow => 13,
        }
    }

    /// The number under which the error is reported to the host.
    pub fn code(&self) -> (c: u32)
        ensures
            c == self.spec_code(),
    {
        match self {
            ReviewError::NotEnoughAccounts => 0,
            ReviewError::InvalidInstructionData => 1,
            ReviewError::AddressMismatch => 2,
            ReviewError::InvalidRating => 3,
            ReviewError::RecordTooLarge => 4,
            ReviewError::AlreadyInitialized => 5,
            ReviewError::NotInitialized => 6,
            ReviewError::NotOwner => 7,
            ReviewError::MissingSignature => 8,
            ReviewError::WrongRewardAuthority => 9,
            ReviewError::WrongRewardProgram => 10,
            ReviewError::InvalidAccountData => 11,
            ReviewError::AccountDataTooSmall => 12,
            ReviewError::CounterOverflow => 13,
        }
    }
}

} // verus!
