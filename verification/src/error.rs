//! The named reasons for which the controller turns a request down.

use vstd::prelude::*;

verus! {

/// Why an operation was refused.
#[derive(Clone, Copy, Debug, PartialEq, Eq, Structural, Hash)]
pub enum NftError {
    /// The caller, or the staker named in the request, is not the staker that
    /// the stake record holds.
    KeyMismatch,
    /// The caller is not the authority that the vault record holds.
    Unauthorized,
    /// The asset named in the request is not the asset that the stake record
    /// holds.
    MintMismatch,
    /// Reserved for checks on the identity of accounts; no operation raises it.
    AccountMismatch,
}

/// Why a deployment did not carry out an instruction.
#[derive(Clone, Copy, Debug, PartialEq, Eq, Structural, Hash)]
pub enum Failure {
    /// A record was to be created where one exists already.
    AccountInUse,
    /// A record that the instruction refers to does not exist.
    AccountNotInitialized,
    /// The records exist, and the controller refused the request.
    Program(NftError),
}

impl NftError {
    /// The text shown to a caller for this error.
    pub fn message(&self) -> (text: &'static str)
        ensures
            text@ == match *self {
                NftError::KeyMismatch => "Keys should be equal"@,
                NftError::Unauthorized => "Unauthorized access"@,
                NftError::MintMismatch => "Mint should be equal"@,
                NftError::AccountMismatch => "Authority should be equal"@,
            },
    {
        match self {
            NftError::KeyMismatch => "Keys should be equal",
            NftError::Unauthorized => "Unauthorized access",
            NftError::MintMismatch => "Mint should be equal",
            NftError::AccountMismatch => "Authority should be equal",
        }
    }
}

} // verus!
