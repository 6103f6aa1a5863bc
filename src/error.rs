//! The failures the program signals, with their numeric codes and messages.

use vstd::prelude::*;
use vstd::string::*;

verus! {

/// The failure kinds of the memo rules themselves.
#[derive(Clone, Copy, Debug, PartialEq, Eq, Structural)]
pub enum MemoError {
    /// The caller cannot fund the storage of a new memo.
    InsufficientBalance,
    /// The caller is not the owner of the memo, or there is no memo.
    OwnershipMismatch,
    /// The content is longer than the size ceiling.
    ExceedMaxMemoLen,
}

impl MemoError {
    /// The stable numeric code of each kind.
    pub open spec fn spec_code(self) -> u32 {
        match self {
            MemoError::InsufficientBalance => 0,
            MemoError::OwnershipMismatch => 1,
            MemoError::ExceedMaxMemoLen => 2,
        }
    }

    /// The numeric code under which the runtime reports this kind.
    pub fn code(&self) -> (r: u32)
        ensures
            r == self.spec_code(),
    {
        match self {
            MemoError::InsufficientBalance => 0,
            MemoError::OwnershipMismatch => 1,
            MemoError::ExceedMaxMemoLen => 2,
        }
    }

    /// A short description of this kind.
    pub fn message(&self) -> (r: String)
        ensures
            r@ == match self {
                MemoError::InsufficientBalance => "user balance is insufficient"@,
                MemoError::OwnershipMismatch => "user is not the owner of current memo"@,
                MemoError::ExceedMaxMemoLen => "exceed max memo length"@,
            },
    {
        match self {
            MemoError::InsufficientBalance => String::from_str("user balance is insufficient"),
            MemoError::OwnershipMismatch => String::from_str("user is not the owner of current memo"),
            MemoError::ExceedMaxMemoLen => String::from_str("exceed max memo length"),
        }
    }

    /// The line written to the program log when this kind is reported.
    pub fn print_text(&self) -> (r: String)
        ensures
            r@ == match self {
                MemoError::InsufficientBalance => "Error: insufficient balance for current user"@,
                MemoError::OwnershipMismatch => "Error: user doesn't own memo"@,
                MemoError::ExceedMaxMemoLen => "Error: user content exceeds max limit"@,
            },
    {
        match self {
            MemoError::InsufficientBalance => String::from_str(
                "Error: insufficient balance for current user",
            ),
            MemoError::OwnershipMismatch => String::from_str("Error: user doesn't own memo"),
            MemoError::ExceedMaxMemoLen => String::from_str("Error: user content exceeds max limit"),
        }
    }
}

/// The failures a call of the program can end with, as the runtime knows them.
#[derive(Clone, Copy, Debug, PartialEq, Eq, Structural)]
pub enum ProgramError {
    /// The instruction bytes are not one of the three instructions.
    InvalidInstructionData,
    /// Fewer accounts were passed than the instruction needs.
    NotEnoughAccountKeys,
    /// The caller's account did not sign the call.
    MissingRequiredSignature,
    /// The memo account is not held by this program.
    IncorrectProgramId,
    /// A create was issued on an account that already holds a memo.
    AccountAlreadyInitialized,
    /// A failure of the memo rules, under its numeric code.
    Custom(u32),
}

impl From<MemoError> for ProgramError {
    fn from(e: MemoError) -> (r: ProgramError) {
        ProgramError::Custom(e.code())
    }
}

impl vstd::std_specs::convert::FromSpecImpl<MemoError> for ProgramError {
    open spec fn obeys_from_spec() -> bool {
        true
    }

    open spec fn from_spec(e: MemoError) -> ProgramError {
        ProgramError::Custom(e.spec_code())
    }
}

/// The runtime error that reports `e`.
pub open spec fn memo_failure(e: MemoError) -> ProgramError {
    ProgramError::Custom(e.spec_code())
}

} // verus!
