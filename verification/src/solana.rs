//! The Solana program's error codes and instruction set.
use vstd::prelude::*;

verus! {

/// Errors of the Solana program.
#[derive(Debug, Copy, Clone, PartialEq, Eq)]
pub enum ContractError {
    /// Invalid instruction
    InvalidInstruction,
    /// Not rent exempt
    NotRentExempt,
    /// Amount overflow
    AmountOverflow,
    /// Try from slice
    TryFromSliceError,
    /// Instruction one attempt fail
    InstructionOneAttemptError,
    GlobalAlreadyExistsError,
    OwnerImposterError,
    StakeNotResolvedError,
    EntityNotSettledError,
    EntityNotSettlingError,
    HunterAlreadySetError,
    EntitySettlingError,
    EntitySettledError,
    EntityClaimedError,
    TimeThresholdPassedError,
    UserNotHunterError,
}

/// The custom program error code of each error: its position in the list.
pub open spec fn error_code(e: ContractError) -> u32 {
    match e {
        ContractError::InvalidInstruction => 0,
        ContractError::NotRentExempt => 1,
        ContractError::AmountOverflow => 2,
        ContractError::TryFromSliceError => 3,
        ContractError::InstructionOneAttemptError => 4,
        ContractError::GlobalAlreadyExistsError => 5,
        ContractError::OwnerImposterError => 6,
        ContractError::StakeNotResolvedError => 7,
        ContractError::EntityNotSettledError => 8,
        ContractError::EntityNotSettlingError => 9,
        ContractError::HunterAlreadySetError => 10,
        ContractError::EntitySettlingError => 11,
        ContractError::EntitySettledError => 12,
        ContractError::EntityClaimedError => 13,
        ContractError::TimeThresholdPassedError => 14,
        ContractError::UserNotHunterError => 15,
    }
}

/// The message of each error.
pub open spec fn error_message(e: ContractError) -> Seq<char> {
    match e {
        ContractError::InvalidInstruction => "Invalid Instruction"@,
        ContractError::NotRentExempt => "Not Rent Exempt"@,
        ContractError::AmountOverflow => "Amount Overflow"@,
        ContractError::TryFromSliceError => "Try From Slice Fail"@,
        ContractError::InstructionOneAttemptError => "Instruction One Attempt Fail"@,
        ContractError::GlobalAlreadyExistsError => "Global Account Already Exists"@,
        ContractError::OwnerImposterError => "'Owner' is an imposter!"@,
        ContractError::StakeNotResolvedError => "Stake not yet resolved"@,
        ContractError::EntityNotSettledError => "Entity not yet settled"@,
        ContractError::EntityNotSettlingError => "Entity not yet settling"@,
        ContractError::HunterAlreadySetError => "Hunter already set"@,
        ContractError::EntitySettlingError => "Entity settling"@,
        ContractError::EntitySettledError => "Entity settled"@,
        ContractError::EntityClaimedError => "Entity claimed"@,
        ContractError::TimeThresholdPassedError => "Time threshold passed"@,
        ContractError::UserNotHunterError => "User not a hunter"@,
    }
}

impl ContractError {
    /// The custom program error code of this error.
    pub fn code(&self) -> (r: u32)
        ensures
            r == error_code(*self),
    {
        match self {
            ContractError::InvalidInstruction => 0,
            ContractError::NotRentExempt => 1,
            ContractError::AmountOverflow => 2,
            ContractError::TryFromSliceError => 3,
            ContractError::InstructionOneAttemptError => 4,
            ContractError::GlobalAlreadyExistsError => 5,
            ContractError::OwnerImposterError => 6,
            ContractError::StakeNotResolvedError => 7,
            ContractError::EntityNotSettledError => 8,
            ContractError::EntityNotSettlingError => 9,
            ContractError::HunterAlreadySetError => 10,
            ContractError::EntitySettlingError => 11,
            ContractError::EntitySettledError => 12,
            ContractError::EntityClaimedError => 13,
            ContractError::TimeThresholdPassedError => 14,
            ContractError::UserNotHunterError => 15,
        }
    }

    /// The message of this error.
    pub fn message(&self) -> (r: &'static str)
        ensures
            r@ == error_message(*self),
    {
        match self {
            ContractError::InvalidInstruction => "Invalid Instruction",
            ContractError::NotRentExempt => "Not Rent Exempt",
            ContractError::AmountOverflow => "Amount Overflow",
            ContractError::TryFromSliceError => "Try From Slice Fail",
            ContractError::InstructionOneAttemptError => "Instruction One Attempt Fail",
            ContractError::GlobalAlreadyExistsError => "Global Account Already Exists",
            ContractError::OwnerImposterError => "'Owner' is an imposter!",
            ContractError::StakeNotResolvedError => "Stake not yet resolved",
            ContractError::EntityNotSettledError => "Entity not yet settled",
            ContractError::EntityNotSettlingError => "Entity not yet settling",
            ContractError::HunterAlreadySetError => "Hunter already set",
            ContractError::EntitySettlingError => "Entity settling",
            ContractError::EntitySettledError => "Entity settled",
            ContractError::EntityClaimedError => "Entity claimed",
            ContractError::TimeThresholdPassedError => "Time threshold passed",
            ContractError::UserNotHunterError => "User not a hunter",
        }
    }
}

/// The Solana runtime's program error type.
#[verifier::external_type_specification]
#[verifier::external_body]
pub struct ExProgramError(solana_program::program_error::ProgramError);

/// The value that `ProgramError::Custom(code)` builds: a function of `code`
/// alone.
pub uninterp spec fn custom_error(code: u32) -> solana_program::program_error::ProgramError;

/// Builds the variant `ProgramError::Custom(code)` of the Solana program error
/// type, whose value is named `custom_error(code)`. The type is opaque here:
/// that this value is the `Custom` variant holding `code` is left unsaid.
#[verifier::external_body]
fn custom_program_error(code: u32) -> (r: solana_program::program_error::ProgramError)
    ensures
        r == custom_error(code),
{
    solana_program::program_error::ProgramError::Custom(code)
}

/// The Solana program error that `e` is reported as: the custom error
/// carrying `e`'s code.
pub fn program_error(e: ContractError) -> (r: solana_program::program_error::ProgramError)
    ensures
        r == custom_error(error_code(e)),
{
    custom_program_error(e.code())
}

/// Different errors have different codes.
pub proof fn lemma_error_codes_distinct(a: ContractError, b: ContractError)
    ensures
        error_code(a) == error_code(b) ==> a == b,
{
}

/// The instructions of the Solana program; `VALUES` is the number of values
/// that one global update carries.
#[allow(non_snake_case)]
pub enum ContractInstruction<const VALUES: usize> {
    ProgramInit { bumpGLOBAL: u8, seedGLOBAL: Vec<u8> },
    UpdateGlobal { updateFlags: u32, values: [u32; VALUES] },
    CreateUser { bumpUSER: u8, seedUSER: Vec<u8> },
    FillAccount {},
    CreateStake { bumpSTAKE: u8, seedSTAKE: Vec<u8>, amount: u128, valence: u8 },
    SettleEntity { determination: u8 },
    CloseStake {},
    CreateEntity {
        bumpSTAKE: u8,
        seedSTAKE: Vec<u8>,
        bumpENTITY: u8,
        seedENTITY: Vec<u8>,
        amount: u128,
        valence: u8,
    },
}

} // verus!
