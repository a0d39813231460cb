use vstd::prelude::*;

verus! {

/// Why an instruction was refused. Each kind carries no further data.
#[derive(Clone, Copy, Debug, PartialEq, Eq, Structural)]
pub enum PollError {
    /// An account that must be fresh already holds a record.
    AccountNotNew,
    /// A buffer is too small for the record that must go in it.
    AccountDataTooSmall,
    /// The claimed tally belongs to the option that did not win.
    CannotPayoutToLosers,
    /// An account is not owned by this program.
    InvalidAccount,
    /// A buffer's tag is not the one expected, or its record is malformed.
    InvalidDataType,
    /// The instruction's accounts or payload cannot be processed, or a
    /// balance or wager would not fit in 64 bits.
    InvalidInput,
    /// An account is not at the fixed address expected.
    InvalidKey,
    /// The command byte names no command.
    InvalidCommand,
    /// The tally is neither of the poll's two tallies.
    InvalidTallyKey,
    /// The payout accounts do not match the tally.
    InvalidPayoutList,
    /// A payout account is not the voter at its position in the tally.
    InvalidPayoutOrder,
    /// The collection is full.
    MaxPollCapacity,
    /// The tally is full.
    MaxTallyCapacity,
    /// An account that must sign did not.
    MissingSigner,
    /// The poll is already registered in the collection.
    PollAlreadyCreated,
    /// The poll's deadline has passed.
    PollAlreadyFinished,
    /// The poll's deadline has not been reached.
    PollNotFinished,
    /// The poll holds nothing to pay out.
    PollHasNoFunds,
    /// The wager would leave both options with equal quantities.
    PollCannotBeEven,
    /// The voter has no lamports to wager.
    WagerHasNoFunds,
}

/// The status code of each program-specific error kind, in declaration
/// order of the kinds that the host knows only as custom codes.
pub open spec fn custom_code(e: PollError) -> u32 {
    match e {
        PollError::AccountNotNew => 0,
        PollError::CannotPayoutToLosers => 1,
        PollError::InvalidAccount => 2,
        PollError::InvalidDataType => 3,
        PollError::InvalidInput => 4,
        PollError::InvalidKey => 5,
        PollError::InvalidCommand => 6,
        PollError::InvalidTallyKey => 7,
        PollError::InvalidPayoutList => 8,
        PollError::MaxPollCapacity => 9,
        PollError::MaxTallyCapacity => 10,
        PollError::PollAlreadyCreated => 11,
        PollError::PollAlreadyFinished => 12,
        PollError::PollNotFinished => 13,
        PollError::PollHasNoFunds => 14,
        PollError::PollCannotBeEven => 15,
        PollError::WagerHasNoFunds => 16,
        PollError::InvalidPayoutOrder => 17,
        PollError::AccountDataTooSmall => 18,
        PollError::MissingSigner => 19,
    }
}

impl PollError {
    /// The code under which the host reports this error.
    pub fn code(&self) -> (r: u32)
        ensures
            r == custom_code(*self),
    {
        match self {
            PollError::AccountNotNew => 0,
            PollError::CannotPayoutToLosers => 1,
            PollError::InvalidAccount => 2,
            PollError::InvalidDataType => 3,
            PollError::InvalidInput => 4,
            PollError::InvalidKey => 5,
            PollError::InvalidCommand => 6,
            PollError::InvalidTallyKey => 7,
            PollError::InvalidPayoutList => 8,
            PollError::MaxPollCapacity => 9,
            PollError::MaxTallyCapacity => 10,
            PollError::PollAlreadyCreated => 11,
            PollError::PollAlreadyFinished => 12,
            PollError::PollNotFinished => 13,
            PollError::PollHasNoFunds => 14,
            PollError::PollCannotBeEven => 15,
            PollError::WagerHasNoFunds => 16,
            PollError::InvalidPayoutOrder => 17,
            PollError::AccountDataTooSmall => 18,
            PollError::MissingSigner => 19,
        }
    }
}

/// The status that an instruction hands back to the host: the host's own
/// kinds for a missing signature and a short buffer, a custom code otherwise.
#[derive(Clone, Copy, Debug, PartialEq, Eq, Structural)]
pub enum ProgramError {
    MissingRequiredSignature,
    AccountDataTooSmall,
    Custom(u32),
}

pub open spec fn program_error_of(e: PollError) -> ProgramError {
    match e {
        PollError::MissingSigner => ProgramError::MissingRequiredSignature,
        PollError::AccountDataTooSmall => ProgramError::AccountDataTooSmall,
        _ => ProgramError::Custom(custom_code(e)),
    }
}

impl From<PollError> for ProgramError {
    fn from(e: PollError) -> (r: ProgramError) {
        match e {
            PollError::MissingSigner => ProgramError::MissingRequiredSignature,
            PollError::AccountDataTooSmall => ProgramError::AccountDataTooSmall,
            _ => ProgramError::Custom(e.code()),
        }
    }
}

impl vstd::std_specs::convert::FromSpecImpl<PollError> for ProgramError {
    open spec fn obeys_from_spec() -> bool {
        true
    }

    open spec fn from_spec(e: PollError) -> ProgramError {
        program_error_of(e)
    }
}

} // verus!
