//! The command byte that begins every instruction.
use vstd::prelude::*;

verus! {

/// The four instructions.
#[derive(Clone, Copy, Debug, PartialEq, Eq, Structural)]
pub enum CommandData {
    InitCollection,
    InitPoll,
    SubmitVote,
    SubmitClaim,
}

/// The command a byte names; bytes past `3` name none.
pub open spec fn command_of(b: u8) -> Option<CommandData> {
    if b == 0 {
        Some(CommandData::InitCollection)
    } else if b == 1 {
        Some(CommandData::InitPoll)
    } else if b == 2 {
        Some(CommandData::SubmitVote)
    } else if b == 3 {
        Some(CommandData::SubmitClaim)
    } else {
        None
    }
}

impl CommandData {
    /// The command that `value` names.
    pub fn try_from(value: u8) -> (r: Result<CommandData, ()>)
        ensures
            match command_of(value) {
                Some(c) => r == Ok::<CommandData, ()>(c),
                None => r is Err,
            },
    {
        match value {
            0 => Ok(CommandData::InitCollection),
            1 => Ok(CommandData::InitPoll),
            2 => Ok(CommandData::SubmitVote),
            3 => Ok(CommandData::SubmitClaim),
            _ => Err(()),
        }
    }

    /// The byte that names this command.
    pub fn to_u8(&self) -> (r: u8)
        ensures
            command_of(r) == Some(*self),
    {
        match self {
            CommandData::InitCollection => 0,
            CommandData::InitPoll => 1,
            CommandData::SubmitVote => 2,
            CommandData::SubmitClaim => 3,
        }
    }
}

} // verus!
