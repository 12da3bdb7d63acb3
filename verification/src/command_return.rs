//! The result of a command: a tagged union of success payloads and failure.

use vstd::prelude::*;
use crate::error_code::ErrorCode;

verus! {

/// What a command returns, synchronously: success with up to four payload
/// words, or failure with an error code.
#[derive(Clone, Copy, Debug, PartialEq, Eq, Structural)]
pub enum CommandReturn {
    /// The command failed.
    Failure(ErrorCode),
    /// The command succeeded and returned no data.
    Success,
    /// The command succeeded with one word.
    SuccessU32(u32),
    /// The command succeeded with two words.
    Success2U32(u32, u32),
    /// The command succeeded with three words.
    Success3U32(u32, u32, u32),
    /// The command succeeded with four words.
    Success4U32(u32, u32, u32, u32),
}

impl CommandReturn {
    /// The result as a caller that expects no payload reads it: a success
    /// of another shape is [`ErrorCode::BadRVal`].
    pub open spec fn unit_result(self) -> Result<(), ErrorCode> {
        match self {
            CommandReturn::Failure(code) => Err(code),
            CommandReturn::Success => Ok(()),
            _ => Err(ErrorCode::BadRVal),
        }
    }

    /// The result as a caller that expects one word reads it.
    pub open spec fn u32_result(self) -> Result<u32, ErrorCode> {
        match self {
            CommandReturn::Failure(code) => Err(code),
            CommandReturn::SuccessU32(word) => Ok(word),
            _ => Err(ErrorCode::BadRVal),
        }
    }

    /// The result as a caller that expects two words reads it.
    pub open spec fn pair_result(self) -> Result<(u32, u32), ErrorCode> {
        match self {
            CommandReturn::Failure(code) => Err(code),
            CommandReturn::Success2U32(word0, word1) => Ok((word0, word1)),
            _ => Err(ErrorCode::BadRVal),
        }
    }

    /// Whether the command succeeded, with any payload.
    pub fn is_success(&self) -> (success: bool)
        ensures
            success <==> !(*self is Failure),
    {
        match self {
            CommandReturn::Failure(_) => false,
            _ => true,
        }
    }

    /// The payload of a success with exactly two words.
    pub fn get_success_2_u32(&self) -> (words: Option<(u32, u32)>)
        ensures
            words == (match *self {
                CommandReturn::Success2U32(word0, word1) => Some((word0, word1)),
                _ => None,
            }),
    {
        match self {
            CommandReturn::Success2U32(word0, word1) => Some((*word0, *word1)),
            _ => None,
        }
    }

    /// Reads the result as one that carries no payload.
    pub fn to_result(self) -> (result: Result<(), ErrorCode>)
        ensures
            result == self.unit_result(),
    {
        match self {
            CommandReturn::Failure(code) => Err(code),
            CommandReturn::Success => Ok(()),
            _ => Err(ErrorCode::BadRVal),
        }
    }

    /// Reads the result as one that carries one word.
    pub fn to_result_u32(self) -> (result: Result<u32, ErrorCode>)
        ensures
            result == self.u32_result(),
    {
        match self {
            CommandReturn::Failure(code) => Err(code),
            CommandReturn::SuccessU32(word) => Ok(word),
            _ => Err(ErrorCode::BadRVal),
        }
    }

    /// Reads the result as one that carries two words.
    pub fn to_result_2_u32(self) -> (result: Result<(u32, u32), ErrorCode>)
        ensures
            result == self.pair_result(),
    {
        match self {
            CommandReturn::Failure(code) => Err(code),
            CommandReturn::Success2U32(word0, word1) => Ok((word0, word1)),
            _ => Err(ErrorCode::BadRVal),
        }
    }
}

/// A failure with the given error code.
pub fn failure(code: ErrorCode) -> (result: CommandReturn)
    ensures
        result == CommandReturn::Failure(code),
{
    CommandReturn::Failure(code)
}

/// A success without payload.
pub fn success() -> (result: CommandReturn)
    ensures
        result == CommandReturn::Success,
{
    CommandReturn::Success
}

} // verus!
